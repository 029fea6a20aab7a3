use distributed_systems::echo::{EchoNode, EchoPayload};
use distributed_systems::handshake::{Init, InitPayload};
use distributed_systems::message::{Body, Message};
use distributed_systems::runtime::{dispatch, handshake};
use distributed_systems::standalone::{EchoNone, Payload};
use serde_json::Value;

fn parse(line: &str) -> Value {
    serde_json::from_str(line).unwrap()
}

fn word(value: &Value, key: &str) -> String {
    value[key].as_str().unwrap().to_string()
}

fn number(value: &Value, key: &str) -> Option<usize> {
    value.get(key).and_then(|n| n.as_u64()).map(|n| n as usize)
}

fn envelope<P>(line: &str, payload: fn(&Value) -> P) -> Message<P> {
    let value = parse(line);
    let body = &value["body"];
    Message {
        src: word(&value, "src"),
        dst: word(&value, "dest"),
        body: Body {
            output_message_id: number(body, "msg_id"),
            in_reply_to: number(body, "in_reply_to"),
            payload: payload(body),
        },
    }
}

fn json<P>(message: &Message<P>, payload: fn(&P, &mut serde_json::Map<String, Value>)) -> Value {
    let mut body = serde_json::Map::new();
    body.insert("msg_id".to_string(), Value::from(message.body.output_message_id));
    body.insert("in_reply_to".to_string(), Value::from(message.body.in_reply_to));
    payload(&message.body.payload, &mut body);
    let mut whole = serde_json::Map::new();
    whole.insert("src".to_string(), Value::from(message.src.clone()));
    whole.insert("dest".to_string(), Value::from(message.dst.clone()));
    whole.insert("body".to_string(), Value::Object(body));
    Value::Object(whole)
}

fn init_payload(body: &Value) -> InitPayload {
    match body["type"].as_str().unwrap() {
        "init" => InitPayload::Init(Init {
            node_id: word(body, "node_id"),
            node_ids: body["node_ids"]
                .as_array()
                .unwrap()
                .iter()
                .map(|n| n.as_str().unwrap().to_string())
                .collect(),
        }),
        "init_ok" => InitPayload::InitOk,
        other => panic!("unknown handshake message {other}"),
    }
}

fn init_fields(payload: &InitPayload, body: &mut serde_json::Map<String, Value>) {
    match payload {
        InitPayload::Init(init) => {
            body.insert("type".to_string(), Value::from("init"));
            body.insert("node_id".to_string(), Value::from(init.node_id.clone()));
            body.insert("node_ids".to_string(), Value::from(init.node_ids.clone()));
        }
        InitPayload::InitOk => {
            body.insert("type".to_string(), Value::from("init_ok"));
        }
    }
}

fn echo_payload(body: &Value) -> EchoPayload {
    match body["type"].as_str().unwrap() {
        "echo" => EchoPayload::Echo { echo: word(body, "echo") },
        "echo_ok" => EchoPayload::EchoOk { echo: word(body, "echo") },
        other => panic!("unknown echo message {other}"),
    }
}

fn echo_fields(payload: &EchoPayload, body: &mut serde_json::Map<String, Value>) {
    let (tag, echo) = match payload {
        EchoPayload::Echo { echo } => ("echo", echo),
        EchoPayload::EchoOk { echo } => ("echo_ok", echo),
    };
    body.insert("type".to_string(), Value::from(tag));
    body.insert("echo".to_string(), Value::from(echo.clone()));
}

const INIT_LINE: &str =
    r#"{"src":"c1","dest":"n1","body":{"msg_id":1,"type":"init","node_id":"n1","node_ids":["n1"]}}"#;

#[test]
fn init_line_is_answered_with_init_ok_line() {
    let first = envelope(INIT_LINE, init_payload);
    let (_, reply) = handshake::<(), EchoNode, EchoPayload>((), first).unwrap();
    assert_eq!(
        json(&reply, init_fields),
        parse(r#"{"src":"n1","dest":"c1","body":{"msg_id":0,"in_reply_to":1,"type":"init_ok"}}"#)
    );
}

#[test]
fn echo_line_after_the_handshake_is_answered_with_echo_ok_line() {
    let first = envelope(INIT_LINE, init_payload);
    let (mut node, _) = handshake::<(), EchoNode, EchoPayload>((), first).unwrap();
    let input = envelope(
        r#"{"src":"c1","dest":"n1","body":{"msg_id":2,"type":"echo","echo":"hi"}}"#,
        echo_payload,
    );
    let mut sink = Vec::new();
    dispatch::<(), EchoNode, EchoPayload>(&mut node, input, &mut sink).unwrap();
    assert_eq!(sink.len(), 1);
    assert_eq!(
        json(&sink[0], echo_fields),
        parse(
            r#"{"src":"n1","dest":"c1","body":{"msg_id":1,"in_reply_to":2,"type":"echo_ok","echo":"hi"}}"#
        )
    );
}

fn standalone_payload(body: &Value) -> Payload {
    match body["type"].as_str().unwrap() {
        "init" => Payload::Init {
            node_id: word(body, "node_id"),
            node_ids: body["node_ids"]
                .as_array()
                .unwrap()
                .iter()
                .map(|n| n.as_str().unwrap().to_string())
                .collect(),
        },
        "init_ok" => Payload::InitOk,
        "echo" => Payload::Echo { echo: word(body, "echo") },
        "echo_ok" => Payload::EchoOk { echo: word(body, "echo") },
        other => panic!("unknown message {other}"),
    }
}

fn standalone_fields(payload: &Payload, body: &mut serde_json::Map<String, Value>) {
    match payload {
        Payload::Init { node_id, node_ids } => {
            body.insert("type".to_string(), Value::from("init"));
            body.insert("node_id".to_string(), Value::from(node_id.clone()));
            body.insert("node_ids".to_string(), Value::from(node_ids.clone()));
        }
        Payload::InitOk => {
            body.insert("type".to_string(), Value::from("init_ok"));
        }
        Payload::Echo { echo } => {
            body.insert("type".to_string(), Value::from("echo"));
            body.insert("echo".to_string(), Value::from(echo.clone()));
        }
        Payload::EchoOk { echo } => {
            body.insert("type".to_string(), Value::from("echo_ok"));
            body.insert("echo".to_string(), Value::from(echo.clone()));
        }
    }
}

#[test]
fn standalone_node_answers_both_lines_as_the_hosted_one_does() {
    let mut node = EchoNone::new();
    let mut sink = Vec::new();
    node.step(envelope(INIT_LINE, standalone_payload), &mut sink).unwrap();
    let echo = envelope(
        r#"{"src":"c1","dest":"n1","body":{"msg_id":2,"type":"echo","echo":"hi"}}"#,
        standalone_payload,
    );
    node.step(echo, &mut sink).unwrap();
    assert_eq!(sink.len(), 2);
    assert_eq!(
        json(&sink[0], standalone_fields),
        parse(r#"{"src":"n1","dest":"c1","body":{"msg_id":0,"in_reply_to":1,"type":"init_ok"}}"#)
    );
    assert_eq!(
        json(&sink[1], standalone_fields),
        parse(
            r#"{"src":"n1","dest":"c1","body":{"msg_id":1,"in_reply_to":2,"type":"echo_ok","echo":"hi"}}"#
        )
    );
    assert_eq!(node.id, 2);
}

#[test]
fn init_ok_line_is_refused_without_a_reply() {
    let input = envelope(
        r#"{"src":"c1","dest":"n1","body":{"msg_id":3,"type":"init_ok"}}"#,
        init_payload,
    );
    assert!(handshake::<(), EchoNode, EchoPayload>((), input.clone()).is_err());

    let mut node = EchoNone::new();
    let mut sink = Vec::new();
    let inbound = Message {
        src: input.src,
        dst: input.dst,
        body: Body {
            output_message_id: input.body.output_message_id,
            in_reply_to: input.body.in_reply_to,
            payload: Payload::InitOk,
        },
    };
    assert!(node.step(inbound, &mut sink).is_err());
    assert!(sink.is_empty());
}
