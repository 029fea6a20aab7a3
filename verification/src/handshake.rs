use vstd::prelude::*;
use crate::message::Body;
use crate::message::Message;

verus! {

/// What a node is told at startup: its own name and the names of all nodes
/// of the cluster, itself among them.
#[derive(Debug, Clone, PartialEq, Eq)]
pub struct Init {
    pub node_id: String,
    pub node_ids: Vec<String>,
}

/// The two payloads of the startup exchange.
#[derive(Debug, Clone, PartialEq, Eq)]
pub enum InitPayload {
    Init(Init),
    InitOk,
}

/// A message that the protocol does not allow where it arrived.
#[derive(Debug, Clone, Copy, PartialEq, Eq)]
pub enum ProtocolError {
    /// The first message was not an `Init`.
    FirstNotInit,
    /// An `InitOk` arrived, which a node only ever sends.
    InitOkReceived,
}

impl ProtocolError {
    /// A one-line description of the violation.
    pub fn describe(&self) -> (text: &'static str)
        ensures
            text@ == match *self {
                ProtocolError::FirstNotInit => "First message should be Init"@,
                ProtocolError::InitOkReceived => "InitOk should not be received"@,
            },
    {
        match self {
            ProtocolError::FirstNotInit => "First message should be Init",
            ProtocolError::InitOkReceived => "InitOk should not be received",
        }
    }
}

/// The id of the reply that closes the handshake: the first id a node uses.
pub const INIT_REPLY_ID: usize = 0;

/// The reply that closes the handshake opened by `first`.
pub open spec fn init_reply_of(first: Message<InitPayload>) -> Message<InitPayload> {
    Message {
        src: first.dst,
        dst: first.src,
        body: Body {
            output_message_id: Some(INIT_REPLY_ID),
            in_reply_to: first.body.output_message_id,
            payload: InitPayload::InitOk,
        },
    }
}

/// Takes the first message of a session. An `Init` yields the startup data
/// and the `InitOk` that answers it; anything else is a violation.
pub fn accept_init(first: Message<InitPayload>) -> (r: Result<
    (Init, Message<InitPayload>),
    ProtocolError,
>)
    ensures
        match first.body.payload {
            InitPayload::Init(init) => r == Ok::<(Init, Message<InitPayload>), ProtocolError>(
                (init, init_reply_of(first)),
            ),
            InitPayload::InitOk => r == Err::<(Init, Message<InitPayload>), ProtocolError>(
                ProtocolError::FirstNotInit,
            ),
        },
{
    match first.body.payload {
        InitPayload::Init(init) => {
            let reply = Message {
                src: first.dst,
                dst: first.src,
                body: Body {
                    output_message_id: Some(INIT_REPLY_ID),
                    in_reply_to: first.body.output_message_id,
                    payload: InitPayload::InitOk,
                },
            };
            Ok((init, reply))
        },
        InitPayload::InitOk => Err(ProtocolError::FirstNotInit),
    }
}

} // verus!
