use vstd::prelude::*;
use crate::handshake::ProtocolError;
use crate::message::Body;
use crate::message::Message;

verus! {

/// The messages of an echo node that answers the handshake itself.
#[derive(Debug, Clone, PartialEq, Eq)]
pub enum Payload {
    Init { node_id: String, node_ids: Vec<String> },
    InitOk,
    Echo { echo: String },
    EchoOk { echo: String },
}

/// An echo node without a host: it takes the handshake like any other
/// message and keeps the id of its next reply itself.
#[derive(Debug, Clone, PartialEq, Eq)]
pub struct EchoNone {
    pub id: usize,
}

impl EchoNone {
    /// A node that has sent nothing yet.
    pub fn new() -> (node: Self)
        ensures
            node.id == 0,
    {
        EchoNone { id: 0 }
    }

    /// Whether the node can handle `input`: for a message that gets a
    /// reply, the id after the one used has to exist.
    pub open spec fn accepts(self, input: Message<Payload>) -> bool {
        match input.body.payload {
            Payload::Echo { .. } | Payload::Init { .. } => self.id < usize::MAX,
            _ => true,
        }
    }

    /// Whether `input` is a message that gets a reply.
    pub open spec fn answers(input: Message<Payload>) -> bool {
        input.body.payload is Echo || input.body.payload is Init
    }

    /// The node after it has handled `input`: a reply uses up one id.
    pub open spec fn next(self, input: Message<Payload>) -> Self {
        if Self::answers(input) {
            EchoNone { id: (self.id + 1) as usize }
        } else {
            self
        }
    }

    /// The reply to `input`, for the two payloads that get one. It carries
    /// the node's own next id, whatever id the message came with.
    pub open spec fn reply_to(self, input: Message<Payload>) -> Message<Payload> {
        Message {
            src: input.dst,
            dst: input.src,
            body: Body {
                output_message_id: Some(self.id),
                in_reply_to: input.body.output_message_id,
                payload: match input.body.payload {
                    Payload::Echo { echo } => Payload::EchoOk { echo },
                    _ => Payload::InitOk,
                },
            },
        }
    }

    /// The executable form of `accepts`.
    pub fn can_step(&self, input: &Message<Payload>) -> (b: bool)
        ensures
            b == self.accepts(*input),
    {
        match &input.body.payload {
            Payload::Echo { .. } | Payload::Init { .. } => self.id < usize::MAX,
            _ => true,
        }
    }

    /// Handles one message. An `Echo` is sent back and an `Init` is answered
    /// with `InitOk`, each under the node's next id, which then moves on by
    /// one; an `EchoOk` is ignored; an `InitOk` is a violation and nothing
    /// is sent.
    pub fn step(&mut self, input: Message<Payload>, output: &mut Vec<Message<Payload>>) -> (r:
        Result<(), ProtocolError>)
        requires
            old(self).accepts(input),
        ensures
            match input.body.payload {
                Payload::Echo { .. } | Payload::Init { .. } => {
                    &&& r is Ok
                    &&& final(output)@ == old(output)@.push(old(self).reply_to(input))
                },
                Payload::EchoOk { .. } => {
                    &&& r is Ok
                    &&& final(output)@ == old(output)@
                },
                Payload::InitOk => {
                    &&& r == Err::<(), ProtocolError>(ProtocolError::InitOkReceived)
                    &&& final(output)@ == old(output)@
                },
            },
            *final(self) == old(self).next(input),
    {
        match input.body.payload {
            Payload::Echo { echo } => {
                let reply = Message {
                    src: input.dst,
                    dst: input.src,
                    body: Body {
                        output_message_id: Some(self.id),
                        in_reply_to: input.body.output_message_id,
                        payload: Payload::EchoOk { echo },
                    },
                };
                reply.send(output);
                self.id = self.id + 1;
                Ok(())
            },
            Payload::EchoOk { .. } => Ok(()),
            Payload::Init { .. } => {
                let reply = Message {
                    src: input.dst,
                    dst: input.src,
                    body: Body {
                        output_message_id: Some(self.id),
                        in_reply_to: input.body.output_message_id,
                        payload: Payload::InitOk,
                    },
                };
                reply.send(output);
                self.id = self.id + 1;
                Ok(())
            },
            Payload::InitOk => Err(ProtocolError::InitOkReceived),
        }
    }
}

/// How many of the first `n` messages of `inputs` get a reply.
pub open spec fn answered(inputs: Seq<Message<Payload>>, n: int) -> nat
    decreases n,
{
    if n <= 0 {
        0
    } else if EchoNone::answers(inputs[n - 1]) {
        answered(inputs, n - 1) + 1
    } else {
        answered(inputs, n - 1)
    }
}

/// The node after it has handled the first `n` messages of `inputs`.
pub open spec fn after(node: EchoNone, inputs: Seq<Message<Payload>>, n: int) -> EchoNone
    decreases n,
{
    if n <= 0 {
        node
    } else {
        after(node, inputs, n - 1).next(inputs[n - 1])
    }
}

/// The reply to an `Init` is an `InitOk` that goes back to the sender,
/// refers to the id of the `Init` and carries the node's next id.
pub proof fn lemma_init_is_answered_with_init_ok(node: EchoNone, input: Message<Payload>)
    requires
        input.body.payload is Init,
        node.id < usize::MAX,
    ensures
        node.reply_to(input).body.payload is InitOk,
        node.reply_to(input).body.in_reply_to == input.body.output_message_id,
        node.reply_to(input).body.output_message_id == Some(node.id),
        node.reply_to(input).src == input.dst,
        node.reply_to(input).dst == input.src,
        node.next(input).id == node.id + 1,
{
}

/// The number of answered messages among the first does not fall as more
/// messages are counted.
pub proof fn lemma_answered_grows(inputs: Seq<Message<Payload>>, i: int, j: int)
    requires
        0 <= i <= j,
    ensures
        answered(inputs, i) <= answered(inputs, j),
    decreases j,
{
    if i < j {
        lemma_answered_grows(inputs, i, j - 1);
    }
}

/// While ids are left, the node's next id is its first one plus the number
/// of replies it has sent, whatever ids the messages came with.
pub proof fn lemma_standalone_counts(node: EchoNone, inputs: Seq<Message<Payload>>, n: int)
    requires
        0 <= n,
        node.id + answered(inputs, n) <= usize::MAX,
    ensures
        after(node, inputs, n).id == node.id + answered(inputs, n),
    decreases n,
{
    if n > 0 {
        lemma_standalone_counts(node, inputs, n - 1);
    }
}

/// The replies of the node carry strictly increasing ids: of two answered
/// messages the later one gets the higher id.
pub proof fn lemma_standalone_ids_increase(
    node: EchoNone,
    inputs: Seq<Message<Payload>>,
    i: int,
    j: int,
)
    requires
        0 <= i < j,
        EchoNone::answers(inputs[i]),
        node.id + answered(inputs, j) <= usize::MAX,
    ensures
        after(node, inputs, i).reply_to(inputs[i]).body.output_message_id == Some(
            (node.id + answered(inputs, i)) as usize,
        ),
        after(node, inputs, j).reply_to(inputs[j]).body.output_message_id == Some(
            (node.id + answered(inputs, j)) as usize,
        ),
        after(node, inputs, i).id < after(node, inputs, j).id,
{
    lemma_answered_grows(inputs, i + 1, j);
    lemma_answered_grows(inputs, i, j);
    lemma_standalone_counts(node, inputs, i);
    lemma_standalone_counts(node, inputs, j);
}

} // verus!
