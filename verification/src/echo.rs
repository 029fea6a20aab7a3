use vstd::prelude::*;
use crate::handshake::Init;
use crate::message::Body;
use crate::message::Message;
use crate::node::Node;
use crate::node::NodeError;
use crate::runtime::outcome_at;
use crate::runtime::run_spec;
use crate::runtime::step_at;

verus! {

/// The messages of the echo service.
#[derive(Debug, Clone, PartialEq, Eq)]
pub enum EchoPayload {
    Echo { echo: String },
    EchoOk { echo: String },
}

/// A node that sends every `Echo` back to where it came from.
#[derive(Debug, Clone, PartialEq, Eq)]
pub struct EchoNode {
    /// The id that the next reply will carry.
    pub node_id: usize,
}

/// What an echo node whose counter stands at `id` sends on `input`.
pub open spec fn echo_replies(input: Message<EchoPayload>, id: usize) -> Seq<Message<EchoPayload>> {
    match input.body.payload {
        EchoPayload::Echo { echo } => seq![
            Message {
                src: input.dst,
                dst: input.src,
                body: Body {
                    output_message_id: Some(id),
                    in_reply_to: input.body.output_message_id,
                    payload: EchoPayload::EchoOk { echo },
                },
            },
        ],
        EchoPayload::EchoOk { .. } => Seq::empty(),
    }
}

impl Node<(), EchoPayload> for EchoNode {
    open spec fn init_spec(state: (), init: Init, r: Result<Self, NodeError>) -> bool {
        r == Ok::<Self, NodeError>(EchoNode { node_id: 1 })
    }

    open spec fn step_spec(
        pre: Self,
        input: Message<EchoPayload>,
        post: Self,
        emitted: Seq<Message<EchoPayload>>,
        failure: Option<NodeError>,
    ) -> bool {
        match input.body.payload {
            EchoPayload::Echo { .. } => if pre.node_id == usize::MAX {
                failure == Some(NodeError::CounterExhausted) && post == pre && emitted
                    == Seq::<Message<EchoPayload>>::empty()
            } else {
                failure is None && post.node_id == pre.node_id + 1 && emitted == echo_replies(
                    input,
                    pre.node_id,
                )
            },
            EchoPayload::EchoOk { .. } => failure is None && post == pre && emitted == Seq::<
                Message<EchoPayload>,
            >::empty(),
        }
    }

    fn from_init(_state: (), _init: Init) -> (r: Result<Self, NodeError>) {
        Ok(EchoNode { node_id: 1 })
    }

    fn step(&mut self, input: Message<EchoPayload>, output: &mut Vec<Message<EchoPayload>>) -> (r:
        Result<(), NodeError>) {
        let asks = match &input.body.payload {
            EchoPayload::Echo { .. } => true,
            EchoPayload::EchoOk { .. } => false,
        };
        if !asks {
            assert(final(output)@.skip(old(output)@.len() as int) =~= Seq::empty());
            assert(final(output)@ =~= old(output)@ + Seq::empty());
            return Ok(());
        }
        if self.node_id == usize::MAX {
            assert(final(output)@.skip(old(output)@.len() as int) =~= Seq::empty());
            assert(final(output)@ =~= old(output)@ + Seq::empty());
            return Err(NodeError::CounterExhausted);
        }
        let reply = input.into_reply(Some(&mut self.node_id));
        match reply.body.payload {
            EchoPayload::Echo { echo } => {
                let answer = Message {
                    src: reply.src,
                    dst: reply.dst,
                    body: Body {
                        output_message_id: reply.body.output_message_id,
                        in_reply_to: reply.body.in_reply_to,
                        payload: EchoPayload::EchoOk { echo },
                    },
                };
                answer.send(output);
                assert(final(output)@.skip(old(output)@.len() as int) =~= seq![answer]);
            },
            EchoPayload::EchoOk { .. } => {},
        }
        assert(final(output)@ =~= old(output)@ + final(output)@.skip(old(output)@.len() as int));
        Ok(())
    }
}

/// How many of the first `n` messages of `inputs` are echo requests.
pub open spec fn echo_requests(inputs: Seq<Message<EchoPayload>>, n: int) -> nat
    decreases n,
{
    if n <= 0 {
        0
    } else if inputs[n - 1].body.payload is Echo {
        echo_requests(inputs, n - 1) + 1
    } else {
        echo_requests(inputs, n - 1)
    }
}

/// The number of echo requests among the first messages does not fall as
/// more messages are counted.
pub proof fn lemma_echo_requests_grow(inputs: Seq<Message<EchoPayload>>, i: int, j: int)
    requires
        0 <= i <= j,
    ensures
        echo_requests(inputs, i) <= echo_requests(inputs, j),
    decreases j,
{
    if i < j {
        lemma_echo_requests_grow(inputs, i, j - 1);
    }
}

/// In a run of an echo node the counter moves on by one with every echo
/// request answered and stays on every other message, and a step that did
/// not fail sent exactly the echo reply under the counter's value at that
/// step.
pub proof fn lemma_echo_run_counts(
    states: Seq<EchoNode>,
    inputs: Seq<Message<EchoPayload>>,
    replies: Seq<Vec<Message<EchoPayload>>>,
    failure: Option<NodeError>,
    i: int,
)
    requires
        run_spec::<(), EchoPayload, EchoNode>(states, inputs, replies, failure),
        0 <= i < replies.len(),
    ensures
        states[i].node_id == states[0].node_id + echo_requests(inputs, i),
        outcome_at(replies.len() as int, failure, i) is None ==> replies[i]@ == echo_replies(
            inputs[i],
            states[i].node_id,
        ),
    decreases i,
{
    if i > 0 {
        lemma_echo_run_counts(states, inputs, replies, failure, i - 1);
        assert(step_at::<(), EchoPayload, EchoNode>(
            states,
            inputs,
            replies,
            i - 1,
            outcome_at(replies.len() as int, failure, i - 1),
        ));
    }
    assert(step_at::<(), EchoPayload, EchoNode>(
        states,
        inputs,
        replies,
        i,
        outcome_at(replies.len() as int, failure, i),
    ));
}

/// The replies of an echo node carry strictly increasing ids: of two echo
/// requests that it answered in one run, the later one got the higher id,
/// and each id is the counter's starting value plus the number of echo
/// requests that came before.
pub proof fn lemma_echo_ids_increase(
    states: Seq<EchoNode>,
    inputs: Seq<Message<EchoPayload>>,
    replies: Seq<Vec<Message<EchoPayload>>>,
    failure: Option<NodeError>,
    i: int,
    j: int,
)
    requires
        run_spec::<(), EchoPayload, EchoNode>(states, inputs, replies, failure),
        0 <= i < j < replies.len(),
        inputs[i].body.payload is Echo,
        inputs[j].body.payload is Echo,
        outcome_at(replies.len() as int, failure, j) is None,
    ensures
        replies[i]@.len() == 1 && replies[j]@.len() == 1,
        replies[i]@[0].body.output_message_id == Some(
            (states[0].node_id + echo_requests(inputs, i)) as usize,
        ),
        replies[j]@[0].body.output_message_id == Some(
            (states[0].node_id + echo_requests(inputs, j)) as usize,
        ),
        replies[i]@[0].body.output_message_id->0 < replies[j]@[0].body.output_message_id->0,
{
    lemma_echo_run_counts(states, inputs, replies, failure, i);
    lemma_echo_run_counts(states, inputs, replies, failure, j);
    lemma_echo_requests_grow(inputs, i + 1, j);
}

} // verus!
