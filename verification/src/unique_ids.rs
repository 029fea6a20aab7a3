use vstd::prelude::*;
use crate::handshake::Init;
use crate::message::Body;
use crate::message::Message;
use crate::node::Node;
use crate::node::NodeError;
use crate::runtime::outcome_at;
use crate::runtime::run_spec;
use crate::runtime::step_at;

verus! {

/// The messages of the unique-id service.
#[derive(Debug, Clone, PartialEq, Eq)]
pub enum UniquePayload {
    Generate,
    GenerateOk { guid: String },
}

/// A node that answers every `Generate` with an identifier that no other
/// answer in the cluster carries, given that no two nodes share a name.
#[derive(Debug, Clone, PartialEq, Eq)]
pub struct UniqueNode {
    pub node_id: String,
    /// The id that the next reply will carry.
    pub id: usize,
}

/// The character for a digit below ten.
pub open spec fn digit_char(d: nat) -> char {
    if d == 0 {
        '0'
    } else if d == 1 {
        '1'
    } else if d == 2 {
        '2'
    } else if d == 3 {
        '3'
    } else if d == 4 {
        '4'
    } else if d == 5 {
        '5'
    } else if d == 6 {
        '6'
    } else if d == 7 {
        '7'
    } else if d == 8 {
        '8'
    } else {
        '9'
    }
}

/// `n` written in decimal, without leading zeros.
pub open spec fn decimal(n: nat) -> Seq<char>
    decreases n,
{
    if n < 10 {
        seq![digit_char(n)]
    } else {
        decimal(n / 10).push(digit_char(n % 10))
    }
}

/// The identifier made of a node's name and a counter value: the name, a
/// hyphen, the value in decimal.
pub open spec fn guid_text(node_id: Seq<char>, id: nat) -> Seq<char> {
    node_id + seq!['-'] + decimal(id)
}

/// Formats an identifier with `format!` and the pattern `{}-{}`. Not
/// proved: that the standard formatting of a string slice is the slice
/// itself and that of a `usize` is its decimal form without padding.
#[verifier::external_body]
fn format_guid(node_id: &str, id: usize) -> (guid: String)
    ensures
        guid@ == guid_text(node_id@, id as nat),
{
    format!("{}-{}", node_id, id)
}

/// Whether `emitted` is what a unique-id node named `node_id` sends on
/// `input` when its counter stands at `id`.
pub open spec fn unique_replies(
    node_id: Seq<char>,
    id: usize,
    input: Message<UniquePayload>,
    emitted: Seq<Message<UniquePayload>>,
) -> bool {
    match input.body.payload {
        UniquePayload::Generate => {
            &&& emitted.len() == 1
            &&& emitted[0].src == input.dst
            &&& emitted[0].dst == input.src
            &&& emitted[0].body.output_message_id == Some(id)
            &&& emitted[0].body.in_reply_to == input.body.output_message_id
            &&& emitted[0].body.payload is GenerateOk
            &&& emitted[0].body.payload->guid@ == guid_text(node_id, (id + 1) as nat)
        },
        UniquePayload::GenerateOk { .. } => emitted.len() == 0,
    }
}

impl Node<(), UniquePayload> for UniqueNode {
    open spec fn init_spec(state: (), init: Init, r: Result<Self, NodeError>) -> bool {
        r == Ok::<Self, NodeError>(UniqueNode { node_id: init.node_id, id: 1 })
    }

    open spec fn step_spec(
        pre: Self,
        input: Message<UniquePayload>,
        post: Self,
        emitted: Seq<Message<UniquePayload>>,
        failure: Option<NodeError>,
    ) -> bool {
        match input.body.payload {
            UniquePayload::Generate => if pre.id == usize::MAX {
                failure == Some(NodeError::CounterExhausted) && post == pre && emitted.len() == 0
            } else {
                failure is None && post.id == pre.id + 1 && post.node_id == pre.node_id
                    && unique_replies(pre.node_id@, pre.id, input, emitted)
            },
            UniquePayload::GenerateOk { .. } => failure is None && post == pre && emitted.len()
                == 0,
        }
    }

    fn from_init(_state: (), init: Init) -> (r: Result<Self, NodeError>) {
        Ok(UniqueNode { node_id: init.node_id, id: 1 })
    }

    fn step(
        &mut self,
        input: Message<UniquePayload>,
        output: &mut Vec<Message<UniquePayload>>,
    ) -> (r: Result<(), NodeError>) {
        let asks = match &input.body.payload {
            UniquePayload::Generate => true,
            UniquePayload::GenerateOk { .. } => false,
        };
        if !asks {
            assert(final(output)@ =~= old(output)@ + Seq::empty());
            return Ok(());
        }
        if self.id == usize::MAX {
            assert(final(output)@ =~= old(output)@ + Seq::empty());
            return Err(NodeError::CounterExhausted);
        }
        let reply = input.into_reply(Some(&mut self.id));
        match reply.body.payload {
            UniquePayload::Generate => {
                let guid = format_guid(self.node_id.as_str(), self.id);
                let answer = Message {
                    src: reply.src,
                    dst: reply.dst,
                    body: Body {
                        output_message_id: reply.body.output_message_id,
                        in_reply_to: reply.body.in_reply_to,
                        payload: UniquePayload::GenerateOk { guid },
                    },
                };
                answer.send(output);
                assert(final(output)@.skip(old(output)@.len() as int) =~= seq![answer]);
            },
            UniquePayload::GenerateOk { .. } => {},
        }
        assert(final(output)@ =~= old(output)@ + final(output)@.skip(old(output)@.len() as int));
        Ok(())
    }
}

/// The decimal form of a number has at least one digit.
pub proof fn lemma_decimal_nonempty(n: nat)
    ensures
        decimal(n).len() >= 1,
    decreases n,
{
    if n >= 10 {
        lemma_decimal_nonempty(n / 10);
    }
}

/// Different digits have different characters.
pub proof fn lemma_digit_char_injective(a: nat, b: nat)
    requires
        a < 10,
        b < 10,
        digit_char(a) == digit_char(b),
    ensures
        a == b,
{
}

/// Two numbers with the same decimal form are the same number.
pub proof fn lemma_decimal_injective(a: nat, b: nat)
    requires
        decimal(a) == decimal(b),
    ensures
        a == b,
    decreases a,
{
    if a < 10 && b < 10 {
        assert(decimal(a)[0] == digit_char(a));
        assert(decimal(b)[0] == digit_char(b));
        lemma_digit_char_injective(a, b);
    } else if a >= 10 && b >= 10 {
        let front_a = decimal(a / 10);
        let front_b = decimal(b / 10);
        assert(decimal(a).drop_last() =~= front_a);
        assert(decimal(b).drop_last() =~= front_b);
        assert(decimal(a).last() == digit_char(a % 10));
        assert(decimal(b).last() == digit_char(b % 10));
        lemma_decimal_injective(a / 10, b / 10);
        lemma_digit_char_injective(a % 10, b % 10);
    } else {
        lemma_decimal_nonempty(a / 10);
        lemma_decimal_nonempty(b / 10);
        if a < 10 {
            assert(decimal(a).len() == 1);
            assert(decimal(b).len() == decimal(b / 10).len() + 1);
        } else {
            assert(decimal(b).len() == 1);
            assert(decimal(a).len() == decimal(a / 10).len() + 1);
        }
    }
}

/// One node never forms the same identifier from two counter values.
pub proof fn lemma_guid_text_injective(node_id: Seq<char>, a: nat, b: nat)
    requires
        guid_text(node_id, a) == guid_text(node_id, b),
    ensures
        a == b,
{
    let skipped = node_id.len() + 1;
    assert(guid_text(node_id, a).skip(skipped as int) =~= decimal(a));
    assert(guid_text(node_id, b).skip(skipped as int) =~= decimal(b));
    lemma_decimal_injective(a, b);
}

/// The decimal form of a number holds no hyphen.
pub proof fn lemma_decimal_has_no_hyphen(n: nat, k: int)
    requires
        0 <= k < decimal(n).len(),
    ensures
        decimal(n)[k] != '-',
    decreases n,
{
    if n >= 10 && k < decimal(n / 10).len() {
        lemma_decimal_has_no_hyphen(n / 10, k);
    }
}

/// No two nodes of a cluster form the same identifier, and no node forms
/// one twice: an identifier gives back the name and the counter value it
/// was made of.
pub proof fn lemma_guid_text_unique(a: Seq<char>, i: nat, b: Seq<char>, j: nat)
    requires
        guid_text(a, i) == guid_text(b, j),
    ensures
        a == b,
        i == j,
{
    let text = guid_text(a, i);
    assert(text.len() == a.len() + 1 + decimal(i).len());
    assert(guid_text(b, j).len() == b.len() + 1 + decimal(j).len());
    assert(text[a.len() as int] == '-');
    assert(guid_text(b, j)[b.len() as int] == '-');
    if a.len() < b.len() {
        let k = b.len() - a.len() - 1;
        assert(text[b.len() as int] == decimal(i)[k]);
        lemma_decimal_has_no_hyphen(i, k);
    }
    if b.len() < a.len() {
        let k = a.len() - b.len() - 1;
        assert(guid_text(b, j)[a.len() as int] == decimal(j)[k]);
        lemma_decimal_has_no_hyphen(j, k);
    }
    assert(a =~= text.take(a.len() as int));
    assert(b =~= guid_text(b, j).take(b.len() as int));
    lemma_guid_text_injective(a, i, j);
}

/// How many of the first `n` messages of `inputs` ask for an identifier.
pub open spec fn generate_requests(inputs: Seq<Message<UniquePayload>>, n: int) -> nat
    decreases n,
{
    if n <= 0 {
        0
    } else if inputs[n - 1].body.payload is Generate {
        generate_requests(inputs, n - 1) + 1
    } else {
        generate_requests(inputs, n - 1)
    }
}

/// The number of requests among the first messages does not fall as more
/// messages are counted.
pub proof fn lemma_generate_requests_grow(inputs: Seq<Message<UniquePayload>>, i: int, j: int)
    requires
        0 <= i <= j,
    ensures
        generate_requests(inputs, i) <= generate_requests(inputs, j),
    decreases j,
{
    if i < j {
        lemma_generate_requests_grow(inputs, i, j - 1);
    }
}

/// In a run of a unique-id node the name stays, the counter moves on by one
/// with every request answered and stays on every other message, and a step
/// that did not fail sent what `unique_replies` describes for the counter's
/// value at that step.
pub proof fn lemma_unique_run_counts(
    states: Seq<UniqueNode>,
    inputs: Seq<Message<UniquePayload>>,
    replies: Seq<Vec<Message<UniquePayload>>>,
    failure: Option<NodeError>,
    i: int,
)
    requires
        run_spec::<(), UniquePayload, UniqueNode>(states, inputs, replies, failure),
        0 <= i < replies.len(),
    ensures
        states[i].id == states[0].id + generate_requests(inputs, i),
        states[i].node_id == states[0].node_id,
        outcome_at(replies.len() as int, failure, i) is None ==> unique_replies(
            states[0].node_id@,
            states[i].id,
            inputs[i],
            replies[i]@,
        ),
    decreases i,
{
    if i > 0 {
        lemma_unique_run_counts(states, inputs, replies, failure, i - 1);
        assert(step_at::<(), UniquePayload, UniqueNode>(
            states,
            inputs,
            replies,
            i - 1,
            outcome_at(replies.len() as int, failure, i - 1),
        ));
    }
    assert(step_at::<(), UniquePayload, UniqueNode>(
        states,
        inputs,
        replies,
        i,
        outcome_at(replies.len() as int, failure, i),
    ));
}

/// Of two `Generate` requests that a node answered in one run, the later one
/// got the higher message id, and the two identifiers given out differ.
pub proof fn lemma_unique_ids_differ(
    states: Seq<UniqueNode>,
    inputs: Seq<Message<UniquePayload>>,
    replies: Seq<Vec<Message<UniquePayload>>>,
    failure: Option<NodeError>,
    i: int,
    j: int,
)
    requires
        run_spec::<(), UniquePayload, UniqueNode>(states, inputs, replies, failure),
        0 <= i < j < replies.len(),
        inputs[i].body.payload is Generate,
        inputs[j].body.payload is Generate,
        outcome_at(replies.len() as int, failure, j) is None,
    ensures
        replies[i]@.len() == 1 && replies[j]@.len() == 1,
        replies[i]@[0].body.output_message_id == Some(
            (states[0].id + generate_requests(inputs, i)) as usize,
        ),
        replies[j]@[0].body.output_message_id == Some(
            (states[0].id + generate_requests(inputs, j)) as usize,
        ),
        replies[i]@[0].body.output_message_id->0 < replies[j]@[0].body.output_message_id->0,
        replies[i]@[0].body.payload->guid@ != replies[j]@[0].body.payload->guid@,
{
    lemma_unique_run_counts(states, inputs, replies, failure, i);
    lemma_unique_run_counts(states, inputs, replies, failure, j);
    lemma_generate_requests_grow(inputs, i + 1, j);
    let name = states[0].node_id@;
    let a = (states[i].id + 1) as nat;
    let b = (states[j].id + 1) as nat;
    if guid_text(name, a) == guid_text(name, b) {
        lemma_guid_text_injective(name, a, b);
    }
}

} // verus!
