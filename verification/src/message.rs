use vstd::prelude::*;

verus! {

/// The correlation metadata of one message together with its typed payload.
#[derive(Debug, Clone, PartialEq, Eq)]
pub struct Body<Payload> {
    /// Sequence number that the sender gave to this message.
    pub output_message_id: Option<usize>,
    /// Sequence number of the message that this one answers.
    pub in_reply_to: Option<usize>,
    pub payload: Payload,
}

/// One transmitted unit: who sent it, who is to receive it, and its body.
#[derive(Debug, Clone, PartialEq, Eq)]
pub struct Message<Payload> {
    pub src: String,
    pub dst: String,
    pub body: Body<Payload>,
}

impl<Payload> Message<Payload> {
    /// The reply that answers `self` when it is given the id `id`: the two
    /// ends are exchanged, the reply refers back to the id of `self`, and the
    /// payload is carried over.
    pub open spec fn reply_of(self, id: Option<usize>) -> Self {
        Message {
            src: self.dst,
            dst: self.src,
            body: Body {
                output_message_id: id,
                in_reply_to: self.body.output_message_id,
                payload: self.body.payload,
            },
        }
    }

    /// Turns a received message into the reply to it. With a counter, the
    /// reply takes the counter's value as its id and the counter moves on by
    /// one; without, the reply has no id.
    pub fn into_reply(self, id: Option<&mut usize>) -> (reply: Self)
        requires
            id is Some ==> *id->0 < usize::MAX,
        ensures
            id is None ==> reply == self.reply_of(None),
            id is Some ==> reply == self.reply_of(Some(*id->0)),
            id is Some ==> *final(id->0) == *id->0 + 1,
    {
        let output_message_id = match id {
            Some(counter) => {
                let reply_id: usize = *counter;
                *counter = reply_id + 1;
                Some(reply_id)
            },
            None => None,
        };
        Message {
            src: self.dst,
            dst: self.src,
            body: Body {
                output_message_id,
                in_reply_to: self.body.output_message_id,
                payload: self.body.payload,
            },
        }
    }

    /// Hands the message to the output sink, behind everything sent before.
    pub fn send(self, output: &mut Vec<Message<Payload>>)
        ensures
            final(output)@ == old(output)@.push(self),
    {
        output.push(self);
    }
}

/// The replies to `inputs`, in order, when one counter that starts at `start`
/// gives each its id.
pub open spec fn replies_from<Payload>(inputs: Seq<Message<Payload>>, start: usize) -> Seq<
    Message<Payload>,
> {
    Seq::new(inputs.len(), |i: int| inputs[i].reply_of(Some((start + i) as usize)))
}

/// Successive replies that draw on one counter carry strictly increasing
/// ids, the first of them the counter's starting value, and each refers to
/// the message it answers.
pub proof fn lemma_reply_ids_increase<Payload>(inputs: Seq<Message<Payload>>, start: usize)
    requires
        start + inputs.len() <= usize::MAX,
    ensures
        replies_from(inputs, start).len() == inputs.len(),
        forall|i: int|
            0 <= i < inputs.len() ==> (#[trigger] replies_from(
                inputs,
                start,
            )[i]).body.output_message_id == Some((start + i) as usize),
        forall|i: int, j: int|
            0 <= i < j < inputs.len() ==> (#[trigger] replies_from(
                inputs,
                start,
            )[i]).body.output_message_id->0 < (#[trigger] replies_from(
                inputs,
                start,
            )[j]).body.output_message_id->0,
        forall|i: int|
            0 <= i < inputs.len() ==> (#[trigger] replies_from(inputs, start)[i]).body.in_reply_to
                == inputs[i].body.output_message_id,
{
}

/// Deriving the reply to one message twice from one counter gives two
/// replies that differ in their own id alone, the second id one above the
/// first: both have the ends of the message exchanged, both refer back to
/// its id, and both carry its payload.
pub proof fn lemma_reply_derivation_stable<Payload>(input: Message<Payload>, counter: usize)
    requires
        counter < usize::MAX,
    ensures
        ({
            let first = input.reply_of(Some(counter));
            let second = input.reply_of(Some((counter + 1) as usize));
            &&& first.src == input.dst && second.src == input.dst
            &&& first.dst == input.src && second.dst == input.src
            &&& first.body.in_reply_to == input.body.output_message_id
            &&& second.body.in_reply_to == input.body.output_message_id
            &&& first.body.payload == input.body.payload
            &&& second.body.payload == input.body.payload
            &&& first.body.output_message_id == Some(counter)
            &&& second.body.output_message_id == Some((counter + 1) as usize)
        }),
{
}

} // verus!
