use vstd::prelude::*;
use crate::handshake::Init;
use crate::message::Message;

verus! {

/// Why a node could not be built or could not handle a message.
#[derive(Debug, Clone, PartialEq, Eq)]
pub enum NodeError {
    /// The node's id counter has no value left to give.
    CounterExhausted,
    /// A reason of the node's own.
    Failed(String),
}

/// The failure in the outcome of a step, if it has one.
pub open spec fn failure_of(r: Result<(), NodeError>) -> Option<NodeError> {
    match r {
        Ok(_) => None,
        Err(e) => Some(e),
    }
}

/// A node behaviour: built once from the startup data, then handed the
/// inbound messages one at a time.
///
/// `init_spec` and `step_spec` say what an implementation may do; the two
/// executable methods promise to stay within them.
pub trait Node<S, Payload>: Sized {
    /// Whether `r` is an allowed outcome of building a node from `state` and
    /// `init`. Unless an implementation says otherwise, every outcome is.
    open spec fn init_spec(state: S, init: Init, r: Result<Self, NodeError>) -> bool {
        true
    }

    /// Whether a node in state `pre` that handles `input` may end in state
    /// `post`, having sent `emitted` in that order, and having failed with
    /// `failure` if that is not `None`. Unless an implementation says
    /// otherwise, every such step is allowed.
    open spec fn step_spec(
        pre: Self,
        input: Message<Payload>,
        post: Self,
        emitted: Seq<Message<Payload>>,
        failure: Option<NodeError>,
    ) -> bool {
        true
    }

    /// Builds the node from a value of the host's choosing and the startup
    /// data.
    fn from_init(state: S, init: Init) -> (r: Result<Self, NodeError>)
        ensures
            Self::init_spec(state, init, r),
    ;

    /// Handles one inbound message. Replies are appended to `output`; what
    /// was there before stays in front of them.
    fn step(&mut self, input: Message<Payload>, output: &mut Vec<Message<Payload>>) -> (r: Result<
        (),
        NodeError,
    >)
        ensures
            old(output)@.len() <= final(output)@.len(),
            final(output)@ == old(output)@ + final(output)@.skip(old(output)@.len() as int),
            Self::step_spec(
                *old(self),
                input,
                *final(self),
                final(output)@.skip(old(output)@.len() as int),
                failure_of(r),
            ),
    ;
}

} // verus!
