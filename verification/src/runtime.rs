use vstd::prelude::*;
use crate::handshake::accept_init;
use crate::handshake::init_reply_of;
use crate::handshake::InitPayload;
use crate::handshake::ProtocolError;
use crate::message::Message;
use crate::node::Node;
use crate::node::NodeError;

verus! {

/// A failure that ends a session, with the stage at which it arose.
#[derive(Debug, Clone, PartialEq, Eq)]
pub enum RuntimeError {
    /// The handshake was violated.
    Protocol(ProtocolError),
    /// The node could not be built from the startup data.
    Construct(NodeError),
    /// The node failed on an inbound message.
    Step(NodeError),
}

impl RuntimeError {
    /// One line that names the stage that failed.
    pub fn context(&self) -> (text: &'static str)
        ensures
            text@ == match *self {
                RuntimeError::Protocol(_) => "Protocol violation"@,
                RuntimeError::Construct(_) => "Node initialization failed"@,
                RuntimeError::Step(_) => "Failed to process input"@,
            },
    {
        match self {
            RuntimeError::Protocol(_) => "Protocol violation",
            RuntimeError::Construct(_) => "Node initialization failed",
            RuntimeError::Step(_) => "Failed to process input",
        }
    }
}

/// What a node did over a run of inbound messages.
#[derive(Debug, Clone, PartialEq, Eq)]
pub struct RunOutcome<Payload> {
    /// For each message handled, in the order of arrival, what the node
    /// sent on it. A message on which the node failed is the last of them.
    pub replies: Vec<Vec<Message<Payload>>>,
    /// The failure that ended the run early, if one did.
    pub failure: Option<NodeError>,
}

/// The failure of the `i`-th step of a run of `handled` steps that ended
/// with `failure`: only the last step can have failed.
pub open spec fn outcome_at(handled: int, failure: Option<NodeError>, i: int) -> Option<
    NodeError,
> {
    if i == handled - 1 {
        failure
    } else {
        None
    }
}

/// Whether the `i`-th step of a run took the node from `states[i]` to
/// `states[i + 1]` on `inputs[i]`, sending `replies[i]`, and failing with
/// `failure` if that is not `None`.
pub open spec fn step_at<S, Payload, N: Node<S, Payload>>(
    states: Seq<N>,
    inputs: Seq<Message<Payload>>,
    replies: Seq<Vec<Message<Payload>>>,
    i: int,
    failure: Option<NodeError>,
) -> bool {
    N::step_spec(states[i], inputs[i], states[i + 1], replies[i]@, failure)
}

/// Whether a node that passed through `states` handled `inputs` one after
/// the other from the first on, sending `replies[i]` on `inputs[i]`, and
/// stopped either at the end of `inputs` or at the step that failed.
pub open spec fn run_spec<S, Payload, N: Node<S, Payload>>(
    states: Seq<N>,
    inputs: Seq<Message<Payload>>,
    replies: Seq<Vec<Message<Payload>>>,
    failure: Option<NodeError>,
) -> bool {
    &&& states.len() == replies.len() + 1
    &&& replies.len() <= inputs.len()
    &&& failure is None ==> replies.len() == inputs.len()
    &&& failure is Some ==> replies.len() >= 1
    &&& forall|i: int|
        0 <= i < replies.len() ==> #[trigger] step_at::<S, Payload, N>(
            states,
            inputs,
            replies,
            i,
            outcome_at(replies.len() as int, failure, i),
        )
}

/// Opens a session: takes the first message, builds the node from it and
/// gives the node together with the `InitOk` to send.
pub fn handshake<S, N, Payload>(init_state: S, first: Message<InitPayload>) -> (r: Result<
    (N, Message<InitPayload>),
    RuntimeError,
>) where N: Node<S, Payload>
    ensures
        match first.body.payload {
            InitPayload::InitOk => r == Err::<(N, Message<InitPayload>), RuntimeError>(
                RuntimeError::Protocol(ProtocolError::FirstNotInit),
            ),
            InitPayload::Init(init) => match r {
                Ok((node, reply)) => N::init_spec(init_state, init, Ok(node)) && reply
                    == init_reply_of(first),
                Err(e) => e is Construct && N::init_spec(init_state, init, Err(e->Construct_0)),
            },
        },
{
    match accept_init(first) {
        Err(violation) => Err(RuntimeError::Protocol(violation)),
        Ok((init, reply)) => match N::from_init(init_state, init) {
            Ok(node) => Ok((node, reply)),
            Err(e) => Err(RuntimeError::Construct(e)),
        },
    }
}

/// Hands one inbound message to the node. What the node sends is appended
/// to `output`; a failure of the node comes back marked with its stage.
pub fn dispatch<S, N, Payload>(
    node: &mut N,
    input: Message<Payload>,
    output: &mut Vec<Message<Payload>>,
) -> (r: Result<(), RuntimeError>) where N: Node<S, Payload>
    ensures
        final(output)@ == old(output)@ + final(output)@.skip(old(output)@.len() as int),
        r is Err ==> r->Err_0 is Step,
        N::step_spec(
            *old(node),
            input,
            *final(node),
            final(output)@.skip(old(output)@.len() as int),
            match r {
                Ok(_) => None,
                Err(e) => Some(e->Step_0),
            },
        ),
{
    let stepped = node.step(input, output);
    match stepped {
        Ok(()) => Ok(()),
        Err(e) => Err(RuntimeError::Step(e)),
    }
}

/// Drives the node over `inputs`, first to last, and stops at the first
/// message on which the node fails.
pub fn run<S, N, Payload>(node: &mut N, inputs: Vec<Message<Payload>>) -> (outcome: RunOutcome<
    Payload,
>) where N: Node<S, Payload>
    ensures
        exists|states: Seq<N>|
            {
                &&& #[trigger] run_spec::<S, Payload, N>(
                    states,
                    inputs@,
                    outcome.replies@,
                    outcome.failure,
                )
                &&& states[0] == *old(node)
                &&& states.last() == *final(node)
            },
{
    let mut replies: Vec<Vec<Message<Payload>>> = Vec::new();
    let mut failure: Option<NodeError> = None;
    let ghost mut states: Seq<N> = seq![*node];
    for input in iter: inputs
        invariant
            iter.seq() == inputs@,
            states.len() == replies@.len() + 1,
            states[0] == *old(node),
            states.last() == *node,
            failure is None ==> replies@.len() == iter.index(),
            failure is Some ==> 1 <= replies@.len() <= iter.index(),
            forall|i: int|
                0 <= i < replies@.len() ==> #[trigger] step_at::<S, Payload, N>(
                    states,
                    inputs@,
                    replies@,
                    i,
                    outcome_at(replies@.len() as int, failure, i),
                ),
    {
        if failure.is_none() {
            let ghost before = states;
            let ghost sent = replies@;
            let mut sink: Vec<Message<Payload>> = Vec::new();
            let r = node.step(input, &mut sink);
            assert(sink@.skip(0) =~= sink@);
            replies.push(sink);
            proof {
                states = states.push(*node);
            }
            match r {
                Ok(()) => {},
                Err(e) => {
                    failure = Some(e);
                },
            }
            assert forall|i: int| 0 <= i < replies@.len() implies #[trigger] step_at::<
                S,
                Payload,
                N,
            >(states, inputs@, replies@, i, outcome_at(replies@.len() as int, failure, i)) by {
                if i < sent.len() {
                    assert(step_at::<S, Payload, N>(
                        before,
                        inputs@,
                        sent,
                        i,
                        outcome_at(sent.len() as int, None, i),
                    ));
                }
            }
        }
    }
    let outcome = RunOutcome { replies, failure };
    assert(run_spec::<S, Payload, N>(states, inputs@, outcome.replies@, outcome.failure));
    outcome
}

/// Runs a whole session over a recorded stream: the handshake on `first`,
/// then the node over `inputs`. Gives the handshake reply and what the node
/// did, or the failure that kept the session from starting.
pub fn main_loop<S, N, Payload>(
    init_state: S,
    first: Message<InitPayload>,
    inputs: Vec<Message<Payload>>,
) -> (r: Result<(Message<InitPayload>, RunOutcome<Payload>), RuntimeError>) where
    N: Node<S, Payload>,

    ensures
        match first.body.payload {
            InitPayload::InitOk => r == Err::<
                (Message<InitPayload>, RunOutcome<Payload>),
                RuntimeError,
            >(RuntimeError::Protocol(ProtocolError::FirstNotInit)),
            InitPayload::Init(init) => match r {
                Ok((reply, outcome)) => {
                    &&& reply == init_reply_of(first)
                    &&& exists|states: Seq<N>|
                        {
                            &&& #[trigger] run_spec::<S, Payload, N>(
                                states,
                                inputs@,
                                outcome.replies@,
                                outcome.failure,
                            )
                            &&& N::init_spec(init_state, init, Ok(states[0]))
                        }
                },
                Err(e) => e is Construct && N::init_spec(init_state, init, Err(e->Construct_0)),
            },
        },
{
    match handshake::<S, N, Payload>(init_state, first) {
        Err(e) => Err(e),
        Ok((node, reply)) => {
            let mut node = node;
            let outcome = run::<S, N, Payload>(&mut node, inputs);
            Ok((reply, outcome))
        },
    }
}

} // verus!
