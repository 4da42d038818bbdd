//! Vocabulary for describing the internal logic of one actor: the wait
//! disciplines it can choose, the instructions it can issue, the sender
//! capability it is handed during a step, and the [`ActorInternal`] contract
//! that a user state machine implements.

use vstd::prelude::*;

verus! {

/// Error returned by a sender when a message could not be delivered.
///
/// The failed payload is handed back to the caller.
#[derive(Debug, Clone, PartialEq, Eq)]
pub struct SendError<T>(pub T);

/// The next state an actor chooses after a local step.
///
/// Durations are counted in milliseconds of the runtime's clock.
#[derive(Debug, Clone, PartialEq, Eq)]
pub enum NextState<T> {
    /// Wait for the next message.
    Get,
    /// Wait for the next message, but only up to the given duration; if the
    /// deadline elapses first, a null message is delivered instead.
    GetTimeout(u64),
    /// Terminate, optionally publishing a final value to be collected by the
    /// system.
    Terminate(Option<T>),
}

/// One instruction from an actor's core to the interface that executes its
/// sends and waits.
#[derive(Debug, Clone, PartialEq, Eq)]
pub enum Instruction<K, T> {
    /// Send a message along the channel identified by the key.
    Send(K, T),
    /// Wait for a message.
    Get,
    /// Wait for a message, but only up to the given duration in milliseconds.
    GetTimeout(u64),
    /// Terminate with an optional final value.
    Terminate(Option<T>),
}

/// The instruction corresponding to a bare next state (one with no sends).
pub open spec fn instruction_of_next_state<K, T>(state: NextState<T>) -> Instruction<K, T> {
    match state {
        NextState::Get => Instruction::Get,
        NextState::GetTimeout(t) => Instruction::GetTimeout(t),
        NextState::Terminate(m) => Instruction::Terminate(m),
    }
}

impl<K, T> From<NextState<T>> for Instruction<K, T> {
    fn from(state: NextState<T>) -> (r: Self) {
        match state {
            NextState::Get => Instruction::Get,
            NextState::GetTimeout(t) => Instruction::GetTimeout(t),
            NextState::Terminate(message) => Instruction::Terminate(message),
        }
    }
}

impl<K, T> vstd::std_specs::convert::FromSpecImpl<NextState<T>> for Instruction<K, T> {
    open spec fn obeys_from_spec() -> bool {
        true
    }

    open spec fn from_spec(state: NextState<T>) -> Self {
        instruction_of_next_state(state)
    }
}

/// Keys that identify actors: copyable values with an executable equality
/// test that agrees with logical equality.
pub trait EqKey: Copy {
    /// Decide whether two keys are the same.
    fn key_eq(&self, other: &Self) -> (r: bool)
        ensures
            r <==> (self == other),
    ;
}

impl EqKey for usize {
    fn key_eq(&self, other: &Self) -> (r: bool)
        ensures
            r <==> (self == other),
    {
        *self == *other
    }
}

impl EqKey for u64 {
    fn key_eq(&self, other: &Self) -> (r: bool)
        ensures
            r <==> (self == other),
    {
        *self == *other
    }
}

/// The capability handed to an actor during `start` and `process_message`:
/// address a peer by key and hand it a message.
///
/// A sender records the messages it has accepted, in order; which keys it
/// accepts is fixed by the implementation. A send never delivers anything
/// back to the caller: messages an actor receives are always the argument of
/// its `process_message` hook.
pub trait Sender: Sized {
    type Message;

    type Key: EqKey;

    /// All messages accepted so far, oldest first, each with its destination.
    spec fn sent(&self) -> Seq<(Self::Key, Self::Message)>;

    /// Whether a send to `key` is accepted.
    spec fn can_send(&self, key: Self::Key) -> bool;

    /// Send a message to the peer identified by `key`.
    ///
    /// On failure the payload is returned inside the error and the sender is
    /// unchanged.
    fn send(&mut self, key: &Self::Key, message: Self::Message) -> (r: Result<
        (),
        SendError<(Self::Key, Self::Message)>,
    >)
        ensures
            r is Ok <==> old(self).can_send(*key),
            r is Ok ==> final(self).sent() == old(self).sent().push((*key, message)),
            r is Err ==> *final(self) == *old(self) && (r matches Err(SendError(p)) && p.0 == *key
                && p.1 == message),
            forall|k: Self::Key| final(self).can_send(k) == old(self).can_send(k),
    ;
}

/// The contract a user state machine implements to become an actor.
///
/// The runtime guarantees: every declared-edge callback runs before `start`;
/// `start` runs exactly once, before any `process_message`; the hooks of one
/// actor never overlap; after the first `Terminate` the actor receives no
/// further calls.
pub trait ActorInternal: Sized {
    type Message;

    type Key: EqKey;

    type Error;

    /// Called once per declared inbound edge, before the actor starts.
    fn new_incoming_key(&mut self, key: &Self::Key);

    /// Called once per declared outbound edge, before the actor starts.
    fn new_outgoing_key(&mut self, key: &Self::Key);

    /// One-shot initialization. May send messages through `tx`, then chooses
    /// the first wait discipline or terminates immediately.
    fn start<T: Sender<Key = Self::Key, Message = Self::Message>>(&mut self, tx: &mut T) -> Result<
        NextState<Self::Message>,
        Self::Error,
    >;

    /// Process one delivered message. A null message signals that a timeout
    /// elapsed or that the inbox closed.
    fn process_message<T: Sender<Key = Self::Key, Message = Self::Message>>(
        &mut self,
        message: Option<Self::Message>,
        tx: &mut T,
    ) -> Result<NextState<Self::Message>, Self::Error>;
}

} // verus!
