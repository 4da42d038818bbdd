//! The reference workload of the runtime: single-decree consensus among
//! proposers, acceptors and learners, written as actor state machines. It
//! exercises timeouts, broadcast, quorum counting, message dispatch and the
//! closure of non-terminal actors; learners are the terminal actors, and the
//! value a learner terminates with is safe under the quorum argument proved
//! in [`learner`].

use vstd::prelude::*;

pub mod acceptor;
pub mod learner;
pub mod proposer;
pub mod setup;

use crate::internal::{ActorInternal, EqKey, NextState, Sender};

pub use setup::setup_paxos;

verus! {

/// A ballot number: proposals are ordered by it.
pub type TimeStamp = u32;

/// The identifier of one consensus actor.
#[derive(Debug, Clone, Copy, PartialEq, Eq, Structural)]
pub enum AgentID {
    Proposer(usize),
    Acceptor(usize),
    Learner(usize),
}

impl AgentID {
    pub fn is_proposer(&self) -> (r: bool)
        ensures
            r <==> self is Proposer,
    {
        matches!(self, AgentID::Proposer(_))
    }

    pub fn is_acceptor(&self) -> (r: bool)
        ensures
            r <==> self is Acceptor,
    {
        matches!(self, AgentID::Acceptor(_))
    }

    pub fn is_learner(&self) -> (r: bool)
        ensures
            r <==> self is Learner,
    {
        matches!(self, AgentID::Learner(_))
    }
}

impl EqKey for AgentID {
    fn key_eq(&self, other: &Self) -> (r: bool)
        ensures
            r <==> (self == other),
    {
        *self == *other
    }
}

/// The messages the consensus actors exchange.
#[derive(Debug, Clone, PartialEq, Eq)]
pub enum Message {
    /// A proposer announces a new ballot to the acceptors.
    NewTime(TimeStamp, AgentID),
    /// A proposer proposes a value at its ballot.
    Proposal(TimeStamp, String, AgentID),
    /// An acknowledgment of a ballot.
    Accept(TimeStamp),
    /// An acceptor tells the learners it accepted a value at a ballot.
    NewVote(AgentID, TimeStamp, String),
    /// An acceptor answers a ballot announcement with its current promise and
    /// whatever it last accepted.
    UpdatedTime(TimeStamp, Option<String>, Option<TimeStamp>, AgentID),
    /// A learner announces the value it decided.
    Terminated(AgentID, String),
}

/// An error raised by a consensus actor's own state machine.
#[derive(Debug, Clone, PartialEq, Eq)]
pub enum AgentInternalError {
    WrongMessageType,
    NoMessage,
    NoAcceptedTime,
    NoConsensus,
}

/// One consensus actor of any kind, dispatching each hook to the active
/// variant. All variants share the message, key and error types.
#[derive(Debug)]
pub enum PaxosInternal {
    Learner(learner::LearnerInternal),
    Proposer(proposer::ProposerInternal),
    Acceptor(acceptor::AcceptorInternal),
}

impl PaxosInternal {
    /// The identifier of the wrapped actor.
    pub fn id(&self) -> AgentID {
        match self {
            PaxosInternal::Learner(internal) => internal.key(),
            PaxosInternal::Proposer(internal) => internal.key(),
            PaxosInternal::Acceptor(internal) => internal.key(),
        }
    }
}

impl ActorInternal for PaxosInternal {
    type Message = Message;

    type Key = AgentID;

    type Error = AgentInternalError;

    fn new_incoming_key(&mut self, key: &AgentID) {
        match self {
            PaxosInternal::Learner(internal) => internal.new_incoming_key(key),
            PaxosInternal::Proposer(internal) => internal.new_incoming_key(key),
            PaxosInternal::Acceptor(internal) => internal.new_incoming_key(key),
        }
    }

    fn new_outgoing_key(&mut self, key: &AgentID) {
        match self {
            PaxosInternal::Learner(internal) => internal.new_outgoing_key(key),
            PaxosInternal::Proposer(internal) => internal.new_outgoing_key(key),
            PaxosInternal::Acceptor(internal) => internal.new_outgoing_key(key),
        }
    }

    fn start<T: Sender<Key = AgentID, Message = Message>>(&mut self, tx: &mut T) -> Result<
        NextState<Message>,
        AgentInternalError,
    > {
        match self {
            PaxosInternal::Learner(internal) => internal.start(tx),
            PaxosInternal::Proposer(internal) => internal.start(tx),
            PaxosInternal::Acceptor(internal) => internal.start(tx),
        }
    }

    fn process_message<T: Sender<Key = AgentID, Message = Message>>(
        &mut self,
        message: Option<Message>,
        tx: &mut T,
    ) -> Result<NextState<Message>, AgentInternalError> {
        match self {
            PaxosInternal::Learner(internal) => internal.process_message(message, tx),
            PaxosInternal::Proposer(internal) => internal.process_message(message, tx),
            PaxosInternal::Acceptor(internal) => internal.process_message(message, tx),
        }
    }
}

} // verus!
