//! The acceptor: it promises never to go back to a smaller ballot, accepts a
//! proposal whose ballot is at least its promise, and announces every
//! acceptance to all learners.

use vstd::prelude::*;

use crate::internal::{ActorInternal, EqKey, NextState, Sender};
use crate::paxos::{AgentID, AgentInternalError, Message, TimeStamp};

verus! {

/// The state of one acceptor.
#[derive(Debug)]
pub struct AcceptorInternal {
    pub id: AgentID,
    pub(crate) learners: Vec<AgentID>,
    pub(crate) proposers: Vec<AgentID>,
    accepted_value: Option<String>,
    accepted_time: Option<TimeStamp>,
    time: TimeStamp,
}

impl AcceptorInternal {
    /// The acceptor's identifier.
    pub closed spec fn agent_id(&self) -> AgentID {
        self.id
    }

    /// The acceptor's identifier.
    pub fn key(&self) -> (r: AgentID)
        ensures
            r == self.agent_id(),
    {
        self.id
    }

    /// The highest ballot the acceptor has promised.
    pub closed spec fn current_time(&self) -> TimeStamp {
        self.time
    }

    /// The value the acceptor last accepted, if any.
    pub closed spec fn accepted_value(&self) -> Option<String> {
        self.accepted_value
    }

    /// The ballot at which the acceptor last accepted, if any.
    pub closed spec fn accepted_time(&self) -> Option<TimeStamp> {
        self.accepted_time
    }

    /// An acceptor either accepted nothing yet, or holds both the accepted
    /// value and its ballot, and its promise is at least that ballot.
    pub closed spec fn wf(&self) -> bool {
        &&& self.accepted_value is Some <==> self.accepted_time is Some
        &&& (self.accepted_time matches Some(t) ==> t <= self.time)
    }

    /// A fresh acceptor: nothing promised, nothing accepted.
    pub fn new(id: usize) -> (r: Self)
        ensures
            r.wf(),
            r.agent_id() == AgentID::Acceptor(id),
            r.current_time() == 0,
            r.accepted_value() is None,
            r.accepted_time() is None,
    {
        AcceptorInternal {
            id: AgentID::Acceptor(id),
            learners: Vec::new(),
            proposers: Vec::new(),
            accepted_value: None,
            accepted_time: None,
            time: 0,
        }
    }

    /// Record an acceptance outright.
    pub fn accept_value(&mut self, ts: TimeStamp, value: String)
        ensures
            final(self).wf(),
            final(self).accepted_value() == Some(value),
            final(self).accepted_time() == Some(ts),
            final(self).current_time() == ts,
    {
        self.accepted_value = Some(value);
        self.accepted_time = Some(ts);
        self.time = ts;
    }

    /// Accept a proposal exactly when its ballot is at least the current
    /// promise; an accepted proposal becomes the accepted value, and the
    /// promise moves to its ballot.
    fn parse_proposal(&mut self, ts: TimeStamp, value: String) -> (r: bool)
        ensures
            old(self).wf() ==> final(self).wf(),
            r <==> ts >= old(self).current_time(),
            r ==> final(self).current_time() == ts && final(self).accepted_value() == Some(value)
                && final(self).accepted_time() == Some(ts),
            !r ==> *final(self) == *old(self),
    {
        if ts < self.time {
            return false;
        }
        self.time = ts;
        self.accepted_value = Some(value);
        self.accepted_time = Some(ts);
        true
    }

    /// Move the promise to a strictly larger ballot and answer with the
    /// current acceptance; a ballot not above the promise is ignored.
    fn parse_new_time(&mut self, ts: TimeStamp) -> (r: Option<Message>)
        ensures
            old(self).wf() ==> final(self).wf(),
            ts <= old(self).current_time() ==> r is None && *final(self) == *old(self),
            ts > old(self).current_time() ==> {
                &&& final(self).current_time() == ts
                &&& final(self).accepted_value() == old(self).accepted_value()
                &&& final(self).accepted_time() == old(self).accepted_time()
                &&& r == Some(
                    Message::UpdatedTime(
                        ts,
                        old(self).accepted_value(),
                        old(self).accepted_time(),
                        old(self).agent_id(),
                    ),
                )
            },
    {
        if ts <= self.time {
            return None;
        }
        self.time = ts;
        let value = match &self.accepted_value {
            Some(v) => Some(v.clone()),
            None => None,
        };
        let msg = Message::UpdatedTime(self.time, value, self.accepted_time, self.id);
        Some(msg)
    }

    /// The vote announcing the current acceptance; an acceptor that accepted
    /// nothing yet has no vote.
    fn make_vote(&self) -> (r: Result<Message, AgentInternalError>)
        ensures
            self.accepted_value() is Some && self.accepted_time() is Some ==> r == Ok::<
                Message,
                AgentInternalError,
            >(
                Message::NewVote(
                    self.agent_id(),
                    self.accepted_time()->Some_0,
                    self.accepted_value()->Some_0,
                ),
            ),
            self.accepted_value() is None || self.accepted_time() is None ==> r == Err::<
                Message,
                AgentInternalError,
            >(AgentInternalError::NoAcceptedTime),
    {
        match (&self.accepted_value, &self.accepted_time) {
            (Some(value), Some(time)) => Ok(Message::NewVote(self.id, *time, value.clone())),
            _ => Err(AgentInternalError::NoAcceptedTime),
        }
    }

    fn remember_proposer(&mut self, id: &AgentID)
        ensures
            old(self).wf() ==> final(self).wf(),
            final(self).current_time() == old(self).current_time(),
            final(self).accepted_value() == old(self).accepted_value(),
            final(self).accepted_time() == old(self).accepted_time(),
    {
        let n = self.proposers.len();
        let mut i: usize = 0;
        while i < n
            invariant
                *self == *old(self),
                n == self.proposers@.len(),
                0 <= i <= n,
            decreases n - i,
        {
            if self.proposers[i].key_eq(id) {
                return ;
            }
            i = i + 1;
        }
        self.proposers.push(*id);
    }
}

impl ActorInternal for AcceptorInternal {
    type Message = Message;

    type Key = AgentID;

    type Error = AgentInternalError;

    fn new_incoming_key(&mut self, _key: &AgentID) {
    }

    fn new_outgoing_key(&mut self, key: &AgentID) {
        if key.is_learner() {
            let n = self.learners.len();
            let mut i: usize = 0;
            while i < n
                invariant
                    n == self.learners@.len(),
                    0 <= i <= n,
                decreases n - i,
            {
                if self.learners[i].key_eq(key) {
                    return ;
                }
                i = i + 1;
            }
            self.learners.push(*key);
        }
    }

    fn start<S: Sender<Key = AgentID, Message = Message>>(&mut self, _tx: &mut S) -> Result<
        NextState<Message>,
        AgentInternalError,
    > {
        Ok(NextState::Get)
    }

    fn process_message<S: Sender<Key = AgentID, Message = Message>>(
        &mut self,
        message: Option<Message>,
        tx: &mut S,
    ) -> Result<NextState<Message>, AgentInternalError> {
        if let Some(msg) = message {
            match msg {
                Message::NewTime(ts, id) => {
                    self.remember_proposer(&id);
                    if let Some(m) = self.parse_new_time(ts) {
                        // A proposer that is already gone is not the
                        // acceptor's failure.
                        let _ = tx.send(&id, m);
                    }
                },
                Message::Proposal(ts, value, _id) => {
                    if self.parse_proposal(ts, value) {
                        match self.make_vote() {
                            Ok(Message::NewVote(id, t, v)) => {
                                self.broadcast_vote(id, t, &v, tx);
                            },
                            Ok(_) => {},
                            Err(e) => {
                                return Err(e);
                            },
                        }
                    }
                },
                _ => {
                    return Err(AgentInternalError::WrongMessageType);
                },
            }
            Ok(NextState::Get)
        } else {
            Ok(NextState::Get)
        }
    }
}

impl AcceptorInternal {
    /// Send the vote to every learner.
    fn broadcast_vote<S: Sender<Key = AgentID, Message = Message>>(
        &self,
        id: AgentID,
        t: TimeStamp,
        v: &String,
        tx: &mut S,
    ) {
        let n = self.learners.len();
        let mut i: usize = 0;
        while i < n
            invariant
                n == self.learners@.len(),
                0 <= i <= n,
            decreases n - i,
        {
            let _ = tx.send(&self.learners[i], Message::NewVote(id, t, v.clone()));
            i = i + 1;
        }
    }
}

} // verus!
