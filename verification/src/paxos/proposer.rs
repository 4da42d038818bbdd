//! The proposer: it announces a fresh random ballot to all acceptors, gathers
//! their answers, and on a majority proposes a value — its own, or the one
//! accepted at the highest ballot among the answers, which is what carries an
//! earlier decision forward. When the answers do not arrive in time it starts
//! over with a larger ballot.

use vstd::prelude::*;

use crate::internal::{ActorInternal, EqKey, NextState, Sender};
use crate::paxos::{AgentID, AgentInternalError, Message, TimeStamp};

verus! {

/// Relies on rand's `Rng::gen_range` over `0..bound`: the sample lies in the
/// requested range, which is non-empty because `bound > 0`.
#[verifier::external_body]
fn random_below(bound: u32) -> (r: u32)
    requires
        bound > 0,
    ensures
        r < bound,
{
    rand::Rng::gen_range(&mut rand::thread_rng(), 0..bound)
}

/// The answers gathered for the current ballot.
#[derive(Debug)]
struct Buffer {
    acc_votes: Vec<usize>,
    max_time: Option<TimeStamp>,
    value: Option<String>,
}

impl Buffer {
    fn new() -> (r: Self)
        ensures
            r.acc_votes@ == Seq::<usize>::empty(),
            r.max_time is None,
            r.value is None,
    {
        Buffer { acc_votes: Vec::new(), max_time: None, value: None }
    }
}

/// The state of one proposer.
#[derive(Debug)]
pub struct ProposerInternal {
    pub id: AgentID,
    time: TimeStamp,
    timeout: u64,
    rng_range: TimeStamp,
    value: String,
    buffer: Buffer,
    pub(crate) acceptors: Vec<AgentID>,
}

impl ProposerInternal {
    /// The proposer's identifier.
    pub closed spec fn agent_id(&self) -> AgentID {
        self.id
    }

    /// The proposer's identifier.
    pub fn key(&self) -> (r: AgentID)
        ensures
            r == self.agent_id(),
    {
        self.id
    }

    /// The proposer's current ballot.
    pub closed spec fn current_time(&self) -> TimeStamp {
        self.time
    }

    /// The value the proposer will propose at its current ballot.
    pub closed spec fn proposal_value(&self) -> String {
        self.value
    }

    /// How many acceptors answered the current ballot.
    pub closed spec fn vote_count(&self) -> int {
        self.buffer.acc_votes@.len() as int
    }

    /// How many acceptors the proposer addresses.
    pub closed spec fn acceptor_count(&self) -> int {
        self.acceptors@.len() as int
    }

    /// Whether acceptor `a` has answered the current ballot.
    pub closed spec fn has_vote(&self, a: usize) -> bool {
        self.buffer.acc_votes@.contains(a)
    }

    /// Each answering acceptor is counted at most once per ballot.
    pub closed spec fn inv(&self) -> bool {
        self.buffer.acc_votes@.no_duplicates()
    }

    /// A fresh proposer with its initial value, ballot range, and deadline in
    /// milliseconds.
    pub fn new(id: usize, init_value: String, rng_range: TimeStamp, timeout: u64) -> (r: Self)
        ensures
            r.inv(),
            r.agent_id() == AgentID::Proposer(id),
            r.current_time() == 0,
            r.proposal_value() == init_value,
            r.vote_count() == 0,
            r.acceptor_count() == 0,
    {
        ProposerInternal {
            id: AgentID::Proposer(id),
            time: 0,
            value: init_value,
            timeout,
            rng_range,
            acceptors: Vec::new(),
            buffer: Buffer::new(),
        }
    }

    /// Move to a new ballot, forgetting the answers gathered for the old one;
    /// moving to the current ballot changes nothing.
    pub fn set_new_time(&mut self, time: TimeStamp) -> (r: Result<(), AgentInternalError>)
        ensures
            r is Ok,
            final(self).current_time() == time,
            old(self).inv() ==> final(self).inv(),
            time == old(self).current_time() ==> *final(self) == *old(self),
            time != old(self).current_time() ==> final(self).inv() && final(self).vote_count() == 0
                && final(self).proposal_value() == old(self).proposal_value(),
    {
        if time == self.time {
            return Ok(());
        }
        self.time = time;
        self.buffer = Buffer::new();
        Ok(())
    }

    /// Adopt the value accepted at the highest ballot among the answers, if
    /// any answer carried one.
    pub fn update_value(&mut self)
        ensures
            final(self).inv() == old(self).inv(),
            final(self).current_time() == old(self).current_time(),
            final(self).vote_count() == old(self).vote_count(),
            final(self).acceptor_count() == old(self).acceptor_count(),
            forall|a: usize| final(self).has_vote(a) == old(self).has_vote(a),
    {
        let adopted = match &self.buffer.value {
            Some(val) => Some(val.clone()),
            None => None,
        };
        if let Some(val) = adopted {
            self.value = val;
        }
    }

    /// Tally one answer to the current ballot: the answering acceptor is
    /// counted, once. Returns whether the answers now form a majority of the
    /// acceptors; if they do, the proposal value has been updated to the
    /// answer set's choice. An answer to another ballot changes nothing.
    pub fn parse_updated_time(
        &mut self,
        ts: TimeStamp,
        acc_value: Option<String>,
        acc_t: Option<TimeStamp>,
        acc_id: usize,
    ) -> (r: bool)
        ensures
            old(self).inv() ==> final(self).inv(),
            final(self).current_time() == old(self).current_time(),
            final(self).acceptor_count() == old(self).acceptor_count(),
            ts != old(self).current_time() ==> !r && *final(self) == *old(self),
            ts == old(self).current_time() ==> {
                &&& final(self).has_vote(acc_id)
                &&& (forall|a: usize|
                    final(self).has_vote(a) <==> old(self).has_vote(a) || a == acc_id)
                &&& final(self).vote_count() == old(self).vote_count() + (if old(self).has_vote(acc_id) {
                    0int
                } else {
                    1int
                })
            },
            r <==> (ts == old(self).current_time() && final(self).vote_count() > final(self).acceptor_count() / 2),
    {
        if ts != self.time {
            return false;
        }

        let m = self.buffer.acc_votes.len();
        let mut k: usize = 0;
        let mut present = false;
        while k < m
            invariant
                *self == *old(self),
                m == self.buffer.acc_votes@.len(),
                0 <= k <= m,
                present <==> exists|q: int|
                    0 <= q < k && (#[trigger] self.buffer.acc_votes@[q]) == acc_id,
            decreases m - k,
        {
            if self.buffer.acc_votes[k] == acc_id {
                present = true;
            }
            k = k + 1;
        }
        proof {
            assert(present <==> old(self).has_vote(acc_id)) by {
                if present {
                    let q = choose|q: int|
                        0 <= q < self.buffer.acc_votes@.len() && self.buffer.acc_votes@[q]
                            == acc_id;
                }
                if old(self).has_vote(acc_id) {
                    let q = choose|q: int|
                        0 <= q < self.buffer.acc_votes@.len() && self.buffer.acc_votes@[q]
                            == acc_id;
                }
            }
        }
        if !present {
            let ghost pre = self.buffer.acc_votes@;
            proof {
                if pre.no_duplicates() {
                    assert(!pre.contains(acc_id)) by {
                        if pre.contains(acc_id) {
                            let q = choose|q: int| 0 <= q < pre.len() && pre[q] == acc_id;
                        }
                    }
                    crate::channel::lemma_push_no_duplicates(pre, acc_id);
                }
            }
            self.buffer.acc_votes.push(acc_id);
            proof {
                assert(self.buffer.acc_votes@.last() == acc_id);
                assert forall|a: usize|
                    self.buffer.acc_votes@.contains(a) <==> pre.contains(a) || a == acc_id by {
                    if self.buffer.acc_votes@.contains(a) {
                        let q = choose|q: int|
                            0 <= q < self.buffer.acc_votes@.len() && self.buffer.acc_votes@[q]
                                == a;
                        if q < pre.len() {
                            assert(pre[q] == a);
                        }
                    }
                    if pre.contains(a) {
                        let q = choose|q: int| 0 <= q < pre.len() && pre[q] == a;
                        assert(self.buffer.acc_votes@[q] == a);
                    }
                    if a == acc_id {
                        assert(self.buffer.acc_votes@.last() == a);
                    }
                }
            }
        }

        let newer = match (&acc_t, &self.buffer.max_time) {
            (Some(at), Some(mt)) => *at > *mt,
            (Some(_), None) => true,
            _ => false,
        };
        if newer {
            self.buffer.value = acc_value;
            self.buffer.max_time = acc_t;
        }

        if self.buffer.acc_votes.len() > self.acceptors.len() / 2 {
            self.update_value();
            return true;
        }
        false
    }

    /// Dispatch one message: only an acceptor's answer to a ballot is
    /// accepted here. The answer is tallied, and `Ok(true)` comes back
    /// exactly when the current ballot's answers now form a majority.
    pub fn parse_message(&mut self, msg: Message) -> (r: Result<bool, AgentInternalError>)
        ensures
            old(self).inv() ==> final(self).inv(),
            final(self).current_time() == old(self).current_time(),
            final(self).acceptor_count() == old(self).acceptor_count(),
            r is Err <==> !(msg matches Message::UpdatedTime(_, _, _, AgentID::Acceptor(_))),
            r is Err ==> *final(self) == *old(self) && r == Err::<bool, AgentInternalError>(
                AgentInternalError::WrongMessageType,
            ),
            (msg matches Message::UpdatedTime(ts, av, at, AgentID::Acceptor(a)) ==> {
                &&& (ts == old(self).current_time() ==> final(self).has_vote(a))
                &&& (ts != old(self).current_time() ==> *final(self) == *old(self))
                &&& r == Ok::<bool, AgentInternalError>(
                    ts == old(self).current_time() && final(self).vote_count() > final(self).acceptor_count() / 2,
                )
            }),
    {
        let (ts, acc_val, acc_t, id) = match msg {
            Message::UpdatedTime(ts, acc_val, acc_t, acc_id) => (ts, acc_val, acc_t, acc_id),
            _ => {
                return Err(AgentInternalError::WrongMessageType);
            },
        };

        let acc_id = match id {
            AgentID::Acceptor(x) => x,
            _ => {
                return Err(AgentInternalError::WrongMessageType);
            },
        };

        let accept = self.parse_updated_time(ts, acc_val, acc_t, acc_id);
        Ok(accept)
    }

    /// The proposal for the current ballot.
    pub fn make_proposal(&self) -> (r: Message)
        ensures
            r == Message::Proposal(self.current_time(), self.proposal_value(), self.agent_id()),
    {
        Message::Proposal(self.time, self.value.clone(), self.id)
    }

    /// Move to the given ballot and announce it to every acceptor; then wait
    /// for their answers, up to the deadline.
    fn new_ballot<S: Sender<Key = AgentID, Message = Message>>(
        &mut self,
        time: TimeStamp,
        tx: &mut S,
    ) -> (r: Result<NextState<Message>, AgentInternalError>)
        ensures
            final(self).current_time() == time,
            old(self).inv() ==> final(self).inv(),
    {
        let _ = self.set_new_time(time);
        let ghost mid = *self;
        let n = self.acceptors.len();
        let mut i: usize = 0;
        while i < n
            invariant
                n == self.acceptors@.len(),
                0 <= i <= n,
                *self == mid,
            decreases n - i,
        {
            let message = Message::NewTime(self.time, self.id);
            let _ = tx.send(&self.acceptors[i], message);
            i = i + 1;
        }
        Ok(NextState::GetTimeout(self.timeout))
    }

    /// Send the current proposal to every acceptor.
    fn broadcast_proposal<S: Sender<Key = AgentID, Message = Message>>(&self, tx: &mut S) {
        let n = self.acceptors.len();
        let mut i: usize = 0;
        while i < n
            invariant
                n == self.acceptors@.len(),
                0 <= i <= n,
            decreases n - i,
        {
            let proposal = self.make_proposal();
            let _ = tx.send(&self.acceptors[i], proposal);
            i = i + 1;
        }
    }

    fn fresh_ballot_increment(&self) -> (r: TimeStamp)
        ensures
            self.rng_range > 0 ==> r < self.rng_range,
            self.rng_range == 0 ==> r == 0,
    {
        if self.rng_range > 0 {
            random_below(self.rng_range)
        } else {
            0
        }
    }
}

impl ActorInternal for ProposerInternal {
    type Message = Message;

    type Key = AgentID;

    type Error = AgentInternalError;

    fn new_incoming_key(&mut self, _key: &AgentID) {
    }

    fn new_outgoing_key(&mut self, key: &AgentID) {
        if key.is_acceptor() {
            let n = self.acceptors.len();
            let mut i: usize = 0;
            while i < n
                invariant
                    n == self.acceptors@.len(),
                    0 <= i <= n,
                decreases n - i,
            {
                if self.acceptors[i].key_eq(key) {
                    return ;
                }
                i = i + 1;
            }
            self.acceptors.push(*key);
        }
    }

    fn start<S: Sender<Key = AgentID, Message = Message>>(&mut self, tx: &mut S) -> Result<
        NextState<Message>,
        AgentInternalError,
    > {
        let time = self.fresh_ballot_increment();
        self.new_ballot(time, tx)
    }

    fn process_message<S: Sender<Key = AgentID, Message = Message>>(
        &mut self,
        message: Option<Message>,
        tx: &mut S,
    ) -> Result<NextState<Message>, AgentInternalError> {
        if let Some(msg) = message {
            let accept = match self.parse_message(msg) {
                Ok(accept) => accept,
                Err(e) => {
                    return Err(e);
                },
            };
            if accept {
                self.broadcast_proposal(tx);
            }
            return Ok(NextState::GetTimeout(self.timeout));
        }
        // The deadline elapsed with no answer: start over with a larger
        // ballot.
        let increment = self.fresh_ballot_increment();
        let time = self.time.saturating_add(increment);
        self.new_ballot(time, tx)
    }
}

} // verus!
