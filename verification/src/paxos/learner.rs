//! The learner: it tallies votes by ballot and value, and decides a value
//! once more than half of the acceptors have voted for it at one ballot. Two
//! majorities always intersect, which is what makes a decision safe; the
//! quorum argument is proved here as [`lemma_quorum_agreement`].

use vstd::prelude::*;
use vstd::set_lib::{lemma_int_range, lemma_len_subset, lemma_set_disjoint_lens, set_int_range};

use crate::channel::lemma_push_no_duplicates;
use crate::internal::{ActorInternal, NextState, Sender};
use crate::paxos::{AgentID, AgentInternalError, Message, TimeStamp};

verus! {

/// The tally of one (ballot, value) pair: the acceptors that voted for it.
#[derive(Debug)]
struct VoteEntry {
    time: TimeStamp,
    value: String,
    voters: Vec<usize>,
}

/// How many acceptors back the (ballot, value) pair in `votes`; zero when no
/// entry carries it.
spec fn spec_tally(votes: Seq<VoteEntry>, ts: TimeStamp, v: Seq<char>) -> int {
    if exists|i: int|
        0 <= i < votes.len() && (#[trigger] votes[i]).time == ts && votes[i].value@ == v {
        let i = choose|i: int|
            0 <= i < votes.len() && (#[trigger] votes[i]).time == ts && votes[i].value@ == v;
        votes[i].voters@.len() as int
    } else {
        0
    }
}

/// Whether acceptor `a` is counted for the (ballot, value) pair in `votes`.
spec fn spec_voted(votes: Seq<VoteEntry>, ts: TimeStamp, v: Seq<char>, a: usize) -> bool {
    exists|i: int|
        0 <= i < votes.len() && (#[trigger] votes[i]).time == ts && votes[i].value@ == v && votes[i].voters@.contains(a)
}

/// With pairwise-distinct (ballot, value) pairs, the tally reads exactly the
/// entry that carries the pair.
proof fn lemma_tally_at(votes: Seq<VoteEntry>, i: int)
    requires
        0 <= i < votes.len(),
        forall|a: int, b: int|
            0 <= a < b < votes.len() ==> !((#[trigger] votes[a]).time == (
            #[trigger] votes[b]).time && votes[a].value@ == votes[b].value@),
    ensures
        spec_tally(votes, votes[i].time, votes[i].value@) == votes[i].voters@.len(),
        forall|a: usize|
            spec_voted(votes, votes[i].time, votes[i].value@, a) <==> votes[i].voters@.contains(a),
{
    let ts = votes[i].time;
    let v = votes[i].value@;
    assert(exists|w: int|
        0 <= w < votes.len() && (#[trigger] votes[w]).time == ts && votes[w].value@ == v) by {
        assert((#[trigger] votes[i]).time == ts && votes[i].value@ == v);
    }
    let w = choose|w: int|
        0 <= w < votes.len() && (#[trigger] votes[w]).time == ts && votes[w].value@ == v;
    if w < i {
        assert(!(votes[w].time == votes[i].time && votes[w].value@ == votes[i].value@));
    }
    if i < w {
        assert(!(votes[i].time == votes[w].time && votes[i].value@ == votes[w].value@));
    }
    assert forall|a: usize|
        spec_voted(votes, ts, v, a) <==> votes[i].voters@.contains(a) by {
        if spec_voted(votes, ts, v, a) {
            let q = choose|q: int|
                0 <= q < votes.len() && (#[trigger] votes[q]).time == ts && votes[q].value@ == v
                    && votes[q].voters@.contains(a);
            if q < i {
                assert(!(votes[q].time == votes[i].time && votes[q].value@ == votes[i].value@));
            }
            if i < q {
                assert(!(votes[i].time == votes[q].time && votes[i].value@ == votes[q].value@));
            }
        }
        if votes[i].voters@.contains(a) {
            assert((#[trigger] votes[i]).time == ts && votes[i].value@ == v
                && votes[i].voters@.contains(a));
        }
    }
}

/// A (ballot, value) pair carried by no entry has a zero tally and no counted
/// voter.
proof fn lemma_tally_absent(votes: Seq<VoteEntry>, ts: TimeStamp, v: Seq<char>)
    requires
        forall|i: int|
            0 <= i < votes.len() ==> !((#[trigger] votes[i]).time == ts && votes[i].value@ == v),
    ensures
        spec_tally(votes, ts, v) == 0,
        forall|a: usize| !spec_voted(votes, ts, v, a),
{
    assert forall|a: usize| !spec_voted(votes, ts, v, a) by {
        if spec_voted(votes, ts, v, a) {
            let q = choose|q: int|
                0 <= q < votes.len() && (#[trigger] votes[q]).time == ts && votes[q].value@ == v
                    && votes[q].voters@.contains(a);
        }
    }
    if exists|i: int|
        0 <= i < votes.len() && (#[trigger] votes[i]).time == ts && votes[i].value@ == v {
        let q = choose|i: int|
            0 <= i < votes.len() && (#[trigger] votes[i]).time == ts && votes[i].value@ == v;
        assert(false);
    }
}

/// The state of one learner.
#[derive(Debug)]
pub struct LearnerInternal {
    pub id: AgentID,
    value: Option<String>,
    votes: Vec<VoteEntry>,
    pub num_of_acceptors: usize,
}

impl LearnerInternal {
    /// The learner's identifier.
    pub closed spec fn agent_id(&self) -> AgentID {
        self.id
    }

    /// The learner's identifier.
    pub fn key(&self) -> (r: AgentID)
        ensures
            r == self.agent_id(),
    {
        self.id
    }

    /// The value the learner has decided, if any.
    pub closed spec fn decided(&self) -> Option<String> {
        self.value
    }

    /// How many acceptors the learner expects votes from.
    pub closed spec fn acceptor_count(&self) -> int {
        self.num_of_acceptors as int
    }

    /// How many acceptors back the (ballot, value) pair.
    pub closed spec fn tally(&self, ts: TimeStamp, v: Seq<char>) -> int {
        spec_tally(self.votes@, ts, v)
    }

    /// Whether acceptor `a` is counted for the (ballot, value) pair.
    pub closed spec fn voted(&self, ts: TimeStamp, v: Seq<char>, a: usize) -> bool {
        spec_voted(self.votes@, ts, v, a)
    }

    /// Whether some (ballot, value) pair is backed by more than half of the
    /// acceptors, for a value with the given characters.
    pub closed spec fn has_quorum(&self, v: Seq<char>) -> bool {
        exists|i: int|
            0 <= i < self.votes@.len() && (#[trigger] self.votes@[i]).value@ == v && self.votes@[i].voters@.len() > self.num_of_acceptors / 2
    }

    /// Whether some (ballot, value) pair with the given characters is backed
    /// by exactly `count` acceptors.
    pub closed spec fn has_tally(&self, v: Seq<char>, count: int) -> bool {
        exists|i: int|
            0 <= i < self.votes@.len() && (#[trigger] self.votes@[i]).value@ == v && self.votes@[i].voters@.len() == count
    }

    /// Tallies are per (ballot, value) pair, each acceptor is counted at most
    /// once per pair, and a decided value is backed by a quorum.
    pub closed spec fn inv(&self) -> bool {
        &&& forall|i: int, j: int|
            0 <= i < j < self.votes@.len() ==> !((#[trigger] self.votes@[i]).time == (
            #[trigger] self.votes@[j]).time && self.votes@[i].value@ == self.votes@[j].value@)
        &&& forall|i: int| 0 <= i < self.votes@.len() ==> (#[trigger] self.votes@[i]).voters@.no_duplicates()
        &&& (self.value matches Some(v) ==> self.has_quorum(v@))
    }

    /// A fresh learner: no votes recorded, no decision, no acceptors known.
    pub fn new(id: usize) -> (r: Self)
        ensures
            r.inv(),
            r.agent_id() == AgentID::Learner(id),
            r.decided() is None,
            r.acceptor_count() == 0,
    {
        LearnerInternal {
            id: AgentID::Learner(id),
            value: None,
            votes: Vec::new(),
            num_of_acceptors: 0,
        }
    }

    /// Fix how many acceptors gate a quorum.
    pub fn set_num_of_acceptors(&mut self, num: usize)
        ensures
            final(self).acceptor_count() == num,
            final(self).decided() == old(self).decided(),
    {
        self.num_of_acceptors = num;
    }

    /// The decided value, if any.
    pub fn value(&self) -> (r: Option<String>)
        ensures
            r == self.decided(),
    {
        match &self.value {
            Some(v) => Some(v.clone()),
            None => None,
        }
    }

    /// Record a vote by acceptor `id` for `value` at ballot `ts`, and report
    /// how many acceptors back that (ballot, value) pair now: one more than
    /// before, unless this acceptor was already counted for it.
    pub fn record_vote(&mut self, id: usize, ts: TimeStamp, value: String) -> (count: usize)
        ensures
            old(self).inv() ==> final(self).inv(),
            final(self).decided() == old(self).decided(),
            final(self).acceptor_count() == old(self).acceptor_count(),
            old(self).inv() ==> final(self).has_tally(value@, count as int),
            old(self).inv() ==> final(self).voted(ts, value@, id),
            old(self).inv() ==> count == final(self).tally(ts, value@),
            old(self).inv() ==> count == old(self).tally(ts, value@) + (if old(self).voted(
                ts,
                value@,
                id,
            ) {
                0int
            } else {
                1int
            }),
    {
        let n = self.votes.len();
        let mut i: usize = 0;
        while i < n
            invariant
                *self == *old(self),
                n == self.votes@.len(),
                0 <= i <= n,
                forall|j: int|
                    0 <= j < i ==> !((#[trigger] self.votes@[j]).time == ts && self.votes@[j].value@
                        == value@),
            decreases n - i,
        {
            if self.votes[i].time == ts && self.votes[i].value.eq(&value) {
                let entry = &mut self.votes[i];
                let ghost entry0 = *entry;
                let m = entry.voters.len();
                let mut k: usize = 0;
                let mut present = false;
                while k < m
                    invariant
                        *entry == entry0,
                        m == entry.voters@.len(),
                        0 <= k <= m,
                        present <==> exists|q: int| 0 <= q < k && (#[trigger] entry.voters@[q]) == id,
                    decreases m - k,
                {
                    if entry.voters[k] == id {
                        present = true;
                    }
                    k = k + 1;
                }
                if !present {
                    proof {
                        if entry0.voters@.no_duplicates() {
                            assert(!entry0.voters@.contains(id)) by {
                                if entry0.voters@.contains(id) {
                                    let q = choose|q: int|
                                        0 <= q < entry0.voters@.len() && entry0.voters@[q] == id;
                                }
                            }
                            lemma_push_no_duplicates(entry0.voters@, id);
                        }
                    }
                    entry.voters.push(id);
                }
                let count = entry.voters.len();
                proof {
                    if old(self).inv() {
                        assert(present <==> entry0.voters@.contains(id));
                        lemma_tally_at(old(self).votes@, i as int);
                        assert(old(self).tally(ts, value@) == entry0.voters@.len());
                        assert(old(self).voted(ts, value@, id) <==> present);
                    }
                }
                proof {
                    if old(self).inv() {
                        assert(self.votes@[i as int].value@ == value@);
                        assert forall|a: int, b: int|
                            0 <= a < b < self.votes@.len() implies !((#[trigger] self.votes@[a]).time == (#[trigger] self.votes@[b]).time && self.votes@[a].value@
                            == self.votes@[b].value@) by {
                            if a != i as int && b != i as int {
                                assert(self.votes@[a] == old(self).votes@[a]);
                                assert(self.votes@[b] == old(self).votes@[b]);
                            }
                        }
                        assert forall|a: int|
                            0 <= a < self.votes@.len() implies (#[trigger] self.votes@[a]).voters@.no_duplicates() by {
                            if a != i as int {
                                assert(self.votes@[a] == old(self).votes@[a]);
                            }
                        }
                        if old(self).value is Some {
                            let v = old(self).value->Some_0;
                            let w = choose|w: int|
                                0 <= w < old(self).votes@.len() && (#[trigger] old(self).votes@[w]).value@ == v@ && old(self).votes@[w].voters@.len()
                                    > old(self).num_of_acceptors / 2;
                            assert(self.votes@[w].value@ == v@ && self.votes@[w].voters@.len()
                                > self.num_of_acceptors / 2);
                        }
                        lemma_tally_at(self.votes@, i as int);
                        assert(self.tally(ts, value@) == count);
                        assert(self.voted(ts, value@, id)) by {
                            if !present {
                                assert(self.votes@[i as int].voters@.last() == id);
                            }
                        }
                    }
                }
                return count;
            }
            i = i + 1;
        }
        let mut voters: Vec<usize> = Vec::new();
        voters.push(id);
        self.votes.push(VoteEntry { time: ts, value, voters });
        proof {
            let last = self.votes@.len() - 1;
            assert(self.votes@[last].voters@ =~= seq![id]);
            if old(self).inv() {
                lemma_tally_absent(old(self).votes@, ts, value@);
                assert forall|a: int, b: int|
                    0 <= a < b < self.votes@.len() implies !((#[trigger] self.votes@[a]).time == (
                #[trigger] self.votes@[b]).time && self.votes@[a].value@ == self.votes@[b].value@)
                    by {
                    if b != last {
                        assert(self.votes@[a] == old(self).votes@[a]);
                        assert(self.votes@[b] == old(self).votes@[b]);
                    } else if a != last {
                        assert(self.votes@[a] == old(self).votes@[a]);
                    }
                }
                assert forall|a: int|
                    0 <= a < self.votes@.len() implies (#[trigger] self.votes@[a]).voters@.no_duplicates() by {
                    if a != last {
                        assert(self.votes@[a] == old(self).votes@[a]);
                    }
                }
                if old(self).value is Some {
                    let v = old(self).value->Some_0;
                    let w = choose|w: int|
                        0 <= w < old(self).votes@.len() && (#[trigger] old(self).votes@[w]).value@
                            == v@ && old(self).votes@[w].voters@.len() > old(self).num_of_acceptors / 2;
                    assert(self.votes@[w].value@ == v@ && self.votes@[w].voters@.len()
                        > self.num_of_acceptors / 2);
                }
                lemma_tally_at(self.votes@, last);
                assert(self.tally(ts, value@) == 1);
                assert(self.voted(ts, value@, id)) by {
                    assert(self.votes@[last].voters@.contains(id)) by {
                        assert(self.votes@[last].voters@[0] == id);
                    }
                }
            }
        }
        1
    }

    /// Process one vote message: tally it, and decide its value once more
    /// than half of the acceptors back it at one ballot. Any other message is
    /// refused unchanged.
    pub fn parse_message(&mut self, msg: Message) -> (r: Result<(), AgentInternalError>)
        ensures
            old(self).inv() ==> final(self).inv(),
            final(self).acceptor_count() == old(self).acceptor_count(),
            r is Err <==> !(msg matches Message::NewVote(AgentID::Acceptor(_), _, _)),
            r is Err ==> *final(self) == *old(self) && r == Err::<(), AgentInternalError>(
                AgentInternalError::WrongMessageType,
            ),
            old(self).decided() is Some ==> final(self).decided() is Some,
            old(self).inv() ==> (msg matches Message::NewVote(AgentID::Acceptor(a), ts, v) ==> {
                &&& final(self).voted(ts, v@, a)
                &&& final(self).tally(ts, v@) == old(self).tally(ts, v@) + (if old(self).voted(
                    ts,
                    v@,
                    a,
                ) {
                    0int
                } else {
                    1int
                })
                &&& (final(self).tally(ts, v@) > final(self).acceptor_count() / 2 ==> final(self).decided() == Some(v))
                &&& (final(self).tally(ts, v@) <= final(self).acceptor_count() / 2 ==> final(self).decided() == old(self).decided())
            }),
    {
        let (id, ts, value) = match msg {
            Message::NewVote(AgentID::Acceptor(id), ts, value) => (id, ts, value),
            _ => {
                return Err(AgentInternalError::WrongMessageType);
            },
        };
        let ghost pre = *self;
        let ghost gv = value@;
        let count = self.record_vote(id, ts, value.clone());
        if count > self.num_of_acceptors / 2 {
            proof {
                if pre.inv() {
                    assert(self.has_tally(gv, count as int));
                }
            }
            self.value = Some(value);
            proof {
                if pre.inv() {
                    let w = choose|w: int|
                        0 <= w < self.votes@.len() && (#[trigger] self.votes@[w]).value@ == gv
                            && self.votes@[w].voters@.len() == count;
                    assert(self.has_quorum(gv));
                }
            }
        }
        Ok(())
    }
}

impl ActorInternal for LearnerInternal {
    type Message = Message;

    type Key = AgentID;

    type Error = AgentInternalError;

    fn new_incoming_key(&mut self, key: &AgentID) {
        if key.is_acceptor() && self.num_of_acceptors < usize::MAX {
            self.num_of_acceptors = self.num_of_acceptors + 1;
        }
    }

    fn new_outgoing_key(&mut self, _key: &AgentID) {
    }

    fn start<S: Sender<Key = AgentID, Message = Message>>(&mut self, _tx: &mut S) -> Result<
        NextState<Message>,
        AgentInternalError,
    > {
        Ok(NextState::Get)
    }

    fn process_message<S: Sender<Key = AgentID, Message = Message>>(
        &mut self,
        message: Option<Message>,
        _tx: &mut S,
    ) -> Result<NextState<Message>, AgentInternalError> {
        if let Some(msg) = message {
            if let Err(e) = self.parse_message(msg) {
                return Err(e);
            }
        }
        match &self.value {
            Some(val) => Ok(
                NextState::Terminate(Some(Message::Terminated(self.id, val.clone()))),
            ),
            None => Ok(NextState::Get),
        }
    }
}

/// Quorum safety at one ballot: majorities intersect. If no acceptor casts
/// two different votes at one ballot — the ballot's vote relation is a map
/// from acceptor to value — then any two values each backed by more than half
/// of the `n` acceptors are the same value.
pub proof fn lemma_quorum_agreement(
    n: nat,
    votes: Map<int, Seq<char>>,
    q1: Set<int>,
    q2: Set<int>,
    v1: Seq<char>,
    v2: Seq<char>,
)
    requires
        q1.subset_of(set_int_range(0, n as int)),
        q2.subset_of(set_int_range(0, n as int)),
        q1.len() > n / 2,
        q2.len() > n / 2,
        forall|a: int| q1.contains(a) ==> votes.dom().contains(a) && votes[a] == v1,
        forall|a: int| q2.contains(a) ==> votes.dom().contains(a) && votes[a] == v2,
    ensures
        v1 == v2,
{
    lemma_int_range(0, n as int);
    lemma_len_subset(q1, set_int_range(0, n as int));
    lemma_len_subset(q2, set_int_range(0, n as int));
    if q1.disjoint(q2) {
        lemma_set_disjoint_lens(q1, q2);
        assert(q1.union(q2).subset_of(set_int_range(0, n as int)));
        lemma_len_subset(q1.union(q2), set_int_range(0, n as int));
        assert(q1.union(q2).len() == q1.len() + q2.len());
        assert(n / 2 + n / 2 + 1 >= n) by {
            assert(n % 2 < 2);
            assert(2 * (n / 2) + n % 2 == n) by (nonlinear_arith);
        }
        assert(false);
    } else {
        let a = choose|a: int| q1.contains(a) && q2.contains(a);
        assert(votes[a] == v1);
        assert(votes[a] == v2);
    }
}

} // verus!
