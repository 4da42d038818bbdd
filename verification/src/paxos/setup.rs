//! Assembling the consensus workload on any backend: acceptors, proposers
//! connected both ways with every acceptor, and learners — the terminal
//! actors — fed by every acceptor.

use vstd::prelude::*;

use crate::paxos::acceptor::AcceptorInternal;
use crate::paxos::learner::LearnerInternal;
use crate::paxos::proposer::ProposerInternal;
use crate::paxos::{AgentID, PaxosInternal, TimeStamp};
use crate::tasks::ActorType;
use crate::System;

verus! {

/// Wire up the consensus workload on the given backend: `n_acceptors`
/// acceptors, `n_learners` learners marked terminal and fed by every
/// acceptor, and one proposer per initial value, connected both ways with
/// every acceptor. Each initial value comes with the proposer's ballot range
/// and its deadline in milliseconds.
pub fn setup_paxos<S>(
    system: S,
    proposer_initial_values: Vec<(String, TimeStamp, u64)>,
    n_acceptors: usize,
    n_learners: usize,
    kind: ActorType,
) -> (r: S) where
    S: System<Internal = PaxosInternal>,
    S::ActorParameters: From<(ActorType, usize, usize)>,

    requires
        system.wf(),
    ensures
        r.wf(),
{
    let buffer: usize = 10000;
    let internal_buffer: usize = 1000;
    let mut sys = system;

    // The acceptors.
    let mut i: usize = 0;
    while i < n_acceptors
        invariant
            sys.wf(),
            forall|j: int|
                0 <= j < i ==> #[trigger] sys.actor_keys().contains(
                    AgentID::Acceptor(j as usize),
                ),
        decreases n_acceptors - i,
    {
        let internal = PaxosInternal::Acceptor(AcceptorInternal::new(i));
        sys.add_actor(
            AgentID::Acceptor(i),
            internal,
            Some((kind, buffer, internal_buffer).into()),
        );
        i = i + 1;
    }

    // The learners, each fed by every acceptor; they gate completion.
    let mut l: usize = 0;
    while l < n_learners
        invariant
            sys.wf(),
            forall|j: int|
                0 <= j < n_acceptors ==> #[trigger] sys.actor_keys().contains(
                    AgentID::Acceptor(j as usize),
                ),
        decreases n_learners - l,
    {
        let internal = PaxosInternal::Learner(LearnerInternal::new(l));
        let id = AgentID::Learner(l);
        sys.add_actor(id, internal, Some((kind, buffer, internal_buffer).into()));
        sys.add_terminal(id);
        let mut j: usize = 0;
        while j < n_acceptors
            invariant
                sys.wf(),
                sys.actor_keys().contains(id),
                forall|q: int|
                    0 <= q < n_acceptors ==> #[trigger] sys.actor_keys().contains(
                        AgentID::Acceptor(q as usize),
                    ),
            decreases n_acceptors - j,
        {
            proof {
                assert(sys.actor_keys().contains(AgentID::Acceptor((j as int) as usize)));
            }
            sys.add_channel(&AgentID::Acceptor(j), &id);
            j = j + 1;
        }
        l = l + 1;
    }

    // The proposers, connected both ways with every acceptor.
    let n_proposers = proposer_initial_values.len();
    let mut p: usize = 0;
    while p < n_proposers
        invariant
            n_proposers == proposer_initial_values@.len(),
            sys.wf(),
            forall|j: int|
                0 <= j < n_acceptors ==> #[trigger] sys.actor_keys().contains(
                    AgentID::Acceptor(j as usize),
                ),
        decreases n_proposers - p,
    {
        let entry = &proposer_initial_values[p];
        let value = entry.0.clone();
        let range = entry.1;
        let deadline = entry.2;
        let internal = PaxosInternal::Proposer(ProposerInternal::new(p, value, range, deadline));
        let id = AgentID::Proposer(p);
        sys.add_actor(id, internal, Some((kind, buffer, internal_buffer).into()));
        let mut j: usize = 0;
        while j < n_acceptors
            invariant
                sys.wf(),
                sys.actor_keys().contains(id),
                forall|q: int|
                    0 <= q < n_acceptors ==> #[trigger] sys.actor_keys().contains(
                        AgentID::Acceptor(q as usize),
                    ),
            decreases n_acceptors - j,
        {
            proof {
                assert(sys.actor_keys().contains(AgentID::Acceptor((j as int) as usize)));
            }
            sys.add_channel(&AgentID::Acceptor(j), &id);
            sys.add_channel(&id, &AgentID::Acceptor(j));
            j = j + 1;
        }
        p = p + 1;
    }
    sys
}

} // verus!
