//! The ghost record of the calls a runtime makes into one actor, and the
//! lifecycle discipline every backend obeys: all topology callbacks first,
//! then one `start`, then any number of message steps, and — if the actor
//! terminates — a final termination acknowledgment after which it is never
//! called again.

use vstd::prelude::*;

verus! {

/// One call made by the runtime into an actor, as recorded in the actor's
/// ghost log.
pub enum Hook<K, M> {
    /// A `new_incoming_key` topology callback.
    IncomingKey(K),
    /// A `new_outgoing_key` topology callback.
    OutgoingKey(K),
    /// The one-shot `start` hook.
    Started,
    /// One `process_message` step, with the message it was handed
    /// (`None` for a timeout or a closed inbox).
    Stepped(Option<M>),
    /// The runtime's acknowledgment of the actor's `Terminate`, with the
    /// optional final value. Nothing follows it.
    Terminated(Option<M>),
}

/// Whether a hook is a topology callback.
pub open spec fn is_topology_hook<K, M>(h: Hook<K, M>) -> bool {
    h is IncomingKey || h is OutgoingKey
}

/// The position of a hook in the lifecycle order.
pub open spec fn hook_rank<K, M>(h: Hook<K, M>) -> int {
    match h {
        Hook::IncomingKey(_) => 0,
        Hook::OutgoingKey(_) => 0,
        Hook::Started => 1,
        Hook::Stepped(_) => 2,
        Hook::Terminated(_) => 3,
    }
}

/// The lifecycle discipline over a complete log of calls into one actor:
/// every topology callback precedes `start`; `start` precedes every step;
/// `start` happens at most once; a termination is the last entry; and no step
/// or termination happens before `start`.
pub open spec fn lifecycle_ok<K, M>(log: Seq<Hook<K, M>>) -> bool {
    &&& forall|i: int, j: int|
        0 <= i < j < log.len() ==> #[trigger] hook_rank(log[i]) <= #[trigger] hook_rank(log[j])
    &&& forall|i: int, j: int|
        0 <= i < j < log.len() ==> !(#[trigger] log[i] is Started && #[trigger] log[j] is Started)
    &&& forall|i: int, j: int|
        0 <= i < j < log.len() ==> !(#[trigger] log[i] is Terminated
            && #[trigger] log[j] is Terminated)
    &&& forall|j: int|
        0 <= j < log.len() && (#[trigger] log[j] is Stepped || log[j] is Terminated)
            ==> exists|i: int| 0 <= i < j && #[trigger] log[i] is Started
}

/// Whether a log holds the one-shot start.
pub open spec fn has_started<K, M>(log: Seq<Hook<K, M>>) -> bool {
    exists|i: int| 0 <= i < log.len() && log[i] is Started
}

/// The log of an actor that is still in its set-up phase: topology callbacks
/// only.
pub open spec fn setup_log<K, M>(topo: Seq<Hook<K, M>>) -> bool {
    forall|i: int| 0 <= i < topo.len() ==> is_topology_hook(#[trigger] topo[i])
}

/// The full log of a started actor, assembled from its parts: the topology
/// callbacks, the start, and the messages handed to its steps so far.
pub open spec fn running_log<K, M>(topo: Seq<Hook<K, M>>, steps: Seq<Option<M>>) -> Seq<
    Hook<K, M>,
> {
    topo + seq![Hook::<K, M>::Started] + steps.map_values(|m: Option<M>| Hook::<K, M>::Stepped(m))
}

/// The full log of a terminated actor: a running log closed by the
/// termination acknowledgment.
pub open spec fn done_log<K, M>(
    topo: Seq<Hook<K, M>>,
    steps: Seq<Option<M>>,
    value: Option<M>,
) -> Seq<Hook<K, M>> {
    running_log(topo, steps).push(Hook::Terminated(value))
}

/// A running log obeys the lifecycle discipline.
pub proof fn lemma_running_log_lifecycle<K, M>(topo: Seq<Hook<K, M>>, steps: Seq<Option<M>>)
    requires
        setup_log(topo),
    ensures
        lifecycle_ok(running_log(topo, steps)),
{
    let log = running_log(topo, steps);
    let c = topo.len() as int;
    assert forall|i: int| 0 <= i < log.len() implies #[trigger] hook_rank(log[i]) == if i < c {
        0int
    } else if i == c {
        1int
    } else {
        2int
    } by {
        if i < c {
            assert(is_topology_hook(topo[i]));
        }
    }
    assert forall|j: int|
        0 <= j < log.len() && (#[trigger] log[j] is Stepped || log[j] is Terminated) implies exists|
        i: int,
    | 0 <= i < j && #[trigger] log[i] is Started by {
        assert(log[c] is Started);
        assert(0 <= c < j);
    }
}

/// A terminated log obeys the lifecycle discipline.
pub proof fn lemma_done_log_lifecycle<K, M>(
    topo: Seq<Hook<K, M>>,
    steps: Seq<Option<M>>,
    value: Option<M>,
)
    requires
        setup_log(topo),
    ensures
        lifecycle_ok(done_log(topo, steps, value)),
{
    lemma_running_log_lifecycle(topo, steps);
    let run = running_log(topo, steps);
    let log = done_log(topo, steps, value);
    let c = topo.len() as int;
    assert forall|i: int| 0 <= i < run.len() implies !(#[trigger] run[i] is Terminated) by {
        if i < c {
            assert(is_topology_hook(topo[i]));
        }
    }
    assert forall|j: int|
        0 <= j < log.len() && (#[trigger] log[j] is Stepped || log[j] is Terminated) implies exists|
        i: int,
    | 0 <= i < j && #[trigger] log[i] is Started by {
        assert(log[c] is Started);
    }
}

/// A log still in set-up obeys the lifecycle discipline.
pub proof fn lemma_setup_log_lifecycle<K, M>(topo: Seq<Hook<K, M>>)
    requires
        setup_log(topo),
    ensures
        lifecycle_ok(topo),
{
    assert(forall|i: int|
        0 <= i < topo.len() ==> #[trigger] hook_rank(topo[i]) == 0 && !(topo[i] is Started) && !(
        topo[i] is Stepped) && !(topo[i] is Terminated));
}

} // verus!
