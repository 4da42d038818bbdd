//! The deterministic driver of the task backend: it starts every actor's
//! core, lets each interface execute its instruction batches, routes messages
//! between inboxes, fires timed waits on a virtual clock, and returns the
//! terminals' final values in the order the terminations arrived.

use vstd::prelude::*;

use crate::internal::{ActorInternal, EqKey};
use crate::lifecycle::{has_started, lifecycle_ok, Hook};
use crate::tasks::actor::{Actor, TaskStatus};
use crate::tasks::actor_core::{ActorType, TokioInternal};
use crate::System;

verus! {

/// How many scheduling steps a run may take before it is declared stalled.
const TASK_STEP_BUDGET: u64 = 100000000;

/// An error that can occur when running a task-backend system.
#[derive(Debug)]
pub enum SystemError {
    /// An actor could make no progress, or the run exhausted its step budget,
    /// before every terminal terminated.
    AgentError,
    /// A worker could not be placed.
    ThreadError,
}

/// The parameters needed to initialize one actor of the task backend.
pub struct Parameters {
    /// The execution class of the actor's core.
    pub kind: ActorType,
    /// The capacity of the actor's inbox.
    pub buffer: usize,
    /// The capacity of the instruction channel between the actor's halves.
    pub internal_buffer: usize,
}

impl Parameters {
    pub fn new(kind: ActorType, buffer: usize, internal_buffer: usize) -> (r: Self)
        ensures
            r.kind == kind,
            r.buffer == buffer,
            r.internal_buffer == internal_buffer,
    {
        Parameters { kind, buffer, internal_buffer }
    }
}

impl From<(ActorType, usize, usize)> for Parameters {
    fn from(parameters: (ActorType, usize, usize)) -> (r: Self) {
        let (kind, buffer, internal_buffer) = parameters;
        Parameters { kind, buffer, internal_buffer }
    }
}

impl vstd::std_specs::convert::FromSpecImpl<(ActorType, usize, usize)> for Parameters {
    open spec fn obeys_from_spec() -> bool {
        true
    }

    open spec fn from_spec(parameters: (ActorType, usize, usize)) -> Self {
        Parameters { kind: parameters.0, buffer: parameters.1, internal_buffer: parameters.2 }
    }
}

/// A system of actors on the task backend, driven deterministically.
pub struct TokioSystem<I: TokioInternal> {
    agents: Vec<(I::Key, Actor<I>)>,
    terminals: Vec<I::Key>,
    terminal_capacity: usize,
}

/// Whether `key` occurs in `keys`.
fn key_in<K: EqKey>(keys: &Vec<K>, key: &K) -> (r: bool)
    ensures
        r <==> keys@.contains(*key),
{
    let n = keys.len();
    let mut i: usize = 0;
    while i < n
        invariant
            n == keys@.len(),
            0 <= i <= n,
            forall|j: int| 0 <= j < i ==> keys@[j] != *key,
        decreases n - i,
    {
        if keys[i].key_eq(key) {
            return true;
        }
        i = i + 1;
    }
    false
}

/// The index of the agent registered under `key`, if any.
fn find_agent<I: TokioInternal>(agents: &Vec<(I::Key, Actor<I>)>, key: &I::Key) -> (r: Option<
    usize,
>)
    ensures
        r matches Some(i) ==> i < agents@.len() && agents@[i as int].0 == *key,
        r is None ==> forall|j: int| 0 <= j < agents@.len() ==> (#[trigger] agents@[j]).0 != *key,
{
    let n = agents.len();
    let mut i: usize = 0;
    while i < n
        invariant
            n == agents@.len(),
            0 <= i <= n,
            forall|j: int| 0 <= j < i ==> (#[trigger] agents@[j]).0 != *key,
        decreases n - i,
    {
        if agents[i].0.key_eq(key) {
            return Some(i);
        }
        i = i + 1;
    }
    None
}

/// Deliver a batch of sent messages, in send order, each to the inbox of the
/// actor its key names. A message to an unregistered key, or to an actor that
/// is finished, is dropped: its recipient is gone.
#[verifier::loop_isolation(false)]
fn route_all<I: TokioInternal>(
    agents: &mut Vec<(I::Key, Actor<I>)>,
    from: Ghost<I::Key>,
    outgoing: Vec<(I::Key, I::Message)>,
)
    requires
        forall|i: int| 0 <= i < old(agents)@.len() ==> (#[trigger] old(agents)@[i]).1.wf(),
    ensures
        final(agents)@.len() == old(agents)@.len(),
        forall|i: int|
            0 <= i < final(agents)@.len() ==> {
                let e = #[trigger] final(agents)@[i];
                let o = old(agents)@[i];
                &&& e.0 == o.0
                &&& e.1.wf()
                &&& e.1.status() == o.1.status()
                &&& e.1.done_value() == o.1.done_value()
                &&& e.1.published_value() == o.1.published_value()
            },
{
    let mut rest = outgoing;
    while rest.len() > 0
        invariant
            agents@.len() == old(agents)@.len(),
            forall|i: int|
                0 <= i < agents@.len() ==> {
                    let e = #[trigger] agents@[i];
                    let o = old(agents)@[i];
                    &&& e.0 == o.0
                    &&& e.1.wf()
                    &&& e.1.status() == o.1.status()
                    &&& e.1.done_value() == o.1.done_value()
                    &&& e.1.published_value() == o.1.published_value()
                },
        decreases rest@.len(),
    {
        let (key, message) = rest.remove(0);
        match find_agent(agents, &key) {
            Some(j) => {
                let target = &mut agents[j];
                let st = target.1.read_status();
                if !matches!(st, TaskStatus::Terminated) && !matches!(st, TaskStatus::Published) {
                    target.1.push_message(from, message);
                }
            },
            None => {},
        }
    }
}

/// The collection record is consistent with the agents: one entry per
/// published terminal actor, carrying its key and its collected payload, in
/// collection order.
/// Some actor carries `key`, has terminated, and was collected with payload
/// `value`.
pub open spec fn published_at<I: TokioInternal>(
    agents: Seq<(I::Key, Actor<I>)>,
    key: I::Key,
    value: Option<I::Message>,
) -> bool {
    exists|i: int|
        0 <= i < agents.len() && (#[trigger] agents[i]).0 == key && agents[i].1.status()
            == TaskStatus::Published && agents[i].1.published_value() == value
}

/// Some log in the record belongs to `key` and closes with a termination
/// carrying `value`.
pub open spec fn terminated_in_logs<I: TokioInternal>(
    logs: Seq<(I::Key, Seq<Hook<I::Key, I::Message>>)>,
    key: I::Key,
    value: Option<I::Message>,
) -> bool {
    exists|i: int|
        0 <= i < logs.len() && (#[trigger] logs[i]).0 == key && logs[i].1.len() > 0 && logs[i].1.last() == Hook::<I::Key, I::Message>::Terminated(value)
}

pub open spec fn collection_ok<I: TokioInternal>(
    agents: Seq<(I::Key, Actor<I>)>,
    terminals: Seq<I::Key>,
    values: Seq<Option<I::Message>>,
    order: Seq<I::Key>,
) -> bool {
    &&& values.len() == order.len()
    &&& order.no_duplicates()
    &&& forall|m: int| 0 <= m < order.len() ==> terminals.contains(#[trigger] order[m])
    &&& forall|m: int|
        #![trigger order[m]]
        0 <= m < order.len() ==> published_at(agents, order[m], values[m])
    &&& forall|i: int|
        0 <= i < agents.len() && (#[trigger] agents[i]).1.status() == TaskStatus::Published
            ==> order.contains(agents[i].0)
}

/// A step that neither publishes nor unpublishes any actor, and keeps every
/// key and every published payload, keeps the collection record consistent.
proof fn lemma_collection_frame<I: TokioInternal>(
    pre: Seq<(I::Key, Actor<I>)>,
    post: Seq<(I::Key, Actor<I>)>,
    terminals: Seq<I::Key>,
    values: Seq<Option<I::Message>>,
    order: Seq<I::Key>,
)
    requires
        collection_ok(pre, terminals, values, order),
        pre.len() == post.len(),
        forall|i: int| 0 <= i < pre.len() ==> (#[trigger] post[i]).0 == pre[i].0,
        forall|i: int|
            0 <= i < pre.len() && (#[trigger] pre[i]).1.status() == TaskStatus::Published
                ==> post[i].1.status() == TaskStatus::Published && post[i].1.published_value()
                == pre[i].1.published_value(),
        forall|i: int|
            0 <= i < pre.len() && (#[trigger] post[i]).1.status() == TaskStatus::Published
                ==> pre[i].1.status() == TaskStatus::Published,
    ensures
        collection_ok(post, terminals, values, order),
{
    assert forall|m: int| #![trigger order[m]] 0 <= m < order.len() implies published_at(
        post,
        order[m],
        values[m],
    ) by {
        assert(published_at(pre, order[m], values[m]));
        let w = choose|i: int|
            0 <= i < pre.len() && (#[trigger] pre[i]).0 == order[m] && pre[i].1.status()
                == TaskStatus::Published && pre[i].1.published_value() == values[m];
        assert(post[w].0 == order[m] && post[w].1.status() == TaskStatus::Published && post[w].1.published_value() == values[m]);
    }
    assert forall|i: int|
        0 <= i < post.len() && (#[trigger] post[i]).1.status() == TaskStatus::Published implies
        order.contains(post[i].0) by {
        assert(pre[i].1.status() == TaskStatus::Published);
        assert(order.contains(pre[i].0));
    }
}

/// Collect, in index order, the final value of every terminal actor that has
/// terminated and was not collected yet. Afterwards no terminal actor is left
/// terminated-but-uncollected, and the collection record stays consistent.
#[verifier::loop_isolation(false)]
fn collect_ready<I: TokioInternal>(
    agents: &mut Vec<(I::Key, Actor<I>)>,
    terminals: &Vec<I::Key>,
    values: &mut Vec<Option<I::Message>>,
    order: Ghost<Seq<I::Key>>,
) -> (new_order: Ghost<Seq<I::Key>>)
    requires
        forall|i: int| 0 <= i < old(agents)@.len() ==> (#[trigger] old(agents)@[i]).1.wf(),
        forall|a: int, b: int|
            0 <= a < b < old(agents)@.len() ==> (#[trigger] old(agents)@[a]).0 != (#[trigger] old(
                agents,
            )@[b]).0,
        collection_ok(old(agents)@, terminals@, old(values)@, order@),
    ensures
        final(agents)@.len() == old(agents)@.len(),
        forall|i: int|
            0 <= i < final(agents)@.len() ==> {
                let e = #[trigger] final(agents)@[i];
                let o = old(agents)@[i];
                &&& e.0 == o.0
                &&& e.1.wf()
                &&& ((e.1.status() == o.1.status() && e.1.published_value()
                    == o.1.published_value()) || (o.1.status() == TaskStatus::Terminated
                    && e.1.status() == TaskStatus::Published))
            },
        collection_ok(final(agents)@, terminals@, final(values)@, new_order@),
        forall|i: int|
            0 <= i < final(agents)@.len() && terminals@.contains((#[trigger] final(agents)@[i]).0)
                ==> final(agents)@[i].1.status() != TaskStatus::Terminated,
{
    let n = agents.len();
    let ghost mut ord = order@;
    let mut j: usize = 0;
    while j < n
        invariant
            agents@.len() == n,
            forall|i: int|
                0 <= i < n ==> {
                    let e = #[trigger] agents@[i];
                    let o = old(agents)@[i];
                    &&& e.0 == o.0
                    &&& e.1.wf()
                    &&& ((e.1.status() == o.1.status() && e.1.published_value()
                        == o.1.published_value()) || (o.1.status() == TaskStatus::Terminated
                        && e.1.status() == TaskStatus::Published))
                },
            collection_ok(agents@, terminals@, values@, ord),
            forall|i: int|
                0 <= i < j && terminals@.contains((#[trigger] agents@[i]).0) ==> agents@[i].1.status() != TaskStatus::Terminated,
        decreases n - j,
    {
        if matches!(agents[j].1.read_status(), TaskStatus::Terminated) && key_in(
            terminals,
            &agents[j].0,
        ) {
            let ghost pre = agents@;
            let ghost key = agents@[j as int].0;
            let ghost vals0 = values@;
            let ghost ord0 = ord;
            proof {
                // The key cannot have been collected already: its actor is
                // still terminated, not published.
                assert(!ord.contains(key)) by {
                    if ord.contains(key) {
                        let m = choose|m: int| 0 <= m < ord.len() && ord[m] == key;
                        let w = choose|i: int|
                            0 <= i < pre.len() && (#[trigger] pre[i]).0 == ord[m] && pre[i].1.status() == TaskStatus::Published && pre[i].1.published_value()
                                == values@[m];
                        if w < j as int {
                            assert(pre[w].0 != pre[j as int].0);
                        }
                        if (j as int) < w {
                            assert(pre[j as int].0 != pre[w].0);
                        }
                    }
                }
                crate::channel::lemma_push_no_duplicates(ord, key);
            }
            let a = &mut agents[j];
            let v = a.1.take_value();
            values.push(v);
            proof {
                ord = ord0.push(key);
                assert(values@ == vals0.push(v));
                assert forall|m: int| 0 <= m < ord.len() implies terminals@.contains(
                    #[trigger] ord[m],
                ) by {
                    if m < ord0.len() {
                        assert(ord[m] == ord0[m]);
                    }
                }
                assert forall|m: int| #![trigger ord[m]] 0 <= m < ord.len() implies published_at(
                    agents@,
                    ord[m],
                    values@[m],
                ) by {
                    if m < ord0.len() {
                        assert(ord[m] == ord0[m]);
                        assert(values@[m] == vals0[m]);
                        assert(published_at(pre, ord0[m], vals0[m]));
                        let w = choose|i: int|
                            0 <= i < pre.len() && (#[trigger] pre[i]).0 == ord0[m] && pre[i].1.status() == TaskStatus::Published && pre[i].1.published_value()
                                == vals0[m];
                        assert(w != j as int);
                        assert(agents@[w] == pre[w]);
                        assert(agents@[w].0 == ord[m] && agents@[w].1.status()
                            == TaskStatus::Published && agents@[w].1.published_value()
                            == values@[m]);
                    } else {
                        assert(ord[m] == key);
                        assert(agents@[j as int].0 == ord[m] && agents@[j as int].1.status()
                            == TaskStatus::Published && agents@[j as int].1.published_value()
                            == values@[m]);
                    }
                }
                assert forall|i: int|
                    0 <= i < agents@.len() && (#[trigger] agents@[i]).1.status()
                        == TaskStatus::Published implies ord.contains(agents@[i].0) by {
                    if i != j as int {
                        assert(pre[i].1.status() == TaskStatus::Published);
                        assert(ord0.contains(pre[i].0));
                        let m = choose|m: int| 0 <= m < ord0.len() && ord0[m] == pre[i].0;
                        assert(ord[m] == agents@[i].0);
                    } else {
                        assert(ord[ord.len() - 1] == agents@[i].0);
                    }
                }
            }
        }
        j = j + 1;
    }
    Ghost(ord)
}

/// The call log of the actor registered under `key`, empty when none is.
pub open spec fn log_view<I: TokioInternal>(
    agents: Seq<(I::Key, Actor<I>)>,
    key: I::Key,
) -> Seq<Hook<I::Key, I::Message>> {
    if exists|i: int| 0 <= i < agents.len() && (#[trigger] agents[i]).0 == key {
        let i = choose|i: int| 0 <= i < agents.len() && (#[trigger] agents[i]).0 == key;
        agents[i].1.log()
    } else {
        Seq::empty()
    }
}

/// The declared destinations of the actor registered under `key`, empty when
/// none is.
pub open spec fn declared_view<I: TokioInternal>(
    agents: Seq<(I::Key, Actor<I>)>,
    key: I::Key,
) -> Set<I::Key> {
    if exists|i: int| 0 <= i < agents.len() && (#[trigger] agents[i]).0 == key {
        let i = choose|i: int| 0 <= i < agents.len() && (#[trigger] agents[i]).0 == key;
        agents[i].1.declared_keys()
    } else {
        Set::empty()
    }
}

/// With pairwise-distinct keys, the per-key views select exactly the entry
/// that carries the key.
proof fn lemma_views_at<I: TokioInternal>(agents: Seq<(I::Key, Actor<I>)>, i: int)
    requires
        0 <= i < agents.len(),
        forall|a: int, b: int|
            0 <= a < b < agents.len() ==> (#[trigger] agents[a]).0 != (#[trigger] agents[b]).0,
    ensures
        log_view(agents, agents[i].0) == agents[i].1.log(),
        declared_view(agents, agents[i].0) == agents[i].1.declared_keys(),
{
    let k = agents[i].0;
    assert(exists|w: int| 0 <= w < agents.len() && (#[trigger] agents[w]).0 == k) by {
        assert((#[trigger] agents[i]).0 == k);
    }
    let w = choose|w: int| 0 <= w < agents.len() && (#[trigger] agents[w]).0 == k;
    if w < i {
        assert(agents[w].0 != agents[i].0);
    }
    if i < w {
        assert(agents[i].0 != agents[w].0);
    }
}

/// A change that leaves every entry carrying `key` with its old log leaves
/// the per-key log view at `key` unchanged.
proof fn lemma_log_frame<I: TokioInternal>(
    pre: Seq<(I::Key, Actor<I>)>,
    post: Seq<(I::Key, Actor<I>)>,
    key: I::Key,
)
    requires
        pre.len() == post.len(),
        forall|a: int| 0 <= a < pre.len() ==> (#[trigger] post[a]).0 == pre[a].0,
        forall|a: int, b: int|
            0 <= a < b < pre.len() ==> (#[trigger] pre[a]).0 != (#[trigger] pre[b]).0,
        forall|a: int|
            0 <= a < pre.len() && (#[trigger] pre[a]).0 == key ==> post[a].1.log()
                == pre[a].1.log(),
    ensures
        log_view(post, key) == log_view(pre, key),
{
    if exists|w: int| 0 <= w < pre.len() && (#[trigger] pre[w]).0 == key {
        let wp = choose|w: int| 0 <= w < pre.len() && (#[trigger] pre[w]).0 == key;
        assert(exists|w: int| 0 <= w < post.len() && (#[trigger] post[w]).0 == key) by {
            assert((#[trigger] post[wp]).0 == key);
        }
        let wq = choose|w: int| 0 <= w < post.len() && (#[trigger] post[w]).0 == key;
        assert(pre[wq].0 == key);
        if wq < wp {
            assert(pre[wq].0 != pre[wp].0);
        }
        if wp < wq {
            assert(pre[wp].0 != pre[wq].0);
        }
        assert(log_view(post, key) == post[wp].1.log());
    } else {
        if exists|w: int| 0 <= w < post.len() && (#[trigger] post[w]).0 == key {
            let wq = choose|w: int| 0 <= w < post.len() && (#[trigger] post[w]).0 == key;
            assert((#[trigger] pre[wq]).0 == key);
            assert(false);
        }
    }
}

/// A change that leaves every entry carrying `key` with its old declared set
/// leaves the per-key declared view at `key` unchanged.
proof fn lemma_declared_frame<I: TokioInternal>(
    pre: Seq<(I::Key, Actor<I>)>,
    post: Seq<(I::Key, Actor<I>)>,
    key: I::Key,
)
    requires
        pre.len() == post.len(),
        forall|a: int| 0 <= a < pre.len() ==> (#[trigger] post[a]).0 == pre[a].0,
        forall|a: int, b: int|
            0 <= a < b < pre.len() ==> (#[trigger] pre[a]).0 != (#[trigger] pre[b]).0,
        forall|a: int|
            0 <= a < pre.len() && (#[trigger] pre[a]).0 == key ==> post[a].1.declared_keys()
                == pre[a].1.declared_keys(),
    ensures
        declared_view(post, key) == declared_view(pre, key),
{
    if exists|w: int| 0 <= w < pre.len() && (#[trigger] pre[w]).0 == key {
        let wp = choose|w: int| 0 <= w < pre.len() && (#[trigger] pre[w]).0 == key;
        assert(exists|w: int| 0 <= w < post.len() && (#[trigger] post[w]).0 == key) by {
            assert((#[trigger] post[wp]).0 == key);
        }
        let wq = choose|w: int| 0 <= w < post.len() && (#[trigger] post[w]).0 == key;
        assert(pre[wq].0 == key);
        if wq < wp {
            assert(pre[wq].0 != pre[wp].0);
        }
        if wp < wq {
            assert(pre[wp].0 != pre[wq].0);
        }
        assert(declared_view(post, key) == post[wp].1.declared_keys());
    } else {
        if exists|w: int| 0 <= w < post.len() && (#[trigger] post[w]).0 == key {
            let wq = choose|w: int| 0 <= w < post.len() && (#[trigger] post[w]).0 == key;
            assert((#[trigger] pre[wq]).0 == key);
            assert(false);
        }
    }
}

impl<I: TokioInternal> TokioSystem<I> {
    /// The registered keys, in registration order.
    pub closed spec fn keys_seq(&self) -> Seq<I::Key> {
        self.agents@.map_values(|e: (I::Key, Actor<I>)| e.0)
    }

    /// The capacity recorded for the channel on which terminations are
    /// collected.
    pub closed spec fn collection_capacity(&self) -> usize {
        self.terminal_capacity
    }

    spec fn wf_agents(&self) -> bool {
        &&& forall|i: int, j: int|
            0 <= i < j < self.agents@.len() ==> (#[trigger] self.agents@[i]).0 != (
            #[trigger] self.agents@[j]).0
        &&& forall|i: int|
            0 <= i < self.agents@.len() ==> (#[trigger] self.agents@[i]).1.wf()
                && self.agents@[i].1.status() == TaskStatus::Setup
        &&& forall|i: int, j: int|
            0 <= i < j < self.terminals@.len() ==> self.terminals@[i] != self.terminals@[j]
        &&& forall|t: int|
            0 <= t < self.terminals@.len() ==> self.keys_seq().contains(
                #[trigger] self.terminals@[t],
            )
    }

}

impl<I: ActorInternal> TokioSystem<I> {
    /// An empty system. `terminals_size` is the capacity a deployment would
    /// give the channel on which terminations are collected; it should be at
    /// least the number of terminals.
    pub fn new(terminals_size: usize) -> (r: Self)
        ensures
            r.wf(),
            r.actor_keys() == Set::<I::Key>::empty(),
            r.terminal_keys() == Set::<I::Key>::empty(),
            r.collection_capacity() == terminals_size,
    {
        let r = TokioSystem {
            agents: Vec::new(),
            terminals: Vec::new(),
            terminal_capacity: terminals_size,
        };
        proof {
            assert(r.keys_seq() =~= Seq::<I::Key>::empty());
            assert(r.keys_seq().to_set() =~= Set::<I::Key>::empty());
            assert(r.terminals@.to_set() =~= Set::<I::Key>::empty());
        }
        r
    }

    /// Run the system until every terminal actor has terminated, and return
    /// their final values in the order the terminations arrived. An `Err`
    /// reports that the run stalled — no actor could make progress — or spent
    /// its step budget first, the deterministic stand-in for a wait that
    /// would never return.
    pub fn run(self) -> (r: Result<Vec<Option<I::Message>>, SystemError>)
        requires
            self.wf(),
        ensures
            r matches Ok(values) ==> values@.len() == self.terminal_keys().len(),
    {
        let (r, _, _) = self.run_logged();
        r
    }

    /// Run the system, also handing back the ghost log of every call the
    /// driver made into each actor, in registration order. The contract pins
    /// the lifecycle discipline for every actor, and — when the run completes
    /// — one value per terminal, each terminal's log closed by its
    /// termination.
    #[verifier::loop_isolation(false)]
    pub fn run_logged(self) -> (res: (
        Result<Vec<Option<I::Message>>, SystemError>,
        Ghost<Seq<(I::Key, Seq<Hook<I::Key, I::Message>>)>>,
        Ghost<Seq<I::Key>>,
    ))
        requires
            self.wf(),
        ensures
            ({
                let (r, glogs, gorder) = res;
                let logs = glogs@;
                let order = gorder@;
                &&& logs.len() == self.keys_seq().len()
                &&& forall|i: int| 0 <= i < logs.len() ==> (#[trigger] logs[i]).0 == self.keys_seq()[i]
                &&& forall|i: int| 0 <= i < logs.len() ==> lifecycle_ok((#[trigger] logs[i]).1)
                &&& forall|i: int| 0 <= i < logs.len() ==> has_started((#[trigger] logs[i]).1)
                &&& (r is Ok <==> (forall|i: int|
                    0 <= i < logs.len() && self.terminal_keys().contains((#[trigger] logs[i]).0)
                        ==> logs[i].1.len() > 0 && logs[i].1.last() is Terminated))
                &&& (r matches Ok(values) ==> values@.len() == self.terminal_keys().len())
                &&& (r matches Ok(values) ==> {
                    &&& order.len() == values@.len()
                    &&& order.no_duplicates()
                    &&& order.to_set() == self.terminal_keys()
                    &&& forall|m: int|
                        #![trigger order[m]]
                        0 <= m < order.len() ==> terminated_in_logs::<I>(logs, order[m], values@[m])
                })
            }),
    {
        let mut sys = self;
        let ghost keys0 = sys.keys_seq();
        let ghost terms0 = sys.terminals@;
        let n = sys.agents.len();
        let n_terminals = sys.terminals.len();
        let mut clock: u64 = 0;
        proof {
            terms0.unique_seq_to_set();
            assert(forall|t: int| 0 <= t < terms0.len() ==> keys0.contains(#[trigger] terms0[t]));
            assert(forall|a: int| 0 <= a < n ==> keys0[a] == (#[trigger] sys.agents@[a]).0);
            assert forall|a: int, b: int| 0 <= a < b < n implies keys0[a] != keys0[b] by {
                assert(keys0[a] == (#[trigger] sys.agents@[a]).0);
                assert(keys0[b] == (#[trigger] sys.agents@[b]).0);
            }
        }

        // Start every core, in registration order, routing what it sends.
        let mut i: usize = 0;
        while i < n
            invariant
                sys.agents@.len() == n,
                sys.keys_seq() == keys0,
                sys.terminals@ == terms0,
                forall|r: int| 0 <= r < n ==> (#[trigger] sys.agents@[r]).1.wf(),
                forall|r: int|
                    0 <= r < i ==> (#[trigger] sys.agents@[r]).1.status() != TaskStatus::Setup,
                forall|r: int|
                    i <= r < n ==> (#[trigger] sys.agents@[r]).1.status() == TaskStatus::Setup,
                forall|r: int|
                    0 <= r < n ==> (#[trigger] sys.agents@[r]).1.status() != TaskStatus::Published,
                forall|r: int|
                    0 <= r < n ==> ((#[trigger] sys.agents@[r]).1.status() matches
                        TaskStatus::WaitingUntil(d) ==> d >= clock),
            decreases n - i,
        {
            let ghost from = sys.agents@[i as int].0;
            let a = &mut sys.agents[i];
            a.1.step_start(clock);
            let a = &mut sys.agents[i];
            let outgoing = a.1.take_outgoing();
            proof {
                assert(sys.keys_seq() =~= keys0);
            }
            route_all(&mut sys.agents, Ghost(from), outgoing);
            proof {
                assert(sys.keys_seq() =~= keys0);
            }
            i = i + 1;
        }

        // Drive the system, collecting terminations as they arrive.
        let mut values: Vec<Option<I::Message>> = Vec::new();
        let mut order: Ghost<Seq<I::Key>> = Ghost(Seq::empty());
        let mut fuel: u64 = TASK_STEP_BUDGET;
        let mut done = false;
        let mut stalled = false;
        proof {
            assert forall|a: int, b: int|
                0 <= a < b < n implies (#[trigger] sys.agents@[a]).0 != (
            #[trigger] sys.agents@[b]).0 by {
                assert(sys.keys_seq()[a] == sys.agents@[a].0);
                assert(sys.keys_seq()[b] == sys.agents@[b].0);
            }
            assert(collection_ok(sys.agents@, terms0, values@, order@));
        }
        while fuel > 0 && !done && !stalled
            invariant
                sys.agents@.len() == n,
                sys.keys_seq() == keys0,
                sys.terminals@ == terms0,
                forall|r: int|
                    0 <= r < n ==> (#[trigger] sys.agents@[r]).1.wf() && sys.agents@[r].1.status()
                        != TaskStatus::Setup,
                forall|a: int, b: int|
                    0 <= a < b < n ==> (#[trigger] sys.agents@[a]).0 != (
                    #[trigger] sys.agents@[b]).0,
                forall|r: int|
                    0 <= r < n ==> ((#[trigger] sys.agents@[r]).1.status() matches
                        TaskStatus::WaitingUntil(d) ==> d >= clock),
                values@.len() == order@.len(),
                collection_ok(sys.agents@, terms0, values@, order@),
            decreases fuel,
        {
            fuel = fuel - 1;
            order = collect_ready(&mut sys.agents, &sys.terminals, &mut values, order);
            proof {
                assert(sys.keys_seq() =~= keys0);
            }
            if values.len() >= n_terminals {
                done = true;
            } else {
                match sys.pick_runnable(clock) {
                    Some((j, at)) => {
                        clock = at;
                        let ghost from = sys.agents@[j as int].0;
                        let ghost pre_step = sys.agents@;
                        let ghost vals_now = values@;
                        let a = &mut sys.agents[j];
                        a.1.act_next(clock);
                        let a = &mut sys.agents[j];
                        let outgoing = a.1.take_outgoing();
                        proof {
                            assert(sys.keys_seq() =~= keys0);
                        }
                        route_all(&mut sys.agents, Ghost(from), outgoing);
                        proof {
                            assert(sys.keys_seq() =~= keys0);
                            lemma_collection_frame::<I>(
                                pre_step,
                                sys.agents@,
                                terms0,
                                vals_now,
                                order@,
                            );
                        }
                    },
                    None => {
                        stalled = true;
                    },
                }
            }
        }
        order = collect_ready(&mut sys.agents, &sys.terminals, &mut values, order);
        proof {
            assert(sys.keys_seq() =~= keys0);
        }

        let ghost logs = Seq::new(
            n as nat,
            |i: int| (sys.agents@[i].0, sys.agents@[i].1.log()),
        );
        proof {
            assert forall|i: int| 0 <= i < n implies lifecycle_ok((#[trigger] logs[i]).1)
                && has_started(logs[i].1) && ((sys.agents@[i].1.status() == TaskStatus::Terminated
                || sys.agents@[i].1.status() == TaskStatus::Published) <==> logs[i].1.len() > 0
                && logs[i].1.last() is Terminated) && (sys.agents@[i].1.status()
                == TaskStatus::Published ==> logs[i].1.last() == Hook::<
                I::Key,
                I::Message,
            >::Terminated(sys.agents@[i].1.published_value())) by {
                sys.agents@[i].1.lemma_lifecycle();
            }
        }

        let complete = sys.all_terminals_published();
        if complete {
            proof {
                // Every terminal key was collected: its actor is published.
                assert forall|t: I::Key| terms0.to_set().contains(t) implies order@.contains(
                    t,
                ) by {
                    let w = choose|w: int| 0 <= w < keys0.len() && keys0[w] == t;
                    assert(sys.agents@[w].0 == t);
                    assert(sys.agents@[w].1.status() == TaskStatus::Published);
                }
                assert forall|t: I::Key| order@.contains(t) implies terms0.to_set().contains(
                    t,
                ) by {
                    let m = choose|m: int| 0 <= m < order@.len() && order@[m] == t;
                    assert(terms0.contains(order@[m]));
                }
                assert(order@.to_set() =~= terms0.to_set());
                order@.unique_seq_to_set();
                // One value per terminal, each the payload its actor
                // terminated with.
                assert forall|m: int| #![trigger order@[m]] 0 <= m < order@.len() implies
                    terminated_in_logs::<I>(logs, order@[m], values@[m]) by {
                    assert(published_at(sys.agents@, order@[m], values@[m]));
                    let w = choose|i: int|
                        0 <= i < sys.agents@.len() && (#[trigger] sys.agents@[i]).0 == order@[m]
                            && sys.agents@[i].1.status() == TaskStatus::Published && sys.agents@[i].1.published_value() == values@[m];
                    assert(logs[w].0 == order@[m] && logs[w].1.len() > 0 && logs[w].1.last()
                        == Hook::<I::Key, I::Message>::Terminated(values@[m]));
                }
            }
            (Ok(values), Ghost(logs), order)
        } else {
            proof {
                let w = choose|i: int|
                    0 <= i < sys.agents@.len() && terms0.contains((#[trigger] sys.agents@[i]).0)
                        && sys.agents@[i].1.status() != TaskStatus::Published;
                assert(sys.agents@[w].1.status() != TaskStatus::Terminated);
                assert(terms0.to_set().contains(logs[w].0));
                assert(!(logs[w].1.len() > 0 && logs[w].1.last() is Terminated));
            }
            (Err(SystemError::AgentError), Ghost(logs), order)
        }
    }

    /// Whether every terminal actor has terminated and had its final value
    /// collected.
    #[verifier::loop_isolation(false)]
    fn all_terminals_published(&self) -> (r: bool)
        requires
            forall|i: int| 0 <= i < self.agents@.len() ==> (#[trigger] self.agents@[i]).1.wf(),
        ensures
            r == (forall|i: int|
                0 <= i < self.agents@.len() && self.terminals@.contains(
                    (#[trigger] self.agents@[i]).0,
                ) ==> self.agents@[i].1.status() == TaskStatus::Published),
    {
        let n = self.agents.len();
        let mut i: usize = 0;
        while i < n
            invariant
                n == self.agents@.len(),
                0 <= i <= n,
                forall|j: int|
                    0 <= j < i && self.terminals@.contains((#[trigger] self.agents@[j]).0)
                        ==> self.agents@[j].1.status() == TaskStatus::Published,
            decreases n - i,
        {
            if !matches!(self.agents[i].1.read_status(), TaskStatus::Published) && key_in(
                &self.terminals,
                &self.agents[i].0,
            ) {
                return false;
            }
            i = i + 1;
        }
        true
    }

    /// Choose the next actor to step, and the clock at which it steps: a
    /// waiting actor with a pending message; failing that, a waiting actor
    /// whose inbox can produce nothing more; failing that, the earliest
    /// deadline among timed waits. `None` means no actor can make progress.
    #[verifier::loop_isolation(false)]
    fn pick_runnable(&self, clock: u64) -> (r: Option<(usize, u64)>)
        requires
            forall|i: int| 0 <= i < self.agents@.len() ==> (#[trigger] self.agents@[i]).1.wf(),
            forall|i: int|
                0 <= i < self.agents@.len() ==> ((#[trigger] self.agents@[i]).1.status() matches
                    TaskStatus::WaitingUntil(d) ==> d >= clock),
        ensures
            r matches Some((j, at)) ==> {
                &&& j < self.agents@.len()
                &&& (self.agents@[j as int].1.status() == TaskStatus::Waiting || self.agents@[j as int].1.status() matches TaskStatus::WaitingUntil(_))
                &&& at >= clock
                &&& forall|i: int|
                    0 <= i < self.agents@.len() ==> ((#[trigger] self.agents@[i]).1.status()
                        matches TaskStatus::WaitingUntil(d) ==> d >= at)
            },
    {
        let n = self.agents.len();

        // A waiting actor with a pending message.
        let mut i: usize = 0;
        while i < n
            invariant
                n == self.agents@.len(),
                0 <= i <= n,
            decreases n - i,
        {
            let waiting = match self.agents[i].1.read_status() {
                TaskStatus::Waiting => true,
                TaskStatus::WaitingUntil(_) => true,
                _ => false,
            };
            if waiting && self.agents[i].1.has_deliverable() {
                return Some((i, clock));
            }
            i = i + 1;
        }

        // A waiting actor whose inbox is closed: every registered actor that
        // declares an edge to it is finished.
        let mut i: usize = 0;
        while i < n
            invariant
                n == self.agents@.len(),
                0 <= i <= n,
            decreases n - i,
        {
            if matches!(self.agents[i].1.read_status(), TaskStatus::Waiting) {
                let mut alive = false;
                let mut j: usize = 0;
                while j < n
                    invariant
                        n == self.agents@.len(),
                        0 <= j <= n,
                        i < n,
                    decreases n - j,
                {
                    let st = self.agents[j].1.read_status();
                    let finished = matches!(st, TaskStatus::Terminated) || matches!(
                        st,
                        TaskStatus::Published,
                    );
                    if !finished && self.agents[j].1.declares(&self.agents[i].0) {
                        alive = true;
                    }
                    j = j + 1;
                }
                if !alive {
                    return Some((i, clock));
                }
            }
            i = i + 1;
        }

        // The earliest deadline among timed waits.
        let mut best: Option<(usize, u64)> = None;
        let mut i: usize = 0;
        while i < n
            invariant
                n == self.agents@.len(),
                0 <= i <= n,
                best matches Some((j, at)) ==> {
                    &&& (j as int) < n
                    &&& self.agents@[j as int].1.status() matches TaskStatus::WaitingUntil(d) && d
                        == at
                    &&& at >= clock
                    &&& forall|r: int|
                        0 <= r < i ==> ((#[trigger] self.agents@[r]).1.status() matches
                            TaskStatus::WaitingUntil(d) ==> d >= at)
                },
                best is None ==> forall|r: int|
                    0 <= r < i ==> !((#[trigger] self.agents@[r]).1.status() matches
                        TaskStatus::WaitingUntil(_)),
            decreases n - i,
        {
            if let TaskStatus::WaitingUntil(d) = self.agents[i].1.read_status() {
                match best {
                    Some((_, at)) => {
                        if d < at {
                            best = Some((i, d));
                        }
                    },
                    None => {
                        best = Some((i, d));
                    },
                }
            }
            i = i + 1;
        }
        best
    }
}

impl<I: ActorInternal> System for TokioSystem<I> {
    type Internal = I;

    type ActorParameters = Parameters;

    closed spec fn wf(&self) -> bool {
        self.wf_agents()
    }

    open spec fn actor_keys(&self) -> Set<I::Key> {
        self.keys_seq().to_set()
    }

    closed spec fn terminal_keys(&self) -> Set<I::Key> {
        self.terminals@.to_set()
    }

    closed spec fn log_of(&self, key: I::Key) -> Seq<Hook<I::Key, I::Message>> {
        log_view(self.agents@, key)
    }

    closed spec fn declared_of(&self, key: I::Key) -> Set<I::Key> {
        declared_view(self.agents@, key)
    }

    /// Register an actor. When no parameters are given, the actor gets the
    /// light execution class and small default capacities.
    fn add_actor(&mut self, key: I::Key, internal: I, parameters: Option<Parameters>) {
        let p = match parameters {
            Some(p) => p,
            None => Parameters::new(ActorType::Light, 64, 64),
        };
        let actor = Actor::new(internal, p.kind, p.buffer, p.internal_buffer);
        match find_agent(&self.agents, &key) {
            Some(i) => {
                let e = &mut self.agents[i];
                e.1 = actor;
                proof {
                    assert(self.keys_seq() =~= old(self).keys_seq());
                    assert(old(self).keys_seq().to_set().contains(key)) by {
                        assert(old(self).keys_seq()[i as int] == key);
                    }
                    assert(self.keys_seq().to_set() =~= old(self).keys_seq().to_set().insert(key));
                    assert forall|j: int|
                        0 <= j < self.agents@.len() implies (#[trigger] self.agents@[j]).1.wf()
                        && self.agents@[j].1.status() == TaskStatus::Setup by {
                        if j != i as int {
                            assert(self.agents@[j] == old(self).agents@[j]);
                        }
                    }
                    assert forall|t: int|
                        0 <= t < self.terminals@.len() implies self.keys_seq().contains(
                        #[trigger] self.terminals@[t]) by {
                        assert(old(self).keys_seq().contains(self.terminals@[t]));
                    }
                }
            },
            None => {
                self.agents.push((key, actor));
                proof {
                    assert(self.keys_seq() =~= old(self).keys_seq().push(key));
                    crate::channel::lemma_push_to_set(old(self).keys_seq(), key);
                    assert forall|j: int|
                        0 <= j < self.agents@.len() implies (#[trigger] self.agents@[j]).1.wf()
                        && self.agents@[j].1.status() == TaskStatus::Setup by {
                        if j < old(self).agents@.len() {
                            assert(self.agents@[j] == old(self).agents@[j]);
                        } else {
                            assert(self.agents@[j] == self.agents@.last());
                        }
                    }
                    assert forall|t: int|
                        0 <= t < self.terminals@.len() implies self.keys_seq().contains(
                        #[trigger] self.terminals@[t]) by {
                        let w = choose|w: int|
                            0 <= w < old(self).keys_seq().len() && old(self).keys_seq()[w]
                                == self.terminals@[t];
                        assert(self.keys_seq()[w] == self.terminals@[t]);
                    }
                }
            },
        }
    }

    fn add_channel(&mut self, sender: &I::Key, receiver: &I::Key) {
        let i = match find_agent(&self.agents, sender) {
            Some(i) => i,
            None => {
                proof {
                    let w = choose|w: int|
                        0 <= w < self.keys_seq().len() && self.keys_seq()[w] == *sender;
                    assert(self.agents@[w].0 == *sender);
                    assert(false);
                }
                return ;
            },
        };
        let ghost pre = self.agents@;
        let a = &mut self.agents[i];
        a.1.insert_outgoing_channel(*receiver);
        let ghost m1 = self.agents@;
        proof {
            assert(self.keys_seq() =~= old(self).keys_seq());
        }
        let a = &mut self.agents[i];
        a.1.new_outgoing_key(receiver);
        let ghost m2 = self.agents@;
        proof {
            assert(self.keys_seq() =~= old(self).keys_seq());
        }
        let j = match find_agent(&self.agents, receiver) {
            Some(j) => j,
            None => {
                proof {
                    let w = choose|w: int|
                        0 <= w < self.keys_seq().len() && self.keys_seq()[w] == *receiver;
                    assert(self.agents@[w].0 == *receiver);
                    assert(false);
                }
                return ;
            },
        };
        let a = &mut self.agents[j];
        a.1.new_incoming_key(sender);
        let ghost post = self.agents@;
        proof {
            assert(self.keys_seq() =~= old(self).keys_seq());
            assert(self.keys_seq().to_set() =~= old(self).keys_seq().to_set());
            assert(forall|a: int| 0 <= a < pre.len() ==> (#[trigger] m1[a]).0 == pre[a].0);
            assert(forall|a: int| 0 <= a < pre.len() ==> (#[trigger] m2[a]).0 == pre[a].0);
            assert(forall|a: int| 0 <= a < pre.len() ==> (#[trigger] post[a]).0 == pre[a].0);
            assert(forall|a: int, b: int|
                0 <= a < b < pre.len() ==> (#[trigger] pre[a]).0 != (#[trigger] pre[b]).0);
            assert(forall|a: int, b: int|
                0 <= a < b < m1.len() ==> (#[trigger] m1[a]).0 != (#[trigger] m1[b]).0);
            assert(forall|a: int, b: int|
                0 <= a < b < m2.len() ==> (#[trigger] m2[a]).0 != (#[trigger] m2[b]).0);
            lemma_views_at::<I>(pre, i as int);
            lemma_views_at::<I>(m1, i as int);
            lemma_views_at::<I>(m2, i as int);
            lemma_views_at::<I>(m2, j as int);
            lemma_views_at::<I>(post, i as int);
            lemma_views_at::<I>(post, j as int);
            if i != j {
                assert(post[i as int] == m2[i as int]);
                assert(m2[j as int] == pre[j as int]);
                assert forall|k: I::Key| k != *sender && k != *receiver implies log_view(
                    post,
                    k,
                ) == log_view(pre, k) by {
                    lemma_log_frame::<I>(pre, m1, k);
                    lemma_log_frame::<I>(m1, m2, k);
                    lemma_log_frame::<I>(m2, post, k);
                }
                assert forall|k: I::Key| k != *sender implies declared_view(post, k)
                    == declared_view(pre, k) by {
                    lemma_declared_frame::<I>(pre, m1, k);
                    lemma_declared_frame::<I>(m1, m2, k);
                    lemma_declared_frame::<I>(m2, post, k);
                }
                assert(declared_view(post, *sender) == declared_view(m1, *sender)) by {
                    lemma_declared_frame::<I>(m1, m2, *sender);
                    lemma_declared_frame::<I>(m2, post, *sender);
                }
                assert(log_view(m2, *sender) == log_view(pre, *sender).push(
                    Hook::OutgoingKey(*receiver),
                )) by {
                    lemma_log_frame::<I>(pre, m1, *sender);
                }
            } else {
                assert forall|k: I::Key| k != *sender implies log_view(post, k) == log_view(
                    pre,
                    k,
                ) && declared_view(post, k) == declared_view(pre, k) by {
                    lemma_log_frame::<I>(pre, m1, k);
                    lemma_log_frame::<I>(m1, m2, k);
                    lemma_log_frame::<I>(m2, post, k);
                    lemma_declared_frame::<I>(pre, m1, k);
                    lemma_declared_frame::<I>(m1, m2, k);
                    lemma_declared_frame::<I>(m2, post, k);
                }
                assert(log_view(m1, *sender) == log_view(pre, *sender)) by {
                    lemma_log_frame::<I>(pre, m1, *sender);
                }
                assert(declared_view(post, *sender) == declared_view(m1, *sender)) by {
                    lemma_declared_frame::<I>(m1, m2, *sender);
                    lemma_declared_frame::<I>(m2, post, *sender);
                }
            }
        }
    }

    fn add_terminal(&mut self, key: I::Key) {
        if !key_in(&self.terminals, &key) {
            self.terminals.push(key);
            proof {
                crate::channel::lemma_push_to_set(old(self).terminals@, key);
            }
        } else {
            proof {
                assert(self.terminals@.to_set() =~= self.terminals@.to_set().insert(key));
            }
        }
    }
}

} // verus!
