//! The deterministic driver for a system of actors: it starts every actor,
//! routes their messages through FIFO inboxes, fires timed waits on a virtual
//! clock, and — once every terminal actor has terminated — collects the
//! terminals' final values.

use vstd::prelude::*;

use crate::internal::{ActorInternal, EqKey};
use crate::keymap::KeyMap;
use crate::lifecycle::{has_started, lifecycle_ok, Hook};
use crate::synchronous::actor::{Actor, ActorStatus};
use crate::System;

verus! {

/// How many scheduling steps a run may take before it is declared stalled.
pub const STEP_BUDGET: u64 = 100000000;

/// An error that can occur when running a system.
#[derive(Debug, Clone)]
pub enum SystemError<I, S> {
    ActorError(I),
    ThreadError(S),
}

/// Per-actor parameters of the synchronous backend: it needs none.
pub struct SyncParameters;

impl From<(crate::tasks::ActorType, usize, usize)> for SyncParameters {
    fn from(_parameters: (crate::tasks::ActorType, usize, usize)) -> (r: Self) {
        SyncParameters
    }
}

impl vstd::std_specs::convert::FromSpecImpl<(crate::tasks::ActorType, usize, usize)>
    for SyncParameters {
    open spec fn obeys_from_spec() -> bool {
        true
    }

    open spec fn from_spec(parameters: (crate::tasks::ActorType, usize, usize)) -> Self {
        SyncParameters
    }
}

/// A log of calls ends with the termination acknowledgment.
pub open spec fn log_terminated<K, M>(log: Seq<Hook<K, M>>) -> bool {
    log.len() > 0 && log.last() is Terminated
}

/// Every registered actor whose key is marked terminal has terminated.
pub open spec fn terminals_done<I: ActorInternal>(
    entries: Seq<(I::Key, Actor<I>)>,
    terminals: Seq<I::Key>,
) -> bool {
    forall|i: int|
        0 <= i < entries.len() && terminals.contains((#[trigger] entries[i]).0)
            ==> entries[i].1.status() == ActorStatus::Done
}

/// A system of actors driven deterministically, with unbounded inboxes.
pub struct SyncSystem<I: ActorInternal> {
    entries: Vec<(I::Key, Actor<I>)>,
    terminals: Vec<I::Key>,
}

/// Whether `key` occurs in `keys`.
fn key_in<K: EqKey>(keys: &Vec<K>, key: &K) -> (r: bool)
    ensures
        r <==> keys@.contains(*key),
{
    let n = keys.len();
    let mut i: usize = 0;
    while i < n
        invariant
            n == keys@.len(),
            0 <= i <= n,
            forall|j: int| 0 <= j < i ==> keys@[j] != *key,
        decreases n - i,
    {
        if keys[i].key_eq(key) {
            return true;
        }
        i = i + 1;
    }
    false
}

/// The index of the entry registered under `key`, if any.
fn find_entry<I: ActorInternal>(entries: &Vec<(I::Key, Actor<I>)>, key: &I::Key) -> (r: Option<
    usize,
>)
    ensures
        r matches Some(i) ==> i < entries@.len() && entries@[i as int].0 == *key,
        r is None ==> forall|j: int| 0 <= j < entries@.len() ==> (#[trigger] entries@[j]).0 != *key,
{
    let n = entries.len();
    let mut i: usize = 0;
    while i < n
        invariant
            n == entries@.len(),
            0 <= i <= n,
            forall|j: int| 0 <= j < i ==> (#[trigger] entries@[j]).0 != *key,
        decreases n - i,
    {
        if entries[i].0.key_eq(key) {
            return Some(i);
        }
        i = i + 1;
    }
    None
}

/// Deliver a batch of sent messages, in send order, each to the inbox of the
/// actor its key names. A message to an unregistered key, or to an actor that
/// has already terminated, is dropped: its recipient is gone.
#[verifier::loop_isolation(false)]
fn route_all<I: ActorInternal>(
    entries: &mut Vec<(I::Key, Actor<I>)>,
    from: Ghost<I::Key>,
    outgoing: Vec<(I::Key, I::Message)>,
)
    requires
        forall|i: int| 0 <= i < old(entries)@.len() ==> (#[trigger] old(entries)@[i]).1.wf(),
    ensures
        final(entries)@.len() == old(entries)@.len(),
        forall|i: int|
            0 <= i < final(entries)@.len() ==> {
                let e = #[trigger] final(entries)@[i];
                let o = old(entries)@[i];
                &&& e.0 == o.0
                &&& e.1.wf()
                &&& e.1.status() == o.1.status()
                &&& e.1.done_value() == o.1.done_value()
                &&& e.1.log() == o.1.log()
                &&& e.1.inbox_taken() == o.1.inbox_taken()
            },
{
    let mut rest = outgoing;
    while rest.len() > 0
        invariant
            entries@.len() == old(entries)@.len(),
            forall|i: int|
                0 <= i < entries@.len() ==> {
                    let e = #[trigger] entries@[i];
                    let o = old(entries)@[i];
                    &&& e.0 == o.0
                    &&& e.1.wf()
                    &&& e.1.status() == o.1.status()
                    &&& e.1.done_value() == o.1.done_value()
                    &&& e.1.log() == o.1.log()
                    &&& e.1.inbox_taken() == o.1.inbox_taken()
                },
        decreases rest@.len(),
    {
        let (key, message) = rest.remove(0);
        match find_entry(entries, &key) {
            Some(j) => {
                let target = &mut entries[j];
                if !matches!(target.1.read_status(), ActorStatus::Done) {
                    target.1.push_message(from, message);
                }
            },
            None => {},
        }
    }
}

/// The call log of the actor registered under `key`, empty when none is.
pub open spec fn log_view<I: ActorInternal>(
    entries: Seq<(I::Key, Actor<I>)>,
    key: I::Key,
) -> Seq<Hook<I::Key, I::Message>> {
    if exists|i: int| 0 <= i < entries.len() && (#[trigger] entries[i]).0 == key {
        let i = choose|i: int| 0 <= i < entries.len() && (#[trigger] entries[i]).0 == key;
        entries[i].1.log()
    } else {
        Seq::empty()
    }
}

/// The declared destinations of the actor registered under `key`, empty when
/// none is.
pub open spec fn declared_view<I: ActorInternal>(
    entries: Seq<(I::Key, Actor<I>)>,
    key: I::Key,
) -> Set<I::Key> {
    if exists|i: int| 0 <= i < entries.len() && (#[trigger] entries[i]).0 == key {
        let i = choose|i: int| 0 <= i < entries.len() && (#[trigger] entries[i]).0 == key;
        entries[i].1.declared_keys()
    } else {
        Set::empty()
    }
}

/// With pairwise-distinct keys, the per-key views select exactly the entry
/// that carries the key.
proof fn lemma_views_at<I: ActorInternal>(entries: Seq<(I::Key, Actor<I>)>, i: int)
    requires
        0 <= i < entries.len(),
        forall|a: int, b: int|
            0 <= a < b < entries.len() ==> (#[trigger] entries[a]).0 != (#[trigger] entries[b]).0,
    ensures
        log_view(entries, entries[i].0) == entries[i].1.log(),
        declared_view(entries, entries[i].0) == entries[i].1.declared_keys(),
{
    let k = entries[i].0;
    assert(exists|w: int| 0 <= w < entries.len() && (#[trigger] entries[w]).0 == k) by {
        assert((#[trigger] entries[i]).0 == k);
    }
    let w = choose|w: int| 0 <= w < entries.len() && (#[trigger] entries[w]).0 == k;
    if w < i {
        assert(entries[w].0 != entries[i].0);
    }
    if i < w {
        assert(entries[i].0 != entries[w].0);
    }
}

/// A change that leaves every entry carrying `key` with its old log leaves
/// the per-key log view at `key` unchanged.
proof fn lemma_log_frame<I: ActorInternal>(
    pre: Seq<(I::Key, Actor<I>)>,
    post: Seq<(I::Key, Actor<I>)>,
    key: I::Key,
)
    requires
        pre.len() == post.len(),
        forall|a: int| 0 <= a < pre.len() ==> (#[trigger] post[a]).0 == pre[a].0,
        forall|a: int, b: int|
            0 <= a < b < pre.len() ==> (#[trigger] pre[a]).0 != (#[trigger] pre[b]).0,
        forall|a: int|
            0 <= a < pre.len() && (#[trigger] pre[a]).0 == key ==> post[a].1.log()
                == pre[a].1.log(),
    ensures
        log_view(post, key) == log_view(pre, key),
{
    if exists|w: int| 0 <= w < pre.len() && (#[trigger] pre[w]).0 == key {
        let wp = choose|w: int| 0 <= w < pre.len() && (#[trigger] pre[w]).0 == key;
        assert(exists|w: int| 0 <= w < post.len() && (#[trigger] post[w]).0 == key) by {
            assert((#[trigger] post[wp]).0 == key);
        }
        let wq = choose|w: int| 0 <= w < post.len() && (#[trigger] post[w]).0 == key;
        assert(pre[wq].0 == key);
        if wq < wp {
            assert(pre[wq].0 != pre[wp].0);
        }
        if wp < wq {
            assert(pre[wp].0 != pre[wq].0);
        }
        assert(log_view(post, key) == post[wp].1.log());
    } else {
        if exists|w: int| 0 <= w < post.len() && (#[trigger] post[w]).0 == key {
            let wq = choose|w: int| 0 <= w < post.len() && (#[trigger] post[w]).0 == key;
            assert((#[trigger] pre[wq]).0 == key);
            assert(false);
        }
    }
}

/// A change that leaves every entry carrying `key` with its old declared set
/// leaves the per-key declared view at `key` unchanged.
proof fn lemma_declared_frame<I: ActorInternal>(
    pre: Seq<(I::Key, Actor<I>)>,
    post: Seq<(I::Key, Actor<I>)>,
    key: I::Key,
)
    requires
        pre.len() == post.len(),
        forall|a: int| 0 <= a < pre.len() ==> (#[trigger] post[a]).0 == pre[a].0,
        forall|a: int, b: int|
            0 <= a < b < pre.len() ==> (#[trigger] pre[a]).0 != (#[trigger] pre[b]).0,
        forall|a: int|
            0 <= a < pre.len() && (#[trigger] pre[a]).0 == key ==> post[a].1.declared_keys()
                == pre[a].1.declared_keys(),
    ensures
        declared_view(post, key) == declared_view(pre, key),
{
    if exists|w: int| 0 <= w < pre.len() && (#[trigger] pre[w]).0 == key {
        let wp = choose|w: int| 0 <= w < pre.len() && (#[trigger] pre[w]).0 == key;
        assert(exists|w: int| 0 <= w < post.len() && (#[trigger] post[w]).0 == key) by {
            assert((#[trigger] post[wp]).0 == key);
        }
        let wq = choose|w: int| 0 <= w < post.len() && (#[trigger] post[w]).0 == key;
        assert(pre[wq].0 == key);
        if wq < wp {
            assert(pre[wq].0 != pre[wp].0);
        }
        if wp < wq {
            assert(pre[wp].0 != pre[wq].0);
        }
        assert(declared_view(post, key) == post[wp].1.declared_keys());
    } else {
        if exists|w: int| 0 <= w < post.len() && (#[trigger] post[w]).0 == key {
            let wq = choose|w: int| 0 <= w < post.len() && (#[trigger] post[w]).0 == key;
            assert((#[trigger] pre[wq]).0 == key);
            assert(false);
        }
    }
}

impl<I: ActorInternal> SyncSystem<I> {
    /// The registered keys, in registration order.
    pub closed spec fn keys_seq(&self) -> Seq<I::Key> {
        self.entries@.map_values(|e: (I::Key, Actor<I>)| e.0)
    }

    /// The keys marked terminal, in order of first marking.
    pub closed spec fn terminals_seq(&self) -> Seq<I::Key> {
        self.terminals@
    }

    spec fn wf_entries(&self) -> bool {
        &&& forall|i: int, j: int|
            0 <= i < j < self.entries@.len() ==> (#[trigger] self.entries@[i]).0 != (
            #[trigger] self.entries@[j]).0
        &&& forall|i: int|
            0 <= i < self.entries@.len() ==> (#[trigger] self.entries@[i]).1.wf()
                && self.entries@[i].1.status() == ActorStatus::Setup
        &&& forall|i: int, j: int|
            0 <= i < j < self.terminals@.len() ==> self.terminals@[i] != self.terminals@[j]
        &&& forall|t: int|
            0 <= t < self.terminals@.len() ==> self.keys_seq().contains(
                #[trigger] self.terminals@[t],
            )
    }

    /// An empty system: no actors, no channels, no terminals.
    pub fn new() -> (r: Self)
        ensures
            r.wf(),
            r.actor_keys() == Set::<I::Key>::empty(),
            r.terminal_keys() == Set::<I::Key>::empty(),
    {
        let r = SyncSystem { entries: Vec::new(), terminals: Vec::new() };
        proof {
            assert(r.keys_seq() =~= Seq::<I::Key>::empty());
            assert(r.keys_seq().to_set() =~= Set::<I::Key>::empty());
            assert(r.terminals@.to_set() =~= Set::<I::Key>::empty());
        }
        r
    }

    /// Run the system to completion and hand back one final value per
    /// terminal actor. `None` reports that the system stalled — no actor
    /// could make progress — or spent its step budget [`STEP_BUDGET`] before
    /// every terminal terminated: the deterministic stand-in for a wait that
    /// would never return.
    pub fn run(self) -> (r: Option<KeyMap<I::Key, Option<I::Message>>>)
        requires
            self.wf(),
        ensures
            r matches Some(values) ==> values@.dom() == self.terminal_keys(),
    {
        let (r, _) = self.run_logged();
        r
    }

    /// Run the system to completion, also handing back the ghost log of every
    /// call the runtime made into each actor, in registration order.
    ///
    /// The contract pins the lifecycle discipline for every actor, and — when
    /// the run completes — that exactly the terminal actors' final values are
    /// returned, each the value its actor terminated with.
    #[verifier::loop_isolation(false)]
    pub fn run_logged(self) -> (res: (
        Option<KeyMap<I::Key, Option<I::Message>>>,
        Ghost<Seq<(I::Key, Seq<Hook<I::Key, I::Message>>)>>,
    ))
        requires
            self.wf(),
        ensures
            ({
                let (r, glogs) = res;
                let logs = glogs@;
                &&& logs.len() == self.keys_seq().len()
                &&& forall|i: int| 0 <= i < logs.len() ==> (#[trigger] logs[i]).0 == self.keys_seq()[i]
                &&& forall|i: int| 0 <= i < logs.len() ==> lifecycle_ok((#[trigger] logs[i]).1)
                &&& forall|i: int| 0 <= i < logs.len() ==> has_started((#[trigger] logs[i]).1)
                &&& (r is Some <==> (forall|i: int|
                    0 <= i < logs.len() && self.terminal_keys().contains((#[trigger] logs[i]).0)
                        ==> log_terminated(logs[i].1)))
                &&& (r matches Some(values) ==> values@.dom() == self.terminal_keys())
                &&& (r matches Some(values) ==> forall|i: int|
                    0 <= i < logs.len() && self.terminal_keys().contains((#[trigger] logs[i]).0)
                        ==> logs[i].1.last() == Hook::<I::Key, I::Message>::Terminated(
                        values@[logs[i].0],
                    ))
            }),
    {
        let mut sys = self;
        let ghost keys0 = sys.keys_seq();
        let ghost terms0 = sys.terminals@;
        let n = sys.entries.len();
        let mut clock: u64 = 0;

        // Start every actor, in registration order, routing what it sends.
        let mut i: usize = 0;
        while i < n
            invariant
                sys.entries@.len() == n,
                sys.keys_seq() == keys0,
                sys.terminals@ == terms0,
                forall|r: int| 0 <= r < n ==> (#[trigger] sys.entries@[r]).1.wf(),
                forall|r: int|
                    0 <= r < i ==> (#[trigger] sys.entries@[r]).1.status() != ActorStatus::Setup,
                forall|r: int|
                    i <= r < n ==> (#[trigger] sys.entries@[r]).1.status() == ActorStatus::Setup,
                forall|r: int|
                    0 <= r < n ==> ((#[trigger] sys.entries@[r]).1.status() matches
                        ActorStatus::WaitingUntil(d) ==> d >= clock),
            decreases n - i,
        {
            let ghost from = sys.entries@[i as int].0;
            let e = &mut sys.entries[i];
            e.1.step_start(clock);
            let e = &mut sys.entries[i];
            let outgoing = e.1.take_outgoing();
            proof {
                assert(sys.keys_seq() =~= keys0);
            }
            route_all(&mut sys.entries, Ghost(from), outgoing);
            proof {
                assert(sys.keys_seq() =~= keys0);
            }
            i = i + 1;
        }

        // Drive the system: deliver pending messages first; hand a waiting
        // actor the null message once its inbox can produce nothing more; and
        // only when nothing else can run, advance the clock to the earliest
        // deadline and fire that timeout.
        let mut fuel: u64 = STEP_BUDGET;
        let mut done = false;
        let mut stalled = false;
        while fuel > 0 && !done && !stalled
            invariant
                sys.entries@.len() == n,
                sys.keys_seq() == keys0,
                sys.terminals@ == terms0,
                forall|r: int|
                    0 <= r < n ==> (#[trigger] sys.entries@[r]).1.wf() && sys.entries@[r].1.status() != ActorStatus::Setup,
                forall|r: int|
                    0 <= r < n ==> ((#[trigger] sys.entries@[r]).1.status() matches
                        ActorStatus::WaitingUntil(d) ==> d >= clock),
                done ==> terminals_done(sys.entries@, terms0),
            decreases fuel,
        {
            fuel = fuel - 1;
            if sys.all_terminals_done() {
                done = true;
            } else {
                let picked = sys.pick_runnable(clock);
                match picked {
                    Some((j, at)) => {
                        clock = at;
                        let ghost from = sys.entries@[j as int].0;
                        let e = &mut sys.entries[j];
                        e.1.act_next(clock);
                        let e = &mut sys.entries[j];
                        let outgoing = e.1.take_outgoing();
                        proof {
                            assert(sys.keys_seq() =~= keys0);
                        }
                        route_all(&mut sys.entries, Ghost(from), outgoing);
                        proof {
                            assert(sys.keys_seq() =~= keys0);
                        }
                    },
                    None => {
                        stalled = true;
                    },
                }
            }
        }
        let done = sys.all_terminals_done();

        let ghost logs = Seq::new(
            n as nat,
            |i: int| (sys.entries@[i].0, sys.entries@[i].1.log()),
        );
        proof {
            assert forall|i: int| 0 <= i < n implies lifecycle_ok((#[trigger] logs[i]).1)
                && has_started(logs[i].1) && (sys.entries@[i].1.status() == ActorStatus::Done
                <==> logs[i].1.len() > 0 && logs[i].1.last() == Hook::<
                I::Key,
                I::Message,
            >::Terminated(sys.entries@[i].1.done_value())) && (sys.entries@[i].1.status()
                != ActorStatus::Done && logs[i].1.len() > 0 ==> !(logs[i].1.last()
                is Terminated)) by {
                sys.entries@[i].1.lemma_lifecycle();
            }
        }

        if !done {
            proof {
                let w = choose|i: int|
                    0 <= i < n && terms0.contains(sys.entries@[i].0) && sys.entries@[i].1.status()
                        != ActorStatus::Done;
                assert(terms0.to_set().contains(logs[w].0));
                assert(!(logs[w].1.last() is Terminated) || logs[w].1.len() == 0);
            }
            return (None, Ghost(logs));
        }

        // Collect the terminals' final values.
        let ghost entries0 = sys.entries@;
        let mut values: KeyMap<I::Key, Option<I::Message>> = KeyMap::new();
        proof {
            assert(sys.entries@ =~= entries0.take(sys.entries@.len() as int));
            assert(forall|i: int| 0 <= i < n ==> keys0[i] == (#[trigger] entries0[i]).0);
            assert forall|i: int, j: int| 0 <= i < j < n implies (#[trigger] entries0[i]).0 != (
            #[trigger] entries0[j]).0 by {
                assert(keys0[i] != keys0[j]);
            }
        }
        while sys.entries.len() > 0
            invariant
                sys.entries@.len() <= entries0.len(),
                sys.entries@ == entries0.take(sys.entries@.len() as int),
                sys.terminals@ == terms0,
                forall|i: int|
                    sys.entries@.len() <= i < n && terms0.contains((#[trigger] entries0[i]).0)
                        ==> values@.dom().contains(entries0[i].0) && values@[entries0[i].0]
                        == entries0[i].1.done_value(),
                forall|k: I::Key|
                    values@.dom().contains(k) ==> exists|i: int|
                        sys.entries@.len() <= i < n && (#[trigger] entries0[i]).0 == k
                            && terms0.contains(k),
            decreases sys.entries@.len(),
        {
            let (key, actor) = match sys.entries.pop() {
                Some(e) => e,
                None => {
                    proof {
                        assert(false);
                    }
                    unreached()
                },
            };
            let ghost len = sys.entries@.len() as int;
            proof {
                assert(entries0.take(len + 1).last() == entries0[len]);
                assert(entries0.take(len + 1).drop_last() =~= entries0.take(len));
                assert(key == entries0[len].0 && actor == entries0[len].1);
                assert(forall|i2: int|
                    len < i2 < n ==> (#[trigger] entries0[i2]).0 != entries0[len].0);
            }
            if key_in(&sys.terminals, &key) {
                let v = actor.into_final_value();
                values.insert(key, v);
            }
        }
        proof {
            assert forall|k: I::Key| values@.dom().contains(k) implies terms0.to_set().contains(
                k,
            ) by {}
            assert forall|k: I::Key| terms0.to_set().contains(k) implies values@.dom().contains(
                k,
            ) by {
                let t = choose|t: int| 0 <= t < terms0.len() && terms0[t] == k;
                assert(keys0.contains(k));
                let i = choose|i: int| 0 <= i < keys0.len() && keys0[i] == k;
                assert(entries0[i].0 == k);
            }
            assert(values@.dom() =~= terms0.to_set());
            assert forall|i: int|
                0 <= i < n && terms0.to_set().contains((#[trigger] logs[i]).0) implies logs[i].1.last()
                == Hook::<I::Key, I::Message>::Terminated(values@[logs[i].0]) by {
                assert(entries0[i].0 == keys0[i]);
                assert(values@[entries0[i].0] == entries0[i].1.done_value());
            }
        }
        (Some(values), Ghost(logs))
    }

    /// Whether every terminal actor has terminated.
    #[verifier::loop_isolation(false)]
    fn all_terminals_done(&self) -> (r: bool)
        requires
            forall|i: int| 0 <= i < self.entries@.len() ==> (#[trigger] self.entries@[i]).1.wf(),
        ensures
            r == terminals_done(self.entries@, self.terminals@),
    {
        let n = self.entries.len();
        let mut i: usize = 0;
        while i < n
            invariant
                n == self.entries@.len(),
                0 <= i <= n,
                forall|j: int|
                    0 <= j < i && self.terminals@.contains((#[trigger] self.entries@[j]).0)
                        ==> self.entries@[j].1.status() == ActorStatus::Done,
            decreases n - i,
        {
            if !matches!(self.entries[i].1.read_status(), ActorStatus::Done) && key_in(
                &self.terminals,
                &self.entries[i].0,
            ) {
                return false;
            }
            i = i + 1;
        }
        true
    }

    /// Choose the next actor to step, and the clock at which it steps: a
    /// waiting actor with a pending message; failing that, a waiting actor
    /// whose inbox can produce nothing more (every producer is gone); failing
    /// that, the earliest deadline among timed waits, advancing the clock to
    /// it. `None` means no actor can make progress.
    #[verifier::loop_isolation(false)]
    fn pick_runnable(&self, clock: u64) -> (r: Option<(usize, u64)>)
        requires
            forall|i: int| 0 <= i < self.entries@.len() ==> (#[trigger] self.entries@[i]).1.wf(),
            forall|i: int|
                0 <= i < self.entries@.len() ==> ((#[trigger] self.entries@[i]).1.status() matches
                    ActorStatus::WaitingUntil(d) ==> d >= clock),
        ensures
            r matches Some((j, at)) ==> {
                &&& j < self.entries@.len()
                &&& (self.entries@[j as int].1.status() == ActorStatus::Waiting || self.entries@[j as int].1.status() matches ActorStatus::WaitingUntil(_))
                &&& at >= clock
                &&& forall|i: int|
                    0 <= i < self.entries@.len() ==> ((#[trigger] self.entries@[i]).1.status()
                        matches ActorStatus::WaitingUntil(d) ==> d >= at)
            },
    {
        let n = self.entries.len();

        // A waiting actor with a pending message.
        let mut i: usize = 0;
        while i < n
            invariant
                n == self.entries@.len(),
                0 <= i <= n,
            decreases n - i,
        {
            let waiting = match self.entries[i].1.read_status() {
                ActorStatus::Waiting => true,
                ActorStatus::WaitingUntil(_) => true,
                _ => false,
            };
            if waiting && self.entries[i].1.has_deliverable() {
                return Some((i, clock));
            }
            i = i + 1;
        }

        // A waiting actor whose inbox is closed: every registered actor that
        // declares an edge to it has terminated.
        let mut i: usize = 0;
        while i < n
            invariant
                n == self.entries@.len(),
                0 <= i <= n,
            decreases n - i,
        {
            if matches!(self.entries[i].1.read_status(), ActorStatus::Waiting) {
                let mut alive = false;
                let mut j: usize = 0;
                while j < n
                    invariant
                        n == self.entries@.len(),
                        0 <= j <= n,
                        i < n,
                    decreases n - j,
                {
                    if !matches!(self.entries[j].1.read_status(), ActorStatus::Done)
                        && self.entries[j].1.declares(&self.entries[i].0) {
                        alive = true;
                    }
                    j = j + 1;
                }
                if !alive {
                    return Some((i, clock));
                }
            }
            i = i + 1;
        }

        // The earliest deadline among timed waits.
        let mut best: Option<(usize, u64)> = None;
        let mut i: usize = 0;
        while i < n
            invariant
                n == self.entries@.len(),
                0 <= i <= n,
                best matches Some((j, at)) ==> {
                    &&& (j as int) < n
                    &&& self.entries@[j as int].1.status() matches ActorStatus::WaitingUntil(d)
                        && d == at
                    &&& at >= clock
                    &&& forall|r: int|
                        0 <= r < i ==> ((#[trigger] self.entries@[r]).1.status() matches
                            ActorStatus::WaitingUntil(d) ==> d >= at)
                },
                best is None ==> forall|r: int|
                    0 <= r < i ==> !((#[trigger] self.entries@[r]).1.status() matches
                        ActorStatus::WaitingUntil(_)),
            decreases n - i,
        {
            if let ActorStatus::WaitingUntil(d) = self.entries[i].1.read_status() {
                match best {
                    Some((_, at)) => {
                        if d < at {
                            best = Some((i, d));
                        }
                    },
                    None => {
                        best = Some((i, d));
                    },
                }
            }
            i = i + 1;
        }
        match best {
            Some((j, at)) => Some((j, at)),
            None => None,
        }
    }
}

impl<I: ActorInternal> System for SyncSystem<I> {
    type Internal = I;

    type ActorParameters = SyncParameters;

    closed spec fn wf(&self) -> bool {
        self.wf_entries()
    }

    open spec fn actor_keys(&self) -> Set<I::Key> {
        self.keys_seq().to_set()
    }

    closed spec fn terminal_keys(&self) -> Set<I::Key> {
        self.terminals@.to_set()
    }

    closed spec fn log_of(&self, key: I::Key) -> Seq<Hook<I::Key, I::Message>> {
        log_view(self.entries@, key)
    }

    closed spec fn declared_of(&self, key: I::Key) -> Set<I::Key> {
        declared_view(self.entries@, key)
    }

    fn add_actor(&mut self, key: I::Key, internal: I, _parameters: Option<SyncParameters>) {
        let actor = Actor::new(internal);
        match find_entry(&self.entries, &key) {
            Some(i) => {
                let e = &mut self.entries[i];
                e.1 = actor;
                proof {
                    assert(self.keys_seq() =~= old(self).keys_seq());
                    assert(old(self).keys_seq().to_set().contains(key)) by {
                        assert(old(self).keys_seq()[i as int] == key);
                    }
                    assert(self.keys_seq().to_set() =~= old(self).keys_seq().to_set().insert(key));
                    assert forall|j: int|
                        0 <= j < self.entries@.len() implies (#[trigger] self.entries@[j]).1.wf()
                        && self.entries@[j].1.status() == ActorStatus::Setup by {
                        if j != i as int {
                            assert(self.entries@[j] == old(self).entries@[j]);
                        }
                    }
                    assert forall|t: int|
                        0 <= t < self.terminals@.len() implies self.keys_seq().contains(
                        #[trigger] self.terminals@[t]) by {
                        assert(old(self).keys_seq().contains(self.terminals@[t]));
                    }
                }
            },
            None => {
                self.entries.push((key, actor));
                proof {
                    assert(self.keys_seq() =~= old(self).keys_seq().push(key));
                    crate::channel::lemma_push_to_set(old(self).keys_seq(), key);
                    assert forall|j: int|
                        0 <= j < self.entries@.len() implies (#[trigger] self.entries@[j]).1.wf()
                        && self.entries@[j].1.status() == ActorStatus::Setup by {
                        if j < old(self).entries@.len() {
                            assert(self.entries@[j] == old(self).entries@[j]);
                        } else {
                            assert(self.entries@[j] == self.entries@.last());
                        }
                    }
                    assert forall|t: int|
                        0 <= t < self.terminals@.len() implies self.keys_seq().contains(
                        #[trigger] self.terminals@[t]) by {
                        let w = choose|w: int|
                            0 <= w < old(self).keys_seq().len() && old(self).keys_seq()[w]
                                == self.terminals@[t];
                        assert(self.keys_seq()[w] == self.terminals@[t]);
                    }
                }
            },
        }
    }

    fn add_channel(&mut self, sender: &I::Key, receiver: &I::Key) {
        let i = match find_entry(&self.entries, sender) {
            Some(i) => i,
            None => {
                proof {
                    let w = choose|w: int|
                        0 <= w < self.keys_seq().len() && self.keys_seq()[w] == *sender;
                    assert(self.entries@[w].0 == *sender);
                    assert(false);
                }
                return ;
            },
        };
        let ghost pre = self.entries@;
        let e = &mut self.entries[i];
        e.1.new_outgoing_key(receiver);
        let ghost mid = self.entries@;
        proof {
            assert(self.keys_seq() =~= old(self).keys_seq());
        }
        let j = match find_entry(&self.entries, receiver) {
            Some(j) => j,
            None => {
                proof {
                    let w = choose|w: int|
                        0 <= w < self.keys_seq().len() && self.keys_seq()[w] == *receiver;
                    assert(self.entries@[w].0 == *receiver);
                    assert(false);
                }
                return ;
            },
        };
        let e = &mut self.entries[j];
        e.1.new_incoming_key(sender);
        let ghost post = self.entries@;
        proof {
            assert(self.keys_seq() =~= old(self).keys_seq());
            assert(self.keys_seq().to_set() =~= old(self).keys_seq().to_set());
            assert(forall|a: int| 0 <= a < pre.len() ==> (#[trigger] mid[a]).0 == pre[a].0);
            assert(forall|a: int| 0 <= a < pre.len() ==> (#[trigger] post[a]).0 == pre[a].0);
            assert(forall|a: int, b: int|
                0 <= a < b < pre.len() ==> (#[trigger] pre[a]).0 != (#[trigger] pre[b]).0);
            assert(forall|a: int, b: int|
                0 <= a < b < mid.len() ==> (#[trigger] mid[a]).0 != (#[trigger] mid[b]).0);
            // The sender's view: its log gained the outgoing callback, and —
            // on a self-loop — the incoming one after it.
            lemma_views_at::<I>(pre, i as int);
            lemma_views_at::<I>(mid, i as int);
            lemma_views_at::<I>(mid, j as int);
            lemma_views_at::<I>(post, i as int);
            lemma_views_at::<I>(post, j as int);
            if i != j {
                assert(post[i as int] == mid[i as int]);
                assert(mid[j as int] == pre[j as int]);
                assert forall|k: I::Key| k != *sender && k != *receiver implies log_view(
                    post,
                    k,
                ) == log_view(pre, k) by {
                    lemma_log_frame::<I>(pre, mid, k);
                    lemma_log_frame::<I>(mid, post, k);
                }
                assert forall|k: I::Key| k != *sender implies declared_view(post, k)
                    == declared_view(pre, k) by {
                    lemma_declared_frame::<I>(pre, mid, k);
                    lemma_declared_frame::<I>(mid, post, k);
                }
                assert(declared_view(post, *sender) == declared_view(mid, *sender)) by {
                    lemma_declared_frame::<I>(mid, post, *sender);
                }
            } else {
                assert forall|k: I::Key| k != *sender implies log_view(post, k) == log_view(
                    pre,
                    k,
                ) && declared_view(post, k) == declared_view(pre, k) by {
                    lemma_log_frame::<I>(pre, mid, k);
                    lemma_log_frame::<I>(mid, post, k);
                    lemma_declared_frame::<I>(pre, mid, k);
                    lemma_declared_frame::<I>(mid, post, k);
                }
            }
        }
    }

    fn add_terminal(&mut self, key: I::Key) {
        if !key_in(&self.terminals, &key) {
            self.terminals.push(key);
            proof {
                crate::channel::lemma_push_to_set(old(self).terminals@, key);
            }
        } else {
            proof {
                assert(self.terminals@.to_set() =~= self.terminals@.to_set().insert(key));
            }
        }
    }
}

} // verus!
