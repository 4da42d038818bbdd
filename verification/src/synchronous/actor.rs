//! A container for one actor: its user state machine, its inbox, its outbox,
//! its position in the lifecycle, and the ghost log of every call the runtime
//! has made into it.

use vstd::prelude::*;

use crate::channel::{InChannel, Inbox, OutChannels, Outbox};
use crate::internal::{ActorInternal, EqKey};
use crate::lifecycle::{
    done_log, has_started, lemma_done_log_lifecycle, lemma_running_log_lifecycle,
    lemma_setup_log_lifecycle, lifecycle_ok, running_log, setup_log, Hook,
};
use crate::synchronous::agent::AgentError;

verus! {

/// Where an actor stands in its lifecycle, as the driver sees it.
#[derive(Debug, Clone, Copy, PartialEq, Eq, Structural)]
pub enum ActorStatus {
    /// Topology callbacks may still arrive; `start` has not run.
    Setup,
    /// Started, waiting for the next message with no deadline.
    Waiting,
    /// Started, waiting for the next message up to the given deadline on the
    /// runtime's clock.
    WaitingUntil(u64),
    /// Terminated; no further calls are made into the actor.
    Done,
}

pub(crate) enum Phase<M> {
    Setup,
    WaitingGet,
    WaitingTimeout(u64),
    Done(Option<M>),
}

/// A container for an actor.
///
/// The methods that drive the lifecycle are usually called by the system, not
/// by the user.
pub struct Actor<I: ActorInternal> {
    pub internal: I,
    pub(crate) in_channel: Inbox<I::Key, I::Message>,
    pub(crate) out_channels: Outbox<I::Key, I::Message>,
    pub(crate) phase: Phase<I::Message>,
    pub(crate) topo: Ghost<Seq<Hook<I::Key, I::Message>>>,
    pub(crate) steps: Ghost<Seq<Option<I::Message>>>,
}

impl<I: ActorInternal> Actor<I> {
    /// Bookkeeping invariant: the inbox is well formed and the recorded
    /// topology callbacks are indeed topology callbacks.
    pub closed spec fn wf(&self) -> bool {
        &&& self.in_channel.wf()
        &&& setup_log(self.topo@)
        &&& self.phase is Setup ==> self.steps@ == Seq::<Option<I::Message>>::empty()
    }

    /// The actor's lifecycle position.
    pub closed spec fn status(&self) -> ActorStatus {
        match self.phase {
            Phase::Setup => ActorStatus::Setup,
            Phase::WaitingGet => ActorStatus::Waiting,
            Phase::WaitingTimeout(deadline) => ActorStatus::WaitingUntil(deadline),
            Phase::Done(_) => ActorStatus::Done,
        }
    }

    /// The final value the actor terminated with. Meaningful only when the
    /// status is `Done`.
    pub closed spec fn done_value(&self) -> Option<I::Message> {
        match self.phase {
            Phase::Done(v) => v,
            _ => None,
        }
    }

    /// The log of every call the runtime has made into this actor.
    pub closed spec fn log(&self) -> Seq<Hook<I::Key, I::Message>> {
        match self.phase {
            Phase::Setup => self.topo@,
            Phase::Done(v) => done_log(self.topo@, self.steps@, v),
            _ => running_log(self.topo@, self.steps@),
        }
    }

    /// The destinations declared for this actor.
    pub closed spec fn declared_keys(&self) -> Set<I::Key> {
        self.out_channels.declared()
    }

    /// The messages this actor's hooks have sent and the runtime has not yet
    /// routed.
    pub closed spec fn outbox_buffered(&self) -> Seq<(I::Key, I::Message)> {
        self.out_channels.buffered()
    }

    /// Every message ever put in this actor's inbox, tagged by sender.
    pub closed spec fn inbox_history(&self) -> Seq<(I::Key, I::Message)> {
        self.in_channel.history()
    }

    /// How many inbox messages have been delivered to the actor.
    pub closed spec fn inbox_taken(&self) -> int {
        self.in_channel.taken()
    }

    /// A well-formed actor's log obeys the lifecycle discipline, the log ends
    /// with the termination acknowledgment exactly when the actor is done,
    /// and a started actor's log holds its start.
    pub proof fn lemma_lifecycle(&self)
        requires
            self.wf(),
        ensures
            lifecycle_ok(self.log()),
            self.status() != ActorStatus::Setup ==> has_started(self.log()),
            self.status() == ActorStatus::Done <==> self.log().len() > 0 && self.log().last()
                == Hook::<I::Key, I::Message>::Terminated(self.done_value()),
            self.status() != ActorStatus::Done && self.log().len() > 0 ==> !(self.log().last()
                is Terminated),
    {
        match self.phase {
            Phase::Setup => {
                lemma_setup_log_lifecycle(self.topo@);
                if self.log().len() > 0 {
                    assert(crate::lifecycle::is_topology_hook(self.topo@.last()));
                }
            },
            Phase::Done(v) => {
                lemma_done_log_lifecycle(self.topo@, self.steps@, v);
                let run = running_log(self.topo@, self.steps@);
                assert(self.log().last() == Hook::<I::Key, I::Message>::Terminated(v));
                assert(has_started(self.log())) by {
                    assert(self.log()[self.topo@.len() as int] is Started);
                }
            },
            _ => {
                lemma_running_log_lifecycle(self.topo@, self.steps@);
                let log = self.log();
                assert(has_started(log)) by {
                    assert(log[self.topo@.len() as int] is Started);
                }
                let c = self.topo@.len() as int;
                if log.len() > 0 {
                    let l = log.len() - 1;
                    if l < c {
                        assert(crate::lifecycle::is_topology_hook(self.topo@[l]));
                    }
                    assert(!(log.last() is Terminated));
                }
            },
        }
    }

    /// A fresh actor around a user state machine: empty inbox, no declared
    /// destinations, lifecycle at set-up.
    pub fn new(internal: I) -> (r: Self)
        ensures
            r.wf(),
            r.status() == ActorStatus::Setup,
            r.log() == Seq::<Hook<I::Key, I::Message>>::empty(),
            r.inbox_history() == Seq::<(I::Key, I::Message)>::empty(),
            r.inbox_taken() == 0,
    {
        Actor {
            internal,
            in_channel: Inbox::new(),
            out_channels: Outbox::new(),
            phase: Phase::Setup,
            topo: Ghost(Seq::empty()),
            steps: Ghost(Seq::empty()),
        }
    }

    /// Deliver the topology callback for one declared inbound edge.
    pub fn new_incoming_key(&mut self, key: &I::Key)
        requires
            old(self).wf(),
            old(self).status() == ActorStatus::Setup,
        ensures
            final(self).wf(),
            final(self).status() == ActorStatus::Setup,
            final(self).log() == old(self).log().push(
                Hook::<I::Key, I::Message>::IncomingKey(*key),
            ),
            final(self).declared_keys() == old(self).declared_keys(),
            final(self).inbox_history() == old(self).inbox_history(),
            final(self).inbox_taken() == old(self).inbox_taken(),
    {
        self.internal.new_incoming_key(key);
        proof {
            self.topo@ = self.topo@.push(Hook::IncomingKey(*key));
        }
    }

    /// Deliver the topology callback for one declared outbound edge and
    /// install the producer handle for it.
    pub fn new_outgoing_key(&mut self, key: &I::Key)
        requires
            old(self).wf(),
            old(self).status() == ActorStatus::Setup,
        ensures
            final(self).wf(),
            final(self).status() == ActorStatus::Setup,
            final(self).log() == old(self).log().push(
                Hook::<I::Key, I::Message>::OutgoingKey(*key),
            ),
            final(self).declared_keys() == old(self).declared_keys().insert(*key),
            final(self).inbox_history() == old(self).inbox_history(),
            final(self).inbox_taken() == old(self).inbox_taken(),
    {
        self.internal.new_outgoing_key(key);
        self.out_channels.insert(*key);
        proof {
            self.topo@ = self.topo@.push(Hook::OutgoingKey(*key));
        }
    }

    /// Whether the actor declares an outbound edge to `key`.
    pub fn declares(&self, key: &I::Key) -> (r: bool)
        ensures
            r <==> self.declared_keys().contains(*key),
    {
        self.out_channels.declares(key)
    }

    /// Whether a message is pending in the actor's inbox.
    pub fn has_deliverable(&self) -> (r: bool)
        requires
            self.wf(),
        ensures
            r <==> self.inbox_taken() < self.inbox_history().len(),
    {
        self.in_channel.has_pending()
    }

    /// The actor's lifecycle position, for the driver.
    pub fn read_status(&self) -> (r: ActorStatus)
        ensures
            r == self.status(),
    {
        match &self.phase {
            Phase::Setup => ActorStatus::Setup,
            Phase::WaitingGet => ActorStatus::Waiting,
            Phase::WaitingTimeout(deadline) => ActorStatus::WaitingUntil(*deadline),
            Phase::Done(_) => ActorStatus::Done,
        }
    }

    /// Enqueue a message for this actor; the ghost tag names the sender.
    pub fn push_message(&mut self, from: Ghost<I::Key>, message: I::Message)
        requires
            old(self).wf(),
        ensures
            final(self).wf(),
            final(self).status() == old(self).status(),
            final(self).done_value() == old(self).done_value(),
            final(self).log() == old(self).log(),
            final(self).inbox_history() == old(self).inbox_history().push((from@, message)),
            final(self).inbox_taken() == old(self).inbox_taken(),
    {
        self.in_channel.push(from, message);
    }

    /// Turn a chosen next state into the new phase, given the clock.
    fn apply_next_state(
        &mut self,
        next: Result<crate::internal::NextState<I::Message>, I::Error>,
        clock: u64,
    )
        requires
            old(self).wf(),
            old(self).status() != ActorStatus::Setup,
        ensures
            final(self).wf(),
            final(self).status() != ActorStatus::Setup,
            final(self).topo == old(self).topo,
            final(self).steps == old(self).steps,
            final(self).in_channel == old(self).in_channel,
            final(self).status() matches ActorStatus::WaitingUntil(d) ==> d >= clock,
    {
        match next {
            Ok(crate::internal::NextState::Get) => {
                self.phase = Phase::WaitingGet;
            },
            Ok(crate::internal::NextState::GetTimeout(d)) => {
                self.phase = Phase::WaitingTimeout(clock.saturating_add(d));
            },
            Ok(crate::internal::NextState::Terminate(v)) => {
                self.phase = Phase::Done(v);
            },
            Err(_) => {
                // A hook failure aborts the actor: the runtime treats it as
                // an implicit termination without a value.
                self.phase = Phase::Done(None);
            },
        }
    }

    /// Run the actor's one-shot `start` hook. What the hook sent waits in the
    /// outbox until the runtime takes it with [`Actor::take_outgoing`].
    pub fn step_start(&mut self, clock: u64)
        requires
            old(self).wf(),
            old(self).status() == ActorStatus::Setup,
        ensures
            final(self).wf(),
            final(self).status() != ActorStatus::Setup,
            final(self).status() == ActorStatus::Done ==> final(self).log() == old(self).log()
                + seq![
                Hook::<I::Key, I::Message>::Started,
                Hook::<I::Key, I::Message>::Terminated(final(self).done_value()),
            ],
            final(self).status() != ActorStatus::Done ==> final(self).log() == old(
                self,
            ).log().push(Hook::<I::Key, I::Message>::Started),
            final(self).inbox_history() == old(self).inbox_history(),
            final(self).inbox_taken() == old(self).inbox_taken(),
            final(self).status() matches ActorStatus::WaitingUntil(d) ==> d >= clock,
    {
        let next = self.internal.start(&mut self.out_channels);
        // Leave the set-up phase before the chosen next state is applied.
        self.phase = Phase::WaitingGet;
        self.apply_next_state(next, clock);
        proof {
            assert(crate::lifecycle::running_log(self.topo@, self.steps@) =~= self.topo@ + seq![
                Hook::<I::Key, I::Message>::Started,
            ]);
        }
    }

    /// Deliver the next inbox message — or, when none is pending, the null
    /// message that stands for an elapsed deadline or a closed inbox — and
    /// run the actor's `process_message` hook on it. What the hook sent waits
    /// in the outbox until the runtime takes it with [`Actor::take_outgoing`].
    pub fn act_next(&mut self, clock: u64)
        requires
            old(self).wf(),
            old(self).status() == ActorStatus::Waiting || old(self).status() matches
                ActorStatus::WaitingUntil(_),
        ensures
            final(self).wf(),
            final(self).status() != ActorStatus::Setup,
            final(self).inbox_history() == old(self).inbox_history(),
            final(self).inbox_taken() == if old(self).inbox_taken() < old(
                self,
            ).inbox_history().len() {
                old(self).inbox_taken() + 1
            } else {
                old(self).inbox_taken()
            },
            ({
                let delivered = if old(self).inbox_taken() < old(self).inbox_history().len() {
                    Some(old(self).inbox_history()[old(self).inbox_taken()].1)
                } else {
                    None
                };
                &&& (final(self).status() == ActorStatus::Done ==> final(self).log() == old(
                    self,
                ).log() + seq![
                    Hook::<I::Key, I::Message>::Stepped(delivered),
                    Hook::<I::Key, I::Message>::Terminated(final(self).done_value()),
                ])
                &&& (final(self).status() != ActorStatus::Done ==> final(self).log() == old(
                    self,
                ).log().push(Hook::<I::Key, I::Message>::Stepped(delivered)))
            }),
            final(self).status() matches ActorStatus::WaitingUntil(d) ==> d >= clock,
    {
        proof {
            self.in_channel.lemma_wf();
        }
        let st = self.read_status();
        let message = match st {
            ActorStatus::WaitingUntil(deadline) => self.in_channel.recv_timeout(deadline),
            _ => self.in_channel.recv(),
        };
        let ghost gmsg = message;
        let ghost steps0 = self.steps@;
        let next = self.internal.process_message(message, &mut self.out_channels);
        proof {
            self.steps@ = self.steps@.push(gmsg);
        }
        self.phase = Phase::WaitingGet;
        self.apply_next_state(next, clock);
        proof {
            assert(crate::lifecycle::running_log(self.topo@, self.steps@)
                =~= crate::lifecycle::running_log(self.topo@, steps0).push(
                Hook::<I::Key, I::Message>::Stepped(gmsg),
            ));
        }
    }

    /// Drive this actor alone to termination: start it, then step it whenever
    /// it waits, delivering its inbox messages in order and the null message
    /// when none is pending. What the actor sends has no recipient here and
    /// is discarded. Timed waits advance a local clock to their deadline.
    ///
    /// The ghost log of every call made into the actor is returned beside the
    /// result; it always obeys the lifecycle discipline, and the result is
    /// `Ok` exactly when the log closes with the actor's termination.
    pub fn run(self, max_steps: u64) -> (res: (
        Result<Option<I::Message>, AgentError<I::Error, I::Message>>,
        Ghost<Seq<Hook<I::Key, I::Message>>>,
    ))
        requires
            self.wf(),
            self.status() == ActorStatus::Setup,
        ensures
            ({
                let (r, glog) = res;
                &&& lifecycle_ok(glog@)
                &&& has_started(glog@)
                &&& (r matches Ok(v) ==> glog@.len() > 0 && glog@.last() == Hook::<
                    I::Key,
                    I::Message,
                >::Terminated(v))
                &&& (r is Err ==> !(glog@.len() > 0 && glog@.last() is Terminated))
            }),
    {
        let mut actor = self;
        let mut clock: u64 = 0;
        actor.step_start(clock);
        let _ = actor.take_outgoing();
        let mut fuel: u64 = max_steps;
        let mut done = false;
        while fuel > 0 && !done
            invariant
                actor.wf(),
                actor.status() != ActorStatus::Setup,
                done ==> actor.status() == ActorStatus::Done,
            decreases fuel,
        {
            fuel = fuel - 1;
            match actor.read_status() {
                ActorStatus::Done => {
                    done = true;
                },
                ActorStatus::WaitingUntil(deadline) => {
                    if clock < deadline {
                        clock = deadline;
                    }
                    actor.act_next(clock);
                    let _ = actor.take_outgoing();
                },
                _ => {
                    actor.act_next(clock);
                    let _ = actor.take_outgoing();
                },
            }
        }
        let done = matches!(actor.read_status(), ActorStatus::Done);
        let ghost glog = actor.log();
        proof {
            actor.lemma_lifecycle();
        }
        if done {
            let value = actor.into_final_value();
            (Ok(value), Ghost(glog))
        } else {
            (Err(AgentError::ExitedWithoutValue), Ghost(glog))
        }
    }

    /// Take the messages the actor's hooks have sent since the last call, in
    /// send order; the outbox buffer is then empty.
    pub fn take_outgoing(&mut self) -> (outgoing: Vec<(I::Key, I::Message)>)
        requires
            old(self).wf(),
        ensures
            final(self).wf(),
            outgoing@ == old(self).outbox_buffered(),
            final(self).outbox_buffered() == Seq::<(I::Key, I::Message)>::empty(),
            final(self).status() == old(self).status(),
            final(self).done_value() == old(self).done_value(),
            final(self).log() == old(self).log(),
            final(self).declared_keys() == old(self).declared_keys(),
            final(self).inbox_history() == old(self).inbox_history(),
            final(self).inbox_taken() == old(self).inbox_taken(),
    {
        self.out_channels.take_outgoing()
    }

    /// The final value of a terminated actor.
    pub fn into_final_value(self) -> (r: Option<I::Message>)
        requires
            self.status() == ActorStatus::Done,
        ensures
            r == self.done_value(),
    {
        match self.phase {
            Phase::Done(v) => v,
            _ => None,
        }
    }
}

} // verus!
