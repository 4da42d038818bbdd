//! A task-backend actor: the pair of its core half and its interface half.
//! The interface half owns the channels and executes instruction batches; the
//! core half produces them. The two halves can be split apart so that a
//! deployment may place the core on its own thread or pool while the
//! interface stays with the transport.

use std::collections::VecDeque;

use vstd::prelude::*;

use crate::internal::{EqKey, Instruction, SendError};
use crate::lifecycle::{
    done_log, has_started, lemma_done_log_lifecycle, lemma_running_log_lifecycle,
    lemma_setup_log_lifecycle, lifecycle_ok, running_log, setup_log, Hook,
};
use crate::tasks::actor_core::{ActorCore, ActorType, TokioInternal};
use crate::tasks::channel::Channels;

verus! {

/// Where a task-backend actor stands, as the driver sees it.
#[derive(Debug, Clone, Copy, PartialEq, Eq, Structural)]
pub enum TaskStatus {
    /// Topology callbacks may still arrive; the core has not started.
    Setup,
    /// Waiting for the next message with no deadline.
    Waiting,
    /// Waiting for the next message up to the given deadline on the driver's
    /// clock.
    WaitingUntil(u64),
    /// Terminated; the final value has not been collected yet.
    Terminated,
    /// Terminated, and the final value has been collected.
    Published,
    /// The core stopped issuing instructions without terminating; the actor
    /// can make no further progress.
    Stalled,
}

enum IfState<M> {
    Setup,
    Waiting,
    WaitingTimeout(u64),
    Terminated(Option<M>),
    Published,
    Stalled,
}

/// An error from driving one actor.
#[derive(Debug)]
pub enum AgentError<I: TokioInternal> {
    /// The actor's own state machine failed.
    InterfaceError(I::Error),
    /// A message could not be handed over.
    SendError(SendError<(I::Key, I::Message)>),
    /// The actor stopped without terminating.
    ExitedWithoutValue,
}

/// The interface half of one actor: its channels, the instructions not yet
/// executed, and its position in the lifecycle.
pub struct AgentInterface<I: TokioInternal> {
    pub(crate) channels: Channels<I::Key, I::Message>,
    pending: VecDeque<Instruction<I::Key, I::Message>>,
    state: IfState<I::Message>,
    instruction_capacity: usize,
}

impl<I: TokioInternal> AgentInterface<I> {
    /// Bookkeeping invariant.
    pub closed spec fn wf(&self) -> bool {
        self.channels.wf()
    }

    /// The actor's position in the lifecycle.
    pub closed spec fn status(&self) -> TaskStatus {
        match self.state {
            IfState::Setup => TaskStatus::Setup,
            IfState::Waiting => TaskStatus::Waiting,
            IfState::WaitingTimeout(deadline) => TaskStatus::WaitingUntil(deadline),
            IfState::Terminated(_) => TaskStatus::Terminated,
            IfState::Published => TaskStatus::Published,
            IfState::Stalled => TaskStatus::Stalled,
        }
    }

    /// The final value the actor terminated with. Meaningful only when the
    /// status is `Terminated`.
    pub closed spec fn done_value(&self) -> Option<I::Message> {
        match self.state {
            IfState::Terminated(v) => v,
            _ => None,
        }
    }

    /// The instructions accepted from the core and not yet executed, next
    /// first.
    pub closed spec fn queued(&self) -> Seq<Instruction<I::Key, I::Message>> {
        self.pending@
    }

    /// Every message ever put in the inbox, tagged by sender.
    pub closed spec fn inbox_history(&self) -> Seq<(I::Key, I::Message)> {
        self.channels.inbox_history()
    }

    /// How many inbox messages have been delivered.
    pub closed spec fn inbox_taken(&self) -> int {
        self.channels.inbox_taken()
    }

    /// The destinations declared for this actor.
    pub closed spec fn declared(&self) -> Set<I::Key> {
        self.channels.declared()
    }

    /// A fresh interface half: empty channels of the given inbox capacity,
    /// and an instruction queue with the given capacity.
    pub fn new(buffer: usize, instruction_capacity: usize) -> (r: Self)
        ensures
            r.wf(),
            r.status() == TaskStatus::Setup,
            r.inbox_history() == Seq::<(I::Key, I::Message)>::empty(),
            r.inbox_taken() == 0,
            r.declared() == Set::<I::Key>::empty(),
    {
        AgentInterface {
            channels: Channels::new(buffer),
            pending: VecDeque::new(),
            state: IfState::Setup,
            instruction_capacity,
        }
    }

    /// Execute one instruction against the channels: a send is accepted into
    /// the outgoing buffer and the actor's position is unchanged; a `Get` or
    /// `GetTimeout` leaves the actor waiting, the latter with its deadline on
    /// the driver's clock; a `Terminate` ends the actor with its value.
    pub fn run_command(&mut self, command: Instruction<I::Key, I::Message>, clock: u64)
        requires
            old(self).wf(),
        ensures
            final(self).wf(),
            final(self).inbox_history() == old(self).inbox_history(),
            final(self).inbox_taken() == old(self).inbox_taken(),
            final(self).queued() == old(self).queued(),
            command is Send ==> final(self).status() == old(self).status() && final(self).done_value() == old(self).done_value(),
            command is Get ==> final(self).status() == TaskStatus::Waiting,
            (command matches Instruction::GetTimeout(d) ==> (final(self).status() matches
                TaskStatus::WaitingUntil(dl) && dl >= clock && dl <= clock + d)),
            (command matches Instruction::Terminate(v) ==> final(self).status()
                == TaskStatus::Terminated && final(self).done_value() == v),
    {
        match command {
            Instruction::Send(k, m) => {
                let _ = self.channels.send(&k, m);
            },
            Instruction::Get => {
                self.state = IfState::Waiting;
            },
            Instruction::GetTimeout(d) => {
                self.state = IfState::WaitingTimeout(clock.saturating_add(d));
            },
            Instruction::Terminate(v) => {
                self.state = IfState::Terminated(v);
            },
        }
    }

    /// Execute queued instructions up to the next wait or termination. An
    /// exhausted queue leaves the actor stalled: its core will issue nothing
    /// more.
    fn exec_pending(&mut self, clock: u64)
        requires
            old(self).wf(),
        ensures
            final(self).wf(),
            final(self).status() != TaskStatus::Setup && final(self).status()
                != TaskStatus::Published,
            final(self).status() matches TaskStatus::WaitingUntil(d) ==> d >= clock,
            final(self).channels.inbox_history() == old(self).channels.inbox_history(),
            final(self).channels.inbox_taken() == old(self).channels.inbox_taken(),
        decreases old(self).pending@.len(),
    {
        match self.pending.pop_front() {
            None => {
                self.state = IfState::Stalled;
            },
            Some(command) => {
                let again = matches!(command, Instruction::Send(_, _));
                self.run_command(command, clock);
                if again {
                    self.exec_pending(clock);
                }
            },
        }
    }
}

/// One task-backend actor: its core half and its interface half, and the
/// ghost log of every call made into it.
pub struct Actor<I: TokioInternal> {
    pub(crate) core: ActorCore<I>,
    pub(crate) interface: AgentInterface<I>,
    topo: Ghost<Seq<Hook<I::Key, I::Message>>>,
    steps: Ghost<Seq<Option<I::Message>>>,
    collected: Ghost<Option<I::Message>>,
}

impl<I: TokioInternal> Actor<I> {
    /// Bookkeeping invariant.
    pub closed spec fn wf(&self) -> bool {
        &&& self.interface.wf()
        &&& setup_log(self.topo@)
        &&& self.status() == TaskStatus::Setup ==> self.steps@ == Seq::<
            Option<I::Message>,
        >::empty()
    }

    /// The final value collected from a published actor.
    pub closed spec fn published_value(&self) -> Option<I::Message> {
        self.collected@
    }

    /// The log of every call the runtime has made into this actor.
    pub closed spec fn log(&self) -> Seq<Hook<I::Key, I::Message>> {
        match self.interface.status() {
            TaskStatus::Setup => self.topo@,
            TaskStatus::Terminated => done_log(self.topo@, self.steps@, self.done_value()),
            TaskStatus::Published => done_log(self.topo@, self.steps@, self.collected@),
            _ => running_log(self.topo@, self.steps@),
        }
    }

    /// A well-formed actor's log obeys the lifecycle discipline; it closes
    /// with the termination acknowledgment exactly when the actor terminated,
    /// and a started actor's log holds its start.
    pub proof fn lemma_lifecycle(&self)
        requires
            self.wf(),
        ensures
            lifecycle_ok(self.log()),
            self.status() != TaskStatus::Setup ==> has_started(self.log()),
            (self.status() == TaskStatus::Terminated || self.status() == TaskStatus::Published)
                <==> self.log().len() > 0 && self.log().last() is Terminated,
            self.status() == TaskStatus::Terminated ==> self.log().last() == Hook::<
                I::Key,
                I::Message,
            >::Terminated(self.done_value()),
            self.status() == TaskStatus::Published ==> self.log().last() == Hook::<
                I::Key,
                I::Message,
            >::Terminated(self.published_value()),
    {
        let c = self.topo@.len() as int;
        match self.interface.status() {
            TaskStatus::Setup => {
                lemma_setup_log_lifecycle(self.topo@);
                if self.log().len() > 0 {
                    assert(crate::lifecycle::is_topology_hook(self.topo@.last()));
                }
            },
            TaskStatus::Terminated => {
                lemma_done_log_lifecycle(self.topo@, self.steps@, self.done_value());
                assert(has_started(self.log())) by {
                    assert(self.log()[c] is Started);
                }
            },
            TaskStatus::Published => {
                lemma_done_log_lifecycle(self.topo@, self.steps@, self.collected@);
                assert(has_started(self.log())) by {
                    assert(self.log()[c] is Started);
                }
            },
            _ => {
                lemma_running_log_lifecycle(self.topo@, self.steps@);
                let log = self.log();
                assert(has_started(log)) by {
                    assert(log[c] is Started);
                }
                if log.len() > 0 {
                    let l = log.len() - 1;
                    if l < c {
                        assert(crate::lifecycle::is_topology_hook(self.topo@[l]));
                    }
                    assert(!(log.last() is Terminated));
                }
            },
        }
    }

    /// The actor's position in the lifecycle.
    pub closed spec fn status(&self) -> TaskStatus {
        self.interface.status()
    }

    /// The final value the actor terminated with.
    pub closed spec fn done_value(&self) -> Option<I::Message> {
        self.interface.done_value()
    }

    /// The destinations declared for this actor.
    pub closed spec fn declared_keys(&self) -> Set<I::Key> {
        self.interface.channels.declared()
    }

    /// The messages the actor's batches have sent and the driver has not yet
    /// routed.
    pub closed spec fn outbox_buffered(&self) -> Seq<(I::Key, I::Message)> {
        self.interface.channels.buffered()
    }

    /// Every message ever put in the actor's inbox, tagged by sender.
    pub closed spec fn inbox_history(&self) -> Seq<(I::Key, I::Message)> {
        self.interface.channels.inbox_history()
    }

    /// How many inbox messages have been delivered.
    pub closed spec fn inbox_taken(&self) -> int {
        self.interface.channels.inbox_taken()
    }

    /// A fresh actor around a state machine: the core in its chosen execution
    /// class, the channels with the given inbox capacity, the instruction
    /// queue with the given capacity.
    pub fn new(internal: I, kind: ActorType, buffer: usize, internal_buffer: usize) -> (r: Self)
        ensures
            r.wf(),
            r.status() == TaskStatus::Setup,
            r.log() == Seq::<Hook<I::Key, I::Message>>::empty(),
            r.inbox_history() == Seq::<(I::Key, I::Message)>::empty(),
            r.inbox_taken() == 0,
    {
        Actor {
            core: ActorCore::new(internal, kind),
            interface: AgentInterface::new(buffer, internal_buffer),
            topo: Ghost(Seq::empty()),
            steps: Ghost(Seq::empty()),
            collected: Ghost(None),
        }
    }

    /// Separate the two halves, so that a deployment can place the core on
    /// its own thread or pool. The interface half keeps the actor's channels
    /// and position unchanged.
    pub fn split(self) -> (r: (ActorCore<I>, AgentInterface<I>))
        ensures
            self.wf() ==> r.1.wf(),
            r.1.status() == self.status(),
            r.1.done_value() == self.done_value(),
            r.1.inbox_history() == self.inbox_history(),
            r.1.inbox_taken() == self.inbox_taken(),
            r.1.declared() == self.declared_keys(),
    {
        (self.core, self.interface)
    }

    /// Install a producer handle for the channel to `key`. Returns whether a
    /// handle was already installed.
    pub fn insert_outgoing_channel(&mut self, key: I::Key) -> (had: bool)
        requires
            old(self).wf(),
        ensures
            final(self).wf(),
            had <==> old(self).declared_keys().contains(key),
            final(self).declared_keys() == old(self).declared_keys().insert(key),
            final(self).status() == old(self).status(),
            final(self).log() == old(self).log(),
            final(self).inbox_history() == old(self).inbox_history(),
            final(self).inbox_taken() == old(self).inbox_taken(),
    {
        self.interface.channels.insert(key)
    }

    /// Deliver the topology callback for one declared outbound edge.
    pub fn new_outgoing_key(&mut self, key: &I::Key)
        requires
            old(self).wf(),
            old(self).status() == TaskStatus::Setup,
        ensures
            final(self).wf(),
            final(self).status() == TaskStatus::Setup,
            final(self).log() == old(self).log().push(
                Hook::<I::Key, I::Message>::OutgoingKey(*key),
            ),
            final(self).declared_keys() == old(self).declared_keys(),
            final(self).inbox_history() == old(self).inbox_history(),
            final(self).inbox_taken() == old(self).inbox_taken(),
    {
        self.core.new_outgoing_key(key);
        proof {
            self.topo@ = self.topo@.push(Hook::OutgoingKey(*key));
        }
    }

    /// Deliver the topology callback for one declared inbound edge.
    pub fn new_incoming_key(&mut self, key: &I::Key)
        requires
            old(self).wf(),
            old(self).status() == TaskStatus::Setup,
        ensures
            final(self).wf(),
            final(self).status() == TaskStatus::Setup,
            final(self).log() == old(self).log().push(
                Hook::<I::Key, I::Message>::IncomingKey(*key),
            ),
            final(self).declared_keys() == old(self).declared_keys(),
            final(self).inbox_history() == old(self).inbox_history(),
            final(self).inbox_taken() == old(self).inbox_taken(),
    {
        self.core.new_incoming_key(key);
        proof {
            self.topo@ = self.topo@.push(Hook::IncomingKey(*key));
        }
    }

    /// Run the core's one-shot start and execute its instruction batch. What
    /// the batch sent waits in the outgoing buffer until the driver takes it
    /// with [`Actor::take_outgoing`].
    pub fn step_start(&mut self, clock: u64)
        requires
            old(self).wf(),
            old(self).status() == TaskStatus::Setup,
        ensures
            final(self).wf(),
            final(self).status() != TaskStatus::Setup && final(self).status()
                != TaskStatus::Published,
            final(self).status() matches TaskStatus::WaitingUntil(d) ==> d >= clock,
            final(self).status() == TaskStatus::Terminated ==> final(self).log() == old(
                self,
            ).log() + seq![
                Hook::<I::Key, I::Message>::Started,
                Hook::<I::Key, I::Message>::Terminated(final(self).done_value()),
            ],
            final(self).status() != TaskStatus::Terminated ==> final(self).log() == old(
                self,
            ).log().push(Hook::<I::Key, I::Message>::Started),
            final(self).inbox_history() == old(self).inbox_history(),
            final(self).inbox_taken() == old(self).inbox_taken(),
    {
        match self.core.start() {
            Ok(mut batch) => {
                self.interface.pending.append(&mut batch);
                self.interface.exec_pending(clock);
            },
            Err(_) => {
                // A core failure aborts the actor: the runtime treats it as
                // an implicit termination without a value.
                self.interface.state = IfState::Terminated(None);
            },
        }
        proof {
            assert(running_log(self.topo@, self.steps@) =~= self.topo@ + seq![
                Hook::<I::Key, I::Message>::Started,
            ]);
        }
    }

    /// Deliver the next inbox message — or, when none is pending, the null
    /// message standing for an elapsed deadline or a closed inbox — to the
    /// core, execute the batch it answers with, and hand back the messages it
    /// sent, in send order.
    pub fn act_next(&mut self, clock: u64)
        requires
            old(self).wf(),
            old(self).status() == TaskStatus::Waiting || old(self).status() matches
                TaskStatus::WaitingUntil(_),
        ensures
            final(self).wf(),
            final(self).status() != TaskStatus::Setup && final(self).status()
                != TaskStatus::Published,
            final(self).status() matches TaskStatus::WaitingUntil(d) ==> d >= clock,
            final(self).inbox_history() == old(self).inbox_history(),
            final(self).inbox_taken() == if old(self).inbox_taken() < old(self).inbox_history().len() {
                old(self).inbox_taken() + 1
            } else {
                old(self).inbox_taken()
            },
            ({
                let delivered = if old(self).inbox_taken() < old(self).inbox_history().len() {
                    Some(old(self).inbox_history()[old(self).inbox_taken()].1)
                } else {
                    None
                };
                &&& (final(self).status() == TaskStatus::Terminated ==> final(self).log() == old(
                    self,
                ).log() + seq![
                    Hook::<I::Key, I::Message>::Stepped(delivered),
                    Hook::<I::Key, I::Message>::Terminated(final(self).done_value()),
                ])
                &&& (final(self).status() != TaskStatus::Terminated ==> final(self).log() == old(
                    self,
                ).log().push(Hook::<I::Key, I::Message>::Stepped(delivered)))
            }),
    {
        proof {
            self.interface.channels.lemma_wf();
        }
        let message = self.interface.channels.recv();
        let ghost gmsg = message;
        let ghost steps0 = self.steps@;
        proof {
            self.steps@ = self.steps@.push(gmsg);
        }
        match self.core.process_message(message) {
            Ok(mut batch) => {
                self.interface.pending.append(&mut batch);
                self.interface.exec_pending(clock);
            },
            Err(_) => {
                self.interface.state = IfState::Terminated(None);
            },
        }
        proof {
            assert(running_log(self.topo@, self.steps@) =~= running_log(self.topo@, steps0).push(
                Hook::<I::Key, I::Message>::Stepped(gmsg),
            ));
        }
    }

    /// Take the messages the actor's batches have sent since the last call,
    /// in send order; the outgoing buffer is then empty.
    pub fn take_outgoing(&mut self) -> (outgoing: Vec<(I::Key, I::Message)>)
        requires
            old(self).wf(),
        ensures
            final(self).wf(),
            outgoing@ == old(self).outbox_buffered(),
            final(self).outbox_buffered() == Seq::<(I::Key, I::Message)>::empty(),
            final(self).status() == old(self).status(),
            final(self).done_value() == old(self).done_value(),
            final(self).published_value() == old(self).published_value(),
            final(self).log() == old(self).log(),
            final(self).declared_keys() == old(self).declared_keys(),
            final(self).inbox_history() == old(self).inbox_history(),
            final(self).inbox_taken() == old(self).inbox_taken(),
    {
        self.interface.channels.take_outgoing()
    }

    /// Enqueue a message for this actor; the ghost tag names the sender.
    pub fn push_message(&mut self, from: Ghost<I::Key>, message: I::Message)
        requires
            old(self).wf(),
        ensures
            final(self).wf(),
            final(self).status() == old(self).status(),
            final(self).done_value() == old(self).done_value(),
            final(self).published_value() == old(self).published_value(),
            final(self).inbox_history() == old(self).inbox_history().push((from@, message)),
            final(self).inbox_taken() == old(self).inbox_taken(),
    {
        self.interface.channels.push(from, message);
    }

    /// Whether a message is pending in the actor's inbox.
    pub fn has_deliverable(&self) -> (r: bool)
        requires
            self.wf(),
        ensures
            r <==> self.inbox_taken() < self.inbox_history().len(),
    {
        self.interface.channels.has_pending()
    }

    /// Whether the actor declares an outbound edge to `key`.
    pub fn declares(&self, key: &I::Key) -> (r: bool)
        ensures
            r <==> self.declared_keys().contains(*key),
    {
        self.interface.channels.declares(key)
    }

    /// The actor's position, for the driver.
    pub fn read_status(&self) -> (r: TaskStatus)
        ensures
            r == self.status(),
    {
        match &self.interface.state {
            IfState::Setup => TaskStatus::Setup,
            IfState::Waiting => TaskStatus::Waiting,
            IfState::WaitingTimeout(deadline) => TaskStatus::WaitingUntil(*deadline),
            IfState::Terminated(_) => TaskStatus::Terminated,
            IfState::Published => TaskStatus::Published,
            IfState::Stalled => TaskStatus::Stalled,
        }
    }

    /// Collect the final value of a terminated actor; the actor is then
    /// marked published, so the value is collected exactly once.
    pub fn take_value(&mut self) -> (r: Option<I::Message>)
        requires
            old(self).wf(),
            old(self).status() == TaskStatus::Terminated,
        ensures
            final(self).wf(),
            final(self).status() == TaskStatus::Published,
            r == old(self).done_value(),
            final(self).published_value() == r,
            final(self).log() == old(self).log(),
            final(self).inbox_history() == old(self).inbox_history(),
            final(self).inbox_taken() == old(self).inbox_taken(),
    {
        let mut state = IfState::Published;
        core::mem::swap(&mut state, &mut self.interface.state);
        let value = match state {
            IfState::Terminated(v) => v,
            _ => None,
        };
        proof {
            self.collected@ = value;
        }
        value
    }
}

} // verus!
