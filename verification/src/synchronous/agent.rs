//! The queue-based agent layer: an internal state machine that returns a
//! queue of instructions from each hook instead of sending through a
//! capability. An [`Agent`] executes such queues against its own channels.

use std::collections::VecDeque;

use vstd::prelude::*;

use crate::channel::{ChannelError, InChannel, Inbox, OutChannels, Outbox};
use crate::internal::{ActorInternal, EqKey, Instruction, NextState, Sender};

verus! {

/// Basic functionality of a queue of instructions.
pub trait InstructionQueue: Sized {
    type Instruction;

    /// The queued instructions, next to execute first.
    spec fn items(&self) -> Seq<Self::Instruction>;

    /// Take the next instruction, if any.
    fn pop_front(&mut self) -> (r: Option<Self::Instruction>)
        ensures
            old(self).items().len() == 0 ==> r is None && final(self).items() == old(
                self,
            ).items(),
            old(self).items().len() > 0 ==> r == Some(old(self).items()[0]) && final(self).items()
                == old(self).items().skip(1),
    ;

    /// Move all of `other`'s instructions to the back of this queue.
    fn append(&mut self, other: &mut Self)
        ensures
            final(self).items() == old(self).items() + old(other).items(),
            final(other).items() == Seq::<Self::Instruction>::empty(),
    ;
}

impl<K, T> InstructionQueue for VecDeque<Instruction<K, T>> {
    type Instruction = Instruction<K, T>;

    open spec fn items(&self) -> Seq<Instruction<K, T>> {
        self@
    }

    fn pop_front(&mut self) -> (r: Option<Instruction<K, T>>) {
        self.pop_front()
    }

    fn append(&mut self, other: &mut Self) {
        self.append(other)
    }
}

/// The internal operation of a queue-based agent.
///
/// The state machine holds the agent's local variables; each hook returns the
/// queue of instructions the agent wants executed, in order, ending with the
/// wait discipline it chooses next (or its termination).
pub trait Internal: Sized {
    type Message;

    type Key: EqKey;

    type Error;

    type Queue: InstructionQueue<Instruction = Instruction<Self::Key, Self::Message>>;

    /// Called once per declared inbound edge, before the agent starts.
    fn new_incoming_key(&mut self, key: &Self::Key);

    /// Called once per declared outbound edge, before the agent starts.
    fn new_outgoing_key(&mut self, key: &Self::Key);

    /// One-shot initialization; returns the first instructions.
    fn start(&mut self) -> Self::Queue;

    /// Process one delivered message (`None` for a timeout or a closed
    /// inbox); returns the next instructions.
    fn process_message(&mut self, message: Option<Self::Message>) -> Self::Queue;
}

/// An error from driving one agent.
#[derive(Debug, Clone, PartialEq, Eq)]
pub enum AgentError<N, T> {
    /// The agent's own state machine failed.
    InternalError(N),
    /// A channel operation failed.
    ChannelError(ChannelError<T>),
    /// The agent ran out of instructions, or out of its step budget, without
    /// terminating.
    ExitedWithoutValue,
}

/// A container for a queue-based agent: its state machine and its two channel
/// endpoints.
pub struct Agent<I: Internal> {
    pub internal: I,
    pub(crate) in_channel: Inbox<I::Key, I::Message>,
    pub(crate) out_channels: Outbox<I::Key, I::Message>,
}

impl<I: Internal> Agent<I> {
    /// Bookkeeping invariant.
    pub closed spec fn wf(&self) -> bool {
        self.in_channel.wf()
    }

    /// The destinations this agent's outbox declares.
    pub closed spec fn declared(&self) -> Set<I::Key> {
        self.out_channels.declared()
    }

    /// The messages this agent's outbox has accepted, in order.
    pub closed spec fn sent(&self) -> Seq<(I::Key, I::Message)> {
        self.out_channels.sent()
    }

    /// A fresh agent around a state machine, with an empty inbox and no
    /// declared destinations.
    pub fn new(internal: I) -> (r: Self)
        ensures
            r.wf(),
            r.declared() == Set::<I::Key>::empty(),
            r.sent() == Seq::<(I::Key, I::Message)>::empty(),
    {
        Agent { internal, in_channel: Inbox::new(), out_channels: Outbox::new() }
    }

    /// Deliver the topology callback for one declared inbound edge.
    pub fn new_incoming_key(&mut self, key: &I::Key)
        requires
            old(self).wf(),
        ensures
            final(self).wf(),
            final(self).declared() == old(self).declared(),
            final(self).sent() == old(self).sent(),
    {
        self.internal.new_incoming_key(key);
    }

    /// Deliver the topology callback for one declared outbound edge and
    /// install the producer handle for it.
    pub fn new_outgoing_key(&mut self, key: &I::Key)
        requires
            old(self).wf(),
        ensures
            final(self).wf(),
            final(self).declared() == old(self).declared().insert(*key),
            final(self).sent() == old(self).sent(),
    {
        self.internal.new_outgoing_key(key);
        self.out_channels.insert(*key);
    }

    /// Enqueue a message for this agent; the ghost tag names the sender.
    pub fn push_message(&mut self, from: Ghost<I::Key>, message: I::Message)
        requires
            old(self).wf(),
        ensures
            final(self).wf(),
            final(self).declared() == old(self).declared(),
            final(self).sent() == old(self).sent(),
    {
        self.in_channel.push(from, message);
    }

    /// Wait for the next message and hand it to the state machine, appending
    /// the instructions it returns.
    fn get(&mut self, instructions: &mut I::Queue, timeout: Option<u64>)
        requires
            old(self).wf(),
        ensures
            final(self).wf(),
            final(self).declared() == old(self).declared(),
            final(self).sent() == old(self).sent(),
    {
        let msg = match timeout {
            None => self.in_channel.recv(),
            Some(t) => self.in_channel.recv_timeout(t),
        };
        let mut current_instructions = self.internal.process_message(msg);
        instructions.append(&mut current_instructions);
    }

    /// Execute one instruction. A termination instruction is returned as
    /// `Ok(Some(value))`; everything else yields `Ok(None)`. A failed send is
    /// swallowed, as the downstream agent may legitimately be done already.
    pub fn run_command(
        &mut self,
        command: Instruction<I::Key, I::Message>,
        instructions: &mut I::Queue,
    ) -> (r: Result<Option<Option<I::Message>>, AgentError<I::Error, I::Message>>)
        requires
            old(self).wf(),
        ensures
            final(self).wf(),
            r is Ok,
            (command matches Instruction::Terminate(v) ==> r == Ok::<
                Option<Option<I::Message>>,
                AgentError<I::Error, I::Message>,
            >(Some(v))),
            !(command is Terminate) ==> r == Ok::<
                Option<Option<I::Message>>,
                AgentError<I::Error, I::Message>,
            >(None),
            (command matches Instruction::Send(k, m) ==> if old(self).declared().contains(k) {
                final(self).sent() == old(self).sent().push((k, m))
            } else {
                final(self).sent() == old(self).sent()
            }),
            (command is Send || command is Terminate) ==> final(instructions).items() == old(
                instructions,
            ).items(),
            final(self).declared() == old(self).declared(),
    {
        match command {
            Instruction::Send(k, m) => {
                let _ = self.out_channels.send(&k, m);
                proof {
                    assert forall|x: I::Key|
                        self.out_channels.declared().contains(x) == old(
                            self,
                        ).out_channels.declared().contains(x) by {
                        assert(self.out_channels.can_send(x) == old(self).out_channels.can_send(
                            x,
                        ));
                    }
                    assert(self.out_channels.declared() =~= old(self).out_channels.declared());
                }
            },
            Instruction::Get => self.get(instructions, None),
            Instruction::GetTimeout(t) => self.get(instructions, Some(t)),
            Instruction::Terminate(val) => {
                return Ok(Some(val));
            },
        }
        Ok(None)
    }

    /// Drive the agent: run its `start` hook, then execute instructions until
    /// it terminates, its instructions run out, or the step budget is spent.
    ///
    /// The ghost trace of the executed instructions is returned beside the
    /// result: the run ends with `Ok(v)` exactly at the first termination
    /// instruction, which then carries `v` and closes the trace; a run that
    /// never reaches one ends with the step-budget error.
    pub fn run(&mut self, max_steps: u64) -> (res: (
        Result<Option<I::Message>, AgentError<I::Error, I::Message>>,
        Ghost<Seq<Instruction<I::Key, I::Message>>>,
    ))
        requires
            old(self).wf(),
        ensures
            final(self).wf(),
            ({
                let (r, gtrace) = res;
                let trace = gtrace@;
                &&& (r matches Ok(v) ==> trace.len() > 0 && trace.last() == Instruction::<
                    I::Key,
                    I::Message,
                >::Terminate(v))
                &&& forall|q: int| 0 <= q < trace.len() - 1 ==> !((#[trigger] trace[q]) is Terminate)
                &&& (r is Err ==> r == Err::<Option<I::Message>, AgentError<I::Error, I::Message>>(
                    AgentError::ExitedWithoutValue,
                ) && !(trace.len() > 0 && trace.last() is Terminate))
            }),
    {
        let mut instructions = self.internal.start();
        let ghost mut trace: Seq<Instruction<I::Key, I::Message>> = Seq::empty();
        let mut fuel: u64 = max_steps;
        while fuel > 0
            invariant
                self.wf(),
                forall|q: int| 0 <= q < trace.len() ==> !((#[trigger] trace[q]) is Terminate),
            decreases fuel,
        {
            fuel = fuel - 1;
            let command = match instructions.pop_front() {
                Some(c) => c,
                None => {
                    return (Err(AgentError::ExitedWithoutValue), Ghost(trace));
                },
            };
            let ghost gcommand = command;
            let return_value = match self.run_command(command, &mut instructions) {
                Ok(rv) => rv,
                Err(_) => {
                    return (Err(AgentError::ExitedWithoutValue), Ghost(trace));
                },
            };
            proof {
                trace = trace.push(gcommand);
            }
            if let Some(val) = return_value {
                return (Ok(val), Ghost(trace));
            }
        }
        (Err(AgentError::ExitedWithoutValue), Ghost(trace))
    }
}

/// An adapter that lets a queue-based state machine stand wherever an
/// [`ActorInternal`] is expected: each hook's instruction queue is executed
/// against the sender the runtime supplies, and the first wait or termination
/// instruction becomes the step's next state. Instructions queued after it
/// are executed at the start of the following step.
pub struct QueueActor<T: Internal> {
    pub internal: T,
    pending: T::Queue,
}

impl<T: Internal> QueueActor<T> {
    /// Wrap a queue-based state machine. The first hook call drains its first
    /// instructions.
    pub fn new(internal: T) -> Self
        where T::Queue: Default
    {
        QueueActor { internal, pending: Default::default() }
    }

    /// Execute pending instructions through `tx` until a wait or termination
    /// decides the next state. A state machine whose instructions run out
    /// without either has exited without a value: it is terminated.
    fn drain<S: Sender<Key = T::Key, Message = T::Message>>(&mut self, tx: &mut S, fuel: usize)
        -> NextState<T::Message>
        decreases fuel,
    {
        if fuel == 0 {
            return NextState::Terminate(None);
        }
        match self.pending.pop_front() {
            None => NextState::Terminate(None),
            Some(Instruction::Send(k, m)) => {
                let _ = tx.send(&k, m);
                self.drain(tx, fuel - 1)
            },
            Some(Instruction::Get) => NextState::Get,
            Some(Instruction::GetTimeout(d)) => NextState::GetTimeout(d),
            Some(Instruction::Terminate(v)) => NextState::Terminate(v),
        }
    }
}

impl<T: Internal> ActorInternal for QueueActor<T> {
    type Message = T::Message;

    type Key = T::Key;

    type Error = T::Error;

    fn new_incoming_key(&mut self, key: &Self::Key) {
        self.internal.new_incoming_key(key)
    }

    fn new_outgoing_key(&mut self, key: &Self::Key) {
        self.internal.new_outgoing_key(key)
    }

    fn start<S: Sender<Key = Self::Key, Message = Self::Message>>(&mut self, tx: &mut S) -> Result<
        NextState<Self::Message>,
        Self::Error,
    > {
        let mut queue = self.internal.start();
        self.pending.append(&mut queue);
        Ok(self.drain(tx, usize::MAX))
    }

    fn process_message<S: Sender<Key = Self::Key, Message = Self::Message>>(
        &mut self,
        message: Option<Self::Message>,
        tx: &mut S,
    ) -> Result<NextState<Self::Message>, Self::Error> {
        let mut queue = self.internal.process_message(message);
        self.pending.append(&mut queue);
        Ok(self.drain(tx, usize::MAX))
    }
}

} // verus!
