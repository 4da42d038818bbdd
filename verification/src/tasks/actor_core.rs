//! The core half of a task-backend actor: it owns the user state machine and
//! turns each hook invocation into a batch of instructions ending in the wait
//! discipline the state machine chose. The execution class records where a
//! deployment should place the core: on the cooperative pool, on a
//! blocking-friendly pool, or on a dedicated thread; the instruction batches
//! are the same in every class.

use std::collections::VecDeque;

use vstd::prelude::*;

use crate::internal::{
    instruction_of_next_state, ActorInternal, EqKey, Instruction, NextState, SendError, Sender,
};

verus! {

/// The execution class of an actor's core: where its internal operations
/// should be placed by a deployment.
#[derive(Debug, Clone, Copy, PartialEq, Eq, Structural)]
pub enum ActorType {
    /// Non-blocking, light internal code: a cooperative task.
    Light,
    /// Blocking but not compute-bound internal code: a blocking-friendly
    /// task.
    Blocking,
    /// Compute-heavy internal code: a dedicated thread.
    Heavy,
}

/// The sends carried by a sequence of instructions, in order.
pub open spec fn sends_of<K, T>(q: Seq<Instruction<K, T>>) -> Seq<(K, T)> {
    q.filter(|i: Instruction<K, T>| i is Send).map_values(
        |i: Instruction<K, T>| (i->Send_0, i->Send_1),
    )
}

impl<K: EqKey, T> Sender for VecDeque<Instruction<K, T>> {
    type Message = T;

    type Key = K;

    open spec fn sent(&self) -> Seq<(K, T)> {
        sends_of(self@)
    }

    open spec fn can_send(&self, key: K) -> bool {
        true
    }

    /// Record the send as an instruction; a queue accepts every destination,
    /// since routing happens only when the instruction is executed.
    fn send(&mut self, key: &K, message: T) -> (r: Result<(), SendError<(K, T)>>) {
        let ghost q0 = self@;
        let ghost inst = Instruction::<K, T>::Send(*key, message);
        self.push_back(Instruction::Send(*key, message));
        proof {
            let pred = |i: Instruction<K, T>| i is Send;
            assert(self@ =~= q0 + seq![inst]);
            Seq::<Instruction<K, T>>::filter_distributes_over_add(q0, seq![inst], pred);
            assert(seq![inst].filter(pred) =~= seq![inst]) by {
                reveal(Seq::filter);
                let s1 = seq![inst];
                assert(s1.drop_last() =~= Seq::<Instruction<K, T>>::empty());
                assert(Seq::<Instruction<K, T>>::empty().filter(pred) =~= Seq::<
                    Instruction<K, T>,
                >::empty());
                assert(pred(inst));
                assert(s1.filter(pred) == s1.drop_last().filter(pred).push(inst));
            }
            assert(sends_of(self@) =~= sends_of(q0).push((*key, message)));
        }
        Ok(())
    }
}

/// The internal operation of an actor, specialized to the task backend: each
/// hook writes its instructions through the sender it is given.
pub trait TokioInternal: Sized {
    type Message;

    type Key: EqKey;

    type Error;

    /// Called once per declared inbound edge, before the actor starts.
    fn new_incoming_key(&mut self, key: &Self::Key);

    /// Called once per declared outbound edge, before the actor starts.
    fn new_outgoing_key(&mut self, key: &Self::Key);

    /// The one-shot initialization of a core placed on a cooperative pool.
    fn start_light(
        &mut self,
        tx: &mut VecDeque<Instruction<Self::Key, Self::Message>>,
    ) -> Result<NextState<Self::Message>, Self::Error>;

    /// One message step of a core placed on a cooperative pool.
    fn process_message_light(
        &mut self,
        message: Option<Self::Message>,
        tx: &mut VecDeque<Instruction<Self::Key, Self::Message>>,
    ) -> Result<NextState<Self::Message>, Self::Error>;

    /// The one-shot initialization of a core that may block its thread.
    fn start_blocking(
        &mut self,
        tx: &mut VecDeque<Instruction<Self::Key, Self::Message>>,
    ) -> Result<NextState<Self::Message>, Self::Error>;

    /// One message step of a core that may block its thread.
    fn process_message_blocking(
        &mut self,
        message: Option<Self::Message>,
        tx: &mut VecDeque<Instruction<Self::Key, Self::Message>>,
    ) -> Result<NextState<Self::Message>, Self::Error>;
}

impl<I: ActorInternal> TokioInternal for I {
    type Message = I::Message;

    type Key = I::Key;

    type Error = I::Error;

    fn new_incoming_key(&mut self, key: &Self::Key) {
        ActorInternal::new_incoming_key(self, key)
    }

    fn new_outgoing_key(&mut self, key: &Self::Key) {
        ActorInternal::new_outgoing_key(self, key)
    }

    fn start_light(
        &mut self,
        tx: &mut VecDeque<Instruction<Self::Key, Self::Message>>,
    ) -> Result<NextState<Self::Message>, Self::Error> {
        self.start(tx)
    }

    fn process_message_light(
        &mut self,
        message: Option<Self::Message>,
        tx: &mut VecDeque<Instruction<Self::Key, Self::Message>>,
    ) -> Result<NextState<Self::Message>, Self::Error> {
        self.process_message(message, tx)
    }

    fn start_blocking(
        &mut self,
        tx: &mut VecDeque<Instruction<Self::Key, Self::Message>>,
    ) -> Result<NextState<Self::Message>, Self::Error> {
        self.start(tx)
    }

    fn process_message_blocking(
        &mut self,
        message: Option<Self::Message>,
        tx: &mut VecDeque<Instruction<Self::Key, Self::Message>>,
    ) -> Result<NextState<Self::Message>, Self::Error> {
        self.process_message(message, tx)
    }
}

/// An error from driving a core.
#[derive(Debug)]
pub enum CoreError<I: TokioInternal> {
    /// The user state machine failed.
    InternalError(I::Error),
    /// An instruction could not be handed to the interface half.
    InstructionChannelError(Instruction<I::Key, I::Message>),
}

/// A core whose internal code is light enough for a cooperative task.
pub struct LightCore<I: TokioInternal> {
    core: I,
}

/// A core whose internal code may block or be compute-heavy.
pub struct HeavyCore<I: TokioInternal> {
    core: I,
}

/// The core half of one actor, in its chosen execution class.
pub enum ActorCore<I: TokioInternal> {
    Light(LightCore<I>),
    Blocking(HeavyCore<I>),
    Heavy(HeavyCore<I>),
}

/// A batch is never empty and always closes with the wait discipline or the
/// termination the state machine chose — never with a send.
pub open spec fn batch_closed<K, T>(batch: Seq<Instruction<K, T>>) -> bool {
    batch.len() > 0 && !(batch.last() is Send)
}

impl<I: TokioInternal> LightCore<I> {
    pub fn new(internal: I) -> Self {
        LightCore { core: internal }
    }

    pub fn new_incoming_key(&mut self, key: &I::Key) {
        self.core.new_incoming_key(key)
    }

    pub fn new_outgoing_key(&mut self, key: &I::Key) {
        self.core.new_outgoing_key(key)
    }

    /// Run the one-shot `start` hook and hand back its instruction batch.
    pub fn start(&mut self) -> (r: Result<
        VecDeque<Instruction<I::Key, I::Message>>,
        CoreError<I>,
    >)
        ensures
            r matches Ok(batch) ==> batch_closed(batch@),
            r is Err ==> r matches Err(CoreError::InternalError(_)),
    {
        let mut instructions: VecDeque<Instruction<I::Key, I::Message>> = VecDeque::new();
        match self.core.start_light(&mut instructions) {
            Ok(next_state) => {
                instructions.push_back(Instruction::from(next_state));
                Ok(instructions)
            },
            Err(e) => Err(CoreError::InternalError(e)),
        }
    }

    /// Run one message step and hand back its instruction batch.
    pub fn process_message(&mut self, message: Option<I::Message>) -> (r: Result<
        VecDeque<Instruction<I::Key, I::Message>>,
        CoreError<I>,
    >)
        ensures
            r matches Ok(batch) ==> batch_closed(batch@),
            r is Err ==> r matches Err(CoreError::InternalError(_)),
    {
        let mut instructions: VecDeque<Instruction<I::Key, I::Message>> = VecDeque::new();
        match self.core.process_message_light(message, &mut instructions) {
            Ok(next_state) => {
                instructions.push_back(Instruction::from(next_state));
                Ok(instructions)
            },
            Err(e) => Err(CoreError::InternalError(e)),
        }
    }
}

impl<I: TokioInternal> HeavyCore<I> {
    pub fn new(internal: I) -> Self {
        HeavyCore { core: internal }
    }

    pub fn new_incoming_key(&mut self, key: &I::Key) {
        self.core.new_incoming_key(key)
    }

    pub fn new_outgoing_key(&mut self, key: &I::Key) {
        self.core.new_outgoing_key(key)
    }

    /// Run the one-shot `start` hook and hand back its instruction batch.
    pub fn start(&mut self) -> (r: Result<
        VecDeque<Instruction<I::Key, I::Message>>,
        CoreError<I>,
    >)
        ensures
            r matches Ok(batch) ==> batch_closed(batch@),
            r is Err ==> r matches Err(CoreError::InternalError(_)),
    {
        let mut instructions: VecDeque<Instruction<I::Key, I::Message>> = VecDeque::new();
        match self.core.start_blocking(&mut instructions) {
            Ok(next_state) => {
                instructions.push_back(Instruction::from(next_state));
                Ok(instructions)
            },
            Err(e) => Err(CoreError::InternalError(e)),
        }
    }

    /// Run one message step and hand back its instruction batch.
    pub fn process_message(&mut self, message: Option<I::Message>) -> (r: Result<
        VecDeque<Instruction<I::Key, I::Message>>,
        CoreError<I>,
    >)
        ensures
            r matches Ok(batch) ==> batch_closed(batch@),
            r is Err ==> r matches Err(CoreError::InternalError(_)),
    {
        let mut instructions: VecDeque<Instruction<I::Key, I::Message>> = VecDeque::new();
        match self.core.process_message_blocking(message, &mut instructions) {
            Ok(next_state) => {
                instructions.push_back(Instruction::from(next_state));
                Ok(instructions)
            },
            Err(e) => Err(CoreError::InternalError(e)),
        }
    }
}

impl<I: TokioInternal> ActorCore<I> {
    /// Wrap a state machine in the core of its chosen execution class.
    pub fn new(internal: I, kind: ActorType) -> (r: Self)
        ensures
            kind == ActorType::Light ==> r is Light,
            kind == ActorType::Blocking ==> r is Blocking,
            kind == ActorType::Heavy ==> r is Heavy,
    {
        match kind {
            ActorType::Light => ActorCore::Light(LightCore::new(internal)),
            ActorType::Blocking => ActorCore::Blocking(HeavyCore::new(internal)),
            ActorType::Heavy => ActorCore::Heavy(HeavyCore::new(internal)),
        }
    }

    pub fn new_incoming_key(&mut self, key: &I::Key) {
        match self {
            ActorCore::Light(core) => core.new_incoming_key(key),
            ActorCore::Blocking(core) => core.new_incoming_key(key),
            ActorCore::Heavy(core) => core.new_incoming_key(key),
        }
    }

    pub fn new_outgoing_key(&mut self, key: &I::Key) {
        match self {
            ActorCore::Light(core) => core.new_outgoing_key(key),
            ActorCore::Blocking(core) => core.new_outgoing_key(key),
            ActorCore::Heavy(core) => core.new_outgoing_key(key),
        }
    }

    /// Run the one-shot `start` hook and hand back its instruction batch.
    pub fn start(&mut self) -> (r: Result<
        VecDeque<Instruction<I::Key, I::Message>>,
        CoreError<I>,
    >)
        ensures
            r matches Ok(batch) ==> batch_closed(batch@),
            r is Err ==> r matches Err(CoreError::InternalError(_)),
    {
        match self {
            ActorCore::Light(core) => core.start(),
            ActorCore::Blocking(core) => core.start(),
            ActorCore::Heavy(core) => core.start(),
        }
    }

    /// Run one message step and hand back its instruction batch.
    pub fn process_message(&mut self, message: Option<I::Message>) -> (r: Result<
        VecDeque<Instruction<I::Key, I::Message>>,
        CoreError<I>,
    >)
        ensures
            r matches Ok(batch) ==> batch_closed(batch@),
            r is Err ==> r matches Err(CoreError::InternalError(_)),
    {
        match self {
            ActorCore::Light(core) => core.process_message(message),
            ActorCore::Blocking(core) => core.process_message(message),
            ActorCore::Heavy(core) => core.process_message(message),
        }
    }
}

} // verus!
