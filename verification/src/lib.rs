//! A library for describing distributed algorithms as systems of actors that
//! exchange messages over directed point-to-point channels, together with a
//! deterministic, fully verified runtime that drives such a system to
//! termination and collects the final values of its terminal actors.
//!
//! An actor's behaviour is given by implementing [`internal::ActorInternal`]:
//! a state machine with topology callbacks, a one-shot `start` hook and a
//! `process_message` hook. A system is assembled with [`System::add_actor`],
//! [`System::add_channel`] and [`System::add_terminal`], and then run.

use vstd::prelude::*;


pub mod channel;
pub mod internal;
pub mod keymap;
pub mod lifecycle;
pub mod paxos;
pub mod synchronous;
pub mod tasks;


use internal::ActorInternal;
use lifecycle::Hook;

pub use internal::{NextState, SendError, Sender};
pub use synchronous::SyncSystem;
pub use tasks::TokioSystem;

verus! {

/// Assembly surface shared by the execution backends.
///
/// A backend registers actors under unique keys, declares directed channels
/// between them, and marks some actors as terminal: the run ends when every
/// terminal actor has terminated, and only terminal actors' final values are
/// collected.
pub trait System: Sized {
    type Internal: ActorInternal;

    type ActorParameters;

    /// Abstraction of the backend's bookkeeping invariant.
    spec fn wf(&self) -> bool;

    /// The set of keys under which actors are registered.
    spec fn actor_keys(&self) -> Set<<Self::Internal as ActorInternal>::Key>;

    /// The set of keys marked as terminal.
    spec fn terminal_keys(&self) -> Set<<Self::Internal as ActorInternal>::Key>;

    /// The log of calls made into the actor registered under `key`; empty
    /// when no actor is registered under it.
    spec fn log_of(&self, key: <Self::Internal as ActorInternal>::Key) -> Seq<
        Hook<<Self::Internal as ActorInternal>::Key, <Self::Internal as ActorInternal>::Message>,
    >;

    /// The destinations declared for the actor registered under `key`; empty
    /// when no actor is registered under it.
    spec fn declared_of(&self, key: <Self::Internal as ActorInternal>::Key) -> Set<
        <Self::Internal as ActorInternal>::Key,
    >;

    /// Register an actor under `key`. Registering a key twice replaces the
    /// earlier actor.
    fn add_actor(
        &mut self,
        key: <Self::Internal as ActorInternal>::Key,
        internal: Self::Internal,
        parameters: Option<Self::ActorParameters>,
    )
        requires
            old(self).wf(),
        ensures
            final(self).wf(),
            final(self).actor_keys() == old(self).actor_keys().insert(key),
            final(self).terminal_keys() == old(self).terminal_keys(),
    ;

    /// Declare a directed channel from `sender` to `receiver`. Both endpoints
    /// receive their topology callback — `new_outgoing_key` on the sender,
    /// then `new_incoming_key` on the receiver — and a producer handle for
    /// the receiver is installed among the sender's destinations. No other
    /// actor is touched.
    fn add_channel(
        &mut self,
        sender: &<Self::Internal as ActorInternal>::Key,
        receiver: &<Self::Internal as ActorInternal>::Key,
    )
        requires
            old(self).wf(),
            old(self).actor_keys().contains(*sender),
            old(self).actor_keys().contains(*receiver),
        ensures
            final(self).wf(),
            final(self).actor_keys() == old(self).actor_keys(),
            final(self).terminal_keys() == old(self).terminal_keys(),
            *sender != *receiver ==> final(self).log_of(*sender) == old(self).log_of(
                *sender,
            ).push(Hook::OutgoingKey(*receiver)),
            *sender != *receiver ==> final(self).log_of(*receiver) == old(self).log_of(
                *receiver,
            ).push(Hook::IncomingKey(*sender)),
            *sender == *receiver ==> final(self).log_of(*sender) == old(self).log_of(
                *sender,
            ).push(Hook::OutgoingKey(*receiver)).push(Hook::IncomingKey(*sender)),
            forall|k: <Self::Internal as ActorInternal>::Key|
                k != *sender && k != *receiver ==> final(self).log_of(k) == old(self).log_of(k),
            final(self).declared_of(*sender) == old(self).declared_of(*sender).insert(*receiver),
            forall|k: <Self::Internal as ActorInternal>::Key|
                k != *sender ==> final(self).declared_of(k) == old(self).declared_of(k),
    ;

    /// Mark the actor registered under `key` as terminal. Idempotent.
    fn add_terminal(&mut self, key: <Self::Internal as ActorInternal>::Key)
        requires
            old(self).wf(),
            old(self).actor_keys().contains(key),
        ensures
            final(self).wf(),
            final(self).actor_keys() == old(self).actor_keys(),
            final(self).terminal_keys() == old(self).terminal_keys().insert(key),
    ;
}

} // verus!
