//! The task backend: each actor is split into a core half, which runs the
//! user state machine and emits batches of instructions, and an interface
//! half, which executes those instructions against the channels. A
//! deterministic driver alternates the halves; per-actor parameters choose
//! the core's execution class and the channel capacities.

pub mod actor;
pub mod actor_core;
pub mod channel;
pub mod system;

pub use actor_core::ActorType;
pub use system::TokioSystem;
