//! The synchronous backend: actors stepped one at a time by a deterministic
//! driver, with unbounded FIFO inboxes and a virtual clock for timed waits.

pub mod actor;
pub mod agent;
pub mod system;

pub use actor::Actor;
pub use system::SyncSystem;
