//! A per-thread guard for the COM runtime.
//!
//! A thread that wants to use COM has to initialize it first, in the
//! multi-threaded concurrency mode, and has to release it again when the
//! thread ends, but only if that initialization succeeded. This crate holds
//! the decisions of that lifecycle as a small state machine: the host feeds
//! the guard what happened on the thread, and the guard answers with the
//! native call that is due, if any. The native calls themselves and the
//! thread-local storage that keeps one guard per thread belong to the host.
//!
//! * [`status`]: the concurrency modes and the outcomes of the native
//!   initialize call, with their raw numbers.
//! * [`lifecycle`]: the phases of a guard, the events that move it and the
//!   native calls that it asks for.
//! * [`guard`]: the guard itself and [`com_initialized`].
//! * [`history`]: what holds of a guard over a whole thread's lifetime.
//! * [`threads`]: what holds of the guards of several threads side by side.

pub mod guard;
pub mod history;
pub mod lifecycle;
pub mod status;
pub mod threads;

pub use guard::{com_initialized, ComGuard};
pub use lifecycle::{Action, Event, Phase};
pub use status::{ConcurrencyMode, InitStatus};
