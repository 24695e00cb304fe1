//! The lifecycle of a guard as a state machine: its phases, the events that
//! move it and the native calls that it asks for.

use crate::status::{ConcurrencyMode, InitStatus};
use vstd::prelude::*;

verus! {

/// Where a thread stands in the lifecycle of its guard.
#[derive(Clone, Copy, Debug, PartialEq, Eq, Structural)]
pub enum Phase {
    /// The thread has not asked for COM yet.
    Unstarted,
    /// The native initialize call is running.
    Attempting,
    /// Initialization succeeded; a release is owed when the thread ends.
    Ready,
    /// Initialization failed; nothing is owed, and nothing is tried again.
    Degraded,
    /// The thread has ended and the release has been asked for.
    Released,
}

/// What can happen on a thread, as far as its guard is concerned.
#[derive(Clone, Copy, Debug, PartialEq, Eq, Structural)]
pub enum Event {
    /// Code on the thread called [`com_initialized`](crate::guard::com_initialized).
    Ensure,
    /// The native initialize call returned with this status.
    InitializeReturned(InitStatus),
    /// The thread is ending and its storage is being torn down.
    ThreadExit,
    /// The native release call returned with this raw status.
    ReleaseReturned(i32),
}

/// The native call that the host has to make for the guard.
#[derive(Clone, Copy, Debug, PartialEq, Eq, Structural)]
pub enum Action {
    /// No call is due.
    Nothing,
    /// Call the native initialize primitive, asking for this mode, and hand
    /// its status back as [`Event::InitializeReturned`].
    Initialize(ConcurrencyMode),
    /// Call the native release primitive.
    Release,
}

/// The phase that follows `phase` when `event` happens.
///
/// Three transitions exist: the first call starts the attempt, the status of
/// the native call ends it one way or the other, and the end of a thread that
/// is ready releases. An event that the phase does not wait for changes
/// nothing.
pub open spec fn next_phase(phase: Phase, event: Event) -> Phase {
    match (phase, event) {
        (Phase::Unstarted, Event::Ensure) => Phase::Attempting,
        (Phase::Attempting, Event::InitializeReturned(status)) => if status.is_success() {
            Phase::Ready
        } else {
            Phase::Degraded
        },
        (Phase::Ready, Event::ThreadExit) => Phase::Released,
        _ => phase,
    }
}

/// The native call that is due when `event` happens in `phase`.
pub open spec fn action_for(phase: Phase, event: Event) -> Action {
    match (phase, event) {
        (Phase::Unstarted, Event::Ensure) => Action::Initialize(ConcurrencyMode::MultiThreaded),
        (Phase::Ready, Event::ThreadExit) => Action::Release,
        _ => Action::Nothing,
    }
}

/// Takes `event` in `phase`: the phase that follows, and the native call
/// that is due.
pub fn transition(phase: Phase, event: Event) -> (next: (Phase, Action))
    ensures
        next.0 == next_phase(phase, event),
        next.1 == action_for(phase, event),
{
    match (phase, event) {
        (Phase::Unstarted, Event::Ensure) => (
            Phase::Attempting,
            Action::Initialize(ConcurrencyMode::MultiThreaded),
        ),
        (Phase::Attempting, Event::InitializeReturned(status)) => if status.is_success() {
            (Phase::Ready, Action::Nothing)
        } else {
            (Phase::Degraded, Action::Nothing)
        },
        (Phase::Ready, Event::ThreadExit) => (Phase::Released, Action::Release),
        _ => (phase, Action::Nothing),
    }
}

} // verus!
