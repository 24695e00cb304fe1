//! Whole thread lifetimes, played against a native subsystem that only
//! counts its calls.

use com_guard::{com_initialized, Action, ComGuard, ConcurrencyMode, InitStatus};

/// Stands in for the COM runtime on one thread.
struct Native {
    answer: InitStatus,
    release_code: i32,
    initialize_calls: u32,
    release_calls: u32,
    modes: Vec<ConcurrencyMode>,
    log: Vec<&'static str>,
}

impl Native {
    fn answering(answer: InitStatus) -> Native {
        Native {
            answer,
            release_code: 0,
            initialize_calls: 0,
            release_calls: 0,
            modes: Vec::new(),
            log: Vec::new(),
        }
    }

    fn initialize(&mut self, mode: ConcurrencyMode) -> InitStatus {
        self.initialize_calls += 1;
        self.modes.push(mode);
        self.log.push("initialize");
        self.answer
    }

    fn release(&mut self) -> i32 {
        self.release_calls += 1;
        self.log.push("release");
        self.release_code
    }
}

/// One thread as the host sees it: its guard and its native subsystem.
struct Thread {
    guard: ComGuard,
    native: Native,
}

impl Thread {
    fn new(answer: InitStatus) -> Thread {
        Thread { guard: ComGuard::new(), native: Native::answering(answer) }
    }

    /// What the host does when code on the thread asks for COM.
    fn ensure(&mut self) {
        match com_initialized(&mut self.guard) {
            Action::Initialize(mode) => {
                let status = self.native.initialize(mode);
                self.guard.initialize_returned(status);
            }
            Action::Nothing => {}
            Action::Release => unreachable!(),
        }
    }

    /// What the host does when the thread ends.
    fn exit(&mut self) {
        match self.guard.thread_exit() {
            Action::Release => {
                let code = self.native.release();
                self.guard.release_returned(code);
            }
            Action::Nothing => {}
            Action::Initialize(_) => unreachable!(),
        }
    }
}

#[test]
fn single_call_with_success_releases_once_at_thread_end() {
    let mut thread = Thread::new(InitStatus::Initialized);
    thread.ensure();
    assert_eq!(thread.native.initialize_calls, 1);
    assert_eq!(thread.native.modes, vec![ConcurrencyMode::MultiThreaded]);
    assert_eq!(thread.native.release_calls, 0);
    thread.exit();
    assert_eq!(thread.native.initialize_calls, 1);
    assert_eq!(thread.native.release_calls, 1);
    assert_eq!(thread.native.log, vec!["initialize", "release"]);
}

#[test]
fn three_calls_in_a_row_initialize_once() {
    let mut thread = Thread::new(InitStatus::Initialized);
    thread.ensure();
    thread.ensure();
    thread.ensure();
    assert_eq!(thread.native.initialize_calls, 1);
    assert_eq!(thread.native.release_calls, 0);
    thread.exit();
    assert_eq!(thread.native.initialize_calls, 1);
    assert_eq!(thread.native.release_calls, 1);
}

#[test]
fn incompatible_mode_returns_normally_and_never_releases() {
    let mut thread = Thread::new(InitStatus::IncompatibleMode);
    thread.ensure();
    assert_eq!(thread.native.initialize_calls, 1);
    thread.ensure();
    assert_eq!(thread.native.initialize_calls, 1);
    thread.exit();
    assert_eq!(thread.native.release_calls, 0);
    assert_eq!(thread.native.log, vec!["initialize"]);
}

#[test]
fn two_threads_are_independent() {
    let mut first = Thread::new(InitStatus::Initialized);
    let mut second = Thread::new(InitStatus::IncompatibleMode);
    // The calls of the two threads interleave.
    first.ensure();
    second.ensure();
    second.ensure();
    first.ensure();
    assert_eq!(first.native.initialize_calls, 1);
    assert_eq!(second.native.initialize_calls, 1);
    // The second thread ends first; its failure is its own.
    second.exit();
    assert_eq!(second.native.release_calls, 0);
    assert_eq!(first.native.release_calls, 0);
    first.ensure();
    assert_eq!(first.native.initialize_calls, 1);
    first.exit();
    assert_eq!(first.native.release_calls, 1);
    assert_eq!(second.native.release_calls, 0);
}

#[test]
fn two_successful_threads_release_each_on_its_own_exit() {
    let mut first = Thread::new(InitStatus::Initialized);
    let mut second = Thread::new(InitStatus::AlreadyInitialized);
    first.ensure();
    second.ensure();
    first.exit();
    assert_eq!((first.native.release_calls, second.native.release_calls), (1, 0));
    second.exit();
    assert_eq!((first.native.release_calls, second.native.release_calls), (1, 1));
    assert_eq!((first.native.initialize_calls, second.native.initialize_calls), (1, 1));
}

#[test]
fn already_initialized_in_same_mode_counts_as_success() {
    let mut thread = Thread::new(InitStatus::AlreadyInitialized);
    thread.ensure();
    thread.exit();
    assert_eq!(thread.native.initialize_calls, 1);
    assert_eq!(thread.native.release_calls, 1);
}

#[test]
fn any_other_status_counts_as_failure() {
    for code in [i32::MIN, -2147417850, -1, 0, 1, 2, i32::MAX] {
        let mut thread = Thread::new(InitStatus::Other(code));
        thread.ensure();
        thread.ensure();
        thread.exit();
        assert_eq!(thread.native.initialize_calls, 1);
        assert_eq!(thread.native.release_calls, 0);
    }
}

#[test]
fn thread_that_never_asks_never_initializes_nor_releases() {
    let mut thread = Thread::new(InitStatus::Initialized);
    thread.exit();
    assert_eq!(thread.native.initialize_calls, 0);
    assert_eq!(thread.native.release_calls, 0);
}

#[test]
fn failing_release_is_swallowed() {
    for code in [i32::MIN, -1, 1, i32::MAX] {
        let mut thread = Thread::new(InitStatus::Initialized);
        thread.native.release_code = code;
        thread.ensure();
        thread.exit();
        assert_eq!(thread.native.release_calls, 1);
        // The guard is as released as after a clean release.
        thread.exit();
        thread.ensure();
        assert_eq!(thread.native.release_calls, 1);
        assert_eq!(thread.native.initialize_calls, 1);
    }
}

#[test]
fn second_exit_does_not_release_again() {
    let mut thread = Thread::new(InitStatus::Initialized);
    thread.ensure();
    thread.exit();
    thread.exit();
    thread.exit();
    assert_eq!(thread.native.release_calls, 1);
}

#[test]
fn released_guard_is_never_initialized_again() {
    let mut thread = Thread::new(InitStatus::Initialized);
    thread.ensure();
    thread.exit();
    thread.ensure();
    thread.ensure();
    assert_eq!(thread.native.initialize_calls, 1);
    assert_eq!(thread.native.release_calls, 1);
}

#[test]
fn degraded_guard_is_not_retried() {
    let mut thread = Thread::new(InitStatus::IncompatibleMode);
    thread.ensure();
    // Even if the runtime would answer well now, it is not asked again.
    thread.native.answer = InitStatus::Initialized;
    for _ in 0..10 {
        thread.ensure();
    }
    thread.exit();
    assert_eq!(thread.native.initialize_calls, 1);
    assert_eq!(thread.native.release_calls, 0);
}
