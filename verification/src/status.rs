//! The concurrency modes of COM and the outcomes of its initialize call, as
//! values of this crate and as the raw numbers of the native interface.

use vstd::prelude::*;

verus! {

/// The flag of the native initialize call that asks for the multi-threaded
/// mode.
pub const COINIT_MULTITHREADED: u32 = 0x0;

/// The flag of the native initialize call that asks for a single-threaded
/// apartment.
pub const COINIT_APARTMENTTHREADED: u32 = 0x2;

/// The status of a native call that did what it was asked to do.
pub const S_OK: i32 = 0;

/// The status of a native initialize call on a thread on which COM had
/// been initialized before, in the same mode.
pub const S_FALSE: i32 = 1;

/// The status of a native initialize call on a thread on which COM had
/// been initialized before, in another mode. As an unsigned number it is
/// `0x80010106`.
pub const RPC_E_CHANGED_MODE: i32 = -2147417850;

/// The threading model that a thread asks for when it initializes COM.
#[derive(Clone, Copy, Debug, PartialEq, Eq, Structural)]
pub enum ConcurrencyMode {
    /// Objects made on the thread may be called from any thread.
    MultiThreaded,
    /// Objects made on the thread are called on that thread only.
    ApartmentThreaded,
}

impl ConcurrencyMode {
    /// The flag that asks the native initialize call for this mode.
    pub open spec fn spec_flag(self) -> u32 {
        match self {
            ConcurrencyMode::MultiThreaded => COINIT_MULTITHREADED,
            ConcurrencyMode::ApartmentThreaded => COINIT_APARTMENTTHREADED,
        }
    }

    /// The flag that asks the native initialize call for this mode.
    #[verifier::when_used_as_spec(spec_flag)]
    pub fn flag(self) -> (flag: u32)
        ensures
            flag == self.spec_flag(),
    {
        match self {
            ConcurrencyMode::MultiThreaded => COINIT_MULTITHREADED,
            ConcurrencyMode::ApartmentThreaded => COINIT_APARTMENTTHREADED,
        }
    }
}

/// What the native initialize call reported.
#[derive(Clone, Copy, Debug, PartialEq, Eq, Structural)]
pub enum InitStatus {
    /// COM was initialized on this thread by this call.
    Initialized,
    /// COM had been initialized on this thread before, in the same mode.
    AlreadyInitialized,
    /// COM had been initialized on this thread before, in another mode.
    IncompatibleMode,
    /// Any other status, with its raw code.
    Other(i32),
}

impl InitStatus {
    /// The status that the raw code of the native initialize call stands for.
    pub open spec fn spec_from_code(code: i32) -> InitStatus {
        if code == S_OK {
            InitStatus::Initialized
        } else if code == S_FALSE {
            InitStatus::AlreadyInitialized
        } else if code == RPC_E_CHANGED_MODE {
            InitStatus::IncompatibleMode
        } else {
            InitStatus::Other(code)
        }
    }

    /// Reads the raw code that the native initialize call returned.
    #[verifier::when_used_as_spec(spec_from_code)]
    pub fn from_code(code: i32) -> (status: InitStatus)
        ensures
            status == InitStatus::spec_from_code(code),
    {
        if code == S_OK {
            InitStatus::Initialized
        } else if code == S_FALSE {
            InitStatus::AlreadyInitialized
        } else if code == RPC_E_CHANGED_MODE {
            InitStatus::IncompatibleMode
        } else {
            InitStatus::Other(code)
        }
    }

    /// Whether the thread may use COM after this status, and so owes a
    /// release: a fresh initialization and a repeated one in the same mode
    /// both count, nothing else does.
    pub open spec fn spec_is_success(&self) -> bool {
        *self is Initialized || *self is AlreadyInitialized
    }

    /// Tells the two successful outcomes from all others.
    #[verifier::when_used_as_spec(spec_is_success)]
    pub fn is_success(&self) -> (ok: bool)
        ensures
            ok == self.spec_is_success(),
    {
        match self {
            InitStatus::Initialized => true,
            InitStatus::AlreadyInitialized => true,
            InitStatus::IncompatibleMode => false,
            InitStatus::Other(_) => false,
        }
    }
}

} // verus!
