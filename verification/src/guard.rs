//! The guard of one thread, and the operation that code on the thread calls.

use crate::history::{
    initialize_calls, lemma_history_summary, phase_after, release_calls,
};
use crate::lifecycle::{action_for, next_phase, transition, Action, Event, Phase};
use crate::status::{ConcurrencyMode, InitStatus};
use std::marker::PhantomData;
use std::rc::Rc;
use vstd::prelude::*;

verus! {

/// The guard of one thread.
///
/// It stands for everything that has happened on its thread so far, its
/// [`history`](ComGuard::history), and keeps of that only the phase that the
/// history has led to, which is its view. So whatever
/// [`history`](crate::history) shows of histories holds of every guard.
///
/// It is neither `Send` nor `Sync`, and it cannot be copied: what it records
/// is true of the thread that made it and of no other.
pub struct ComGuard {
    phase: Phase,
    history: Ghost<Seq<Event>>,
    affinity: PhantomData<Rc<()>>,
}

impl View for ComGuard {
    type V = Phase;

    closed spec fn view(&self) -> Phase {
        phase_after(Phase::Unstarted, self.history@)
    }
}

impl ComGuard {
    /// The phase that the guard keeps is the one that its history leads to.
    #[verifier::type_invariant]
    spec fn keeps_phase_of_history(&self) -> bool {
        self.phase == self@
    }

    /// The events that the guard has taken since its thread began, oldest
    /// first.
    pub closed spec fn history(&self) -> Seq<Event> {
        self.history@
    }

    /// The view of a guard is the phase that a fresh guard reaches over the
    /// guard's history.
    pub proof fn lemma_view_follows_history(&self)
        ensures
            self@ == phase_after(Phase::Unstarted, self.history()),
    {
    }

    /// The guard of a thread on which nothing has happened yet.
    pub fn new() -> (guard: Self)
        ensures
            guard@ == Phase::Unstarted,
            guard.history() == Seq::<Event>::empty(),
    {
        ComGuard { phase: Phase::Unstarted, history: Ghost(Seq::empty()), affinity: PhantomData }
    }

    /// Takes one event and answers with the native call that is due.
    pub fn step(&mut self, event: Event) -> (action: Action)
        ensures
            final(self).history() == old(self).history().push(event),
            final(self)@ == next_phase(old(self)@, event),
            action == action_for(old(self)@, event),
    {
        proof {
            use_type_invariant(&*self);
        }
        let ghost taken = self.history@.push(event);
        assert(taken.drop_last() =~= self.history@);
        let (phase, action) = transition(self.phase, event);
        *self = ComGuard { phase, history: Ghost(taken), affinity: PhantomData };
        action
    }

    /// Records the status of the native initialize call. While the call is
    /// awaited, a successful status makes the guard ready and any other
    /// degrades it; at any other time the status is dropped.
    pub fn initialize_returned(&mut self, status: InitStatus)
        ensures
            final(self).history() == old(self).history().push(Event::InitializeReturned(status)),
            final(self)@ == next_phase(old(self)@, Event::InitializeReturned(status)),
            old(self)@ == Phase::Attempting && status.is_success() ==> final(self)@ == Phase::Ready,
            old(self)@ == Phase::Attempting && !status.is_success() ==> final(self)@
                == Phase::Degraded,
            old(self)@ != Phase::Attempting ==> final(self)@ == old(self)@,
    {
        let _ = self.step(Event::InitializeReturned(status));
    }

    /// Tells the guard that its thread is ending. A ready guard asks for the
    /// release and is released from then on; every other guard asks for
    /// nothing and stays as it is. So over the whole thread the release has
    /// been asked for once if the guard is released now, and never if not.
    pub fn thread_exit(&mut self) -> (action: Action)
        ensures
            final(self).history() == old(self).history().push(Event::ThreadExit),
            final(self)@ == next_phase(old(self)@, Event::ThreadExit),
            action == action_for(old(self)@, Event::ThreadExit),
            old(self)@ == Phase::Ready ==> final(self)@ == Phase::Released && action
                == Action::Release,
            old(self)@ != Phase::Ready ==> final(self)@ == old(self)@ && action == Action::Nothing,
            release_calls(Phase::Unstarted, final(self).history()) == if final(self)@
                == Phase::Released {
                1nat
            } else {
                0nat
            },
    {
        let action = self.step(Event::ThreadExit);
        proof {
            lemma_history_summary(Phase::Unstarted, self.history());
        }
        action
    }

    /// Takes note that the native release call returned. Whatever it
    /// reported, the guard stays in its phase.
    pub fn release_returned(&mut self, code: i32)
        ensures
            final(self).history() == old(self).history().push(Event::ReleaseReturned(code)),
            final(self)@ == old(self)@,
    {
        let _ = self.step(Event::ReleaseReturned(code));
    }
}

/// Ensures that COM is initialized in this thread.
///
/// The first call on a thread starts the attempt: the guard asks for the
/// native initialize call in the multi-threaded mode. Every later call
/// changes nothing and asks for nothing, whether that attempt succeeded,
/// failed or is still running. So once the operation has been called, the
/// native initialize call has been asked for exactly once on this thread,
/// however often the operation was called before. The call never fails:
/// whether COM is usable shows only in what the thread's own COM calls
/// return.
pub fn com_initialized(guard: &mut ComGuard) -> (action: Action)
    ensures
        final(guard).history() == old(guard).history().push(Event::Ensure),
        final(guard)@ == next_phase(old(guard)@, Event::Ensure),
        action == action_for(old(guard)@, Event::Ensure),
        old(guard)@ == Phase::Unstarted ==> final(guard)@ == Phase::Attempting && action
            == Action::Initialize(ConcurrencyMode::MultiThreaded),
        old(guard)@ != Phase::Unstarted ==> final(guard)@ == old(guard)@ && action
            == Action::Nothing,
        initialize_calls(Phase::Unstarted, final(guard).history()) == 1,
{
    let action = guard.step(Event::Ensure);
    proof {
        lemma_history_summary(Phase::Unstarted, guard.history());
    }
    action
}

} // verus!
