//! A thread's history: the events that its guard takes, in order, and what
//! holds of the native calls that the guard asks for over all of them.

use crate::lifecycle::{action_for, next_phase, Action, Event, Phase};
use crate::status::ConcurrencyMode;
use vstd::prelude::*;

verus! {

/// The phase of a guard that started in `start` and has taken `events`.
pub open spec fn phase_after(start: Phase, events: Seq<Event>) -> Phase
    decreases events.len(),
{
    if events.len() == 0 {
        start
    } else {
        next_phase(phase_after(start, events.drop_last()), events.last())
    }
}

/// The native call with which a guard that started in `start` answers the
/// event at position `i`.
pub open spec fn action_at(start: Phase, events: Seq<Event>, i: int) -> Action
    recommends
        0 <= i < events.len(),
{
    action_for(phase_after(start, events.take(i)), events[i])
}

/// How often the operation is called in `events`.
pub open spec fn ensure_calls(events: Seq<Event>) -> nat
    decreases events.len(),
{
    if events.len() == 0 {
        0
    } else {
        ensure_calls(events.drop_last()) + if events.last() is Ensure {
            1nat
        } else {
            0nat
        }
    }
}

/// How often a guard that started in `start` asks for the native initialize
/// call while it takes `events`.
pub open spec fn initialize_calls(start: Phase, events: Seq<Event>) -> nat
    decreases events.len(),
{
    if events.len() == 0 {
        0
    } else {
        initialize_calls(start, events.drop_last()) + if action_at(
            start,
            events,
            events.len() - 1,
        ) is Initialize {
            1nat
        } else {
            0nat
        }
    }
}

/// How often a guard that started in `start` asks for the native release
/// call while it takes `events`.
pub open spec fn release_calls(start: Phase, events: Seq<Event>) -> nat
    decreases events.len(),
{
    if events.len() == 0 {
        0
    } else {
        release_calls(start, events.drop_last()) + if action_at(start, events, events.len() - 1)
            == Action::Release {
            1nat
        } else {
            0nat
        }
    }
}

/// Whether the native initialize call that a fresh guard asked for returns at
/// position `i` of `events`, with a status that counts as a success or not,
/// as `success` says.
pub open spec fn initialize_reported(events: Seq<Event>, i: int, success: bool) -> bool {
    &&& 0 <= i < events.len()
    &&& phase_after(Phase::Unstarted, events.take(i)) == Phase::Attempting
    &&& events[i] matches Event::InitializeReturned(status) && status.is_success() == success
}

/// How far a phase is along the lifecycle. No event takes a guard back.
pub open spec fn progress(phase: Phase) -> nat {
    match phase {
        Phase::Unstarted => 0,
        Phase::Attempting => 1,
        Phase::Ready => 2,
        Phase::Degraded => 2,
        Phase::Released => 3,
    }
}

/// Taking one more event is one step of the guard.
pub proof fn lemma_phase_step(start: Phase, events: Seq<Event>, i: int)
    requires
        0 <= i < events.len(),
    ensures
        phase_after(start, events.take(i + 1)) == next_phase(
            phase_after(start, events.take(i)),
            events[i],
        ),
        phase_after(start, events.take(events.len() as int)) == phase_after(start, events),
{
    assert(events.take(i + 1).drop_last() =~= events.take(i));
    assert(events.take(events.len() as int) =~= events);
}

/// A history may be cut anywhere: the guard goes on from the phase that the
/// first part left it in.
pub proof fn lemma_phase_split(start: Phase, events: Seq<Event>, i: int)
    requires
        0 <= i <= events.len(),
    ensures
        phase_after(start, events) == phase_after(
            phase_after(start, events.take(i)),
            events.skip(i),
        ),
    decreases events.len(),
{
    if i == events.len() {
        assert(events.take(i) =~= events);
    } else {
        lemma_phase_split(start, events.drop_last(), i);
        assert(events.drop_last().take(i) =~= events.take(i));
        assert(events.drop_last().skip(i) =~= events.skip(i).drop_last());
    }
}

/// What a whole history comes to, whatever its events are and in whatever
/// order they come: the guard never goes back, it asks for the native
/// initialize call once if it ever leaves the unstarted phase and never
/// otherwise, and it asks for the native release call once if it ends up
/// released and never otherwise.
pub proof fn lemma_history_summary(start: Phase, events: Seq<Event>)
    ensures
        progress(start) <= progress(phase_after(start, events)),
        initialize_calls(start, events) == if start == Phase::Unstarted && phase_after(
            start,
            events,
        ) != Phase::Unstarted {
            1nat
        } else {
            0nat
        },
        release_calls(start, events) == if start != Phase::Released && phase_after(start, events)
            == Phase::Released {
            1nat
        } else {
            0nat
        },
        start == Phase::Unstarted ==> (phase_after(start, events) == Phase::Unstarted
            <==> ensure_calls(events) == 0),
    decreases events.len(),
{
    if events.len() > 0 {
        lemma_history_summary(start, events.drop_last());
        assert(events.take(events.len() - 1) =~= events.drop_last());
    }
}

/// No transition leaves the released phase, and none leaves the degraded
/// one: a guard that is in either stays there and asks for nothing, whatever
/// happens. In particular a degraded guard never becomes ready: nothing is
/// tried again.
pub proof fn lemma_settled_phase_is_final(start: Phase, events: Seq<Event>)
    requires
        start == Phase::Released || start == Phase::Degraded,
    ensures
        phase_after(start, events) == start,
        forall|i: int|
            0 <= i < events.len() ==> #[trigger] action_at(start, events, i) == Action::Nothing,
    decreases events.len(),
{
    if events.len() > 0 {
        lemma_settled_phase_is_final(start, events.drop_last());
        assert forall|i: int| 0 <= i < events.len() implies #[trigger] action_at(start, events, i)
            == Action::Nothing by {
            lemma_settled_phase_is_final(start, events.take(i));
        }
    }
}

/// A ready guard stays ready, and asks for nothing, until its thread ends.
pub proof fn lemma_ready_until_exit(events: Seq<Event>)
    requires
        forall|i: int| 0 <= i < events.len() ==> !(#[trigger] events[i] is ThreadExit),
    ensures
        phase_after(Phase::Ready, events) == Phase::Ready,
    decreases events.len(),
{
    if events.len() > 0 {
        lemma_ready_until_exit(events.drop_last());
    }
}

/// Idempotence. However often the operation is called on a thread, and
/// whatever else happens there, the guard asks for the native initialize
/// call exactly once: in answer to the first call, and in the multi-threaded
/// mode. Every later call is answered with nothing and leaves the guard as
/// it was. On a thread that never calls the operation the guard never asks.
pub proof fn lemma_initialize_exactly_once(events: Seq<Event>)
    ensures
        ensure_calls(events) >= 1 ==> initialize_calls(Phase::Unstarted, events) == 1,
        ensure_calls(events) == 0 ==> initialize_calls(Phase::Unstarted, events) == 0,
        forall|i: int|
            0 <= i < events.len() && events[i] is Ensure && ensure_calls(events.take(i)) == 0
                ==> #[trigger] action_at(Phase::Unstarted, events, i) == Action::Initialize(
                ConcurrencyMode::MultiThreaded,
            ),
        forall|i: int|
            0 <= i < events.len() && !(events[i] is Ensure && ensure_calls(events.take(i)) == 0)
                ==> !(#[trigger] action_at(Phase::Unstarted, events, i) is Initialize),
        forall|i: int|
            0 <= i < events.len() && events[i] is Ensure && ensure_calls(events.take(i)) >= 1 ==> {
                &&& #[trigger] action_at(Phase::Unstarted, events, i) == Action::Nothing
                &&& phase_after(Phase::Unstarted, events.take(i + 1)) == phase_after(
                    Phase::Unstarted,
                    events.take(i),
                )
            },
{
    lemma_history_summary(Phase::Unstarted, events);
    assert forall|i: int| 0 <= i < events.len() implies {
        &&& phase_after(Phase::Unstarted, events.take(i)) == Phase::Unstarted <==> ensure_calls(
            events.take(i),
        ) == 0
        &&& phase_after(Phase::Unstarted, events.take(i + 1)) == next_phase(
            phase_after(Phase::Unstarted, events.take(i)),
            events[i],
        )
    } by {
        lemma_history_summary(Phase::Unstarted, events.take(i));
        lemma_phase_step(Phase::Unstarted, events, i);
    }
}

/// Balanced pairing. On a thread whose native initialize call reported
/// success, and which ends after that, the guard asks for the native release
/// call exactly once: in answer to the end of the thread, not before, and
/// nothing is asked for after it.
pub proof fn lemma_release_exactly_once(events: Seq<Event>, reported: int, exit: int)
    requires
        initialize_reported(events, reported, true),
        reported < exit < events.len(),
        events[exit] is ThreadExit,
        forall|k: int| reported < k < exit ==> !(#[trigger] events[k] is ThreadExit),
    ensures
        release_calls(Phase::Unstarted, events) == 1,
        phase_after(Phase::Unstarted, events) == Phase::Released,
        action_at(Phase::Unstarted, events, exit) == Action::Release,
        forall|k: int|
            0 <= k < events.len() && k != exit ==> #[trigger] action_at(
                Phase::Unstarted,
                events,
                k,
            ) != Action::Release,
        forall|k: int|
            exit < k < events.len() ==> #[trigger] action_at(Phase::Unstarted, events, k)
                == Action::Nothing,
{
    let start = Phase::Unstarted;
    lemma_phase_step(start, events, reported);
    assert(phase_after(start, events.take(reported + 1)) == Phase::Ready);
    // The guard is ready from the report up to the end of the thread.
    assert forall|k: int| reported < k <= exit implies phase_after(start, events.take(k))
        == Phase::Ready by {
        let upto = events.take(k);
        lemma_phase_split(start, upto, reported + 1);
        assert(upto.take(reported + 1) =~= events.take(reported + 1));
        lemma_ready_until_exit(upto.skip(reported + 1));
    }
    // It is released from then on.
    lemma_phase_step(start, events, exit);
    assert forall|k: int| exit < k <= events.len() implies phase_after(start, events.take(k))
        == Phase::Released by {
        let upto = events.take(k);
        lemma_phase_split(start, upto, exit + 1);
        assert(upto.take(exit + 1) =~= events.take(exit + 1));
        lemma_settled_phase_is_final(Phase::Released, upto.skip(exit + 1));
    }
    // Before the report it has not come as far as ready.
    assert forall|k: int| 0 <= k <= reported implies progress(phase_after(start, events.take(k)))
        <= 1 by {
        let upto = events.take(reported);
        lemma_phase_split(start, upto, k);
        assert(upto.take(k) =~= events.take(k));
        lemma_history_summary(phase_after(start, events.take(k)), upto.skip(k));
    }
    assert(events.take(events.len() as int) =~= events);
    lemma_history_summary(start, events);
}

/// A guard that is ready or released got there by a native initialize call
/// that reported success.
pub proof fn lemma_ready_was_reported(events: Seq<Event>)
    requires
        phase_after(Phase::Unstarted, events) == Phase::Ready || phase_after(
            Phase::Unstarted,
            events,
        ) == Phase::Released,
    ensures
        exists|reported: int| initialize_reported(events, reported, true),
    decreases events.len(),
{
    let before = events.drop_last();
    let phase = phase_after(Phase::Unstarted, before);
    if phase == Phase::Ready || phase == Phase::Released {
        lemma_ready_was_reported(before);
        let reported = choose|reported: int| initialize_reported(before, reported, true);
        assert(events.take(reported) =~= before.take(reported));
        assert(initialize_reported(events, reported, true));
    } else {
        assert(events.take(events.len() - 1) =~= before);
        assert(initialize_reported(events, events.len() - 1, true));
    }
}

/// Release only after success. Whenever the guard asks for the native
/// release call, its thread is ending, and the native initialize call that
/// the guard had asked for on that thread has reported success before.
pub proof fn lemma_release_only_after_success(events: Seq<Event>, at: int)
    requires
        0 <= at < events.len(),
        action_at(Phase::Unstarted, events, at) == Action::Release,
    ensures
        events[at] is ThreadExit,
        exists|reported: int| reported < at && initialize_reported(events, reported, true),
{
    let upto = events.take(at);
    lemma_ready_was_reported(upto);
    let reported = choose|reported: int| initialize_reported(upto, reported, true);
    assert(events.take(reported) =~= upto.take(reported));
    assert(reported < at && initialize_reported(events, reported, true));
}

/// No spurious release. On a thread whose native initialize call reported a
/// failure, the guard stays degraded from then on and never asks for the
/// native release call, whatever happens on the thread afterwards.
pub proof fn lemma_no_release_after_failure(events: Seq<Event>, reported: int)
    requires
        initialize_reported(events, reported, false),
    ensures
        release_calls(Phase::Unstarted, events) == 0,
        phase_after(Phase::Unstarted, events) == Phase::Degraded,
        forall|k: int|
            0 <= k < events.len() ==> #[trigger] action_at(Phase::Unstarted, events, k)
                != Action::Release,
        forall|k: int|
            reported < k <= events.len() ==> #[trigger] phase_after(
                Phase::Unstarted,
                events.take(k),
            ) == Phase::Degraded,
{
    let start = Phase::Unstarted;
    lemma_phase_step(start, events, reported);
    assert forall|k: int| reported < k <= events.len() implies #[trigger] phase_after(
        start,
        events.take(k),
    ) == Phase::Degraded by {
        let upto = events.take(k);
        lemma_phase_split(start, upto, reported + 1);
        assert(upto.take(reported + 1) =~= events.take(reported + 1));
        lemma_settled_phase_is_final(Phase::Degraded, upto.skip(reported + 1));
    }
    assert forall|k: int| 0 <= k <= reported implies progress(phase_after(start, events.take(k)))
        <= 1 by {
        let upto = events.take(reported);
        lemma_phase_split(start, upto, k);
        assert(upto.take(k) =~= events.take(k));
        lemma_history_summary(phase_after(start, events.take(k)), upto.skip(k));
    }
    assert(events.take(events.len() as int) =~= events);
    lemma_history_summary(start, events);
}

/// Release never fails. Whatever status the native release call reports,
/// and whenever the report comes, the guard takes it, stays as it is and
/// asks for nothing.
pub proof fn lemma_release_status_is_ignored(start: Phase, events: Seq<Event>, i: int)
    requires
        0 <= i < events.len(),
        events[i] is ReleaseReturned,
    ensures
        action_at(start, events, i) == Action::Nothing,
        phase_after(start, events.take(i + 1)) == phase_after(start, events.take(i)),
{
    lemma_phase_step(start, events, i);
}

} // verus!
