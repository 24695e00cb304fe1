//! Several threads side by side. Every thread has a guard of its own, and no
//! guard is shared: what happens on one thread shows in its own guard and in
//! no other.

use crate::lifecycle::{action_for, next_phase, Action, Event, Phase};
use crate::history::phase_after;
use vstd::prelude::*;

verus! {

/// The phase of the guard of `thread`, where `threads` holds the phases of
/// the guards by thread. A thread without an entry has not started.
pub open spec fn phase_of(threads: Map<nat, Phase>, thread: nat) -> Phase {
    if threads.dom().contains(thread) {
        threads[thread]
    } else {
        Phase::Unstarted
    }
}

/// The guards after `event` has happened on `thread`.
pub open spec fn deliver(threads: Map<nat, Phase>, thread: nat, event: Event) -> Map<nat, Phase> {
    threads.insert(thread, next_phase(phase_of(threads, thread), event))
}

/// The guards after the events of `schedule` have happened in order, each on
/// the thread that it names.
pub open spec fn threads_after(threads: Map<nat, Phase>, schedule: Seq<(nat, Event)>) -> Map<
    nat,
    Phase,
>
    decreases schedule.len(),
{
    if schedule.len() == 0 {
        threads
    } else {
        deliver(threads_after(threads, schedule.drop_last()), schedule.last().0, schedule.last().1)
    }
}

/// The events of `schedule` that happen on `thread`, in their order.
pub open spec fn events_of(schedule: Seq<(nat, Event)>, thread: nat) -> Seq<Event>
    decreases schedule.len(),
{
    if schedule.len() == 0 {
        Seq::empty()
    } else if schedule.last().0 == thread {
        events_of(schedule.drop_last(), thread).push(schedule.last().1)
    } else {
        events_of(schedule.drop_last(), thread)
    }
}

/// The native call with which the guard of the thread named at position `i`
/// of `schedule` answers the event there.
pub open spec fn scheduled_action(
    threads: Map<nat, Phase>,
    schedule: Seq<(nat, Event)>,
    i: int,
) -> Action
    recommends
        0 <= i < schedule.len(),
{
    action_for(phase_of(threads_after(threads, schedule.take(i)), schedule[i].0), schedule[i].1)
}

/// An event on one thread leaves the guard of every other thread as it was.
pub proof fn lemma_deliver_touches_one_thread(
    threads: Map<nat, Phase>,
    thread: nat,
    event: Event,
    other: nat,
)
    requires
        other != thread,
    ensures
        phase_of(deliver(threads, thread, event), other) == phase_of(threads, other),
        phase_of(deliver(threads, thread, event), thread) == next_phase(
            phase_of(threads, thread),
            event,
        ),
{
}

/// Thread isolation. However the events of several threads interleave, the
/// guard of a thread is where the thread's own events alone take it, and it
/// answers each of them as it would if no other thread existed.
pub proof fn lemma_thread_isolation(
    threads: Map<nat, Phase>,
    schedule: Seq<(nat, Event)>,
    thread: nat,
)
    ensures
        phase_of(threads_after(threads, schedule), thread) == phase_after(
            phase_of(threads, thread),
            events_of(schedule, thread),
        ),
        forall|i: int|
            0 <= i < schedule.len() && schedule[i].0 == thread ==> #[trigger] scheduled_action(
                threads,
                schedule,
                i,
            ) == action_for(
                phase_after(phase_of(threads, thread), events_of(schedule.take(i), thread)),
                schedule[i].1,
            ),
    decreases schedule.len(),
{
    if schedule.len() > 0 {
        let before = schedule.drop_last();
        lemma_thread_isolation(threads, before, thread);
        if schedule.last().0 == thread {
            let own = events_of(before, thread);
            assert(own.push(schedule.last().1).drop_last() =~= own);
        }
    }
    assert forall|i: int| 0 <= i < schedule.len() && schedule[i].0 == thread implies
        #[trigger] scheduled_action(threads, schedule, i) == action_for(
        phase_after(phase_of(threads, thread), events_of(schedule.take(i), thread)),
        schedule[i].1,
    ) by {
        lemma_thread_isolation(threads, schedule.take(i), thread);
    }
}

/// Two runs in which the same happens on a thread leave the guard of that
/// thread in the same phase, whatever the other threads do in either: the
/// outcome on one thread is not visible on another.
pub proof fn lemma_threads_do_not_interfere(
    threads: Map<nat, Phase>,
    one: Seq<(nat, Event)>,
    other: Seq<(nat, Event)>,
    thread: nat,
)
    requires
        events_of(one, thread) == events_of(other, thread),
    ensures
        phase_of(threads_after(threads, one), thread) == phase_of(
            threads_after(threads, other),
            thread,
        ),
{
    lemma_thread_isolation(threads, one, thread);
    lemma_thread_isolation(threads, other, thread);
}

} // verus!
