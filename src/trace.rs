//! Runs as sequences of indivisible steps, and what holds of every such sequence.
//!
//! Each call on a shared runner is one step: a request for a run
//! ([`crate::runner::Runner::try_run`]) or the completion of the run in
//! progress ([`crate::runner::Runner::complete_run`]). Any interleaving of
//! concurrent callers is one sequence of such steps.
use vstd::prelude::*;
use crate::gate::{acquire_step, release_step, RunState};

verus! {

/// One indivisible step on a runner.
pub enum Event {
    /// A request for a run, scheduled or on demand.
    Trigger,
    /// The run in progress ends, in success or in failure.
    Complete { succeeded: bool },
}

/// The run state after `e`, from state `s`.
pub open spec fn step(s: RunState, e: Event) -> RunState {
    match e {
        Event::Trigger => acquire_step(s).0,
        Event::Complete { .. } => release_step(s),
    }
}

/// Whether `e`, from state `s`, starts a probe execution.
pub open spec fn admits(s: RunState, e: Event) -> bool {
    e is Trigger && acquire_step(s).1
}

/// The run state after `events`, from a fresh runner.
pub open spec fn replay(events: Seq<Event>) -> RunState
    decreases events.len(),
{
    if events.len() == 0 {
        RunState::Idle
    } else {
        step(replay(events.drop_last()), events.last())
    }
}

/// Whether `events` can happen: a run completes only while one is in progress.
pub open spec fn feasible(events: Seq<Event>) -> bool
    decreases events.len(),
{
    if events.len() == 0 {
        true
    } else {
        feasible(events.drop_last()) && (events.last() is Complete ==> replay(events.drop_last())
            == RunState::Running)
    }
}

/// How many probe executions `events` started.
pub open spec fn starts(events: Seq<Event>) -> nat
    decreases events.len(),
{
    if events.len() == 0 {
        0
    } else {
        starts(events.drop_last()) + if admits(replay(events.drop_last()), events.last()) {
            1nat
        } else {
            0nat
        }
    }
}

/// How many runs `events` completed.
pub open spec fn completions(events: Seq<Event>) -> nat
    decreases events.len(),
{
    if events.len() == 0 {
        0
    } else {
        completions(events.drop_last()) + if events.last() is Complete {
            1nat
        } else {
            0nat
        }
    }
}

/// How many runs of `events` completed in success. Each of them hands its
/// result to the success callback, if one is bound
/// (see [`crate::runner::Runner::complete_run`]).
pub open spec fn successes(events: Seq<Event>) -> nat
    decreases events.len(),
{
    if events.len() == 0 {
        0
    } else {
        successes(events.drop_last()) + match events.last() {
            Event::Complete { succeeded: true } => 1nat,
            _ => 0nat,
        }
    }
}

/// How many probe executions are in progress after `events`.
pub open spec fn in_flight(events: Seq<Event>) -> int {
    starts(events) - completions(events)
}

/// After any feasible sequence, the number of probes in flight follows the
/// state: one while running, none while idle.
proof fn lemma_in_flight_is_state(events: Seq<Event>)
    requires
        feasible(events),
    ensures
        in_flight(events) == if replay(events) == RunState::Running {
            1int
        } else {
            0int
        },
    decreases events.len(),
{
    if events.len() > 0 {
        lemma_in_flight_is_state(events.drop_last());
    }
}

/// Every prefix of a feasible sequence is feasible.
pub proof fn lemma_feasible_prefix(events: Seq<Event>, i: int)
    requires
        feasible(events),
        0 <= i <= events.len(),
    ensures
        feasible(events.take(i)),
    decreases events.len(),
{
    if i < events.len() {
        assert(events.drop_last().take(i) =~= events.take(i));
        lemma_feasible_prefix(events.drop_last(), i);
    } else {
        assert(events.take(i) =~= events);
    }
}

/// Mutual exclusion: whatever the interleaving of requests and completions,
/// at every point at most one probe execution is in progress, and one is
/// exactly when the runner is running.
pub proof fn lemma_single_flight(events: Seq<Event>)
    requires
        feasible(events),
    ensures
        forall|i: int|
            0 <= i <= events.len() ==> {
                &&& 0 <= #[trigger] in_flight(events.take(i)) <= 1
                &&& (in_flight(events.take(i)) == 1 <==> replay(events.take(i)) == RunState::Running)
            },
{
    assert forall|i: int| 0 <= i <= events.len() implies {
        &&& 0 <= #[trigger] in_flight(events.take(i)) <= 1
        &&& (in_flight(events.take(i)) == 1 <==> replay(events.take(i)) == RunState::Running)
    } by {
        lemma_feasible_prefix(events, i);
        lemma_in_flight_is_state(events.take(i));
    }
}

/// No lockout: the completion of a run, successful or failed, returns the
/// gate to idle, and the next request starts a run.
pub proof fn lemma_completion_frees_gate(events: Seq<Event>, succeeded: bool)
    requires
        feasible(events),
        replay(events) == RunState::Running,
    ensures
        feasible(events.push(Event::Complete { succeeded })),
        replay(events.push(Event::Complete { succeeded })) == RunState::Idle,
        in_flight(events.push(Event::Complete { succeeded })) == 0,
        feasible(events.push(Event::Complete { succeeded }).push(Event::Trigger)),
        starts(events.push(Event::Complete { succeeded }).push(Event::Trigger)) == starts(events)
            + 1,
{
    let done = events.push(Event::Complete { succeeded });
    assert(done.drop_last() =~= events);
    assert(done.push(Event::Trigger).drop_last() =~= done);
    lemma_in_flight_is_state(done);
}

/// A request while a run is in progress starts nothing and changes nothing.
pub proof fn lemma_busy_trigger_rejected(events: Seq<Event>)
    requires
        feasible(events),
        replay(events) == RunState::Running,
    ensures
        !admits(replay(events), Event::Trigger),
        feasible(events.push(Event::Trigger)),
        replay(events.push(Event::Trigger)) == RunState::Running,
        starts(events.push(Event::Trigger)) == starts(events),
        in_flight(events.push(Event::Trigger)) == 1,
{
    assert(events.push(Event::Trigger).drop_last() =~= events);
    lemma_in_flight_is_state(events.push(Event::Trigger));
}

/// Successes belong to runs that were started: they never outnumber
/// completions, nor completions starts.
pub proof fn lemma_successes_follow_runs(events: Seq<Event>)
    requires
        feasible(events),
    ensures
        successes(events) <= completions(events) <= starts(events),
    decreases events.len(),
{
    if events.len() > 0 {
        lemma_successes_follow_runs(events.drop_last());
        lemma_in_flight_is_state(events.drop_last());
    }
}

/// From the request at `i` that started a run, up to the step before `j`,
/// with no completion in between, the runner stays running and nothing more starts.
proof fn lemma_held_until_completion(events: Seq<Event>, i: int, j: int)
    requires
        0 <= i < j <= events.len(),
        admits(replay(events.take(i)), events[i]),
        forall|k: int| i < k < j ==> #[trigger] events[k] is Trigger,
    ensures
        replay(events.take(j)) == RunState::Running,
        starts(events.take(j)) == starts(events.take(i + 1)),
    decreases j - i,
{
    if j == i + 1 {
        assert(events.take(j).drop_last() =~= events.take(i));
    } else {
        lemma_held_until_completion(events, i, j - 1);
        assert(events.take(j).drop_last() =~= events.take(j - 1));
        assert(events.take(j).last() == events[j - 1]);
    }
}

/// Scheduled slots do not overlap a run: if the request at `i` started a
/// probe and no completion comes before a later request at `j`, that
/// request is rejected, and no second probe starts in between.
pub proof fn lemma_overlapping_slot_rejected(events: Seq<Event>, i: int, j: int)
    requires
        0 <= i < j < events.len(),
        admits(replay(events.take(i)), events[i]),
        events[j] is Trigger,
        forall|k: int| i < k < j ==> #[trigger] events[k] is Trigger,
    ensures
        replay(events.take(j)) == RunState::Running,
        !admits(replay(events.take(j)), events[j]),
        starts(events.take(j + 1)) == starts(events.take(i + 1)),
{
    lemma_held_until_completion(events, i, j);
    assert(events.take(j + 1).drop_last() =~= events.take(j));
    assert(events.take(j + 1).last() == events[j]);
}

/// `n` requests in a row.
pub open spec fn triggers(n: nat) -> Seq<Event> {
    Seq::new(n, |i: int| Event::Trigger)
}

/// Racing requests: from an idle runner, of `n` requests with no completion
/// among them exactly the first starts a run, and the runner is left running.
pub proof fn lemma_racing_triggers(events: Seq<Event>, n: nat)
    requires
        feasible(events),
        replay(events) == RunState::Idle,
        n >= 1,
    ensures
        feasible(events + triggers(n)),
        admits(replay(events), Event::Trigger),
        forall|k: int|
            1 <= k < n ==> !admits(
                #[trigger] replay(events + triggers(k as nat)),
                Event::Trigger,
            ),
        replay(events + triggers(n)) == RunState::Running,
        starts(events + triggers(n)) == starts(events) + 1,
    decreases n,
{
    if n == 1 {
        assert((events + triggers(1)).drop_last() =~= events);
    } else {
        lemma_racing_triggers(events, (n - 1) as nat);
        let m = (n - 1) as nat;
        assert((events + triggers(n)).drop_last() =~= events + triggers(m));
        assert((events + triggers(n)).last() == Event::Trigger);
        assert forall|k: int| 1 <= k < n implies !admits(
            #[trigger] replay(events + triggers(k as nat)),
            Event::Trigger,
        ) by {
            if k == m {
            }
        }
    }
}

} // verus!
