//! Facts about every run of the orbit-completion detector: a fresh tracker
//! fed any sequence of step outcomes.
use vstd::prelude::*;
use crate::tracker::{lemma_next_state_wf, next_state, run_events, StepEvent, Status, TrackerState};

verus! {

/// Every state that a run reaches keeps the tracker's invariant and the
/// target and step limit that it started with.
pub proof fn lemma_run_wf(target: nat, max_steps: nat, events: Seq<StepEvent>)
    ensures
        run_events(target, max_steps, events).wf(),
        run_events(target, max_steps, events).target == target,
        run_events(target, max_steps, events).max_steps == max_steps,
    decreases events.len(),
{
    if events.len() > 0 {
        lemma_run_wf(target, max_steps, events.drop_last());
        lemma_next_state_wf(run_events(target, max_steps, events.drop_last()), events.last());
    }
}

/// The recorded completion times of any run strictly increase from one orbit
/// to the next.
pub proof fn completion_times_increase(target: nat, max_steps: nat, events: Seq<StepEvent>)
    ensures
        forall|i: int, j: int|
            0 <= i < j < run_events(target, max_steps, events).times.len() ==> #[trigger] run_events(
                target,
                max_steps,
                events,
            ).times[i] < #[trigger] run_events(target, max_steps, events).times[j],
{
    lemma_run_wf(target, max_steps, events);
}

/// Once a run has degenerated, every slot from the first unrecorded orbit up
/// to the target holds the sentinel, at least one slot does, and whatever
/// steps are reported afterwards change nothing.
pub proof fn degeneracy_is_final(
    target: nat,
    max_steps: nat,
    events: Seq<StepEvent>,
    later: Seq<StepEvent>,
)
    requires
        run_events(target, max_steps, events).status == Status::Degenerate,
    ensures
        run_events(target, max_steps, events).times.len() < target,
        forall|k: int|
            run_events(target, max_steps, events).times.len() <= k < target ==> #[trigger] run_events(
                target,
                max_steps,
                events,
            ).slot(k) == None::<nat>,
        run_events(target, max_steps, events + later) == run_events(target, max_steps, events),
    decreases later.len(),
{
    lemma_run_wf(target, max_steps, events);
    if later.len() > 0 {
        degeneracy_is_final(target, max_steps, events, later.drop_last());
        let all = events + later;
        assert(all.drop_last() =~= events + later.drop_last());
        assert(run_events(target, max_steps, all) == next_state(
            run_events(target, max_steps, all.drop_last()),
            all.last(),
        ));
    } else {
        assert(events + later =~= events);
    }
}

/// A run that is still going has taken one step per event; so no run goes on
/// past its step limit.
pub proof fn step_limit_ends_every_run(target: nat, max_steps: nat, events: Seq<StepEvent>)
    ensures
        run_events(target, max_steps, events).status == Status::Running ==> run_events(
            target,
            max_steps,
            events,
        ).steps == events.len(),
        events.len() >= max_steps ==> run_events(target, max_steps, events).status
            != Status::Running,
    decreases events.len(),
{
    lemma_run_wf(target, max_steps, events);
    if events.len() > 0 {
        step_limit_ends_every_run(target, max_steps, events.drop_last());
    }
}

/// Steps that only advance the angle, fewer than the step limit, leave a
/// tracker running with nothing recorded.
proof fn lemma_advances_only(target: nat, max_steps: nat, events: Seq<StepEvent>)
    requires
        target > 0,
        events.len() < max_steps,
        forall|i: int| 0 <= i < events.len() ==> events[i] == StepEvent::Advanced,
    ensures
        run_events(target, max_steps, events) == (TrackerState {
            target,
            max_steps,
            steps: events.len(),
            times: Seq::empty(),
            status: Status::Running,
        }),
    decreases events.len(),
{
    if events.len() > 0 {
        lemma_advances_only(target, max_steps, events.drop_last());
    }
}

/// A full turn reported at step `k`, after `k - 1` steps that only advanced
/// the angle and within the step limit, records exactly one orbit, completed
/// at step `k`.
pub proof fn first_full_turn_records_one_orbit(
    target: nat,
    max_steps: nat,
    events: Seq<StepEvent>,
)
    requires
        target > 0,
        0 < events.len() <= max_steps,
        forall|i: int| 0 <= i < events.len() - 1 ==> events[i] == StepEvent::Advanced,
        events.last() == StepEvent::FullTurn,
    ensures
        run_events(target, max_steps, events).times == seq![events.len()],
        run_events(target, max_steps, events).steps == events.len(),
{
    let before = events.drop_last();
    lemma_advances_only(target, max_steps, before);
    assert(Seq::<nat>::empty().push(events.len()) =~= seq![events.len()]);
}

} // verus!
