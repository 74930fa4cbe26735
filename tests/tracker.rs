use orbit_period::tracker::{OrbitTracker, Status, StepEvent};

fn feed(t: &mut OrbitTracker, events: &[StepEvent]) {
    for e in events {
        t.observe(*e);
    }
}

#[test]
fn radial_infall_degenerates_with_all_slots_empty() {
    let mut t = OrbitTracker::new(5, u64::MAX);
    feed(&mut t, &[StepEvent::Advanced; 40]);
    assert_eq!(t.observe(StepEvent::Degenerate), Status::Degenerate);
    assert_eq!(t.orbits_completed(), 0);
    assert_eq!(t.slots(), vec![None, None, None, None, None]);
    assert!(!t.is_running());
}

#[test]
fn degeneracy_fills_remaining_slots_and_stops() {
    let mut t = OrbitTracker::new(5, u64::MAX);
    feed(
        &mut t,
        &[
            StepEvent::Advanced,
            StepEvent::FullTurn,
            StepEvent::Advanced,
            StepEvent::Advanced,
            StepEvent::FullTurn,
            StepEvent::Degenerate,
        ],
    );
    assert_eq!(t.status(), Status::Degenerate);
    assert_eq!(t.steps(), 6);
    assert_eq!(t.slots(), vec![Some(2), Some(5), None, None, None]);
    feed(&mut t, &[StepEvent::FullTurn, StepEvent::Advanced, StepEvent::FullTurn]);
    assert_eq!(t.steps(), 6);
    assert_eq!(t.slots(), vec![Some(2), Some(5), None, None, None]);
}

#[test]
fn first_full_turn_records_one_orbit_at_its_step() {
    let mut t = OrbitTracker::new(5, u64::MAX);
    feed(&mut t, &[StepEvent::Advanced; 4]);
    assert_eq!(t.orbits_completed(), 0);
    assert_eq!(t.observe(StepEvent::FullTurn), Status::Running);
    assert_eq!(t.orbits_completed(), 1);
    assert_eq!(t.slots(), vec![Some(5), None, None, None, None]);
}

#[test]
fn completion_slots_strictly_increase() {
    let mut t = OrbitTracker::new(5, u64::MAX);
    let mut events = Vec::new();
    for gap in [3usize, 1, 7, 2, 5] {
        for _ in 1..gap {
            events.push(StepEvent::Advanced);
        }
        events.push(StepEvent::FullTurn);
    }
    feed(&mut t, &events);
    assert_eq!(t.status(), Status::Completed);
    let slots: Vec<u64> = t.slots().into_iter().map(|s| s.unwrap()).collect();
    assert_eq!(slots, vec![3, 4, 11, 13, 18]);
    for k in 0..slots.len() - 1 {
        assert!(slots[k] < slots[k + 1]);
    }
}

#[test]
fn completed_tracker_ignores_further_steps() {
    let mut t = OrbitTracker::new(2, u64::MAX);
    feed(&mut t, &[StepEvent::FullTurn, StepEvent::Advanced, StepEvent::FullTurn]);
    assert_eq!(t.status(), Status::Completed);
    assert_eq!(t.observe(StepEvent::FullTurn), Status::Completed);
    assert_eq!(t.observe(StepEvent::Degenerate), Status::Completed);
    assert_eq!(t.steps(), 3);
    assert_eq!(t.slots(), vec![Some(1), Some(3)]);
}

#[test]
fn step_limit_stops_a_run_that_never_completes() {
    let mut t = OrbitTracker::new(3, 4);
    feed(&mut t, &[StepEvent::Advanced, StepEvent::FullTurn, StepEvent::Advanced]);
    assert!(t.is_running());
    assert_eq!(t.observe(StepEvent::Advanced), Status::StepLimit);
    assert_eq!(t.observe(StepEvent::FullTurn), Status::StepLimit);
    assert_eq!(t.steps(), 4);
    assert_eq!(t.slots(), vec![Some(2), None, None]);
}

#[test]
fn last_orbit_on_the_last_allowed_step_completes() {
    let mut t = OrbitTracker::new(1, 3);
    feed(&mut t, &[StepEvent::Advanced, StepEvent::Advanced]);
    assert_eq!(t.observe(StepEvent::FullTurn), Status::Completed);
    assert_eq!(t.slots(), vec![Some(3)]);
}

#[test]
fn degeneracy_wins_over_step_limit() {
    let mut t = OrbitTracker::new(2, 1);
    assert_eq!(t.observe(StepEvent::Degenerate), Status::Degenerate);
    assert_eq!(t.slots(), vec![None, None]);
}

#[test]
fn zero_target_is_complete_from_the_start() {
    let mut t = OrbitTracker::new(0, 10);
    assert_eq!(t.status(), Status::Completed);
    assert_eq!(t.observe(StepEvent::FullTurn), Status::Completed);
    assert_eq!(t.steps(), 0);
    assert_eq!(t.slots(), Vec::<Option<u64>>::new());
}

#[test]
fn zero_step_limit_stops_at_once() {
    let t = OrbitTracker::new(5, 0);
    assert_eq!(t.status(), Status::StepLimit);
    assert_eq!(t.slots(), vec![None; 5]);
}
