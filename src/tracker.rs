//! The orbit-completion detector.
//!
//! Each integration step, the caller measures the angle swept by the
//! satellite's displacement, adds it to its running total and reports what
//! became of that total as a [`StepEvent`]. The tracker counts steps (elapsed
//! time in units of the fixed time step), records the step at which each orbit
//! completes, and stops at the target orbit count, at degeneracy, or at a
//! step limit.
use vstd::prelude::*;

verus! {

/// What one integration step did to the accumulated swept angle.
#[derive(Clone, Copy, Debug, PartialEq, Eq, Structural)]
pub enum StepEvent {
    /// The accumulated angle stayed below a full turn.
    Advanced,
    /// The accumulated angle reached a full turn; the caller takes one full
    /// turn off it and carries the remainder into the next orbit.
    FullTurn,
    /// The accumulated angle is not a number: the trajectory degenerated
    /// (for instance the two bodies collided).
    Degenerate,
}

/// Where a tracker stands.
#[derive(Clone, Copy, Debug, PartialEq, Eq, Structural)]
pub enum Status {
    /// More steps are wanted.
    Running,
    /// The target number of orbits has been recorded.
    Completed,
    /// The trajectory degenerated before the target was reached.
    Degenerate,
    /// The step limit was reached before the target and without degeneracy.
    StepLimit,
}

/// The mathematical state of a tracker.
pub ghost struct TrackerState {
    /// Number of orbits to record.
    pub target: nat,
    /// Number of steps after which a run that is still going gives up.
    pub max_steps: nat,
    /// Steps taken so far.
    pub steps: nat,
    /// For each completed orbit, the step count at which it completed.
    pub times: Seq<nat>,
    pub status: Status,
}

impl TrackerState {
    /// The invariant of every state that a run reaches.
    pub open spec fn wf(self) -> bool {
        &&& self.times.len() <= self.target
        &&& forall|i: int, j: int|
            0 <= i < j < self.times.len() ==> #[trigger] self.times[i] < #[trigger] self.times[j]
        &&& forall|i: int| 0 <= i < self.times.len() ==> 0 < #[trigger] self.times[i] <= self.steps
        &&& self.status == Status::Running ==> self.times.len() < self.target && self.steps
            < self.max_steps
        &&& self.status == Status::Completed ==> self.times.len() == self.target
        &&& self.status == Status::Degenerate ==> self.times.len() < self.target
        &&& self.status == Status::StepLimit ==> self.times.len() < self.target
    }

    /// The value of output slot `k`: the completion step of orbit `k` where it
    /// was recorded, `None` (the not-a-number sentinel) where it was not.
    pub open spec fn slot(self, k: int) -> Option<nat> {
        if 0 <= k < self.times.len() {
            Some(self.times[k])
        } else {
            None
        }
    }
}

/// The state of a fresh tracker.
pub open spec fn start_state(target: nat, max_steps: nat) -> TrackerState {
    TrackerState {
        target,
        max_steps,
        steps: 0,
        times: Seq::empty(),
        status: if target == 0 {
            Status::Completed
        } else if max_steps == 0 {
            Status::StepLimit
        } else {
            Status::Running
        },
    }
}

/// One step: a tracker that has stopped stays as it is; a running one counts
/// the step, and then stops on degeneracy, records the step on a full turn,
/// and stops once the target is met or the step limit is reached.
pub open spec fn next_state(s: TrackerState, e: StepEvent) -> TrackerState {
    if s.status != Status::Running {
        s
    } else {
        let steps = s.steps + 1;
        let times = if e == StepEvent::FullTurn {
            s.times.push(steps)
        } else {
            s.times
        };
        let status = if e == StepEvent::Degenerate {
            Status::Degenerate
        } else if times.len() >= s.target {
            Status::Completed
        } else if steps >= s.max_steps {
            Status::StepLimit
        } else {
            Status::Running
        };
        TrackerState { steps, times, status, ..s }
    }
}

/// The state after a fresh tracker has observed `events` in order.
pub open spec fn run_events(target: nat, max_steps: nat, events: Seq<StepEvent>) -> TrackerState
    decreases events.len(),
{
    if events.len() == 0 {
        start_state(target, max_steps)
    } else {
        next_state(run_events(target, max_steps, events.drop_last()), events.last())
    }
}

/// Counts integration steps and records the step at which each orbit
/// completes.
pub struct OrbitTracker {
    target: usize,
    max_steps: u64,
    steps: u64,
    times: Vec<u64>,
    status: Status,
}

impl View for OrbitTracker {
    type V = TrackerState;

    closed spec fn view(&self) -> TrackerState {
        TrackerState {
            target: self.target as nat,
            max_steps: self.max_steps as nat,
            steps: self.steps as nat,
            times: self.times@.map_values(|t: u64| t as nat),
            status: self.status,
        }
    }
}

impl OrbitTracker {
    pub open spec fn wf(&self) -> bool {
        self@.wf()
    }

    /// A tracker that wants `target` orbits and gives up after `max_steps`
    /// steps.
    pub fn new(target: usize, max_steps: u64) -> (r: OrbitTracker)
        ensures
            r@ == start_state(target as nat, max_steps as nat),
            r.wf(),
    {
        let status = if target == 0 {
            Status::Completed
        } else if max_steps == 0 {
            Status::StepLimit
        } else {
            Status::Running
        };
        let r = OrbitTracker { target, max_steps, steps: 0, times: Vec::new(), status };
        proof {
            assert(r@.times =~= Seq::<nat>::empty());
        }
        r
    }
    /// Takes one step with the given outcome and returns the status after it.
    /// A tracker that has stopped ignores further steps.
    pub fn observe(&mut self, event: StepEvent) -> (status: Status)
        requires
            old(self).wf(),
        ensures
            final(self).wf(),
            final(self)@ == next_state(old(self)@, event),
            status == final(self)@.status,
    {
        if self.status != Status::Running {
            return self.status;
        }
        let ghost before = self@;
        self.steps = self.steps + 1;
        if event == StepEvent::FullTurn {
            self.times.push(self.steps);
        }
        if event == StepEvent::Degenerate {
            self.status = Status::Degenerate;
        } else if self.times.len() >= self.target {
            self.status = Status::Completed;
        } else if self.steps >= self.max_steps {
            self.status = Status::StepLimit;
        }
        proof {
            let after = next_state(before, event);
            assert(self@.times =~= after.times);
            assert(self@ == after);
            lemma_next_state_wf(before, event);
        }
        self.status
    }

    /// Where the tracker stands.
    pub fn status(&self) -> (r: Status)
        ensures
            r == self@.status,
    {
        self.status
    }

    /// Whether further integration steps are wanted.
    pub fn is_running(&self) -> (r: bool)
        ensures
            r == (self@.status == Status::Running),
    {
        self.status == Status::Running
    }

    /// Steps taken so far.
    pub fn steps(&self) -> (r: u64)
        ensures
            r == self@.steps,
    {
        self.steps
    }

    /// Number of orbits recorded so far.
    pub fn orbits_completed(&self) -> (r: usize)
        ensures
            r == self@.times.len(),
    {
        self.times.len()
    }

    /// One slot per target orbit: the step count at which that orbit
    /// completed, or `None` where it was not reached.
    pub fn slots(&self) -> (r: Vec<Option<u64>>)
        requires
            self.wf(),
        ensures
            r@.len() == self@.target,
            forall|k: int|
                0 <= k < r@.len() ==> match #[trigger] r@[k] {
                    Some(t) => self@.slot(k) == Some(t as nat),
                    None => self@.slot(k) == None::<nat>,
                },
    {
        let mut r: Vec<Option<u64>> = Vec::new();
        let mut k: usize = 0;
        while k < self.target
            invariant
                self.wf(),
                k <= self.target,
                r@.len() == k,
                forall|j: int|
                    0 <= j < k ==> match #[trigger] r@[j] {
                        Some(t) => self@.slot(j) == Some(t as nat),
                        None => self@.slot(j) == None::<nat>,
                    },
            decreases self.target - k,
        {
            if k < self.times.len() {
                r.push(Some(self.times[k]));
            } else {
                r.push(None);
            }
            k = k + 1;
        }
        r
    }
}

/// A step keeps the invariant.
pub proof fn lemma_next_state_wf(s: TrackerState, e: StepEvent)
    requires
        s.wf(),
    ensures
        next_state(s, e).wf(),
{
    let n = next_state(s, e);
    if s.status == Status::Running && e == StepEvent::FullTurn {
        assert forall|i: int| 0 <= i < n.times.len() implies 0 < #[trigger] n.times[i] <= n.steps by {
            if i < s.times.len() {
                assert(n.times[i] == s.times[i]);
            }
        }
        assert forall|i: int, j: int|
            0 <= i < j < n.times.len() implies #[trigger] n.times[i] < #[trigger] n.times[j] by {
            assert(n.times[i] == s.times[i]);
            if j < s.times.len() {
                assert(n.times[j] == s.times[j]);
            }
        }
    }
}


} // verus!
