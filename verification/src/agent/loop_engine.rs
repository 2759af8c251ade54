//! When the agent's outer loops run another turn and when they stop.
use vstd::prelude::*;

verus! {

/// What the loop does next.
#[derive(Debug, Clone, Copy, PartialEq, Eq, Structural)]
pub enum LoopStep {
    /// Run the agent for this iteration (counted from 1).
    Run(u64),
    /// The iteration limit given by the caller is reached; stop.
    MaxReached(u64),
    /// The loop is over.
    Finished,
}

/// The turn counter of an outer loop. Before each turn the counter goes up;
/// past `max_iterations` the loop stops without running; it stops after
/// running turn `stop_after`.
#[derive(Debug, Clone, Copy, PartialEq, Eq, Structural)]
pub struct LoopSchedule {
    pub iteration: u64,
    pub max_iterations: Option<u64>,
    pub stop_after: u64,
    pub done: bool,
}

/// One decision of the schedule: the next state and the step.
pub open spec fn schedule_next(s: LoopSchedule) -> (LoopSchedule, LoopStep) {
    if s.done || s.iteration >= s.stop_after {
        (LoopSchedule { done: true, ..s }, LoopStep::Finished)
    } else {
        let i = (s.iteration + 1) as u64;
        match s.max_iterations {
            Some(m) if i > m => (
                LoopSchedule { iteration: i, done: true, ..s },
                LoopStep::MaxReached(m),
            ),
            _ => (LoopSchedule { iteration: i, done: i >= s.stop_after, ..s }, LoopStep::Run(i)),
        }
    }
}

impl LoopSchedule {
    /// The schedule of `run_loop`: at most `max_iterations` turns, and in any
    /// case a single one.
    pub fn for_run_loop(max_iterations: Option<u64>) -> (s: LoopSchedule)
        ensures
            s == (LoopSchedule { iteration: 0, max_iterations, stop_after: 1, done: false }),
    {
        LoopSchedule { iteration: 0, max_iterations, stop_after: 1, done: false }
    }

    /// The schedule of `continuous_improve`: ten turns.
    pub fn for_improvement() -> (s: LoopSchedule)
        ensures
            s == (LoopSchedule { iteration: 0, max_iterations: None, stop_after: 10, done: false }),
    {
        LoopSchedule { iteration: 0, max_iterations: None, stop_after: 10, done: false }
    }

    /// Decides the next step and advances the counter.
    pub fn next(&mut self) -> (r: LoopStep)
        ensures
            (*final(self), r) == schedule_next(*old(self)),
    {
        if self.done || self.iteration >= self.stop_after {
            self.done = true;
            return LoopStep::Finished;
        }
        let i = self.iteration + 1;
        match self.max_iterations {
            Some(m) => {
                if i > m {
                    self.iteration = i;
                    self.done = true;
                    return LoopStep::MaxReached(m);
                }
            },
            None => {},
        }
        self.iteration = i;
        self.done = i >= self.stop_after;
        LoopStep::Run(i)
    }
}

/// The state `run_loop` starts from.
pub open spec fn run_loop_start(max_iterations: Option<u64>) -> LoopSchedule {
    LoopSchedule { iteration: 0, max_iterations, stop_after: 1, done: false }
}

/// `run_loop` runs the agent at most once: turn 1 unless the limit is 0, then it stops.
pub proof fn law_run_loop_runs_at_most_once(max_iterations: Option<u64>)
    ensures
        max_iterations == Some(0u64) ==> schedule_next(run_loop_start(max_iterations)).1
            == LoopStep::MaxReached(0),
        max_iterations != Some(0u64) ==> schedule_next(run_loop_start(max_iterations)).1
            == LoopStep::Run(1),
        schedule_next(schedule_next(run_loop_start(max_iterations)).0).1 == LoopStep::Finished,
{
}

/// The state of the improvement schedule after `k` turns.
pub open spec fn improvement_after(k: u64) -> LoopSchedule {
    LoopSchedule { iteration: k, max_iterations: None, stop_after: 10, done: k >= 10 }
}

/// `continuous_improve` runs exactly ten turns, numbered 1 to 10, and then stops.
pub proof fn law_improvement_runs_ten_turns(k: u64)
    requires
        k <= 10,
    ensures
        k < 10 ==> schedule_next(improvement_after(k)).0 == improvement_after((k + 1) as u64),
        k < 10 ==> schedule_next(improvement_after(k)).1 == LoopStep::Run((k + 1) as u64),
        k == 10 ==> schedule_next(improvement_after(k)).1 == LoopStep::Finished,
        improvement_after(0) == (LoopSchedule {
            iteration: 0,
            max_iterations: None,
            stop_after: 10,
            done: false,
        }),
{
}

} // verus!
