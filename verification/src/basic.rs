//! The basic search for a repair: one search for a minimal repair over the
//! whole testbench.

use crate::incremental::Ending;
use crate::minimal::answers;
use crate::minimal::minimal_candidate;
use crate::minimal::minimal_next;
use crate::minimal::MinimalPhase;
use crate::minimal::MinimalRepair;
use crate::minimal::phase_admits;
use crate::protocol::Command;
use crate::protocol::Reply;
use crate::repair::AssignmentView;
use crate::repair::RepairAssignment;
use crate::result::RepairResult;
use crate::result::RepairStatus;
use crate::result::Stats;
use crate::testbench::StepInt;
use vstd::prelude::*;

verus! {

/// A search for a minimal repair from cycle `start_step` to cycle
/// `end_step_option`, or to the last cycle of a testbench of `rows` cycles.
pub fn generate_minimal_repair(
    start_step: StepInt,
    end_step_option: Option<StepInt>,
    rows: StepInt,
    max_changes: u32,
) -> (r: MinimalRepair)
    requires
        end_step_option is None ==> rows >= 1,
    ensures
        r.start == start_step,
        r.end == match end_step_option {
            Some(end) => end,
            None => (rows - 1) as StepInt,
        },
        r.max_changes == max_changes,
        r.phase == MinimalPhase::Idle,
{
    let end_step = match end_step_option {
        Some(end) => end,
        None => rows - 1,
    };
    MinimalRepair::new(start_step, end_step, max_changes)
}

/// The basic search, with the repair that it found.
pub struct BasicRepair {
    pub search: MinimalRepair,
    /// The assignment that was read from the model.
    pub solution: Option<RepairAssignment>,
}

/// The basic search on a testbench of `rows` cycles: from the first cycle to
/// the last.
pub fn basic_repair(rows: StepInt, max_changes: u32) -> (r: BasicRepair)
    requires
        rows >= 1,
    ensures
        r.search.start == 0,
        r.search.end == rows - 1,
        r.search.max_changes == max_changes,
        r.search.phase == MinimalPhase::Idle,
        r.solution is None,
{
    BasicRepair { search: generate_minimal_repair(0, None, rows, max_changes), solution: None }
}

impl BasicRepair {
    /// What the solution holds.
    pub open spec fn solution_view(&self) -> Option<AssignmentView> {
        match self.solution {
            Some(a) => Some(a@),
            None => None,
        }
    }

    /// Runs the search on from the reply to its last command, and hands out
    /// its next command; `Finish` when the search has ended.
    pub fn run(&mut self, reply: Reply) -> (command: Command)
        requires
            answers(old(self).search.phase, reply@),
        ensures
            (final(self).search.phase, command) == minimal_next(
                old(self).search.start,
                old(self).search.end,
                old(self).search.max_changes,
                old(self).search.phase,
                reply@,
            ),
            final(self).solution_view() == minimal_candidate(
                old(self).search.phase,
                old(self).solution_view(),
                reply@,
            ),
            final(self).search.start == old(self).search.start,
            final(self).search.end == old(self).search.end,
            final(self).search.max_changes == old(self).search.max_changes,
    {
        let was_reading = matches!(self.search.phase, MinimalPhase::Read { .. });
        let command = self.search.run(&reply);
        if was_reading {
            match reply {
                Reply::Assignment(a) => {
                    self.solution = Some(a);
                },
                _ => {},
            }
        }
        command
    }

    /// Whether the reply is one that the search goes on with: the solver
    /// knows whether the count that the search asked for can be satisfied.
    pub fn admits(&self, reply: &Reply) -> (r: bool)
        ensures
            r == answers(self.search.phase, reply@),
    {
        phase_admits(self.search.phase, reply)
    }

    /// How the search ended, if it has.
    pub fn ending(&self) -> (r: Option<Ending>)
        ensures
            r == match self.search.phase {
                MinimalPhase::Found { count } => Some(Ending::Success),
                MinimalPhase::NoRepair => Some(Ending::CannotRepair),
                MinimalPhase::OutOfTurn => Some(Ending::OutOfTurn),
                _ => None,
            },
    {
        match self.search.phase {
            MinimalPhase::Found { .. } => Some(Ending::Success),
            MinimalPhase::NoRepair => Some(Ending::CannotRepair),
            MinimalPhase::OutOfTurn => Some(Ending::OutOfTurn),
            _ => None,
        }
    }

    /// The report of a search that has ended: the one repair that was found,
    /// or none. Nothing for a search that has not ended, or that ended in
    /// another way.
    pub fn finish(self) -> (r: Option<RepairResult>)
        ensures
            match (self.search.phase, self.solution) {
                (MinimalPhase::Found { count }, Some(solution)) => {
                    &&& r is Some
                    &&& r.unwrap().status == RepairStatus::Success
                    &&& r.unwrap().solutions@ == seq![solution]
                },
                (MinimalPhase::NoRepair, _) => {
                    &&& r is Some
                    &&& r.unwrap().status == RepairStatus::CannotRepair
                    &&& r.unwrap().solutions.len() == 0
                },
                _ => r is None,
            },
            r is Some ==> r.unwrap().stats == (Stats {
                final_past_k: 0,
                final_future_k: 0,
                solver_time: 0,
            }),
    {
        let stats = Stats { final_past_k: 0, final_future_k: 0, solver_time: 0 };
        match (self.search.phase, self.solution) {
            (MinimalPhase::Found { .. }, Some(solution)) => {
                let mut solutions: Vec<RepairAssignment> = Vec::new();
                solutions.push(solution);
                proof {
                    assert(solutions@ =~= seq![solution]);
                }
                Some(RepairResult { status: RepairStatus::Success, stats, solutions })
            },
            (MinimalPhase::NoRepair, _) => Some(
                RepairResult { status: RepairStatus::CannotRepair, stats, solutions: Vec::new() },
            ),
            _ => None,
        }
    }
}

} // verus!
