//! What a repair run ends with.

use crate::repair::RepairAssignment;
use crate::testbench::StepInt;
use vstd::prelude::*;

verus! {

/// The verdict of a repair run.
#[derive(Debug, Clone, Copy, PartialEq, Eq, Structural)]
pub enum RepairStatus {
    /// The system fails the testbench and no repair was found.
    CannotRepair,
    /// The system does not fail the testbench.
    NoRepair,
    /// A repair was found.
    Success,
}

/// The window in which a search ended, and the time that the solver took.
#[derive(Debug, Copy, Clone, Eq, PartialEq, Structural)]
pub struct Stats {
    pub final_past_k: StepInt,
    pub final_future_k: StepInt,
    pub solver_time: u64,
}

impl Default for Stats {
    fn default() -> (r: Self)
        ensures
            r.final_past_k == 0,
            r.final_future_k == 0,
            r.solver_time == 0,
    {
        Stats { final_past_k: 0, final_future_k: 0, solver_time: 0 }
    }
}

/// The verdict with the repairs that were found.
pub struct RepairResult {
    pub status: RepairStatus,
    pub stats: Stats,
    pub solutions: Vec<RepairAssignment>,
}

/// The word for a verdict in the report of a run.
pub fn status_name(status: RepairStatus) -> (r: &'static str)
    ensures
        r@ == match status {
            RepairStatus::CannotRepair => "cannot-repair"@,
            RepairStatus::NoRepair => "no-repair"@,
            RepairStatus::Success => "success"@,
        },
{
    match status {
        RepairStatus::CannotRepair => "cannot-repair",
        RepairStatus::NoRepair => "no-repair",
        RepairStatus::Success => "success",
    }
}

/// The report of a run that found no failure.
pub fn no_repair() -> (r: RepairResult)
    ensures
        r.status == RepairStatus::NoRepair,
        r.stats == (Stats { final_past_k: 0, final_future_k: 0, solver_time: 0 }),
        r.solutions.len() == 0,
{
    RepairResult { status: RepairStatus::NoRepair, stats: Stats::default(), solutions: Vec::new() }
}

/// The report of a run that found a failure and cannot repair it.
pub fn cannot_repair() -> (r: RepairResult)
    ensures
        r.status == RepairStatus::CannotRepair,
        r.stats == (Stats { final_past_k: 0, final_future_k: 0, solver_time: 0 }),
        r.solutions.len() == 0,
{
    RepairResult {
        status: RepairStatus::CannotRepair,
        stats: Stats::default(),
        solutions: Vec::new(),
    }
}

} // verus!
