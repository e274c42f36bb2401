//! What the search procedures ask of their surroundings, and what they are
//! told in return.
//!
//! A search procedure does neither talk to the solver nor block: it hands
//! out one command at a time and is called again with the reply. The
//! commands to the solver session are carried out by whoever owns the
//! session; those to the simulator by the functions of this library.

use crate::repair::AssignmentView;
use crate::repair::RepairAssignment;
use crate::testbench::StepInt;
use vstd::prelude::*;

verus! {

/// The answer of a solver to a satisfiability check.
#[derive(Debug, Clone, Copy, PartialEq, Eq, Structural)]
pub enum Response {
    Sat,
    Unsat,
    Unknown,
}

/// One thing to do for a search procedure.
#[derive(Debug, Clone, Copy, PartialEq, Eq, Structural)]
pub enum Command {
    /// Start a new solver session with a new encoding of the system.
    StartSolver,
    /// Open a scope of the solver.
    Push,
    /// Close the scope that was opened last.
    Pop,
    /// Begin the encoding at cycle `step`, with all states free.
    InitAt { step: StepInt },
    /// Assert that every state without an initial value, but for the repair
    /// variables, is worth at cycle `step` what it is worth in the
    /// simulator.
    PinStartState { step: StepInt },
    /// Extend the encoding by one cycle.
    Unroll,
    /// Assert what the testbench says of the cycles `start` to `end`.
    ConstrainTestbench { start: StepInt, end: StepInt },
    /// Check satisfiability. Replied to with the response.
    Check,
    /// Check satisfiability under the assumption that the change count at
    /// cycle `step` is `count`. Replied to with the response.
    CheckChangeCount { count: u32, step: StepInt },
    /// Withdraw the assumption of the last check under an assumption.
    EndAssuming,
    /// Assert that the change count at cycle `step` is `count`.
    AssertChangeCount { count: u32, step: StepInt },
    /// Read the repair variables at cycle `step` from the model. Replied to
    /// with the assignment.
    ReadAssignment { step: StepInt },
    /// Assert that the change variables at cycle `step` differ from the
    /// candidate in some place.
    BlockCandidate { step: StepInt },
    /// Put the simulator at the beginning of cycle `step`.
    RestoreSim { step: StepInt },
    /// Run the testbench from cycle `start` to its first failure, or to cycle
    /// `end`. Replied to with the result of the run.
    Reproduce { start: StepInt, end: StepInt },
    /// Try the candidate on the whole testbench. Replied to with the result
    /// of the run.
    TestCandidate,
    /// A window of the study begins.
    BeginWindow { past_k: StepInt, future_k: StepInt, window_size: StepInt, offset: StepInt },
    /// The first candidate of the window was found.
    FirstCandidate,
    /// A window of the study ends; with a correct repair after `tries`
    /// candidates, where there is a number.
    EndWindow { tries: Option<u64> },
    /// A round of the study of unrolling lengths begins: the testbench is
    /// looked at up to cycle `end_step`.
    BeginUnrolling { end_step: StepInt },
    /// A round of the study of unrolling lengths ends: with the number of
    /// changes of the minimal repair, where there is one, and the cycle at
    /// which that repair fails the whole testbench, where it does.
    EndUnrolling { min_repair_size: Option<u64>, first_fail_at: Option<StepInt> },
    /// Nothing more: the procedure has ended.
    Finish,
}

/// What a search procedure is told after a command.
pub enum Reply {
    /// Nothing yet: the procedure is to begin.
    Start,
    /// The command was carried out.
    Done,
    /// The response to a check.
    Response(Response),
    /// The assignment that was read from the model.
    Assignment(RepairAssignment),
    /// The first failing cycle of a run of the testbench.
    Run(Option<StepInt>),
}

/// What a reply holds.
pub enum ReplyView {
    Start,
    Done,
    Response(Response),
    Assignment(AssignmentView),
    Run(Option<StepInt>),
}

impl View for Reply {
    type V = ReplyView;

    open spec fn view(&self) -> ReplyView {
        match *self {
            Reply::Start => ReplyView::Start,
            Reply::Done => ReplyView::Done,
            Reply::Response(r) => ReplyView::Response(r),
            Reply::Assignment(a) => ReplyView::Assignment(a@),
            Reply::Run(r) => ReplyView::Run(r),
        }
    }
}

} // verus!
