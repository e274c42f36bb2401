//! The study of unrolling lengths: how the number of cycles that the basic
//! search looks at affects what it finds.
//!
//! This is no synthesizer. For every cycle from the failing cycle to the
//! last one, a minimal repair is searched from the first cycle up to that
//! cycle, starting from the state of the simulator at the first cycle and
//! in a fresh solver session, and tried on the whole testbench.

use crate::incremental::Ending;
use crate::incremental::within_testbench;
use crate::minimal::answers;
use crate::minimal::minimal_candidate;
use crate::minimal::minimal_next;
use crate::minimal::MinimalPhase;
use crate::minimal::MinimalRepair;
use crate::minimal::phase_admits;
use crate::protocol::Command;
use crate::protocol::Reply;
use crate::protocol::ReplyView;
use crate::repair::AssignmentView;
use crate::repair::RepairAssignment;
use crate::result::RepairResult;
use crate::result::RepairStatus;
use crate::result::Stats;
use crate::testbench::StepInt;
use vstd::prelude::*;

verus! {

/// Where the study stands: the command that was handed out last, or how the
/// study ended.
#[derive(Debug, Clone, Copy, PartialEq, Eq, Structural)]
pub enum UnrollingPhase {
    /// Nothing was handed out yet.
    Idle,
    /// `BeginUnrolling`.
    Begin,
    /// `RestoreSim`.
    Restore,
    /// `StartSolver`.
    Solver,
    /// A command of the search for a minimal repair.
    Minimal,
    /// `TestCandidate`, for a repair with `count` changes.
    Test { count: u32 },
    /// `EndUnrolling`.
    End,
    /// `Finish`.
    Ended(Ending),
}

/// The state of the study.
pub struct UnrollingView {
    pub phase: UnrollingPhase,
    /// The last cycle that this round looks at.
    pub end_step: StepInt,
    /// The phase of the search for a minimal repair in this round.
    pub inner: MinimalPhase,
    /// The assignment that was read from the model last.
    pub candidate: Option<AssignmentView>,
    /// The minimal repair of the last round that has ended, if it has one.
    pub last: Option<AssignmentView>,
}

/// The state in which the round up to `end_step` begins, and its first
/// command; the end of the study where the testbench has no such cycle.
pub open spec fn begin_round(v: UnrollingView, end_step: int, rows: StepInt) -> (
    UnrollingView,
    Command,
) {
    if end_step < rows {
        (
            UnrollingView {
                phase: UnrollingPhase::Begin,
                end_step: end_step as StepInt,
                inner: MinimalPhase::Idle,
                candidate: None,
                last: v.last,
            },
            Command::BeginUnrolling { end_step: end_step as StepInt },
        )
    } else {
        (
            UnrollingView {
                phase: UnrollingPhase::Ended(
                    if v.last is Some {
                        Ending::Success
                    } else {
                        Ending::CannotRepair
                    },
                ),
                ..v
            },
            Command::Finish,
        )
    }
}

/// The state after `reply` came in state `v`, and the command to hand out,
/// for a testbench of `rows` cycles that fails first at `first_fail_at`.
pub open spec fn unrolling_next(
    first_fail_at: StepInt,
    rows: StepInt,
    max_changes: u32,
    v: UnrollingView,
    reply: ReplyView,
) -> (UnrollingView, Command) {
    match (v.phase, reply) {
        (UnrollingPhase::Idle, ReplyView::Start) => begin_round(v, first_fail_at as int, rows),
        // the search starts from the state of the first cycle
        (UnrollingPhase::Begin, ReplyView::Done) => (
            UnrollingView { phase: UnrollingPhase::Restore, ..v },
            Command::RestoreSim { step: 0 },
        ),
        // start new smt solver to isolate performance
        (UnrollingPhase::Restore, ReplyView::Done) => (
            UnrollingView { phase: UnrollingPhase::Solver, ..v },
            Command::StartSolver,
        ),
        (UnrollingPhase::Solver, ReplyView::Done) => (
            UnrollingView { phase: UnrollingPhase::Minimal, inner: MinimalPhase::Init, ..v },
            Command::InitAt { step: 0 },
        ),
        (UnrollingPhase::Minimal, _) => {
            let (inner, command) = minimal_next(0, v.end_step, max_changes, v.inner, reply);
            let candidate = minimal_candidate(v.inner, v.candidate, reply);
            let w = UnrollingView { inner, candidate, ..v };
            match inner {
                // try out repair to see if we were actually successful
                MinimalPhase::Found { count } => (
                    UnrollingView { phase: UnrollingPhase::Test { count }, ..w },
                    Command::TestCandidate,
                ),
                MinimalPhase::NoRepair => (
                    UnrollingView { phase: UnrollingPhase::End, last: None, ..w },
                    Command::EndUnrolling { min_repair_size: None, first_fail_at: None },
                ),
                MinimalPhase::OutOfTurn => (
                    UnrollingView { phase: UnrollingPhase::Ended(Ending::OutOfTurn), ..w },
                    Command::Finish,
                ),
                _ => (w, command),
            }
        },
        (UnrollingPhase::Test { count }, ReplyView::Run(r)) => (
            UnrollingView { phase: UnrollingPhase::End, last: v.candidate, ..v },
            Command::EndUnrolling { min_repair_size: Some(count as u64), first_fail_at: r },
        ),
        (UnrollingPhase::End, ReplyView::Done) => begin_round(v, v.end_step + 1, rows),
        (UnrollingPhase::Ended(_), _) => (v, Command::Finish),
        _ => (
            UnrollingView { phase: UnrollingPhase::Ended(Ending::OutOfTurn), ..v },
            Command::Finish,
        ),
    }
}

/// The study of unrolling lengths.
pub struct Unrolling {
    /// The first cycle at which the unchanged system fails.
    pub first_fail_at: StepInt,
    /// Number of cycles of the testbench.
    pub rows: StepInt,
    /// The largest number of changes to try.
    pub max_changes: u32,
    pub phase: UnrollingPhase,
    pub end_step: StepInt,
    pub inner: MinimalPhase,
    pub candidate: Option<RepairAssignment>,
    /// The minimal repair of the last round that has ended, if it has one.
    pub last: Option<RepairAssignment>,
}

impl View for Unrolling {
    type V = UnrollingView;

    open spec fn view(&self) -> UnrollingView {
        UnrollingView {
            phase: self.phase,
            end_step: self.end_step,
            inner: self.inner,
            candidate: match self.candidate {
                Some(c) => Some(c@),
                None => None,
            },
            last: match self.last {
                Some(c) => Some(c@),
                None => None,
            },
        }
    }
}

/// The state in which a study begins.
pub open spec fn initial_unrolling() -> UnrollingView {
    UnrollingView {
        phase: UnrollingPhase::Idle,
        end_step: 0,
        inner: MinimalPhase::Idle,
        candidate: None,
        last: None,
    }
}

/// While a round goes on, it looks at cycles of the testbench only.
pub open spec fn round_wf(rows: StepInt, v: UnrollingView) -> bool {
    v.phase != UnrollingPhase::Idle && !(v.phase is Ended) ==> v.end_step < rows
}

/// The study of unrolling lengths for a testbench of `rows` cycles that
/// fails first at `first_fail_at`.
pub fn unrolling(first_fail_at: StepInt, rows: StepInt, max_changes: u32) -> (r: Unrolling)
    ensures
        r.first_fail_at == first_fail_at,
        r.rows == rows,
        r.max_changes == max_changes,
        r@ == initial_unrolling(),
{
    Unrolling {
        first_fail_at,
        rows,
        max_changes,
        phase: UnrollingPhase::Idle,
        end_step: 0,
        inner: MinimalPhase::Idle,
        candidate: None,
        last: None,
    }
}

impl Unrolling {
    pub open spec fn wf(&self) -> bool {
        round_wf(self.rows, self@)
    }

    /// The assignment that `TestCandidate` speaks of.
    pub fn candidate(&self) -> (r: &Option<RepairAssignment>)
        ensures
            *r == self.candidate,
    {
        &self.candidate
    }

    fn end_with(&mut self, ending: Ending) -> (command: Command)
        ensures
            *final(self) == (Unrolling { phase: UnrollingPhase::Ended(ending), ..*old(self) }),
            command == Command::Finish,
    {
        self.phase = UnrollingPhase::Ended(ending);
        Command::Finish
    }

    /// Begins the round up to `end_step`, or ends the study.
    fn begin(&mut self, end_step: StepInt) -> (command: Command)
        ensures
            (final(self)@, command) == begin_round(old(self)@, end_step as int, old(self).rows),
            final(self).first_fail_at == old(self).first_fail_at,
            final(self).rows == old(self).rows,
            final(self).max_changes == old(self).max_changes,
    {
        if end_step < self.rows {
            self.phase = UnrollingPhase::Begin;
            self.end_step = end_step;
            self.inner = MinimalPhase::Idle;
            self.candidate = None;
            Command::BeginUnrolling { end_step }
        } else {
            let ending = if self.last.is_some() {
                Ending::Success
            } else {
                Ending::CannotRepair
            };
            self.end_with(ending)
        }
    }

    /// The reply is one that the study goes on with: the solver knows
    /// whether the count that the study asked for can be satisfied.
    pub open spec fn takes(&self, reply: ReplyView) -> bool {
        self.phase == UnrollingPhase::Minimal ==> answers(self.inner, reply)
    }

    /// Whether the reply is one that the study goes on with.
    pub fn admits(&self, reply: &Reply) -> (r: bool)
        ensures
            r == self.takes(reply@),
    {
        let minimizing = matches!(self.phase, UnrollingPhase::Minimal);
        !minimizing || phase_admits(self.inner, reply)
    }

    /// Runs the study on from the reply to its last command, and hands out
    /// its next command; `Finish` when the study has ended.
    pub fn run(&mut self, reply: Reply) -> (command: Command)
        requires
            old(self).wf(),
            old(self).takes(reply@),
        ensures
            (final(self)@, command) == unrolling_next(
                old(self).first_fail_at,
                old(self).rows,
                old(self).max_changes,
                old(self)@,
                reply@,
            ),
            final(self).wf(),
            within_testbench(command, old(self).rows),
            final(self).first_fail_at == old(self).first_fail_at,
            final(self).rows == old(self).rows,
            final(self).max_changes == old(self).max_changes,
    {
        match self.phase {
            UnrollingPhase::Idle => match reply {
                Reply::Start => {
                    let first = self.first_fail_at;
                    self.begin(first)
                },
                _ => self.end_with(Ending::OutOfTurn),
            },
            UnrollingPhase::Begin => match reply {
                Reply::Done => {
                    self.phase = UnrollingPhase::Restore;
                    Command::RestoreSim { step: 0 }
                },
                _ => self.end_with(Ending::OutOfTurn),
            },
            UnrollingPhase::Restore => match reply {
                Reply::Done => {
                    self.phase = UnrollingPhase::Solver;
                    Command::StartSolver
                },
                _ => self.end_with(Ending::OutOfTurn),
            },
            UnrollingPhase::Solver => match reply {
                Reply::Done => {
                    self.phase = UnrollingPhase::Minimal;
                    self.inner = MinimalPhase::Init;
                    Command::InitAt { step: 0 }
                },
                _ => self.end_with(Ending::OutOfTurn),
            },
            UnrollingPhase::Minimal => {
                let mut search = MinimalRepair {
                    start: 0,
                    end: self.end_step,
                    max_changes: self.max_changes,
                    phase: self.inner,
                };
                let command = search.run(&reply);
                let was_reading = matches!(self.inner, MinimalPhase::Read { .. });
                self.inner = search.phase;
                if was_reading {
                    match reply {
                        Reply::Assignment(a) => {
                            self.candidate = Some(a);
                        },
                        _ => {},
                    }
                }
                match search.phase {
                    MinimalPhase::Found { count } => {
                        self.phase = UnrollingPhase::Test { count };
                        Command::TestCandidate
                    },
                    MinimalPhase::NoRepair => {
                        self.phase = UnrollingPhase::End;
                        self.last = None;
                        Command::EndUnrolling { min_repair_size: None, first_fail_at: None }
                    },
                    MinimalPhase::OutOfTurn => self.end_with(Ending::OutOfTurn),
                    _ => command,
                }
            },
            UnrollingPhase::Test { count } => match reply {
                Reply::Run(r) => {
                    let copy = match &self.candidate {
                        Some(candidate) => Some(candidate.duplicate()),
                        None => None,
                    };
                    self.last = copy;
                    self.phase = UnrollingPhase::End;
                    Command::EndUnrolling { min_repair_size: Some(count as u64), first_fail_at: r }
                },
                _ => self.end_with(Ending::OutOfTurn),
            },
            UnrollingPhase::End => match reply {
                Reply::Done => {
                    let following = self.end_step + 1;
                    self.begin(following)
                },
                _ => self.end_with(Ending::OutOfTurn),
            },
            UnrollingPhase::Ended(_) => Command::Finish,
        }
    }

    /// The report of a study that has ended: the minimal repair of the last
    /// round, which looks at the whole testbench, or no repair. Nothing for a
    /// study that has not ended, or that ended in another way.
    pub fn finish(self) -> (r: Option<RepairResult>)
        ensures
            match (self.phase, self.last) {
                (UnrollingPhase::Ended(Ending::Success), Some(solution)) => {
                    &&& r is Some
                    &&& r.unwrap().status == RepairStatus::Success
                    &&& r.unwrap().solutions@ == seq![solution]
                },
                (UnrollingPhase::Ended(Ending::CannotRepair), None) => {
                    &&& r is Some
                    &&& r.unwrap().status == RepairStatus::CannotRepair
                    &&& r.unwrap().solutions.len() == 0
                },
                _ => r is None,
            },
            r is Some ==> r.unwrap().stats == (Stats {
                final_past_k: 0,
                final_future_k: 0,
                solver_time: 0,
            }),
    {
        let stats = Stats { final_past_k: 0, final_future_k: 0, solver_time: 0 };
        match (self.phase, self.last) {
            (UnrollingPhase::Ended(Ending::Success), Some(solution)) => {
                let mut solutions: Vec<RepairAssignment> = Vec::new();
                solutions.push(solution);
                proof {
                    assert(solutions@ =~= seq![solution]);
                }
                Some(RepairResult { status: RepairStatus::Success, stats, solutions })
            },
            (UnrollingPhase::Ended(Ending::CannotRepair), None) => Some(
                RepairResult { status: RepairStatus::CannotRepair, stats, solutions: Vec::new() },
            ),
            _ => None,
        }
    }
}

} // verus!
