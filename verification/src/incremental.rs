//! The incremental search for a repair.
//!
//! The search looks at a window of cycles around the first failing cycle,
//! which at first holds that cycle alone. In each window it asks for a
//! minimal repair, fixes the number of changes, and goes through the
//! repairs with that number of changes: each candidate is tried on the whole
//! testbench, then blocked. A window without a correct repair is widened,
//! towards the future where a candidate failed later than the window
//! reaches, else towards the past.

use crate::minimal::answers;
use crate::minimal::minimal_candidate;
use crate::minimal::minimal_next;
use crate::minimal::MinimalPhase;
use crate::minimal::MinimalRepair;
use crate::minimal::phase_admits;
use crate::protocol::Command;
use crate::protocol::Reply;
use crate::protocol::ReplyView;
use crate::protocol::Response;
use crate::repair::AssignmentView;
use crate::repair::RepairAssignment;
use crate::result::RepairResult;
use crate::result::RepairStatus;
use crate::result::Stats;
use crate::testbench::StepInt;
use crate::window::RepairWindow;
use crate::window::update_makes_progress;
use crate::window::updated;
use vstd::prelude::*;

verus! {

#[derive(Debug, Clone, Copy)]
pub struct IncrementalConf {
    /// Information about the first cycle in which the bug manifests.
    pub fail_at: StepInt,
    /// Number by which the window is expanded into the past.
    pub pask_k_step_size: StepInt,
    /// The maximum size of the repair window.
    pub max_repair_window_size: StepInt,
    /// The maximum number of correct solutions that should be generated.
    pub max_solutions: usize,
    /// The maximum number of incorrect solution to try before enlarging the repair window.
    pub max_incorrect_solutions_per_window_size: Option<usize>,
}

/// How a search ended.
#[derive(Debug, Clone, Copy, PartialEq, Eq, Structural)]
pub enum Ending {
    /// With at least one correct repair.
    Success,
    /// Without a repair: the window cannot be widened any more.
    CannotRepair,
    /// A reply came that the search did not wait for.
    OutOfTurn,
}

/// Where an incremental search stands: the command that was handed out
/// last, or how the search ended.
#[derive(Debug, Clone, Copy, PartialEq, Eq, Structural)]
pub enum IncrementalPhase {
    /// Nothing was handed out yet.
    Idle,
    /// `RestoreSim`, before the failure is reproduced.
    Restore,
    /// `Reproduce`.
    Reproduce,
    /// `Push`.
    Push,
    /// `RestoreSim`, before the system is encoded.
    RestoreAgain,
    /// A command of the search for a minimal repair.
    Minimal,
    /// `AssertChangeCount`.
    Constrain,
    /// `TestCandidate`.
    Test,
    /// `BlockCandidate`.
    Block,
    /// `Check`, for a further candidate.
    Check,
    /// `ReadAssignment`, for a further candidate.
    Read,
    /// `Pop`.
    Pop,
    /// `Finish`.
    Ended(Ending),
}

/// The state of an incremental search.
pub struct IncrementalView {
    pub phase: IncrementalPhase,
    pub window: RepairWindow,
    /// The phase of the search for a minimal repair in this window.
    pub inner: MinimalPhase,
    /// The assignment that was read from the model last.
    pub candidate: Option<AssignmentView>,
    /// Where the candidates of this window failed.
    pub failures: Seq<StepInt>,
    /// The candidates that passed the whole testbench.
    pub solutions: Seq<AssignmentView>,
}

/// What a list of repair assignments holds.
pub open spec fn assignment_views(list: Seq<RepairAssignment>) -> Seq<AssignmentView> {
    Seq::new(list.len(), |i: int| list[i]@)
}

/// The state `v` in another phase.
pub open spec fn in_phase(v: IncrementalView, phase: IncrementalPhase) -> IncrementalView {
    IncrementalView { phase, ..v }
}

/// The state after `reply` came in state `v`, and the command to hand out,
/// for a search under `conf` on a testbench of `rows` cycles that tries at
/// most `max_changes` changes.
pub open spec fn incremental_next(
    conf: IncrementalConf,
    rows: StepInt,
    max_changes: u32,
    v: IncrementalView,
    reply: ReplyView,
) -> (IncrementalView, Command) {
    let start = v.window.start(conf.fail_at);
    let end = v.window.end(conf.fail_at) as StepInt;
    match (v.phase, reply) {
        (IncrementalPhase::Idle, ReplyView::Start) => (
            in_phase(v, IncrementalPhase::Restore),
            Command::RestoreSim { step: start },
        ),
        // check to see if we can reproduce the error with the simulator
        (IncrementalPhase::Restore, ReplyView::Done) => (
            in_phase(v, IncrementalPhase::Reproduce),
            Command::Reproduce { start, end },
        ),
        (IncrementalPhase::Reproduce, ReplyView::Run(r)) => if r == Some(conf.fail_at) {
            // start new SMT context to make it easy to later revert everything
            (in_phase(v, IncrementalPhase::Push), Command::Push)
        } else {
            (in_phase(v, IncrementalPhase::Ended(Ending::OutOfTurn)), Command::Finish)
        },
        // restore correct starting state for SMT encoding
        (IncrementalPhase::Push, ReplyView::Done) => (
            in_phase(v, IncrementalPhase::RestoreAgain),
            Command::RestoreSim { step: start },
        ),
        // generate one minimal repair
        (IncrementalPhase::RestoreAgain, ReplyView::Done) => (
            IncrementalView { phase: IncrementalPhase::Minimal, inner: MinimalPhase::Init, ..v },
            Command::InitAt { step: start },
        ),
        (IncrementalPhase::Minimal, _) => {
            let (inner, command) = minimal_next(start, end, max_changes, v.inner, reply);
            let candidate = minimal_candidate(v.inner, v.candidate, reply);
            let w = IncrementalView { inner, candidate, ..v };
            match inner {
                // add a "permanent" change count constraint
                MinimalPhase::Found { count } => (
                    in_phase(w, IncrementalPhase::Constrain),
                    Command::AssertChangeCount { count, step: start },
                ),
                MinimalPhase::NoRepair => (in_phase(w, IncrementalPhase::Pop), Command::Pop),
                MinimalPhase::OutOfTurn => (
                    in_phase(w, IncrementalPhase::Ended(Ending::OutOfTurn)),
                    Command::Finish,
                ),
                _ => (w, command),
            }
        },
        // iterate over possible solutions
        (IncrementalPhase::Constrain, ReplyView::Done) => (
            in_phase(v, IncrementalPhase::Test),
            Command::TestCandidate,
        ),
        (IncrementalPhase::Test, ReplyView::Run(None)) => match v.candidate {
            Some(candidate) => {
                // success, we found a solution
                let w = IncrementalView { solutions: v.solutions.push(candidate), ..v };
                // early exit when we reached the max number of solutions
                if w.solutions.len() >= conf.max_solutions {
                    (in_phase(w, IncrementalPhase::Pop), Command::Pop)
                } else {
                    (in_phase(w, IncrementalPhase::Block), Command::BlockCandidate { step: start })
                }
            },
            None => (in_phase(v, IncrementalPhase::Ended(Ending::OutOfTurn)), Command::Finish),
        },
        (IncrementalPhase::Test, ReplyView::Run(Some(fail))) => if fail >= rows {
            (in_phase(v, IncrementalPhase::Ended(Ending::OutOfTurn)), Command::Finish)
        } else {
            let w = IncrementalView { failures: v.failures.push(fail), ..v };
            if conf.max_incorrect_solutions_per_window_size is Some && w.failures.len()
                >= conf.max_incorrect_solutions_per_window_size.unwrap() {
                (in_phase(w, IncrementalPhase::Pop), Command::Pop)
            } else {
                (in_phase(w, IncrementalPhase::Block), Command::BlockCandidate { step: start })
            }
        },
        // try to find a different solution
        (IncrementalPhase::Block, ReplyView::Done) => (
            in_phase(v, IncrementalPhase::Check),
            Command::Check,
        ),
        (IncrementalPhase::Check, ReplyView::Response(Response::Sat)) => (
            in_phase(v, IncrementalPhase::Read),
            Command::ReadAssignment { step: start },
        ),
        (IncrementalPhase::Check, ReplyView::Response(_)) => (
            in_phase(v, IncrementalPhase::Pop),
            Command::Pop,
        ),
        (IncrementalPhase::Read, ReplyView::Assignment(a)) => (
            IncrementalView { phase: IncrementalPhase::Test, candidate: Some(a), ..v },
            Command::TestCandidate,
        ),
        (IncrementalPhase::Pop, ReplyView::Done) => if v.solutions.len() > 0 {
            (in_phase(v, IncrementalPhase::Ended(Ending::Success)), Command::Finish)
        } else {
            // we did not find a repair and we continue on
            let window = updated(v.window, v.failures, conf.fail_at, conf.pask_k_step_size);
            if window == v.window || window.past_k + window.future_k
                > conf.max_repair_window_size {
                (
                    IncrementalView {
                        phase: IncrementalPhase::Ended(Ending::CannotRepair),
                        window,
                        ..v
                    },
                    Command::Finish,
                )
            } else {
                (
                    IncrementalView {
                        phase: IncrementalPhase::Restore,
                        window,
                        inner: MinimalPhase::Idle,
                        candidate: None,
                        failures: Seq::empty(),
                        solutions: v.solutions,
                    },
                    Command::RestoreSim { step: window.start(conf.fail_at) },
                )
            }
        },
        (IncrementalPhase::Ended(_), _) => (v, Command::Finish),
        _ => (in_phase(v, IncrementalPhase::Ended(Ending::OutOfTurn)), Command::Finish),
    }
}

/// The reply is one that a search goes on with where it waits for the run
/// that is to reproduce the failure: a run that fails at `fail_at`. A search
/// cannot go on from a failure that is not where it is known to be.
pub open spec fn reproduces(reproducing: bool, fail_at: StepInt, reply: ReplyView) -> bool {
    reproducing && reply is Run ==> reply == ReplyView::Run(Some(fail_at))
}

/// Whether the reply is one that a search goes on with where it waits for
/// the run that is to reproduce the failure.
pub fn admits_run(reproducing: bool, fail_at: StepInt, reply: &Reply) -> (r: bool)
    ensures
        r == reproduces(reproducing, fail_at, reply@),
{
    if !reproducing {
        return true;
    }
    match reply {
        Reply::Run(Some(f)) => *f == fail_at,
        Reply::Run(None) => false,
        _ => true,
    }
}

/// An incremental search.
pub struct IncrementalRepair {
    pub conf: IncrementalConf,
    /// Number of cycles of the testbench.
    pub rows: StepInt,
    /// The largest number of changes to try.
    pub max_changes: u32,
    pub window: RepairWindow,
    pub phase: IncrementalPhase,
    pub inner: MinimalPhase,
    pub candidate: Option<RepairAssignment>,
    pub failures_at: Vec<StepInt>,
    pub solutions: Vec<RepairAssignment>,
}

impl View for IncrementalRepair {
    type V = IncrementalView;

    open spec fn view(&self) -> IncrementalView {
        IncrementalView {
            phase: self.phase,
            window: self.window,
            inner: self.inner,
            candidate: match self.candidate {
                Some(c) => Some(c@),
                None => None,
            },
            failures: self.failures_at@,
            solutions: assignment_views(self.solutions@),
        }
    }
}

/// The last command speaks of the candidate, or is followed by one that
/// does without a new candidate being read.
pub open spec fn needs_candidate(v: IncrementalView) -> bool {
    ||| v.phase == IncrementalPhase::Constrain
    ||| v.phase == IncrementalPhase::Test
    ||| v.phase == IncrementalPhase::Block
    ||| (v.phase == IncrementalPhase::Minimal && v.inner is Release)
}

/// The window of state `v` lies within the testbench, and so does every
/// failure of a candidate; a window that is searched is no larger than the
/// largest window; there is a candidate where one is needed; and while the
/// search for a minimal repair goes on, it has not ended.
pub open spec fn view_wf(conf: IncrementalConf, rows: StepInt, v: IncrementalView) -> bool {
    &&& conf.fail_at < rows
    &&& v.window.wf(conf.fail_at)
    &&& v.window.end(conf.fail_at) < rows
    &&& forall|i: int| 0 <= i < v.failures.len() ==> v.failures[i] < rows
    &&& !(v.phase is Ended) ==> v.window.past_k + v.window.future_k
        <= conf.max_repair_window_size
    &&& needs_candidate(v) ==> v.candidate is Some
    &&& v.phase == IncrementalPhase::Minimal ==> !v.inner.ended()
}

/// Whatever the reply, the window stays within the testbench.
pub proof fn next_keeps_window_in_testbench(
    conf: IncrementalConf,
    rows: StepInt,
    max_changes: u32,
    v: IncrementalView,
    reply: ReplyView,
)
    requires
        view_wf(conf, rows, v),
    ensures
        view_wf(conf, rows, incremental_next(conf, rows, max_changes, v, reply).0),
{
    update_makes_progress(v.window, v.failures, conf.fail_at, conf.pask_k_step_size, rows as nat);
}

impl IncrementalRepair {
    pub open spec fn wf(&self) -> bool {
        view_wf(self.conf, self.rows, self@)
    }

    /// A search around the failing cycle `conf.fail_at` of a testbench of
    /// `rows` cycles. Nothing where the testbench has no such cycle.
    pub fn new(conf: IncrementalConf, rows: StepInt, max_changes: u32) -> (r: Option<Self>)
        ensures
            r is Some <==> conf.fail_at < rows,
            r is Some ==> {
                let m = r.unwrap();
                &&& m.wf()
                &&& m.conf == conf
                &&& m.rows == rows
                &&& m.max_changes == max_changes
                &&& m@ == IncrementalView {
                    phase: IncrementalPhase::Idle,
                    window: RepairWindow { future_k: 0, past_k: 0 },
                    inner: MinimalPhase::Idle,
                    candidate: None,
                    failures: Seq::empty(),
                    solutions: Seq::empty(),
                }
            },
    {
        if conf.fail_at >= rows {
            return None;
        }
        let m = Self {
            conf,
            rows,
            max_changes,
            window: RepairWindow::new(),
            phase: IncrementalPhase::Idle,
            inner: MinimalPhase::Idle,
            candidate: None,
            failures_at: Vec::new(),
            solutions: Vec::new(),
        };
        proof {
            assert(m@.failures =~= Seq::<StepInt>::empty());
            assert(m@.solutions =~= Seq::<AssignmentView>::empty());
        }
        Some(m)
    }

    /// The assignment that `TestCandidate` and `BlockCandidate` speak of.
    pub fn candidate(&self) -> (r: &Option<RepairAssignment>)
        ensures
            *r == self.candidate,
    {
        &self.candidate
    }

    fn end_with(&mut self, ending: Ending) -> (command: Command)
        ensures
            *final(self) == (IncrementalRepair {
                phase: IncrementalPhase::Ended(ending),
                ..*old(self)
            }),
            command == Command::Finish,
    {
        self.phase = IncrementalPhase::Ended(ending);
        Command::Finish
    }

    /// The reply is one that the search goes on with: the run that is to
    /// reproduce the failure fails at the failing cycle, and the solver
    /// knows whether the count that the search asked for can be satisfied.
    pub open spec fn takes(&self, reply: ReplyView) -> bool {
        reproduces(self.phase == IncrementalPhase::Reproduce, self.conf.fail_at, reply) && (
        self.phase == IncrementalPhase::Minimal ==> answers(self.inner, reply))
    }

    /// Whether the reply is one that the search goes on with.
    pub fn admits(&self, reply: &Reply) -> (r: bool)
        ensures
            r == self.takes(reply@),
    {
        let reproducing = matches!(self.phase, IncrementalPhase::Reproduce);
        let minimizing = matches!(self.phase, IncrementalPhase::Minimal);
        admits_run(reproducing, self.conf.fail_at, reply) && (!minimizing || phase_admits(
            self.inner,
            reply,
        ))
    }

    /// Runs the search on from the reply to its last command, and hands out
    /// its next command; `Finish` when the search has ended.
    pub fn run(&mut self, reply: Reply) -> (command: Command)
        requires
            old(self).wf(),
            old(self).takes(reply@),
        ensures
            (final(self)@, command) == incremental_next(
                old(self).conf,
                old(self).rows,
                old(self).max_changes,
                old(self)@,
                reply@,
            ),
            final(self).wf(),
            final(self).conf == old(self).conf,
            final(self).rows == old(self).rows,
            final(self).max_changes == old(self).max_changes,
    {
        proof {
            next_keeps_window_in_testbench(
                self.conf,
                self.rows,
                self.max_changes,
                self@,
                reply@,
            );
        }
        let fail_at = self.conf.fail_at;
        let (start, end) = self.window.get_step_range(fail_at);
        match self.phase {
            IncrementalPhase::Idle => match reply {
                Reply::Start => {
                    self.phase = IncrementalPhase::Restore;
                    Command::RestoreSim { step: start }
                },
                _ => self.end_with(Ending::OutOfTurn),
            },
            IncrementalPhase::Restore => match reply {
                Reply::Done => {
                    self.phase = IncrementalPhase::Reproduce;
                    Command::Reproduce { start, end }
                },
                _ => self.end_with(Ending::OutOfTurn),
            },
            IncrementalPhase::Reproduce => match reply {
                Reply::Run(r) => {
                    let reproduced = match r {
                        Some(f) => f == fail_at,
                        None => false,
                    };
                    if reproduced {
                        self.phase = IncrementalPhase::Push;
                        Command::Push
                    } else {
                        self.end_with(Ending::OutOfTurn)
                    }
                },
                _ => self.end_with(Ending::OutOfTurn),
            },
            IncrementalPhase::Push => match reply {
                Reply::Done => {
                    self.phase = IncrementalPhase::RestoreAgain;
                    Command::RestoreSim { step: start }
                },
                _ => self.end_with(Ending::OutOfTurn),
            },
            IncrementalPhase::RestoreAgain => match reply {
                Reply::Done => {
                    self.phase = IncrementalPhase::Minimal;
                    self.inner = MinimalPhase::Init;
                    Command::InitAt { step: start }
                },
                _ => self.end_with(Ending::OutOfTurn),
            },
            IncrementalPhase::Minimal => {
                let mut search = MinimalRepair {
                    start,
                    end,
                    max_changes: self.max_changes,
                    phase: self.inner,
                };
                let command = search.run(&reply);
                let was_reading = matches!(self.inner, MinimalPhase::Read { .. });
                self.inner = search.phase;
                if was_reading {
                    match reply {
                        Reply::Assignment(a) => {
                            self.candidate = Some(a);
                        },
                        _ => {},
                    }
                }
                match search.phase {
                    MinimalPhase::Found { count } => {
                        self.phase = IncrementalPhase::Constrain;
                        Command::AssertChangeCount { count, step: start }
                    },
                    MinimalPhase::NoRepair => {
                        self.phase = IncrementalPhase::Pop;
                        Command::Pop
                    },
                    MinimalPhase::OutOfTurn => self.end_with(Ending::OutOfTurn),
                    _ => command,
                }
            },
            IncrementalPhase::Constrain => match reply {
                Reply::Done => {
                    self.phase = IncrementalPhase::Test;
                    Command::TestCandidate
                },
                _ => self.end_with(Ending::OutOfTurn),
            },
            IncrementalPhase::Test => match reply {
                Reply::Run(None) => {
                    let copy = match &self.candidate {
                        Some(candidate) => Some(candidate.duplicate()),
                        None => None,
                    };
                    match copy {
                        Some(solution) => {
                            let ghost before = assignment_views(self.solutions@);
                            self.solutions.push(solution);
                            proof {
                                assert(assignment_views(self.solutions@) =~= before.push(
                                    solution@,
                                ));
                            }
                            if self.solutions.len() >= self.conf.max_solutions {
                                self.phase = IncrementalPhase::Pop;
                                Command::Pop
                            } else {
                                self.phase = IncrementalPhase::Block;
                                Command::BlockCandidate { step: start }
                            }
                        },
                        None => self.end_with(Ending::OutOfTurn),
                    }
                },
                Reply::Run(Some(fail)) => {
                    if fail >= self.rows {
                        self.end_with(Ending::OutOfTurn)
                    } else {
                        self.failures_at.push(fail);
                        let enough = match self.conf.max_incorrect_solutions_per_window_size {
                            Some(max_sol) => self.failures_at.len() >= max_sol,
                            None => false,
                        };
                        if enough {
                            self.phase = IncrementalPhase::Pop;
                            Command::Pop
                        } else {
                            self.phase = IncrementalPhase::Block;
                            Command::BlockCandidate { step: start }
                        }
                    }
                },
                _ => self.end_with(Ending::OutOfTurn),
            },
            IncrementalPhase::Block => match reply {
                Reply::Done => {
                    self.phase = IncrementalPhase::Check;
                    Command::Check
                },
                _ => self.end_with(Ending::OutOfTurn),
            },
            IncrementalPhase::Check => match reply {
                Reply::Response(Response::Sat) => {
                    self.phase = IncrementalPhase::Read;
                    Command::ReadAssignment { step: start }
                },
                Reply::Response(_) => {
                    self.phase = IncrementalPhase::Pop;
                    Command::Pop
                },
                _ => self.end_with(Ending::OutOfTurn),
            },
            IncrementalPhase::Read => match reply {
                Reply::Assignment(a) => {
                    self.candidate = Some(a);
                    self.phase = IncrementalPhase::Test;
                    Command::TestCandidate
                },
                _ => self.end_with(Ending::OutOfTurn),
            },
            IncrementalPhase::Pop => match reply {
                Reply::Done => {
                    if self.solutions.len() > 0 {
                        self.end_with(Ending::Success)
                    } else {
                        let progress = self.window.update(
                            self.failures_at.as_slice(),
                            fail_at,
                            self.conf.pask_k_step_size,
                            self.conf.max_repair_window_size,
                        );
                        if !progress || self.window.len() > self.conf.max_repair_window_size {
                            // we were not able to properly update the window,
                            // or exceeded the maximum window size => no repair
                            self.end_with(Ending::CannotRepair)
                        } else {
                            self.phase = IncrementalPhase::Restore;
                            self.inner = MinimalPhase::Idle;
                            self.candidate = None;
                            self.failures_at = Vec::new();
                            let (next_start, _next_end) = self.window.get_step_range(fail_at);
                            Command::RestoreSim { step: next_start }
                        }
                    }
                },
                _ => self.end_with(Ending::OutOfTurn),
            },
            IncrementalPhase::Ended(_) => Command::Finish,
        }
    }

    /// The report of a search that has ended with or without a repair: the
    /// correct repairs, and the window in which the search ended. Nothing for
    /// a search that has not ended, or not in one of these two ways.
    pub fn finish(self) -> (r: Option<RepairResult>)
        ensures
            match self.phase {
                IncrementalPhase::Ended(Ending::Success) => r is Some && r.unwrap().status
                    == RepairStatus::Success,
                IncrementalPhase::Ended(Ending::CannotRepair) => r is Some && r.unwrap().status
                    == RepairStatus::CannotRepair,
                _ => r is None,
            },
            r is Some ==> {
                &&& r.unwrap().solutions == self.solutions
                &&& r.unwrap().stats == (Stats {
                    final_past_k: self.window.past_k,
                    final_future_k: self.window.future_k,
                    solver_time: 0,
                })
            },
    {
        let status = match self.phase {
            IncrementalPhase::Ended(Ending::Success) => RepairStatus::Success,
            IncrementalPhase::Ended(Ending::CannotRepair) => RepairStatus::CannotRepair,
            _ => {
                return None;
            },
        };
        Some(
            RepairResult {
                status,
                stats: Stats {
                    final_past_k: self.window.past_k,
                    final_future_k: self.window.future_k,
                    solver_time: 0,
                },
                solutions: self.solutions,
            },
        )
    }
}

/// The state in which a search begins.
pub open spec fn initial_view() -> IncrementalView {
    IncrementalView {
        phase: IncrementalPhase::Idle,
        window: RepairWindow { future_k: 0, past_k: 0 },
        inner: MinimalPhase::Idle,
        candidate: None,
        failures: Seq::empty(),
        solutions: Seq::empty(),
    }
}

/// The state of a search that began and was given `replies`, one after the
/// other.
pub open spec fn view_after(
    conf: IncrementalConf,
    rows: StepInt,
    max_changes: u32,
    replies: Seq<ReplyView>,
) -> IncrementalView
    decreases replies.len(),
{
    if replies.len() == 0 {
        initial_view()
    } else {
        incremental_next(
            conf,
            rows,
            max_changes,
            view_after(conf, rows, max_changes, replies.drop_last()),
            replies.last(),
        ).0
    }
}

/// In state `v` the search waits for the result of trying `candidate`.
pub open spec fn tested(v: IncrementalView, candidate: AssignmentView) -> bool {
    v.phase == IncrementalPhase::Test && v.candidate == Some(candidate)
}

/// Among `replies` is the news that `candidate` passed the whole testbench:
/// the reply to a `TestCandidate` for it is a run without a failure.
pub open spec fn passed(
    conf: IncrementalConf,
    rows: StepInt,
    max_changes: u32,
    replies: Seq<ReplyView>,
    candidate: AssignmentView,
) -> bool {
    exists|i: int|
        0 <= i < replies.len() && tested(
            #[trigger] view_after(conf, rows, max_changes, replies.take(i)),
            candidate,
        ) && replies[i] == ReplyView::Run(None)
}

/// A reply adds a solution only where it says that the candidate passed the
/// whole testbench, and then it adds the candidate.
pub proof fn solutions_grow_by_passing_candidates(
    conf: IncrementalConf,
    rows: StepInt,
    max_changes: u32,
    v: IncrementalView,
    reply: ReplyView,
)
    ensures
        ({
            let w = incremental_next(conf, rows, max_changes, v, reply).0;
            w.solutions == v.solutions || (v.phase == IncrementalPhase::Test && reply
                == ReplyView::Run(None) && v.candidate is Some && w.solutions == v.solutions.push(
                v.candidate.unwrap(),
            ))
        }),
{
}

/// Every repair that a search holds as a solution has passed the whole
/// testbench: it was the candidate of a `TestCandidate` that was answered
/// with a run without a failure.
pub proof fn solutions_passed_the_testbench(
    conf: IncrementalConf,
    rows: StepInt,
    max_changes: u32,
    replies: Seq<ReplyView>,
    k: int,
)
    requires
        0 <= k < view_after(conf, rows, max_changes, replies).solutions.len(),
    ensures
        passed(
            conf,
            rows,
            max_changes,
            replies,
            view_after(conf, rows, max_changes, replies).solutions[k],
        ),
    decreases replies.len(),
{
    let front = replies.drop_last();
    let v = view_after(conf, rows, max_changes, front);
    let w = view_after(conf, rows, max_changes, replies);
    solutions_grow_by_passing_candidates(conf, rows, max_changes, v, replies.last());
    if k < v.solutions.len() {
        solutions_passed_the_testbench(conf, rows, max_changes, front, k);
        let i = choose|i: int|
            0 <= i < front.len() && tested(
                #[trigger] view_after(conf, rows, max_changes, front.take(i)),
                v.solutions[k],
            ) && front[i] == ReplyView::Run(None);
        assert(replies.take(i) =~= front.take(i));
        assert(tested(view_after(conf, rows, max_changes, replies.take(i)), w.solutions[k]));
    } else {
        let i = replies.len() - 1;
        assert(replies.take(i) =~= front);
        assert(tested(view_after(conf, rows, max_changes, replies.take(i)), w.solutions[k]));
    }
}

/// A search that ends with success holds a solution.
pub proof fn success_has_a_solution(
    conf: IncrementalConf,
    rows: StepInt,
    max_changes: u32,
    v: IncrementalView,
    reply: ReplyView,
)
    requires
        v.phase != IncrementalPhase::Ended(Ending::Success),
        incremental_next(conf, rows, max_changes, v, reply).0.phase == IncrementalPhase::Ended(
            Ending::Success,
        ),
    ensures
        incremental_next(conf, rows, max_changes, v, reply).0.solutions.len() > 0,
{
}

/// A candidate is tried only after the change count was fixed, for the first
/// candidate of a window, or after the candidate before it was blocked and
/// the solver found another; and what is blocked is the candidate that was
/// tried last.
pub proof fn candidates_are_blocked_in_turn(
    conf: IncrementalConf,
    rows: StepInt,
    max_changes: u32,
    v: IncrementalView,
    reply: ReplyView,
)
    ensures
        ({
            let (w, command) = incremental_next(conf, rows, max_changes, v, reply);
            &&& command == Command::TestCandidate ==> (v.phase == IncrementalPhase::Constrain
                || v.phase == IncrementalPhase::Read)
            &&& w.phase == IncrementalPhase::Read ==> v.phase == IncrementalPhase::Check
            &&& w.phase == IncrementalPhase::Check ==> v.phase == IncrementalPhase::Block
            &&& w.phase == IncrementalPhase::Block ==> v.phase == IncrementalPhase::Test
                && w.candidate == v.candidate && command == Command::BlockCandidate {
                step: v.window.start(conf.fail_at),
            }
        }),
{
}

/// The cycles that a command names are cycles of a testbench of `rows`
/// cycles, each range the right way round.
pub open spec fn within_testbench(command: Command, rows: StepInt) -> bool {
    match command {
        Command::InitAt { step } => step < rows,
        Command::PinStartState { step } => step < rows,
        Command::ConstrainTestbench { start, end } => start <= end < rows,
        Command::CheckChangeCount { count, step } => step < rows,
        Command::AssertChangeCount { count, step } => step < rows,
        Command::ReadAssignment { step } => step < rows,
        Command::BlockCandidate { step } => step < rows,
        Command::RestoreSim { step } => step < rows,
        Command::Reproduce { start, end } => start <= end < rows,
        _ => true,
    }
}

/// Every command of a search can be carried out: it names only cycles of
/// the testbench, and it speaks of the candidate only when there is one.
pub proof fn commands_can_be_carried_out(
    conf: IncrementalConf,
    rows: StepInt,
    max_changes: u32,
    v: IncrementalView,
    reply: ReplyView,
)
    requires
        view_wf(conf, rows, v),
    ensures
        ({
            let (w, command) = incremental_next(conf, rows, max_changes, v, reply);
            &&& within_testbench(command, rows)
            &&& (command == Command::TestCandidate || command is BlockCandidate)
                ==> w.candidate is Some
        }),
{
    next_keeps_window_in_testbench(conf, rows, max_changes, v, reply);
}

/// Number of scopes of the solver that are open once the last command of
/// the phase is carried out.
pub open spec fn open_scopes(phase: IncrementalPhase) -> int {
    match phase {
        IncrementalPhase::Push | IncrementalPhase::RestoreAgain | IncrementalPhase::Minimal
        | IncrementalPhase::Constrain | IncrementalPhase::Test | IncrementalPhase::Block
        | IncrementalPhase::Check | IncrementalPhase::Read => 1,
        _ => 0,
    }
}

/// The search ended because a reply came out of turn.
pub open spec fn broke_off(phase: IncrementalPhase) -> bool {
    phase == IncrementalPhase::Ended(Ending::OutOfTurn)
}

/// A search opens a scope only when none is open and closes one only when
/// one is open, and no scope is open when the search ends with or without a
/// repair: each `Push` has its `Pop`.
pub proof fn scopes_are_paired(
    conf: IncrementalConf,
    rows: StepInt,
    max_changes: u32,
    v: IncrementalView,
    reply: ReplyView,
)
    requires
        !broke_off(v.phase),
    ensures
        ({
            let (w, command) = incremental_next(conf, rows, max_changes, v, reply);
            !broke_off(w.phase) ==> open_scopes(w.phase) == open_scopes(v.phase) + (if command
                == Command::Push {
                1int
            } else {
                0int
            }) - (if command == Command::Pop {
                1int
            } else {
                0int
            })
        }),
{
}

/// The first window of a search is the failing cycle alone, and no window
/// that is searched is larger than the largest window.
pub proof fn searched_windows_are_bounded(
    conf: IncrementalConf,
    rows: StepInt,
    max_changes: u32,
    replies: Seq<ReplyView>,
)
    requires
        conf.fail_at < rows,
    ensures
        view_wf(conf, rows, view_after(conf, rows, max_changes, replies)),
    decreases replies.len(),
{
    if replies.len() > 0 {
        searched_windows_are_bounded(conf, rows, max_changes, replies.drop_last());
        next_keeps_window_in_testbench(
            conf,
            rows,
            max_changes,
            view_after(conf, rows, max_changes, replies.drop_last()),
            replies.last(),
        );
    }
}

/// The change variables with the values `model` are what the blocking of
/// `blocked` rules out: they have the values of `blocked`.
pub open spec fn ruled_out(blocked: Seq<bool>, model: Seq<bool>) -> bool {
    forall|i: int| 0 <= i < blocked.len() ==> model[i] == blocked[i]
}

/// The values of the change variables that are blocked in the scope of the
/// solver, for a search that began and was given `replies`: those of every
/// candidate for which a `BlockCandidate` was handed out since the scope
/// was opened.
pub open spec fn blocked_after(
    conf: IncrementalConf,
    rows: StepInt,
    max_changes: u32,
    replies: Seq<ReplyView>,
) -> Seq<Seq<bool>>
    decreases replies.len(),
{
    if replies.len() == 0 {
        Seq::empty()
    } else {
        let front = replies.drop_last();
        let v = view_after(conf, rows, max_changes, front);
        let (w, command) = incremental_next(conf, rows, max_changes, v, replies.last());
        if command is BlockCandidate && v.candidate is Some {
            blocked_after(conf, rows, max_changes, front).push(v.candidate.unwrap().change)
        } else if open_scopes(w.phase) == 0 || command == Command::Push {
            Seq::empty()
        } else {
            blocked_after(conf, rows, max_changes, front)
        }
    }
}

/// Every assignment that the solver gave for a further candidate satisfies
/// the blocking constraints of its scope: it is none of the assignments
/// that were blocked there.
pub open spec fn solver_honours_blocks(
    conf: IncrementalConf,
    rows: StepInt,
    max_changes: u32,
    replies: Seq<ReplyView>,
) -> bool {
    forall|i: int, k: int|
        0 <= i < replies.len() && 0 <= k < blocked_after(
            conf,
            rows,
            max_changes,
            replies.take(i),
        ).len() ==> match (
            (#[trigger] view_after(conf, rows, max_changes, replies.take(i))).phase,
            replies[i],
        ) {
            (IncrementalPhase::Read, ReplyView::Assignment(a)) => !ruled_out(
                #[trigger] blocked_after(conf, rows, max_changes, replies.take(i))[k],
                a.change,
            ),
            _ => true,
        }
}

/// Nothing is blocked before the first candidate of a window is tried, and
/// the candidate that is tried is none of the blocked ones.
pub open spec fn fresh_candidate(
    conf: IncrementalConf,
    rows: StepInt,
    max_changes: u32,
    replies: Seq<ReplyView>,
) -> bool {
    let v = view_after(conf, rows, max_changes, replies);
    let blocked = blocked_after(conf, rows, max_changes, replies);
    match v.phase {
        IncrementalPhase::Test => v.candidate is Some ==> forall|k: int|
            0 <= k < blocked.len() ==> !ruled_out(
                #[trigger] blocked[k],
                v.candidate.unwrap().change,
            ),
        IncrementalPhase::Block | IncrementalPhase::Check | IncrementalPhase::Read
        | IncrementalPhase::Ended(_) => true,
        _ => blocked.len() == 0,
    }
}

/// With a solver that honours the blocking constraints, no candidate is
/// tried twice in a window: the change variables of a candidate that is
/// tried differ from those of every candidate that was blocked since the
/// scope of the window was opened.
pub proof fn no_candidate_is_tried_twice(
    conf: IncrementalConf,
    rows: StepInt,
    max_changes: u32,
    replies: Seq<ReplyView>,
)
    requires
        solver_honours_blocks(conf, rows, max_changes, replies),
    ensures
        fresh_candidate(conf, rows, max_changes, replies),
        ({
            let v = view_after(conf, rows, max_changes, replies);
            let blocked = blocked_after(conf, rows, max_changes, replies);
            v.phase == IncrementalPhase::Test && v.candidate is Some ==> forall|k: int|
                0 <= k < blocked.len() ==> #[trigger] blocked[k] != v.candidate.unwrap().change
        }),
    decreases replies.len(),
{
    if replies.len() > 0 {
        let front = replies.drop_last();
        let last = replies.len() - 1;
        assert(replies.take(last) =~= front);
        assert forall|i: int, k: int|
            0 <= i < front.len() && 0 <= k < blocked_after(
                conf,
                rows,
                max_changes,
                front.take(i),
            ).len() implies match (
            (#[trigger] view_after(conf, rows, max_changes, front.take(i))).phase,
            front[i],
        ) {
            (IncrementalPhase::Read, ReplyView::Assignment(a)) => !ruled_out(
                #[trigger] blocked_after(conf, rows, max_changes, front.take(i))[k],
                a.change,
            ),
            _ => true,
        } by {
            assert(front.take(i) =~= replies.take(i));
            assert(front[i] == replies[i]);
        }
        no_candidate_is_tried_twice(conf, rows, max_changes, front);
        let v = view_after(conf, rows, max_changes, front);
        let w = view_after(conf, rows, max_changes, replies);
        let blocked = blocked_after(conf, rows, max_changes, replies);
        if v.phase == IncrementalPhase::Read && w.phase == IncrementalPhase::Test {
            assert(blocked == blocked_after(conf, rows, max_changes, front));
            assert forall|k: int| 0 <= k < blocked.len() implies !ruled_out(
                #[trigger] blocked[k],
                w.candidate.unwrap().change,
            ) by {
                assert(view_after(conf, rows, max_changes, replies.take(last)).phase
                    == IncrementalPhase::Read);
                assert(!ruled_out(
                    blocked_after(conf, rows, max_changes, replies.take(last))[k],
                    w.candidate.unwrap().change,
                ));
            }
        }
    }
    let v = view_after(conf, rows, max_changes, replies);
    let blocked = blocked_after(conf, rows, max_changes, replies);
    if v.phase == IncrementalPhase::Test && v.candidate is Some {
        assert forall|k: int| 0 <= k < blocked.len() implies #[trigger] blocked[k]
            != v.candidate.unwrap().change by {
            assert(!ruled_out(blocked[k], v.candidate.unwrap().change));
        }
    }
}

} // verus!
