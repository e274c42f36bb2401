//! The study of window sizes: which windows around the failing cycle lead to
//! a correct repair.
//!
//! This is no synthesizer. Every window of up to a given size that holds the
//! failing cycle and fits the testbench is searched on its own, in a fresh
//! solver session: for a minimal repair, and then through the repairs with
//! that number of changes until one passes the whole testbench.

use crate::incremental::admits_run;
use crate::incremental::Ending;
use crate::incremental::reproduces;
use crate::incremental::within_testbench;
use crate::minimal::answers;
use crate::minimal::minimal_candidate;
use crate::minimal::minimal_next;
use crate::minimal::MinimalPhase;
use crate::minimal::MinimalRepair;
use crate::minimal::phase_admits;
use crate::protocol::Command;
use crate::protocol::Reply;
use crate::protocol::ReplyView;
use crate::protocol::Response;
use crate::repair::AssignmentView;
use crate::repair::RepairAssignment;
use crate::result::RepairResult;
use crate::result::RepairStatus;
use crate::result::Stats;
use crate::testbench::StepInt;
use crate::window::next_size_and_offset;
use crate::window::successor;
use crate::window::window_at;
use crate::window::window_fits;
use crate::window::WindowConf;
use vstd::prelude::*;

verus! {

#[derive(Debug, Clone, Copy)]
pub struct WindowingConf {
    /// Information about the first cycle in which the bug manifests.
    pub fail_at: StepInt,
    /// The maximum size of the repair window.
    pub max_repair_window_size: StepInt,
}

/// Where the study stands: the command that was handed out last, or how the
/// study ended.
#[derive(Debug, Clone, Copy, PartialEq, Eq, Structural)]
pub enum WindowingPhase {
    /// Nothing was handed out yet.
    Idle,
    /// `BeginWindow`.
    Begin,
    /// `RestoreSim`, before the failure is reproduced.
    Restore,
    /// `Reproduce`.
    Reproduce,
    /// `RestoreSim`, before the system is encoded.
    RestoreAgain,
    /// `StartSolver`.
    Solver,
    /// A command of the search for a minimal repair.
    Minimal,
    /// `FirstCandidate`.
    First { count: u32 },
    /// `AssertChangeCount`.
    Constrain,
    /// `TestCandidate`.
    Test,
    /// `BlockCandidate`.
    Block,
    /// `Check`, for a further candidate.
    Check,
    /// `ReadAssignment`, for a further candidate.
    Read,
    /// `EndWindow`.
    End,
    /// `Finish`.
    Ended(Ending),
}

/// The first window at or after `(window_size, offset)`, in the order of the
/// study, that fits the testbench.
pub open spec fn first_fitting(
    window_size: StepInt,
    offset: StepInt,
    max_size: StepInt,
    fail_at: StepInt,
    rows: StepInt,
) -> Option<WindowConf>
    decreases max_size - window_size, window_size - offset,
{
    if !(offset < window_size && window_size <= max_size) {
        None
    } else if window_fits(window_at(window_size, offset), fail_at, rows as nat) {
        Some(window_at(window_size, offset))
    } else {
        match successor(window_size, offset, max_size) {
            Some((s, o)) => first_fitting(s, o, max_size, fail_at, rows),
            None => None,
        }
    }
}

/// The window that the study turns to after `window`.
pub open spec fn window_after(window: WindowConf, conf: WindowingConf, rows: StepInt) -> Option<
    WindowConf,
> {
    match successor(window.window_size, window.offset, conf.max_repair_window_size) {
        Some((s, o)) => first_fitting(s, o, conf.max_repair_window_size, conf.fail_at, rows),
        None => None,
    }
}

/// The state of the study.
pub struct WindowingView {
    pub phase: WindowingPhase,
    /// The window that is searched.
    pub window: WindowConf,
    /// The phase of the search for a minimal repair in this window.
    pub inner: MinimalPhase,
    /// The assignment that was read from the model last.
    pub candidate: Option<AssignmentView>,
    /// Number of candidates of this window that failed.
    pub failures: nat,
    /// The correct repair of the last window that has one, with the window.
    pub best: Option<(AssignmentView, WindowConf)>,
}

/// The state `v` in another phase.
pub open spec fn at_phase(v: WindowingView, phase: WindowingPhase) -> WindowingView {
    WindowingView { phase, ..v }
}

/// The state in which the search of `window` begins, and its first command.
pub open spec fn begin(v: WindowingView, window: Option<WindowConf>) -> (WindowingView, Command) {
    match window {
        Some(w) => (
            WindowingView {
                phase: WindowingPhase::Begin,
                window: w,
                inner: MinimalPhase::Idle,
                candidate: None,
                failures: 0,
                best: v.best,
            },
            Command::BeginWindow {
                past_k: w.past_k,
                future_k: w.future_k,
                window_size: w.window_size,
                offset: w.offset,
            },
        ),
        None => (
            at_phase(
                v,
                WindowingPhase::Ended(
                    if v.best is Some {
                        Ending::Success
                    } else {
                        Ending::CannotRepair
                    },
                ),
            ),
            Command::Finish,
        ),
    }
}

/// The state after `reply` came in state `v`, and the command to hand out.
pub open spec fn windowing_next(
    conf: WindowingConf,
    rows: StepInt,
    max_changes: u32,
    v: WindowingView,
    reply: ReplyView,
) -> (WindowingView, Command) {
    let start = (conf.fail_at - v.window.past_k) as StepInt;
    let end = (conf.fail_at + v.window.future_k) as StepInt;
    match (v.phase, reply) {
        (WindowingPhase::Idle, ReplyView::Start) => begin(
            v,
            first_fitting(1, 0, conf.max_repair_window_size, conf.fail_at, rows),
        ),
        // check to see if we can reproduce the error with the simulator
        (WindowingPhase::Begin, ReplyView::Done) => (
            at_phase(v, WindowingPhase::Restore),
            Command::RestoreSim { step: start },
        ),
        (WindowingPhase::Restore, ReplyView::Done) => (
            at_phase(v, WindowingPhase::Reproduce),
            Command::Reproduce { start, end },
        ),
        (WindowingPhase::Reproduce, ReplyView::Run(r)) => if r == Some(conf.fail_at) {
            // restore correct starting state for SMT encoding
            (at_phase(v, WindowingPhase::RestoreAgain), Command::RestoreSim { step: start })
        } else {
            (at_phase(v, WindowingPhase::Ended(Ending::OutOfTurn)), Command::Finish)
        },
        // start new smt solver to isolate performance
        (WindowingPhase::RestoreAgain, ReplyView::Done) => (
            at_phase(v, WindowingPhase::Solver),
            Command::StartSolver,
        ),
        // generate one minimal repair
        (WindowingPhase::Solver, ReplyView::Done) => (
            WindowingView { phase: WindowingPhase::Minimal, inner: MinimalPhase::Init, ..v },
            Command::InitAt { step: start },
        ),
        (WindowingPhase::Minimal, _) => {
            let (inner, command) = minimal_next(start, end, max_changes, v.inner, reply);
            let candidate = minimal_candidate(v.inner, v.candidate, reply);
            let w = WindowingView { inner, candidate, ..v };
            match inner {
                MinimalPhase::Found { count } => (
                    at_phase(w, WindowingPhase::First { count }),
                    Command::FirstCandidate,
                ),
                // no repair found
                MinimalPhase::NoRepair => (
                    at_phase(w, WindowingPhase::End),
                    Command::EndWindow { tries: None },
                ),
                MinimalPhase::OutOfTurn => (
                    at_phase(w, WindowingPhase::Ended(Ending::OutOfTurn)),
                    Command::Finish,
                ),
                _ => (w, command),
            }
        },
        // add a "permanent" change count constraint
        (WindowingPhase::First { count }, ReplyView::Done) => (
            at_phase(v, WindowingPhase::Constrain),
            Command::AssertChangeCount { count, step: start },
        ),
        // iterate over possible solutions
        (WindowingPhase::Constrain, ReplyView::Done) => (
            at_phase(v, WindowingPhase::Test),
            Command::TestCandidate,
        ),
        (WindowingPhase::Test, ReplyView::Run(None)) => match v.candidate {
            Some(candidate) => if v.failures + 1 > u64::MAX {
                (at_phase(v, WindowingPhase::Ended(Ending::OutOfTurn)), Command::Finish)
            } else {
                (
                    WindowingView {
                        phase: WindowingPhase::End,
                        best: Some((candidate, v.window)),
                        ..v
                    },
                    Command::EndWindow { tries: Some((v.failures + 1) as u64) },
                )
            },
            None => (at_phase(v, WindowingPhase::Ended(Ending::OutOfTurn)), Command::Finish),
        },
        (WindowingPhase::Test, ReplyView::Run(Some(fail))) => if v.failures + 1 > u64::MAX {
            (at_phase(v, WindowingPhase::Ended(Ending::OutOfTurn)), Command::Finish)
        } else {
            (
                WindowingView { phase: WindowingPhase::Block, failures: v.failures + 1, ..v },
                Command::BlockCandidate { step: start },
            )
        },
        // try to find a different solution
        (WindowingPhase::Block, ReplyView::Done) => (
            at_phase(v, WindowingPhase::Check),
            Command::Check,
        ),
        (WindowingPhase::Check, ReplyView::Response(Response::Sat)) => (
            at_phase(v, WindowingPhase::Read),
            Command::ReadAssignment { step: start },
        ),
        // no correct repair found
        (WindowingPhase::Check, ReplyView::Response(_)) => (
            at_phase(v, WindowingPhase::End),
            Command::EndWindow { tries: None },
        ),
        (WindowingPhase::Read, ReplyView::Assignment(a)) => (
            WindowingView { phase: WindowingPhase::Test, candidate: Some(a), ..v },
            Command::TestCandidate,
        ),
        (WindowingPhase::End, ReplyView::Done) => begin(v, window_after(v.window, conf, rows)),
        (WindowingPhase::Ended(_), _) => (v, Command::Finish),
        _ => (at_phase(v, WindowingPhase::Ended(Ending::OutOfTurn)), Command::Finish),
    }
}

/// The study of the windows around a failing cycle.
pub struct Windowing {
    pub conf: WindowingConf,
    /// Number of cycles of the testbench.
    pub rows: StepInt,
    /// The largest number of changes to try.
    pub max_changes: u32,
    pub phase: WindowingPhase,
    pub window: WindowConf,
    pub inner: MinimalPhase,
    pub candidate: Option<RepairAssignment>,
    pub failures: u64,
    /// The correct repair of the last window that has one, with the window.
    pub best: Option<(RepairAssignment, WindowConf)>,
}

impl View for Windowing {
    type V = WindowingView;

    open spec fn view(&self) -> WindowingView {
        WindowingView {
            phase: self.phase,
            window: self.window,
            inner: self.inner,
            candidate: match self.candidate {
                Some(c) => Some(c@),
                None => None,
            },
            failures: self.failures as nat,
            best: match self.best {
                Some((a, w)) => Some((a@, w)),
                None => None,
            },
        }
    }
}

/// The state in which a study begins.
pub open spec fn initial_study() -> WindowingView {
    WindowingView {
        phase: WindowingPhase::Idle,
        window: window_at(1, 0),
        inner: MinimalPhase::Idle,
        candidate: None,
        failures: 0,
        best: None,
    }
}

/// In any phase but the first, the window of the study fits the testbench.
pub open spec fn study_wf(conf: WindowingConf, rows: StepInt, v: WindowingView) -> bool {
    &&& v.window.offset < v.window.window_size
    &&& v.phase != WindowingPhase::Idle ==> !(v.phase is Ended) ==> window_fits(
        v.window,
        conf.fail_at,
        rows as nat,
    )
}

pub proof fn lemma_first_fitting(
    window_size: StepInt,
    offset: StepInt,
    max_size: StepInt,
    fail_at: StepInt,
    rows: StepInt,
)
    ensures
        match first_fitting(window_size, offset, max_size, fail_at, rows) {
            Some(w) => window_fits(w, fail_at, rows as nat) && w.offset < w.window_size
                && w.window_size <= max_size,
            None => true,
        },
    decreases max_size - window_size, window_size - offset,
{
    if offset < window_size && window_size <= max_size && !window_fits(
        window_at(window_size, offset),
        fail_at,
        rows as nat,
    ) {
        match successor(window_size, offset, max_size) {
            Some((s, o)) => lemma_first_fitting(s, o, max_size, fail_at, rows),
            None => {},
        }
    }
}

/// Whatever the reply, the window of the study fits the testbench.
pub proof fn next_keeps_window_fitting(
    conf: WindowingConf,
    rows: StepInt,
    max_changes: u32,
    v: WindowingView,
    reply: ReplyView,
)
    requires
        study_wf(conf, rows, v),
    ensures
        study_wf(conf, rows, windowing_next(conf, rows, max_changes, v, reply).0),
{
    lemma_first_fitting(1, 0, conf.max_repair_window_size, conf.fail_at, rows);
    match successor(v.window.window_size, v.window.offset, conf.max_repair_window_size) {
        Some((s, o)) => lemma_first_fitting(s, o, conf.max_repair_window_size, conf.fail_at, rows),
        None => {},
    }
}

/// Finds the first window at or after `(window_size, offset)` that fits.
fn find_fitting(
    window_size: StepInt,
    offset: StepInt,
    max_size: StepInt,
    fail_at: StepInt,
    rows: StepInt,
) -> (r: Option<WindowConf>)
    ensures
        r == first_fitting(window_size, offset, max_size, fail_at, rows),
{
    if !(offset < window_size && window_size <= max_size) {
        return None;
    }
    let mut size = window_size;
    let mut off = offset;
    loop
        invariant
            off < size <= max_size,
            first_fitting(window_size, offset, max_size, fail_at, rows) == first_fitting(
                size,
                off,
                max_size,
                fail_at,
                rows,
            ),
        decreases max_size - size, size - off,
    {
        match WindowConf::fitting(size, off, fail_at, rows) {
            Some(w) => {
                return Some(w);
            },
            None => {},
        }
        match next_size_and_offset(size, off, max_size) {
            Some((s, o)) => {
                size = s;
                off = o;
            },
            None => {
                return None;
            },
        }
    }
}

impl Windowing {
    pub open spec fn wf(&self) -> bool {
        study_wf(self.conf, self.rows, self@)
    }

    /// A study that has not begun.
    pub fn new(conf: WindowingConf, rows: StepInt, max_changes: u32) -> (r: Self)
        ensures
            r.wf(),
            r.conf == conf,
            r.rows == rows,
            r.max_changes == max_changes,
            r@ == initial_study(),
    {
        Self {
            conf,
            rows,
            max_changes,
            phase: WindowingPhase::Idle,
            window: WindowConf { past_k: 0, future_k: 0, window_size: 1, offset: 0 },
            inner: MinimalPhase::Idle,
            candidate: None,
            failures: 0,
            best: None,
        }
    }

    /// The assignment that `TestCandidate` and `BlockCandidate` speak of.
    pub fn candidate(&self) -> (r: &Option<RepairAssignment>)
        ensures
            *r == self.candidate,
    {
        &self.candidate
    }

    fn end_with(&mut self, ending: Ending) -> (command: Command)
        ensures
            *final(self) == (Windowing { phase: WindowingPhase::Ended(ending), ..*old(self) }),
            command == Command::Finish,
    {
        self.phase = WindowingPhase::Ended(ending);
        Command::Finish
    }

    /// Turns to `window`, or ends the study where there is none.
    fn begin_window(&mut self, window: Option<WindowConf>) -> (command: Command)
        ensures
            (final(self)@, command) == begin(old(self)@, window),
            final(self).conf == old(self).conf,
            final(self).rows == old(self).rows,
            final(self).max_changes == old(self).max_changes,
    {
        match window {
            Some(w) => {
                self.phase = WindowingPhase::Begin;
                self.window = w;
                self.inner = MinimalPhase::Idle;
                self.candidate = None;
                self.failures = 0;
                Command::BeginWindow {
                    past_k: w.past_k,
                    future_k: w.future_k,
                    window_size: w.window_size,
                    offset: w.offset,
                }
            },
            None => {
                let ending = if self.best.is_some() {
                    Ending::Success
                } else {
                    Ending::CannotRepair
                };
                self.end_with(ending)
            },
        }
    }

    /// The reply is one that the study goes on with: the run that is to
    /// reproduce the failure fails at the failing cycle, and the solver
    /// knows whether the count that the study asked for can be satisfied.
    pub open spec fn takes(&self, reply: ReplyView) -> bool {
        reproduces(self.phase == WindowingPhase::Reproduce, self.conf.fail_at, reply) && (
        self.phase == WindowingPhase::Minimal ==> answers(self.inner, reply))
    }

    /// Whether the reply is one that the study goes on with.
    pub fn admits(&self, reply: &Reply) -> (r: bool)
        ensures
            r == self.takes(reply@),
    {
        let reproducing = matches!(self.phase, WindowingPhase::Reproduce);
        let minimizing = matches!(self.phase, WindowingPhase::Minimal);
        admits_run(reproducing, self.conf.fail_at, reply) && (!minimizing || phase_admits(
            self.inner,
            reply,
        ))
    }

    /// Runs the study on from the reply to its last command, and hands out
    /// its next command; `Finish` when the study has ended.
    pub fn run(&mut self, reply: Reply) -> (command: Command)
        requires
            old(self).wf(),
            old(self).takes(reply@),
        ensures
            (final(self)@, command) == windowing_next(
                old(self).conf,
                old(self).rows,
                old(self).max_changes,
                old(self)@,
                reply@,
            ),
            final(self).wf(),
            final(self).conf == old(self).conf,
            final(self).rows == old(self).rows,
            final(self).max_changes == old(self).max_changes,
    {
        proof {
            next_keeps_window_fitting(self.conf, self.rows, self.max_changes, self@, reply@);
        }
        let fail_at = self.conf.fail_at;
        if matches!(self.phase, WindowingPhase::Idle) {
            return match reply {
                Reply::Start => {
                    let first = find_fitting(
                        1,
                        0,
                        self.conf.max_repair_window_size,
                        fail_at,
                        self.rows,
                    );
                    self.begin_window(first)
                },
                _ => self.end_with(Ending::OutOfTurn),
            };
        }
        if matches!(self.phase, WindowingPhase::Ended(_)) {
            return Command::Finish;
        }
        let start = fail_at - self.window.past_k;
        let end = fail_at + self.window.future_k;
        match self.phase {
            WindowingPhase::Begin => match reply {
                Reply::Done => {
                    self.phase = WindowingPhase::Restore;
                    Command::RestoreSim { step: start }
                },
                _ => self.end_with(Ending::OutOfTurn),
            },
            WindowingPhase::Restore => match reply {
                Reply::Done => {
                    self.phase = WindowingPhase::Reproduce;
                    Command::Reproduce { start, end }
                },
                _ => self.end_with(Ending::OutOfTurn),
            },
            WindowingPhase::Reproduce => match reply {
                Reply::Run(r) => {
                    let reproduced = match r {
                        Some(f) => f == fail_at,
                        None => false,
                    };
                    if reproduced {
                        self.phase = WindowingPhase::RestoreAgain;
                        Command::RestoreSim { step: start }
                    } else {
                        self.end_with(Ending::OutOfTurn)
                    }
                },
                _ => self.end_with(Ending::OutOfTurn),
            },
            WindowingPhase::RestoreAgain => match reply {
                Reply::Done => {
                    self.phase = WindowingPhase::Solver;
                    Command::StartSolver
                },
                _ => self.end_with(Ending::OutOfTurn),
            },
            WindowingPhase::Solver => match reply {
                Reply::Done => {
                    self.phase = WindowingPhase::Minimal;
                    self.inner = MinimalPhase::Init;
                    Command::InitAt { step: start }
                },
                _ => self.end_with(Ending::OutOfTurn),
            },
            WindowingPhase::Minimal => {
                let mut search = MinimalRepair {
                    start,
                    end,
                    max_changes: self.max_changes,
                    phase: self.inner,
                };
                let command = search.run(&reply);
                let was_reading = matches!(self.inner, MinimalPhase::Read { .. });
                self.inner = search.phase;
                if was_reading {
                    match reply {
                        Reply::Assignment(a) => {
                            self.candidate = Some(a);
                        },
                        _ => {},
                    }
                }
                match search.phase {
                    MinimalPhase::Found { count } => {
                        self.phase = WindowingPhase::First { count };
                        Command::FirstCandidate
                    },
                    MinimalPhase::NoRepair => {
                        self.phase = WindowingPhase::End;
                        Command::EndWindow { tries: None }
                    },
                    MinimalPhase::OutOfTurn => self.end_with(Ending::OutOfTurn),
                    _ => command,
                }
            },
            WindowingPhase::First { count } => match reply {
                Reply::Done => {
                    self.phase = WindowingPhase::Constrain;
                    Command::AssertChangeCount { count, step: start }
                },
                _ => self.end_with(Ending::OutOfTurn),
            },
            WindowingPhase::Constrain => match reply {
                Reply::Done => {
                    self.phase = WindowingPhase::Test;
                    Command::TestCandidate
                },
                _ => self.end_with(Ending::OutOfTurn),
            },
            WindowingPhase::Test => match reply {
                Reply::Run(None) => {
                    let copy = match &self.candidate {
                        Some(candidate) => Some(candidate.duplicate()),
                        None => None,
                    };
                    match copy {
                        Some(solution) => {
                            if self.failures == u64::MAX {
                                self.end_with(Ending::OutOfTurn)
                            } else {
                                self.best = Some((solution, self.window));
                                self.phase = WindowingPhase::End;
                                Command::EndWindow { tries: Some(self.failures + 1) }
                            }
                        },
                        None => self.end_with(Ending::OutOfTurn),
                    }
                },
                Reply::Run(Some(_fail)) => {
                    if self.failures == u64::MAX {
                        self.end_with(Ending::OutOfTurn)
                    } else {
                        self.failures = self.failures + 1;
                        self.phase = WindowingPhase::Block;
                        Command::BlockCandidate { step: start }
                    }
                },
                _ => self.end_with(Ending::OutOfTurn),
            },
            WindowingPhase::Block => match reply {
                Reply::Done => {
                    self.phase = WindowingPhase::Check;
                    Command::Check
                },
                _ => self.end_with(Ending::OutOfTurn),
            },
            WindowingPhase::Check => match reply {
                Reply::Response(Response::Sat) => {
                    self.phase = WindowingPhase::Read;
                    Command::ReadAssignment { step: start }
                },
                Reply::Response(_) => {
                    self.phase = WindowingPhase::End;
                    Command::EndWindow { tries: None }
                },
                _ => self.end_with(Ending::OutOfTurn),
            },
            WindowingPhase::Read => match reply {
                Reply::Assignment(a) => {
                    self.candidate = Some(a);
                    self.phase = WindowingPhase::Test;
                    Command::TestCandidate
                },
                _ => self.end_with(Ending::OutOfTurn),
            },
            WindowingPhase::End => match reply {
                Reply::Done => {
                    let following = match next_size_and_offset(
                        self.window.window_size,
                        self.window.offset,
                        self.conf.max_repair_window_size,
                    ) {
                        Some((s, o)) => find_fitting(
                            s,
                            o,
                            self.conf.max_repair_window_size,
                            fail_at,
                            self.rows,
                        ),
                        None => None,
                    };
                    self.begin_window(following)
                },
                _ => self.end_with(Ending::OutOfTurn),
            },
            WindowingPhase::Idle => Command::Finish,
            WindowingPhase::Ended(_) => Command::Finish,
        }
    }

    /// The report of a study that has ended: the correct repair of the last
    /// window that has one, with that window; else no repair. Nothing for a
    /// study that has not ended, or that ended in another way.
    pub fn finish(self) -> (r: Option<RepairResult>)
        ensures
            match (self.phase, self.best) {
                (WindowingPhase::Ended(Ending::Success), Some((solution, window))) => {
                    &&& r is Some
                    &&& r.unwrap().status == RepairStatus::Success
                    &&& r.unwrap().solutions@ == seq![solution]
                    &&& r.unwrap().stats == (Stats {
                        final_past_k: window.past_k,
                        final_future_k: window.future_k,
                        solver_time: 0,
                    })
                },
                (WindowingPhase::Ended(Ending::CannotRepair), None) => {
                    &&& r is Some
                    &&& r.unwrap().status == RepairStatus::CannotRepair
                    &&& r.unwrap().solutions.len() == 0
                    &&& r.unwrap().stats == (Stats {
                        final_past_k: 0,
                        final_future_k: 0,
                        solver_time: 0,
                    })
                },
                _ => r is None,
            },
    {
        match (self.phase, self.best) {
            (WindowingPhase::Ended(Ending::Success), Some((solution, window))) => {
                let mut solutions: Vec<RepairAssignment> = Vec::new();
                solutions.push(solution);
                proof {
                    assert(solutions@ =~= seq![solution]);
                }
                Some(
                    RepairResult {
                        status: RepairStatus::Success,
                        stats: Stats {
                            final_past_k: window.past_k,
                            final_future_k: window.future_k,
                            solver_time: 0,
                        },
                        solutions,
                    },
                )
            },
            (WindowingPhase::Ended(Ending::CannotRepair), None) => Some(
                RepairResult {
                    status: RepairStatus::CannotRepair,
                    stats: Stats { final_past_k: 0, final_future_k: 0, solver_time: 0 },
                    solutions: Vec::new(),
                },
            ),
            _ => None,
        }
    }
}

/// Every command of the study names only cycles of the testbench.
pub proof fn study_commands_stay_within_testbench(
    conf: WindowingConf,
    rows: StepInt,
    max_changes: u32,
    v: WindowingView,
    reply: ReplyView,
)
    requires
        study_wf(conf, rows, v),
    ensures
        within_testbench(windowing_next(conf, rows, max_changes, v, reply).1, rows),
{
    next_keeps_window_fitting(conf, rows, max_changes, v, reply);
}

/// The study keeps a repair only where a reply says that the candidate
/// passed the whole testbench, and then it keeps the candidate, with the
/// window in which it was found.
pub proof fn study_keeps_passing_candidates(
    conf: WindowingConf,
    rows: StepInt,
    max_changes: u32,
    v: WindowingView,
    reply: ReplyView,
)
    ensures
        ({
            let w = windowing_next(conf, rows, max_changes, v, reply).0;
            w.best == v.best || (v.phase == WindowingPhase::Test && reply == ReplyView::Run(None)
                && v.candidate is Some && w.best == Some((v.candidate.unwrap(), v.window)))
        }),
{
}

/// A window that the study turns to fits the testbench, is no larger than
/// the largest window, and comes after the window before it in the order
/// of the study: no window is searched twice.
pub proof fn study_windows_go_forward(window: WindowConf, conf: WindowingConf, rows: StepInt)
    requires
        window.offset < window.window_size,
    ensures
        match window_after(window, conf, rows) {
            Some(w) => {
                &&& window_fits(w, conf.fail_at, rows as nat)
                &&& w.window_size <= conf.max_repair_window_size
                &&& (w.window_size > window.window_size || (w.window_size == window.window_size
                    && w.offset > window.offset))
            },
            None => true,
        },
{
    match successor(window.window_size, window.offset, conf.max_repair_window_size) {
        Some((s, o)) => {
            lemma_first_fitting(s, o, conf.max_repair_window_size, conf.fail_at, rows);
            lemma_first_fitting_is_later(s, o, conf.max_repair_window_size, conf.fail_at, rows);
        },
        None => {},
    }
}

proof fn lemma_first_fitting_is_later(
    window_size: StepInt,
    offset: StepInt,
    max_size: StepInt,
    fail_at: StepInt,
    rows: StepInt,
)
    ensures
        match first_fitting(window_size, offset, max_size, fail_at, rows) {
            Some(w) => w.window_size > window_size || (w.window_size == window_size && w.offset
                >= offset),
            None => true,
        },
    decreases max_size - window_size, window_size - offset,
{
    if offset < window_size && window_size <= max_size && !window_fits(
        window_at(window_size, offset),
        fail_at,
        rows as nat,
    ) {
        match successor(window_size, offset, max_size) {
            Some((s, o)) => lemma_first_fitting_is_later(s, o, max_size, fail_at, rows),
            None => {},
        }
    }
}

} // verus!
