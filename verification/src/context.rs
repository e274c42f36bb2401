//! What a repair run works on: the simulator with its snapshots, the
//! testbench, and the repair variables and states of the system.

use crate::apply::after_writes;
use crate::apply::all_clear;
use crate::apply::cleared_variables_are_zero;
use crate::apply::writes_of;
use crate::constraints::constrain_starting_state;
use crate::constraints::Constraint;
use crate::constraints::pin_of;
use crate::constraints::pinned;
use crate::constraints::pinned_fit;
use crate::constraints::pinned_fit_simulator;
use crate::fill::asked_before;
use crate::fill::filled_cell;
use crate::protocol::Command;
use crate::protocol::Reply;
use crate::protocol::ReplyView;
use crate::repair::RepairAssignment;
use crate::repair::RepairVars;
use crate::run::RunConfig;
use crate::run::shows;
use crate::run::StopAt;
use crate::session::after_first_run;
use crate::session::InitPlan;
use crate::session::Verdict;
use crate::session::verdict_for;
use crate::sim::seed_of;
use crate::sim::sim_executes;
use crate::sim::sim_init;
use crate::sim::sim_layout;
use crate::sim::sim_snapshots;
use crate::sim::sim_take_snapshot;
use crate::sim::sim_values;
use crate::sim::started;
use crate::snapshots::reached;
use crate::snapshots::SnapshotCache;
use crate::snapshots::test_repair;
use crate::snapshots::tried;
use crate::snapshots::update_sim_state_to_step;
use crate::system::StateInfo;
use crate::testbench::StepInt;
use crate::testbench::Testbench;
use crate::words::all_zero;
use crate::words::Word;
use libpatron::ir::ExprRef;
use libpatron::sim::interpreter::Interpreter;
use vstd::prelude::*;

verus! {

/// Why a simulator, a testbench and the repair variables do not go together.
#[derive(Debug, Clone, Copy, PartialEq, Eq, Structural)]
pub enum ContextError {
    /// The lists of the registry do not go together, or a free variable has
    /// a width that no simulator value has.
    Registry,
    /// The simulator does not hold an output of the testbench as a single
    /// value, or cannot take the values of an input.
    Testbench,
    /// The simulator cannot take a value for some repair variable.
    RepairVariables,
    /// The simulator does not hold some state without an initial value as a
    /// single value of the width of the state.
    States,
}

/// What became of a command.
pub enum SimOutcome {
    /// The command is not for the simulator.
    NotForSimulator,
    /// The command names a cycle that the testbench does not have, or a
    /// candidate that there is not.
    Refused,
    /// The command was carried out, and this is the reply to it.
    Reply(Reply),
}

/// The command is for the simulator.
pub open spec fn for_simulator(command: Command) -> bool {
    matches!(
        command,
        Command::RestoreSim { .. } | Command::Reproduce { .. } | Command::TestCandidate
    )
}

/// The command names only cycles of a testbench of `rows` cycles, and a
/// candidate only where there is one.
pub open spec fn can_be_done(command: Command, rows: nat, has_candidate: bool) -> bool {
    match command {
        Command::RestoreSim { step } => step < rows,
        Command::Reproduce { start, end } => start <= end < rows,
        Command::TestCandidate => has_candidate && rows > 0,
        _ => false,
    }
}

/// The simulator of a system, with snapshots of it by cycle, the testbench,
/// and the repair variables and states of the system.
pub struct RepairContext<'a> {
    sim: Interpreter<'a>,
    snapshots: SnapshotCache,
    tb: Testbench,
    synth_vars: RepairVars,
    states: Vec<StateInfo>,
}

impl<'a> RepairContext<'a> {
    /// The simulator goes with the testbench, the repair variables and the
    /// states, and it has taken the snapshots.
    pub closed spec fn wf(&self) -> bool {
        &&& self.snapshots.valid_for(&self.sim)
        &&& sim_executes(&self.sim)
        &&& self.tb.fits(sim_layout(&self.sim))
        &&& self.synth_vars.wf()
        &&& self.synth_vars.fits(sim_layout(&self.sim))
        &&& pinned_fit(self.states@, self.synth_vars, sim_layout(&self.sim))
    }

    /// The testbench.
    pub closed spec fn tb_view(&self) -> Testbench {
        self.tb
    }

    /// The repair variables.
    pub closed spec fn vars_view(&self) -> RepairVars {
        self.synth_vars
    }

    /// The states.
    pub closed spec fn states_view(&self) -> Seq<StateInfo> {
        self.states@
    }

    /// The cycles that have a snapshot.
    pub closed spec fn snapshots_view(&self) -> Map<StepInt, u32> {
        self.snapshots@
    }

    /// Number of snapshots that the simulator has taken.
    pub closed spec fn snapshot_count(&self) -> nat {
        sim_snapshots(&self.sim)
    }

    /// The values of the signals in the simulator.
    pub closed spec fn values(&self) -> Map<ExprRef, Seq<Word>> {
        sim_values(&self.sim)
    }

    /// Starts a run: initialises the simulator, gives values to the inputs of
    /// the testbench that have none, sets every repair variable to zero, and
    /// takes the snapshot of the first cycle. Before that it is made sure
    /// that the simulator goes with the rest.
    pub fn new(
        sim: Interpreter<'a>,
        tb: Testbench,
        synth_vars: RepairVars,
        states: Vec<StateInfo>,
        plan: &InitPlan,
    ) -> (r: Result<Self, ContextError>)
        requires
            sim_executes(&sim),
        ensures
            match r {
                Ok(rctx) => {
                    &&& rctx.wf()
                    &&& rctx.vars_view() == synth_vars
                    &&& rctx.states_view() == states@
                    &&& rctx.tb_view().ios_view() == tb.ios_view()
                    &&& rctx.tb_view().rows_view() == tb.rows_view()
                    &&& rctx.tb_view().missing_outputs_view() == tb.missing_outputs_view()
                    &&& rctx.snapshots_view().dom() == set![0u64]
                    &&& forall|step: int, i: int|
                        0 <= step < tb.rows_view() && 0 <= i < tb.ios_view().len() ==> filled_cell(
                            tb.cell(step, i),
                            #[trigger] rctx.tb_view().cell(step, i),
                            tb.ios_view()[i],
                            seed_of(plan.testbench),
                            asked_before(tb.data_view(), tb.ios_view(), step, i),
                        )
                    &&& rctx.values() == after_writes(
                        started(&sim, sim_values(&sim), seed_of(plan.sim)),
                        sim_layout(&sim),
                        writes_of(
                            synth_vars,
                            all_clear(synth_vars.change.len() as int, synth_vars.free.len() as int),
                        ),
                        synth_vars.change.len() + synth_vars.free.len(),
                    )
                    &&& forall|e: ExprRef|
                        synth_vars.holds(e) && sim_layout(&sim).contains_key(e) ==> all_zero(
                            #[trigger] rctx.values()[e],
                        )
                },
                Err(e) => e == if !synth_vars.wf() {
                    ContextError::Registry
                } else if !tb.fits(sim_layout(&sim)) {
                    ContextError::Testbench
                } else if !synth_vars.fits(sim_layout(&sim)) {
                    ContextError::RepairVariables
                } else {
                    ContextError::States
                },
            },
            r is Err <==> !(synth_vars.wf() && tb.fits(sim_layout(&sim)) && synth_vars.fits(
                sim_layout(&sim),
            ) && pinned_fit(states@, synth_vars, sim_layout(&sim))),
    {
        let mut sim = sim;
        let mut tb = tb;
        if !synth_vars.is_wf() {
            return Err(ContextError::Registry);
        }
        if !tb.fits_simulator(&sim) {
            return Err(ContextError::Testbench);
        }
        if !synth_vars.fits_simulator(&sim) {
            return Err(ContextError::RepairVariables);
        }
        if !pinned_fit_simulator(states.as_slice(), &synth_vars, &sim) {
            return Err(ContextError::States);
        }
        // init free variables
        sim_init(&mut sim, plan.sim);
        tb.define_inputs(plan.testbench);
        // set all synthesis variables to zero
        let ghost before = sim_values(&sim);
        synth_vars.clear_in_sim(&mut sim);
        // remember the starting state
        let start_state = sim_take_snapshot(&mut sim);
        let snapshots = SnapshotCache::new(start_state);
        proof {
            assert(snapshots@.dom() =~= set![0u64]);
            assert forall|e: ExprRef|
                synth_vars.holds(e) && sim_layout(&sim).contains_key(e) implies all_zero(
                #[trigger] sim_values(&sim)[e],
            ) by {
                cleared_variables_are_zero(synth_vars, before, sim_layout(&sim), e);
            }
        }
        Ok(RepairContext { sim, snapshots, tb, synth_vars, states })
    }

    pub fn tb(&self) -> (r: &Testbench)
        ensures
            *r == self.tb_view(),
    {
        &self.tb
    }

    pub fn synth_vars(&self) -> (r: &RepairVars)
        ensures
            *r == self.vars_view(),
    {
        &self.synth_vars
    }

    pub fn states(&self) -> (r: &Vec<StateInfo>)
        ensures
            r@ == self.states_view(),
    {
        &self.states
    }

    /// The simulator, to look at.
    pub fn sim(&self) -> (r: &Interpreter<'a>)
        ensures
            *r == self.sim_view(),
            sim_values(r) == self.values(),
            sim_layout(r) == self.layout(),
            sim_snapshots(r) == self.snapshot_count(),
    {
        &self.sim
    }

    /// The simulator of the run.
    pub closed spec fn sim_view(&self) -> Interpreter<'a> {
        self.sim
    }

    /// How the simulator holds each signal that it holds.
    pub closed spec fn layout(&self) -> Map<ExprRef, crate::sim::Held> {
        sim_layout(&self.sim)
    }

    /// Runs the testbench once on the unchanged system, from the first cycle
    /// to the first failure, and decides what the run does next: nothing
    /// where nothing fails or nothing could be repaired, else a search. For a
    /// search, a snapshot of the failing cycle is kept and the simulator is
    /// put back at the first cycle.
    pub fn diagnose(&mut self) -> (r: Verdict)
        requires
            old(self).wf(),
        ensures
            final(self).wf(),
            final(self).tb_view() == old(self).tb_view(),
            final(self).vars_view() == old(self).vars_view(),
            final(self).states_view() == old(self).states_view(),
            r == verdict_for(
                old(self).tb_view().first_failure(
                    &old(self).sim_view(),
                    old(self).values(),
                    0,
                    0,
                    old(self).tb_view().rows_view() as int,
                ),
                old(self).vars_view().change.len() as int,
                old(self).tb_view().without_outputs(),
            ),
            match r {
                Verdict::Search { fail_at } => {
                    &&& fail_at < old(self).tb_view().rows_view()
                    &&& old(self).tb_view().checks_output_at(fail_at as int)
                    &&& old(self).vars_view().change.len() > 0
                    &&& !old(self).tb_view().without_outputs()
                    &&& final(self).snapshots_view().contains_key(fail_at)
                },
                Verdict::NoRepair => !old(self).tb_view().without_outputs(),
                Verdict::CannotRepair => true,
            },
            old(self).tb_view().without_outputs() ==> r == Verdict::CannotRepair,
            !old(self).tb_view().without_outputs() && old(self).tb_view().checks_nothing(
                0,
                old(self).tb_view().rows_view() as int,
            ) ==> r == Verdict::NoRepair,
    {
        let nothing: Vec<ExprRef> = Vec::new();
        self.diagnose_traced(nothing.as_slice()).0
    }

    /// Decides as `diagnose` does, and hands back what the first run shows
    /// of `signals` in each of its cycles: one row for each cycle, in order.
    /// Without signals there are no rows.
    pub fn diagnose_traced(&mut self, signals: &[ExprRef]) -> (r: (
        Verdict,
        Vec<Vec<Option<Vec<Word>>>>,
    ))
        requires
            old(self).wf(),
        ensures
            final(self).wf(),
            final(self).tb_view() == old(self).tb_view(),
            final(self).vars_view() == old(self).vars_view(),
            final(self).states_view() == old(self).states_view(),
            r.0 == verdict_for(
                old(self).tb_view().first_failure(
                    &old(self).sim_view(),
                    old(self).values(),
                    0,
                    0,
                    old(self).tb_view().rows_view() as int,
                ),
                old(self).vars_view().change.len() as int,
                old(self).tb_view().without_outputs(),
            ),
            match r.0 {
                Verdict::Search { fail_at } => {
                    &&& fail_at < old(self).tb_view().rows_view()
                    &&& old(self).tb_view().checks_output_at(fail_at as int)
                    &&& old(self).vars_view().change.len() > 0
                    &&& !old(self).tb_view().without_outputs()
                    &&& final(self).snapshots_view().contains_key(fail_at)
                },
                Verdict::NoRepair => !old(self).tb_view().without_outputs(),
                Verdict::CannotRepair => true,
            },
            old(self).tb_view().without_outputs() ==> r.0 == Verdict::CannotRepair,
            !old(self).tb_view().without_outputs() && old(self).tb_view().checks_nothing(
                0,
                old(self).tb_view().rows_view() as int,
            ) ==> r.0 == Verdict::NoRepair,
            r.1.len() == if signals.len() == 0 || old(self).tb_view().rows_view() == 0 {
                0
            } else {
                match old(self).tb_view().first_failure(
                    &old(self).sim_view(),
                    old(self).values(),
                    0,
                    0,
                    old(self).tb_view().rows_view() as int,
                ) {
                    Some(f) => f + 1,
                    None => old(self).tb_view().rows_view() as int,
                }
            },
            forall|k: int|
                0 <= k < r.1.len() ==> shows(
                    (#[trigger] r.1[k])@,
                    old(self).tb_view().values_at(
                        &old(self).sim_view(),
                        old(self).values(),
                        0,
                        k,
                    ),
                    old(self).layout(),
                    signals@,
                ),
    {
        let rows = self.tb.step_count();
        let (first_fail_at, trace) = if rows == 0 {
            (None, Vec::new())
        } else {
            // run testbench once to see if we can detect a bug
            let conf = RunConfig { start: 0, stop: StopAt::first_fail() };
            let (result, trace) = self.tb.run_traced(&mut self.sim, &conf, signals);
            (result.first_fail_at, trace)
        };
        let verdict = after_first_run(
            first_fail_at,
            self.synth_vars.change.len(),
            self.tb.lacks_all_outputs(),
        );
        match verdict {
            Verdict::Search { fail_at } => {
                let error_snapshot = sim_take_snapshot(&mut self.sim);
                self.snapshots.insert(fail_at, error_snapshot);
                assert(self.snapshots@.contains_key(fail_at));
                // reset the simulator state
                update_sim_state_to_step(&mut self.snapshots, &mut self.sim, &self.tb, 0);
            },
            _ => {},
        }
        (verdict, trace)
    }

    /// The constraints that pin the starting state of a search at cycle
    /// `start_step` to the state of the simulator.
    pub fn constrain_starting_state(&self, start_step: StepInt) -> (r: Vec<Constraint>)
        requires
            self.wf(),
        ensures
            r.len() == pinned(self.states_view(), self.vars_view()).len(),
            forall|i: int|
                0 <= i < r.len() ==> (#[trigger] r[i])@ == pin_of(
                    pinned(self.states_view(), self.vars_view())[i],
                    start_step,
                    self.values(),
                ),
    {
        constrain_starting_state(self.states.as_slice(), &self.synth_vars, &self.sim, start_step)
    }

    /// Carries out a command to the simulator: puts the simulator at a cycle,
    /// runs the testbench over a window to see whether the system fails in it,
    /// or tries the candidate on the whole testbench.
    pub fn perform(&mut self, command: Command, candidate: &Option<RepairAssignment>) -> (r:
        SimOutcome)
        requires
            old(self).wf(),
        ensures
            final(self).wf(),
            final(self).tb_view() == old(self).tb_view(),
            final(self).vars_view() == old(self).vars_view(),
            final(self).states_view() == old(self).states_view(),
            forall|s: StepInt| #[trigger]
                old(self).snapshots_view().contains_key(s) ==> final(
                    self
                ).snapshots_view().contains_key(s) && final(self).snapshots_view()[s] == old(
                    self
                ).snapshots_view()[s],
            match r {
                SimOutcome::NotForSimulator => !for_simulator(command),
                SimOutcome::Refused => for_simulator(command) && !can_be_done(
                    command,
                    old(self).tb_view().rows_view(),
                    candidate is Some,
                ),
                SimOutcome::Reply(reply) => can_be_done(
                    command,
                    old(self).tb_view().rows_view(),
                    candidate is Some,
                ) && match command {
                    Command::RestoreSim { step } => {
                        &&& reply@ == ReplyView::Done
                        &&& final(self).snapshots_view().contains_key(step)
                        &&& final(self).values() == reached(
                            old(self).tb_view(),
                            &old(self).sim_view(),
                            old(self).snapshots_view(),
                            step,
                        )
                    },
                    Command::Reproduce { start, end } => reply@ == ReplyView::Run(
                        old(self).tb_view().first_failure(
                            &old(self).sim_view(),
                            old(self).values(),
                            start as int,
                            0,
                            end + 1,
                        ),
                    ),
                    _ => reply@ == ReplyView::Run(
                        old(self).tb_view().first_failure(
                            &old(self).sim_view(),
                            tried(
                                &old(self).sim_view(),
                                old(self).snapshots_view(),
                                old(self).vars_view(),
                                candidate.unwrap()@,
                            ),
                            0,
                            0,
                            old(self).tb_view().rows_view() as int,
                        ),
                    ),
                },
            },
    {
        let rows = self.tb.step_count();
        match command {
            Command::RestoreSim { step } => {
                if step >= rows {
                    return SimOutcome::Refused;
                }
                update_sim_state_to_step(&mut self.snapshots, &mut self.sim, &self.tb, step);
                SimOutcome::Reply(Reply::Done)
            },
            Command::Reproduce { start, end } => {
                if start > end || end >= rows {
                    return SimOutcome::Refused;
                }
                let conf = RunConfig { start, stop: StopAt::first_fail_or_step(end) };
                let res = self.tb.run(&mut self.sim, &conf);
                SimOutcome::Reply(Reply::Run(res.first_fail_at))
            },
            Command::TestCandidate => {
                match candidate {
                    Some(repair) => {
                        if rows == 0 {
                            return SimOutcome::Refused;
                        }
                        let res = test_repair(
                            &mut self.snapshots,
                            &mut self.sim,
                            &self.tb,
                            &self.synth_vars,
                            repair,
                        );
                        SimOutcome::Reply(Reply::Run(res.first_fail_at))
                    },
                    None => SimOutcome::Refused,
                }
            },
            _ => SimOutcome::NotForSimulator,
        }
    }
}

} // verus!
