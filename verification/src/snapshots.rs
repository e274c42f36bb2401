//! Snapshots of the simulator by cycle, and what is built on them: putting the
//! simulator at a cycle, and trying a repair from the first cycle on.

use crate::apply::after_writes;
use crate::apply::writes_of;
use crate::repair::AssignmentView;
use crate::repair::RepairAssignment;
use crate::repair::RepairVars;
use crate::run::lemma_same_circuit_failure;
use crate::run::lemma_same_circuit_values;
use crate::run::RunConfig;
use crate::run::RunResult;
use crate::run::StopAt;
use crate::sim::restored;
use crate::sim::same_circuit;
use crate::sim::sim_executes;
use crate::sim::sim_kept;
use crate::sim::sim_layout;
use crate::sim::sim_restore_snapshot;
use crate::sim::sim_snapshots;
use crate::sim::sim_take_snapshot;
use crate::sim::sim_values;
use crate::sim::state_values;
use crate::sim::stepped;
use crate::testbench::StepInt;
use crate::testbench::Testbench;
use crate::words::Word;
use libpatron::ir::ExprRef;
use libpatron::sim::interpreter::Interpreter;
use std::collections::HashMap;
use vstd::prelude::*;

verus! {

broadcast use vstd::std_specs::hash::group_hash_axioms;

/// For some cycles the snapshot that the simulator took there. The first
/// cycle always has one.
pub struct SnapshotCache {
    map: HashMap<StepInt, u32>,
}

impl SnapshotCache {
    /// The snapshot of each cycle that has one.
    pub closed spec fn view(&self) -> Map<StepInt, u32> {
        self.map@
    }

    /// The first cycle has a snapshot, and the simulator has taken every
    /// snapshot of the cache.
    pub open spec fn valid_for(&self, sim: &Interpreter) -> bool {
        &&& self@.contains_key(0)
        &&& forall|step: StepInt| #[trigger]
            self@.contains_key(step) ==> self@[step] < sim_snapshots(sim)
    }

    /// A cache with the snapshot of the first cycle.
    pub fn new(start_state: u32) -> (r: Self)
        ensures
            r@ == Map::<StepInt, u32>::empty().insert(0, start_state),
    {
        let mut map: HashMap<StepInt, u32> = HashMap::new();
        map.insert(0, start_state);
        Self { map }
    }

    /// Remembers the snapshot of a cycle.
    pub fn insert(&mut self, step: StepInt, id: u32)
        ensures
            final(self)@ == old(self)@.insert(step, id),
    {
        self.map.insert(step, id);
    }

    /// The snapshot of a cycle, where the cache has one.
    pub fn get(&self, step: StepInt) -> (r: Option<u32>)
        ensures
            r == if self@.contains_key(step) {
                Some(self@[step])
            } else {
                None
            },
    {
        match self.map.get(&step) {
            Some(id) => Some(*id),
            None => None,
        }
    }

    /// The last cycle before `step` that has a snapshot, with its snapshot.
    pub fn nearest_before(&self, step: StepInt) -> (r: (StepInt, u32))
        requires
            step > 0,
            self@.contains_key(0),
        ensures
            r.0 < step,
            r.0 == nearest(self@, step),
            self@.contains_key(r.0),
            self@[r.0] == r.1,
            forall|other: StepInt| r.0 < other < step ==> !self@.contains_key(other),
    {
        let mut nearest_step: StepInt = step - 1;
        loop
            invariant
                nearest_step < step,
                self@.contains_key(0),
                forall|other: StepInt| nearest_step < other < step ==> !self@.contains_key(other),
                nearest(self@, step) == nearest(self@, (nearest_step + 1) as StepInt),
            decreases nearest_step,
        {
            match self.get(nearest_step) {
                Some(id) => {
                    return (nearest_step, id);
                },
                None => {},
            }
            nearest_step -= 1;
        }
    }
}

/// The last cycle before `step` that has a snapshot; the first cycle where
/// there is none.
pub open spec fn nearest(cache: Map<StepInt, u32>, step: StepInt) -> StepInt
    decreases step,
{
    if step == 0 {
        0
    } else if cache.contains_key((step - 1) as StepInt) {
        (step - 1) as StepInt
    } else {
        nearest(cache, (step - 1) as StepInt)
    }
}

/// The values of the signals after the states of the simulator are given
/// the values of the snapshot that is kept for cycle `step`.
pub open spec fn at_snapshot(sim: &Interpreter, cache: Map<StepInt, u32>, step: StepInt) -> Map<
    ExprRef,
    Seq<Word>,
> {
    restored(sim_values(sim), sim_layout(sim), sim_kept(sim)[cache[step] as int])
}

/// The values of the signals after the simulator is put at cycle `step`:
/// those of the snapshot of the cycle where there is one, else those of a
/// run of the testbench from the nearest snapshot before the cycle up to
/// the cycle.
pub open spec fn reached(
    tb: Testbench,
    sim: &Interpreter,
    cache: Map<StepInt, u32>,
    step: StepInt,
) -> Map<ExprRef, Seq<Word>> {
    if cache.contains_key(step) {
        at_snapshot(sim, cache, step)
    } else {
        tb.values_at(
            sim,
            at_snapshot(sim, cache, nearest(cache, step)),
            nearest(cache, step) as int,
            step - nearest(cache, step),
        )
    }
}

/// Puts the simulator at the beginning of cycle `step` of the testbench: by
/// the snapshot of that cycle where there is one, else by the nearest
/// snapshot before it and a run of the testbench from there, after which a
/// snapshot of cycle `step` is taken and kept. No snapshot that was taken
/// before is lost or changed.
pub fn update_sim_state_to_step(
    cache: &mut SnapshotCache,
    sim: &mut Interpreter,
    tb: &Testbench,
    step: StepInt,
)
    requires
        step < tb.rows_view(),
        old(cache).valid_for(old(sim)),
        tb.fits(sim_layout(old(sim))),
        sim_executes(old(sim)),
    ensures
        final(cache).valid_for(final(sim)),
        final(cache)@.contains_key(step),
        forall|s: StepInt| #[trigger]
            old(cache)@.contains_key(s) ==> final(cache)@.contains_key(s) && final(cache)@[s]
                == old(cache)@[s],
        forall|s: StepInt| #[trigger]
            final(cache)@.contains_key(s) ==> old(cache)@.contains_key(s) || s == step,
        same_circuit(old(sim), final(sim)),
        sim_values(final(sim)) == reached(*tb, old(sim), old(cache)@, step),
        sim_kept(final(sim)) == if old(cache)@.contains_key(step) {
            sim_kept(old(sim))
        } else {
            sim_kept(old(sim)).push(
                state_values(sim_values(final(sim)), sim_layout(old(sim))),
            )
        },
        sim_kept(old(sim)).is_prefix_of(sim_kept(final(sim))),
        old(cache)@.contains_key(step) ==> final(cache)@ == old(cache)@,
        !old(cache)@.contains_key(step) && sim_kept(old(sim)).len() <= u32::MAX ==> final(cache)@
            == old(cache)@.insert(step, sim_kept(old(sim)).len() as u32),
{
    match cache.get(step) {
        Some(snapshot_id) => {
            sim_restore_snapshot(sim, snapshot_id);
        },
        None => {
            // find nearest step, _before_ the step we are going for
            let (nearest_step, nearest_id) = cache.nearest_before(step);
            // go from nearest snapshot to the point where we want to take a snapshot
            sim_restore_snapshot(sim, nearest_id);
            let ghost begun = sim_values(sim);
            let ghost restored_sim = sim;
            let run_conf = RunConfig { start: nearest_step, stop: StopAt::step(step) };
            tb.run(sim, &run_conf);
            proof {
                lemma_same_circuit_values(
                    *tb,
                    old(sim),
                    restored_sim,
                    begun,
                    nearest_step as int,
                    step - nearest_step,
                );
            }
            // remember the state in case we need to go back
            let new_snapshot = sim_take_snapshot(sim);
            cache.insert(step, new_snapshot);
        },
    }
}

/// In every cycle of the testbench the states of the simulator follow from
/// the states alone: driving the inputs and settling the signals leaves the
/// states as they are, and the states that the simulator goes on to are the
/// same wherever the states were the same when the cycle began. (An input
/// that the testbench leaves without a value keeps the value that it had,
/// so with such a testbench the states may follow from more than the
/// states.)
pub open spec fn follows_states(tb: Testbench, sim: &Interpreter) -> bool {
    let layout = sim_layout(sim);
    &&& forall|v: Map<ExprRef, Seq<Word>>, step: int|
        state_values(#[trigger] tb.cycle_values(sim, v, step), layout) == state_values(v, layout)
    &&& forall|v: Map<ExprRef, Seq<Word>>, w: Map<ExprRef, Seq<Word>>, step: int|
        state_values(v, layout) == state_values(w, layout) ==> state_values(
            stepped(sim, #[trigger] tb.cycle_values(sim, v, step)),
            layout,
        ) == state_values(stepped(sim, #[trigger] tb.cycle_values(sim, w, step)), layout)
}

/// Every snapshot of the cache holds the states of its cycle in the run of
/// the testbench from the first cycle on, which begins with the values
/// `base`.
pub open spec fn faithful(
    tb: Testbench,
    sim: &Interpreter,
    cache: Map<StepInt, u32>,
    base: Map<ExprRef, Seq<Word>>,
) -> bool {
    forall|s: StepInt| #[trigger]
        cache.contains_key(s) ==> sim_kept(sim)[cache[s] as int] == state_values(
            tb.values_at(sim, base, 0, s as int),
            sim_layout(sim),
        )
}

pub proof fn lemma_nearest(cache: Map<StepInt, u32>, step: StepInt)
    requires
        cache.contains_key(0),
        step > 0,
    ensures
        cache.contains_key(nearest(cache, step)),
        nearest(cache, step) < step,
    decreases step,
{
    if !cache.contains_key((step - 1) as StepInt) {
        lemma_nearest(cache, (step - 1) as StepInt);
    }
}

/// A run from cycle `n` on that begins with the states of cycle `n` of the
/// run from the first cycle comes to the states of that run in every cycle.
pub proof fn lemma_run_from_states(
    tb: Testbench,
    sim: &Interpreter,
    v: Map<ExprRef, Seq<Word>>,
    base: Map<ExprRef, Seq<Word>>,
    n: int,
    k: int,
)
    requires
        follows_states(tb, sim),
        0 <= n,
        0 <= k,
        state_values(v, sim_layout(sim)) == state_values(
            tb.values_at(sim, base, 0, n),
            sim_layout(sim),
        ),
    ensures
        state_values(tb.values_at(sim, v, n, k), sim_layout(sim)) == state_values(
            tb.values_at(sim, base, 0, n + k),
            sim_layout(sim),
        ),
    decreases k,
{
    let layout = sim_layout(sim);
    if k == 0 {
        assert(tb.values_at(sim, v, n, 0) == tb.cycle_values(sim, v, n));
    } else {
        lemma_run_from_states(tb, sim, v, base, n, k - 1);
        let here = if k - 1 <= 0 {
            v
        } else {
            stepped(sim, tb.values_at(sim, v, n, k - 2))
        };
        let there = if n + k - 1 <= 0 {
            base
        } else {
            stepped(sim, tb.values_at(sim, base, 0, n + k - 2))
        };
        assert(tb.values_at(sim, v, n, k - 1) == tb.cycle_values(sim, here, n + k - 1));
        assert(tb.values_at(sim, base, 0, n + k - 1) == tb.cycle_values(sim, there, n + k - 1));
        assert(state_values(here, layout) == state_values(there, layout));
        assert(tb.values_at(sim, v, n, k) == tb.cycle_values(
            sim,
            stepped(sim, tb.values_at(sim, v, n, k - 1)),
            n + k,
        ));
        assert(tb.values_at(sim, base, 0, n + k) == tb.cycle_values(
            sim,
            stepped(sim, tb.values_at(sim, base, 0, n + k - 1)),
            n + k,
        ));
    }
}

/// Where the states follow from the states alone, a cache that is faithful
/// gives for every cycle the states of the run from the first cycle on:
/// after the simulator is put at a cycle, by a snapshot or by a run from
/// the nearest snapshot, its states are those of that cycle in a run of the
/// testbench from the first cycle without snapshots.
pub proof fn snapshots_give_the_run(
    tb: Testbench,
    sim: &Interpreter,
    cache: Map<StepInt, u32>,
    base: Map<ExprRef, Seq<Word>>,
    step: StepInt,
)
    requires
        follows_states(tb, sim),
        cache.contains_key(0),
        faithful(tb, sim, cache, base),
    ensures
        state_values(reached(tb, sim, cache, step), sim_layout(sim)) == state_values(
            tb.values_at(sim, base, 0, step as int),
            sim_layout(sim),
        ),
{
    let layout = sim_layout(sim);
    if cache.contains_key(step) {
        assert(state_values(at_snapshot(sim, cache, step), layout) =~= state_values(
            tb.values_at(sim, base, 0, step as int),
            layout,
        ));
    } else {
        lemma_nearest(cache, step);
        let n = nearest(cache, step);
        assert(state_values(at_snapshot(sim, cache, n), layout) =~= state_values(
            tb.values_at(sim, base, 0, n as int),
            layout,
        ));
        lemma_run_from_states(tb, sim, at_snapshot(sim, cache, n), base, n as int, step - n);
    }
}

/// A cache that holds nothing but a snapshot of the states with which the
/// run from the first cycle begins is faithful.
pub proof fn a_fresh_cache_is_faithful(
    tb: Testbench,
    sim: &Interpreter,
    id: u32,
    base: Map<ExprRef, Seq<Word>>,
)
    requires
        follows_states(tb, sim),
        sim_kept(sim)[id as int] == state_values(base, sim_layout(sim)),
    ensures
        faithful(tb, sim, Map::<StepInt, u32>::empty().insert(0, id), base),
{
    assert(tb.values_at(sim, base, 0, 0) == tb.cycle_values(sim, base, 0));
}

/// A faithful cache stays faithful when the simulator is put at a cycle
/// without a snapshot: `after` is the simulator, and the cache holds one
/// snapshot more, as `update_sim_state_to_step` leaves them.
pub proof fn cache_stays_faithful(
    tb: Testbench,
    before: &Interpreter,
    after: &Interpreter,
    cache: Map<StepInt, u32>,
    base: Map<ExprRef, Seq<Word>>,
    step: StepInt,
)
    requires
        follows_states(tb, before),
        cache.contains_key(0),
        !cache.contains_key(step),
        faithful(tb, before, cache, base),
        forall|s: StepInt| #[trigger] cache.contains_key(s) ==> cache[s] < sim_kept(before).len(),
        sim_kept(before).len() <= u32::MAX,
        same_circuit(before, after),
        sim_kept(after) == sim_kept(before).push(
            state_values(reached(tb, before, cache, step), sim_layout(before)),
        ),
    ensures
        faithful(tb, after, cache.insert(step, sim_kept(before).len() as u32), base),
{
    let grown = cache.insert(step, sim_kept(before).len() as u32);
    snapshots_give_the_run(tb, before, cache, base, step);
    assert forall|s: StepInt| #[trigger] grown.contains_key(s) implies sim_kept(after)[grown[s] as int]
        == state_values(tb.values_at(after, base, 0, s as int), sim_layout(after)) by {
        lemma_same_circuit_values(tb, before, after, base, 0, s as int);
        if s != step {
            assert(cache.contains_key(s));
        }
    }
}

/// The values of the signals when a repair is tried: the states are those
/// of the snapshot of the first cycle, and the repair variables have the
/// values of the repair.
pub open spec fn tried(
    sim: &Interpreter,
    cache: Map<StepInt, u32>,
    vars: RepairVars,
    repair: AssignmentView,
) -> Map<ExprRef, Seq<Word>> {
    after_writes(
        at_snapshot(sim, cache, 0),
        sim_layout(sim),
        writes_of(vars, repair),
        writes_of(vars, repair).len() as int,
    )
}

/// Tries a repair: puts the simulator at the first cycle, writes the repair
/// variables, and runs the testbench to its first failure.
pub fn test_repair(
    cache: &mut SnapshotCache,
    sim: &mut Interpreter,
    tb: &Testbench,
    vars: &RepairVars,
    repair: &RepairAssignment,
) -> (r: RunResult)
    requires
        0 < tb.rows_view(),
        old(cache).valid_for(old(sim)),
        tb.fits(sim_layout(old(sim))),
        sim_executes(old(sim)),
        vars.wf(),
        vars.fits(sim_layout(old(sim))),
    ensures
        final(cache).valid_for(final(sim)),
        final(cache)@ == old(cache)@,
        same_circuit(old(sim), final(sim)),
        sim_kept(final(sim)) == sim_kept(old(sim)),
        r.first_fail_at == tb.first_failure(
            old(sim),
            tried(old(sim), old(cache)@, *vars, repair@),
            0,
            0,
            tb.rows_view() as int,
        ),
        sim_values(final(sim)) == tb.values_at(
            old(sim),
            tried(old(sim), old(cache)@, *vars, repair@),
            0,
            match r.first_fail_at {
                Some(f) => f as int,
                None => tb.rows_view() - 1,
            },
        ),
        match r.first_fail_at {
            Some(f) => f < tb.rows_view() && tb.checks_output_at(f as int),
            None => true,
        },
{
    let start_step: StepInt = 0;
    match cache.get(start_step) {
        Some(snapshot_id) => {
            sim_restore_snapshot(sim, snapshot_id);
        },
        None => {},
    }
    vars.apply_to_sim(sim, repair);
    let ghost begun = sim_values(sim);
    let ghost written_sim = sim;
    let conf = RunConfig { start: start_step, stop: StopAt::first_fail() };
    let r = tb.run(sim, &conf);
    proof {
        lemma_same_circuit_failure(*tb, old(sim), written_sim, begun, 0, 0, tb.rows_view() as int);
        lemma_same_circuit_values(
            *tb,
            old(sim),
            written_sim,
            begun,
            0,
            match r.first_fail_at {
                Some(f) => f as int,
                None => tb.rows_view() - 1,
            },
        );
    }
    r
}

} // verus!
