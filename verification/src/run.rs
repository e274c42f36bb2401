//! Running a testbench on the simulator.

use crate::sim::Held;
use crate::sim::is_scalar;
use crate::sim::same_circuit;
use crate::sim::settled;
use crate::sim::sim_executes;
use crate::sim::sim_get;
use crate::sim::sim_holds_scalar;
use crate::sim::sim_kept;
use crate::sim::sim_layout;
use crate::sim::sim_set;
use crate::sim::sim_step;
use crate::sim::sim_takes_value;
use crate::sim::sim_update;
use crate::sim::sim_values;
use crate::sim::stepped;
use crate::sim::takes_value;
use crate::sim::values_after_set;
use crate::testbench::io_offset;
use crate::testbench::IOInfo;
use crate::testbench::ios_wf;
use crate::testbench::lemma_io_offset;
use crate::testbench::StepInt;
use crate::testbench::Testbench;
use crate::testbench::total_words;
use crate::words::all_ones;
use crate::words::is_x;
use crate::words::same_value;
use crate::words::width_to_words;
use crate::words::Word;
use crate::words::words_equal;
use crate::words::words_for;
use libpatron::ir::ExprRef;
use libpatron::sim::interpreter::Interpreter;
use vstd::prelude::*;

verus! {

/// What a run of the testbench found.
pub struct RunResult {
    /// The first cycle in which an output did not show the expected value.
    pub first_fail_at: Option<StepInt>,
}

impl RunResult {
    pub fn is_success(&self) -> (r: bool)
        ensures
            r == (self.first_fail_at is None),
    {
        self.first_fail_at.is_none()
    }
}

/// Where a run stops.
#[derive(Debug)]
pub struct StopAt {
    pub at_first_fail: bool,
    pub at_step: Option<StepInt>,
}

/// Where a run starts and where it stops.
#[derive(Debug)]
pub struct RunConfig {
    pub start: StepInt,
    pub stop: StopAt,
}

impl StopAt {
    /// Run to the last cycle, whatever fails.
    pub fn end() -> (r: Self)
        ensures
            r.at_first_fail == false,
            r.at_step is None,
    {
        Self { at_first_fail: false, at_step: None }
    }

    /// Run to the first failure, or to the last cycle.
    pub fn first_fail() -> (r: Self)
        ensures
            r.at_first_fail == true,
            r.at_step is None,
    {
        Self { at_first_fail: true, at_step: None }
    }

    /// Run to cycle `step`, whatever fails.
    pub fn step(step: StepInt) -> (r: Self)
        ensures
            r.at_first_fail == false,
            r.at_step == Some(step),
    {
        Self { at_first_fail: false, at_step: Some(step) }
    }

    /// Run to the first failure, or to cycle `step`.
    pub fn first_fail_or_step(step: StepInt) -> (r: Self)
        ensures
            r.at_first_fail == true,
            r.at_step == Some(step),
    {
        Self { at_first_fail: true, at_step: Some(step) }
    }

    /// The cycle after the last one of a run over `rows` cycles.
    pub open spec fn end_of(&self, rows: nat) -> int {
        match self.at_step {
            Some(step) => step + 1,
            None => rows as int,
        }
    }
}

/// The simulator can take the values of `io`, or show them.
pub open spec fn io_fits(layout: Map<ExprRef, Held>, io: IOInfo) -> bool {
    if io.is_input {
        takes_value(layout, io.expr, words_for(io.width as int))
    } else {
        is_scalar(layout, io.expr)
    }
}

/// What a run shows of the signal `e`: its words, where the simulator holds
/// it as a single value.
pub open spec fn shown(values: Map<ExprRef, Seq<Word>>, layout: Map<ExprRef, Held>, e: ExprRef)
    -> Option<Seq<Word>> {
    if is_scalar(layout, e) {
        Some(values[e])
    } else {
        None
    }
}

/// The words that a cell of a trace holds.
pub open spec fn words_of(cell: Option<Vec<Word>>) -> Option<Seq<Word>> {
    match cell {
        Some(words) => Some(words@),
        None => None,
    }
}

/// The row holds what is shown of each of `signals`, in order.
pub open spec fn shows(
    row: Seq<Option<Vec<Word>>>,
    values: Map<ExprRef, Seq<Word>>,
    layout: Map<ExprRef, Held>,
    signals: Seq<ExprRef>,
) -> bool {
    &&& row.len() == signals.len()
    &&& forall|j: int|
        0 <= j < row.len() ==> #[trigger] words_of(row[j]) == shown(values, layout, signals[j])
}

/// What the simulator shows of `signals` now.
pub fn read_signals(sim: &Interpreter, signals: &[ExprRef]) -> (row: Vec<Option<Vec<Word>>>)
    ensures
        shows(row@, sim_values(sim), sim_layout(sim), signals@),
{
    let mut row: Vec<Option<Vec<Word>>> = Vec::new();
    let mut j: usize = 0;
    while j < signals.len()
        invariant
            j <= signals.len(),
            row.len() == j,
            forall|i: int|
                0 <= i < j ==> #[trigger] words_of(row[i]) == shown(
                    sim_values(sim),
                    sim_layout(sim),
                    signals[i],
                ),
        decreases signals.len() - j,
    {
        let cell = if sim_holds_scalar(sim, signals[j]) {
            sim_get(sim, signals[j])
        } else {
            None
        };
        row.push(cell);
        j += 1;
    }
    row
}

impl Testbench {
    /// The words of the cell of entry `i` in cycle `step`.
    pub open spec fn cell(&self, step: int, i: int) -> Seq<Word> {
        let start = step * total_words(self.ios_view()) + io_offset(self.ios_view(), i);
        self.data_view().subrange(start, start + self.ios_view()[i].words)
    }

    /// The cell is a don't-care.
    pub open spec fn is_x_at(&self, step: int, i: int) -> bool {
        all_ones(self.cell(step, i))
    }

    /// The words of the value in the cell, without the bit that marks a
    /// don't-care.
    pub open spec fn value_at(&self, step: int, i: int) -> Seq<Word> {
        self.cell(step, i).take(words_for(self.ios_view()[i].width as int))
    }

    /// Cycle `step` expects a value of some output.
    pub open spec fn checks_output_at(&self, step: int) -> bool {
        exists|i: int|
            0 <= i < self.ios_view().len() && !(#[trigger] self.ios_view()[i]).is_input
                && !self.is_x_at(step, i)
    }

    /// The simulator holds every input and output of the testbench in a way
    /// that lets the testbench write or read it.
    pub open spec fn fits(&self, layout: Map<ExprRef, Held>) -> bool {
        forall|i: int|
            0 <= i < self.ios_view().len() ==> io_fits(layout, #[trigger] self.ios_view()[i])
    }

    /// Some output shows, with the values `values` of the signals, another
    /// value than cycle `step` expects of it.
    pub open spec fn mismatch(&self, step: int, values: Map<ExprRef, Seq<Word>>) -> bool {
        exists|i: int| 0 <= i < self.ios_view().len() && self.differs_at(step, i, values)
    }

    /// Entry `i` is an output of which cycle `step` expects a value, and
    /// which has another value in `values`.
    pub open spec fn differs_at(&self, step: int, i: int, values: Map<ExprRef, Seq<Word>>) -> bool {
        &&& !self.ios_view()[i].is_input
        &&& !self.is_x_at(step, i)
        &&& !same_value(self.value_at(step, i), values[self.ios_view()[i].expr])
    }

    /// No cycle from `start` up to, but without, `end` expects a value of any
    /// output.
    pub open spec fn checks_nothing(&self, start: int, end: int) -> bool {
        forall|step: int| start <= step < end ==> !self.checks_output_at(step)
    }

    /// The testbench has no cell for any output, though the system has
    /// outputs.
    pub open spec fn without_outputs(&self) -> bool {
        &&& self.missing_outputs_view().len() > 0
        &&& forall|i: int|
            0 <= i < self.ios_view().len() ==> (#[trigger] self.ios_view()[i]).is_input
    }

    /// Whether the testbench has no cell for any output, though the system
    /// has outputs: nothing can be checked with such a testbench.
    pub fn lacks_all_outputs(&self) -> (r: bool)
        ensures
            r == self.without_outputs(),
    {
        if self.missing_outputs.len() == 0 {
            return false;
        }
        let mut i: usize = 0;
        while i < self.ios.len()
            invariant
                i <= self.ios.len(),
                self.missing_outputs@.len() > 0,
                forall|j: int| 0 <= j < i ==> (#[trigger] self.ios_view()[j]).is_input,
            decreases self.ios.len() - i,
        {
            if !self.ios[i].is_input {
                assert(!self.ios_view()[i as int].is_input);
                return false;
            }
            i += 1;
        }
        true
    }

    pub fn has_missing_outputs(&self) -> (r: bool)
        ensures
            r == (self.missing_outputs_view().len() > 0),
    {
        self.missing_outputs.len() > 0
    }

    /// Number of cycles.
    pub fn step_count(&self) -> (r: StepInt)
        ensures
            r == self.rows_view(),
            ios_wf(self.ios_view()),
            self.data_view().len() == self.rows_view() * total_words(self.ios_view()),
    {
        proof {
            use_type_invariant(self);
        }
        self.rows as StepInt
    }

    /// The outputs of the system that the testbench does not list.
    pub fn missing_outputs(&self) -> (r: &Vec<IOInfo>)
        ensures
            r@ == self.missing_outputs_view(),
    {
        &self.missing_outputs
    }

    /// The inputs and outputs that the testbench has a cell for.
    pub fn ios(&self) -> (r: &Vec<IOInfo>)
        ensures
            r@ == self.ios_view(),
    {
        &self.ios
    }

    /// The words of all rows.
    pub fn data(&self) -> (r: &Vec<Word>)
        ensures
            r@ == self.data_view(),
    {
        &self.data
    }

    /// Whether the simulator fits this testbench.
    pub fn fits_simulator(&self, sim: &Interpreter) -> (r: bool)
        ensures
            r == self.fits(sim_layout(sim)),
    {
        proof {
            use_type_invariant(self);
        }
        let mut i: usize = 0;
        while i < self.ios.len()
            invariant
                i <= self.ios.len(),
                ios_wf(self.ios@),
                forall|j: int|
                    0 <= j < i ==> io_fits(sim_layout(sim), #[trigger] self.ios_view()[j]),
            decreases self.ios.len() - i,
        {
            let io = &self.ios[i];
            let ok = if io.is_input {
                sim_takes_value(sim, io.expr, width_to_words(io.width))
            } else {
                sim_holds_scalar(sim, io.expr)
            };
            if !ok {
                assert(!io_fits(sim_layout(sim), self.ios_view()[i as int]));
                return false;
            }
            i += 1;
        }
        true
    }

    /// The cell of entry `i` in cycle `step`.
    pub(crate) fn cell_slice(&self, step: usize, i: usize, offset: usize) -> (r: &[Word])
        requires
            step < self.rows_view(),
            i < self.ios_view().len(),
            offset == io_offset(self.ios_view(), i as int),
        ensures
            r@ == self.cell(step as int, i as int),
            r.len() == self.ios_view()[i as int].words,
            r.len() >= words_for(self.ios_view()[i as int].width as int),
            offset + r.len() == io_offset(self.ios_view(), i + 1),
            offset + r.len() <= usize::MAX,
    {
        proof {
            use_type_invariant(self);
            lemma_io_offset(self.ios@, i as int);
            let sw = self.step_words as int;
            let rows = self.rows as int;
            assert(step * sw + sw <= rows * sw) by (nonlinear_arith)
                requires
                    0 <= step < rows,
                    0 <= sw,
            ;
            assert(0 <= step * sw) by (nonlinear_arith)
                requires
                    0 <= step,
                    0 <= sw,
            ;
        }
        let start = step * self.step_words + offset;
        vstd::slice::slice_subrange(self.data.as_slice(), start, start + self.ios[i].words)
    }

    /// The values of the signals after the inputs among the first `n`
    /// entries are driven for cycle `step`: each input whose cell holds a
    /// value is written, in the order of the entries; an input whose cell is
    /// a don't-care is left as it is, and so is every output.
    pub open spec fn driven(
        &self,
        values: Map<ExprRef, Seq<Word>>,
        layout: Map<ExprRef, Held>,
        step: int,
        n: int,
    ) -> Map<ExprRef, Seq<Word>>
        decreases n,
    {
        if n <= 0 {
            values
        } else {
            let before = self.driven(values, layout, step, n - 1);
            if self.ios_view()[n - 1].is_input && !self.is_x_at(step, n - 1) {
                values_after_set(
                    before,
                    layout,
                    self.ios_view()[n - 1].expr,
                    self.value_at(step, n - 1),
                )
            } else {
                before
            }
        }
    }

    /// The values of the signals in cycle `step`, where they were `values`
    /// when the cycle began: the inputs are driven, and then the signals are
    /// settled, once.
    pub open spec fn cycle_values(
        &self,
        sim: &Interpreter,
        values: Map<ExprRef, Seq<Word>>,
        step: int,
    ) -> Map<ExprRef, Seq<Word>> {
        settled(
            sim,
            self.driven(values, sim_layout(sim), step, self.ios_view().len() as int),
        )
    }

    /// The values of the signals in cycle `start + k` of a run that begins
    /// at cycle `start` with the values `values`: between two cycles the
    /// simulator goes on by one cycle.
    pub open spec fn values_at(
        &self,
        sim: &Interpreter,
        values: Map<ExprRef, Seq<Word>>,
        start: int,
        k: int,
    ) -> Map<ExprRef, Seq<Word>>
        decreases k,
    {
        if k <= 0 {
            self.cycle_values(sim, values, start)
        } else {
            self.cycle_values(
                sim,
                stepped(sim, self.values_at(sim, values, start, k - 1)),
                start + k,
            )
        }
    }

    /// The first cycle from `start + k` on and before `end` in which some
    /// output shows another value than the testbench expects, in a run that
    /// begins at cycle `start` with the values `values`.
    pub open spec fn first_failure(
        &self,
        sim: &Interpreter,
        values: Map<ExprRef, Seq<Word>>,
        start: int,
        k: int,
        end: int,
    ) -> Option<StepInt>
        decreases end - start - k,
    {
        if k < 0 || start + k >= end {
            None
        } else if self.mismatch(start + k, self.values_at(sim, values, start, k)) {
            Some((start + k) as StepInt)
        } else {
            self.first_failure(sim, values, start, k + 1, end)
        }
    }

    /// The last cycle of a run from `start` to before `end` that found
    /// `first_fail_at`: the failing cycle where the run ends at the first
    /// failure, else the cycle before `end`.
    pub open spec fn last_cycle(conf: &RunConfig, first_fail_at: Option<StepInt>, end: int) -> int {
        if conf.stop.at_first_fail && first_fail_at is Some {
            first_fail_at.unwrap() as int
        } else {
            end - 1
        }
    }

    /// Simulates one cycle: drives the inputs that the testbench gives a
    /// value, settles the signals, and compares every output that the
    /// testbench expects a value of. Returns whether some output differs.
    pub(crate) fn do_step(&self, step_id: StepInt, sim: &mut Interpreter) -> (failed: bool)
        requires
            step_id < self.rows_view(),
            self.fits(sim_layout(old(sim))),
            sim_executes(old(sim)),
        ensures
            same_circuit(old(sim), final(sim)),
            sim_kept(final(sim)) == sim_kept(old(sim)),
            sim_values(final(sim)) == self.cycle_values(
                old(sim),
                sim_values(old(sim)),
                step_id as int,
            ),
            failed == self.mismatch(step_id as int, sim_values(final(sim))),
            failed ==> self.checks_output_at(step_id as int),
    {
        proof {
            use_type_invariant(self);
        }
        let step = step_id as usize;
        // apply inputs
        let mut offset: usize = 0;
        let mut i: usize = 0;
        proof {
            assert(self.ios@.take(0) =~= Seq::<IOInfo>::empty());
        }
        while i < self.ios.len()
            invariant
                i <= self.ios.len(),
                step < self.rows_view(),
                step == step_id,
                ios_wf(self.ios@),
                offset == io_offset(self.ios@, i as int),
                self.fits(sim_layout(sim)),
                same_circuit(old(sim), sim),
                sim_kept(sim) == sim_kept(old(sim)),
                sim_values(sim) == self.driven(
                    sim_values(old(sim)),
                    sim_layout(old(sim)),
                    step_id as int,
                    i as int,
                ),
            decreases self.ios.len() - i,
        {
            let io = &self.ios[i];
            let io_words = self.cell_slice(step, i, offset);
            if io.is_input {
                if !is_x(io_words) {
                    let non_x_num_words = width_to_words(io.width);
                    let non_x_words = vstd::slice::slice_subrange(io_words, 0, non_x_num_words);
                    assert(io_fits(sim_layout(sim), self.ios_view()[i as int]));
                    assert(non_x_words@ =~= self.value_at(step_id as int, i as int));
                    sim_set(sim, io.expr, non_x_words, io.width);
                }
            }
            offset = offset + io_words.len();
            i += 1;
        }
        // calculate the output values
        sim_update(sim);
        // check outputs
        let mut failed = false;
        let mut offset: usize = 0;
        let mut i: usize = 0;
        while i < self.ios.len()
            invariant
                i <= self.ios.len(),
                step < self.rows_view(),
                step == step_id,
                ios_wf(self.ios@),
                offset == io_offset(self.ios@, i as int),
                self.fits(sim_layout(sim)),
                failed == exists|j: int|
                    0 <= j < i && self.differs_at(step_id as int, j, sim_values(sim)),
            decreases self.ios.len() - i,
        {
            let io = &self.ios[i];
            let io_words = self.cell_slice(step, i, offset);
            let mut differs = false;
            if !io.is_input {
                if !is_x(io_words) {
                    assert(io_fits(sim_layout(sim), self.ios_view()[i as int]));
                    let non_x_num_words = width_to_words(io.width);
                    let expected = vstd::slice::slice_subrange(io_words, 0, non_x_num_words);
                    assert(expected@ =~= self.value_at(step_id as int, i as int));
                    differs = match sim_get(sim, io.expr) {
                        Some(actual) => !words_equal(expected, actual.as_slice()),
                        None => true,
                    };
                }
            }
            assert(differs == self.differs_at(step_id as int, i as int, sim_values(sim)));
            if differs {
                failed = true;
            }
            offset = offset + io_words.len();
            i += 1;
        }
        proof {
            if failed {
                let j = choose|j: int|
                    0 <= j < self.ios.len() && self.differs_at(
                        step_id as int,
                        j,
                        sim_values(sim),
                    );
                assert(!self.ios_view()[j].is_input && !self.is_x_at(step_id as int, j));
            }
        }
        failed
    }

    /// Runs the testbench on the simulator, from cycle `conf.start` on, and
    /// returns the first cycle in which an output differed from what the
    /// testbench expects. With `at_first_fail` the run ends there; without, it
    /// goes on to its last cycle. In each cycle the inputs are driven and the
    /// signals are settled; between two cycles the simulator goes on by one
    /// cycle.
    pub fn run(&self, sim: &mut Interpreter, conf: &RunConfig) -> (r: RunResult)
        requires
            conf.stop.at_step is Some ==> conf.stop.at_step.unwrap() < self.rows_view(),
            conf.start < conf.stop.end_of(self.rows_view()),
            self.fits(sim_layout(old(sim))),
            sim_executes(old(sim)),
        ensures
            same_circuit(old(sim), final(sim)),
            sim_kept(final(sim)) == sim_kept(old(sim)),
            r.first_fail_at == self.first_failure(
                old(sim),
                sim_values(old(sim)),
                conf.start as int,
                0,
                conf.stop.end_of(self.rows_view()),
            ),
            sim_values(final(sim)) == self.values_at(
                old(sim),
                sim_values(old(sim)),
                conf.start as int,
                Self::last_cycle(conf, r.first_fail_at, conf.stop.end_of(self.rows_view()))
                    - conf.start,
            ),
            match r.first_fail_at {
                Some(f) => conf.start <= f < conf.stop.end_of(self.rows_view())
                    && self.checks_output_at(f as int),
                None => true,
            },
            self.checks_nothing(conf.start as int, conf.stop.end_of(self.rows_view()))
                ==> r.first_fail_at is None,
    {
        let nothing: Vec<ExprRef> = Vec::new();
        self.run_traced(sim, conf, nothing.as_slice()).0
    }

    /// Runs the testbench as `run` does, and hands back what the run shows
    /// of `signals` in each of its cycles, once the signals of the cycle are
    /// settled: one row for each cycle, in order. Without signals there are
    /// no rows.
    pub fn run_traced(&self, sim: &mut Interpreter, conf: &RunConfig, signals: &[ExprRef]) -> (r: (
        RunResult,
        Vec<Vec<Option<Vec<Word>>>>,
    ))
        requires
            conf.stop.at_step is Some ==> conf.stop.at_step.unwrap() < self.rows_view(),
            conf.start < conf.stop.end_of(self.rows_view()),
            self.fits(sim_layout(old(sim))),
            sim_executes(old(sim)),
        ensures
            same_circuit(old(sim), final(sim)),
            sim_kept(final(sim)) == sim_kept(old(sim)),
            r.0.first_fail_at == self.first_failure(
                old(sim),
                sim_values(old(sim)),
                conf.start as int,
                0,
                conf.stop.end_of(self.rows_view()),
            ),
            sim_values(final(sim)) == self.values_at(
                old(sim),
                sim_values(old(sim)),
                conf.start as int,
                Self::last_cycle(conf, r.0.first_fail_at, conf.stop.end_of(self.rows_view()))
                    - conf.start,
            ),
            match r.0.first_fail_at {
                Some(f) => conf.start <= f < conf.stop.end_of(self.rows_view())
                    && self.checks_output_at(f as int),
                None => true,
            },
            self.checks_nothing(conf.start as int, conf.stop.end_of(self.rows_view()))
                ==> r.0.first_fail_at is None,
            r.1.len() == if signals.len() == 0 {
                0
            } else {
                Self::last_cycle(conf, r.0.first_fail_at, conf.stop.end_of(self.rows_view()))
                    - conf.start + 1
            },
            forall|k: int|
                0 <= k < r.1.len() ==> shows(
                    (#[trigger] r.1[k])@,
                    self.values_at(old(sim), sim_values(old(sim)), conf.start as int, k),
                    sim_layout(old(sim)),
                    signals@,
                ),
    {
        let rows = self.step_count();
        let last_step_plus_one: StepInt = match conf.stop.at_step {
            Some(step) => step + 1,
            None => rows,
        };
        let mut first_fail_at: Option<StepInt> = None;
        let mut trace: Vec<Vec<Option<Vec<Word>>>> = Vec::new();
        let mut step_id: StepInt = conf.start;
        while step_id < last_step_plus_one
            invariant
                conf.start <= step_id <= last_step_plus_one <= self.rows_view(),
                last_step_plus_one == conf.stop.end_of(self.rows_view()),
                self.fits(sim_layout(sim)),
                sim_executes(sim),
                same_circuit(old(sim), sim),
                sim_kept(sim) == sim_kept(old(sim)),
                match first_fail_at {
                    Some(f) => conf.start <= f < step_id && self.checks_output_at(f as int),
                    None => true,
                },
                conf.stop.at_first_fail ==> first_fail_at is None,
                step_id == conf.start ==> sim_values(sim) == sim_values(old(sim)),
                step_id > conf.start ==> sim_values(sim) == self.values_at(
                    old(sim),
                    sim_values(old(sim)),
                    conf.start as int,
                    step_id - 1 - conf.start,
                ),
                self.first_failure(
                    old(sim),
                    sim_values(old(sim)),
                    conf.start as int,
                    0,
                    last_step_plus_one as int,
                ) == match first_fail_at {
                    Some(f) => Some(f),
                    None => self.first_failure(
                        old(sim),
                        sim_values(old(sim)),
                        conf.start as int,
                        step_id - conf.start,
                        last_step_plus_one as int,
                    ),
                },
                trace.len() == if signals.len() == 0 {
                    0
                } else {
                    step_id - conf.start
                },
                forall|k: int|
                    0 <= k < trace.len() ==> shows(
                        (#[trigger] trace[k])@,
                        self.values_at(old(sim), sim_values(old(sim)), conf.start as int, k),
                        sim_layout(old(sim)),
                        signals@,
                    ),
            decreases last_step_plus_one - step_id,
        {
            // if this is not the first step, we need to advance the simulation
            if step_id > conf.start {
                sim_step(sim);
            }
            let ghost begun = sim_values(sim);
            let failed = self.do_step(step_id, sim);
            proof {
                assert(sim_values(sim) == self.cycle_values(old(sim), begun, step_id as int));
                assert(sim_values(sim) == self.values_at(
                    old(sim),
                    sim_values(old(sim)),
                    conf.start as int,
                    step_id - conf.start,
                ));
            }
            if signals.len() > 0 {
                trace.push(read_signals(sim, signals));
            }
            if failed && first_fail_at.is_none() {
                first_fail_at = Some(step_id);
            }
            // early exit
            if failed && conf.stop.at_first_fail {
                return (RunResult { first_fail_at }, trace);
            }
            step_id += 1;
        }
        (RunResult { first_fail_at }, trace)
    }
}

/// Two simulators of the same system come to the same values in every cycle
/// of a run.
pub proof fn lemma_same_circuit_values(
    tb: Testbench,
    a: &Interpreter,
    b: &Interpreter,
    values: Map<ExprRef, Seq<Word>>,
    start: int,
    k: int,
)
    requires
        same_circuit(a, b),
    ensures
        tb.values_at(b, values, start, k) == tb.values_at(a, values, start, k),
    decreases k,
{
    if k > 0 {
        lemma_same_circuit_values(tb, a, b, values, start, k - 1);
    }
}

/// Two simulators of the same system fail a run in the same cycle.
pub proof fn lemma_same_circuit_failure(
    tb: Testbench,
    a: &Interpreter,
    b: &Interpreter,
    values: Map<ExprRef, Seq<Word>>,
    start: int,
    k: int,
    end: int,
)
    requires
        same_circuit(a, b),
    ensures
        tb.first_failure(b, values, start, k, end) == tb.first_failure(a, values, start, k, end),
    decreases end - start - k,
{
    if k >= 0 && start + k < end {
        lemma_same_circuit_values(tb, a, b, values, start, k);
        lemma_same_circuit_failure(tb, a, b, values, start, k + 1, end);
    }
}

/// The first failure of a run is a cycle of the run in which some output
/// differs, and no output differs in a cycle of the run before it; a run
/// without a failure has no cycle in which an output differs.
pub proof fn first_failure_is_the_least(
    tb: Testbench,
    sim: &Interpreter,
    values: Map<ExprRef, Seq<Word>>,
    start: int,
    k: int,
    end: int,
)
    requires
        0 <= k,
        0 <= start,
        end <= u64::MAX,
    ensures
        match tb.first_failure(sim, values, start, k, end) {
            Some(f) => {
                &&& start + k <= f < end
                &&& tb.mismatch(f as int, tb.values_at(sim, values, start, f - start))
                &&& forall|c: int|
                    start + k <= c < f ==> !tb.mismatch(
                        c,
                        #[trigger] tb.values_at(sim, values, start, c - start),
                    )
            },
            None => forall|c: int|
                start + k <= c < end ==> !tb.mismatch(
                    c,
                    #[trigger] tb.values_at(sim, values, start, c - start),
                ),
        },
    decreases end - start - k,
{
    if start + k < end {
        first_failure_is_the_least(tb, sim, values, start, k + 1, end);
        if !tb.mismatch(start + k, tb.values_at(sim, values, start, k)) {
            let found = tb.first_failure(sim, values, start, k, end);
            let bound = match found {
                Some(f) => f as int,
                None => end,
            };
            assert forall|c: int| start + k <= c < bound implies !tb.mismatch(
                c,
                #[trigger] tb.values_at(sim, values, start, c - start),
            ) by {
                if c == start + k {
                    assert(c - start == k);
                }
            }
        }
    }
}

/// A testbench of which every cell is a don't-care expects nothing: a run of
/// it finds no failure, whatever the system does.
pub proof fn a_testbench_of_x_checks_nothing(tb: Testbench, start: int, end: int)
    requires
        forall|step: int, i: int|
            start <= step < end && 0 <= i < tb.ios_view().len() ==> #[trigger] tb.is_x_at(step, i),
    ensures
        tb.checks_nothing(start, end),
{
    assert forall|step: int| start <= step < end implies !tb.checks_output_at(step) by {
        if tb.checks_output_at(step) {
            let i = choose|i: int|
                0 <= i < tb.ios_view().len() && !(#[trigger] tb.ios_view()[i]).is_input
                    && !tb.is_x_at(step, i);
            assert(tb.is_x_at(step, i));
        }
    }
}

pub proof fn lemma_x_drives_nothing(
    tb: Testbench,
    values: Map<ExprRef, Seq<Word>>,
    layout: Map<ExprRef, Held>,
    step: int,
    n: int,
)
    requires
        n <= tb.ios_view().len(),
        forall|i: int| 0 <= i < tb.ios_view().len() ==> #[trigger] tb.is_x_at(step, i),
    ensures
        tb.driven(values, layout, step, n) == values,
    decreases n,
{
    if n > 0 {
        lemma_x_drives_nothing(tb, values, layout, step, n - 1);
        assert(tb.is_x_at(step, n - 1));
    }
}

/// In a cycle of which every cell is a don't-care no input is written: the
/// signals are settled as they are.
pub proof fn a_row_of_x_drives_nothing(
    tb: Testbench,
    sim: &Interpreter,
    values: Map<ExprRef, Seq<Word>>,
    step: int,
)
    requires
        forall|i: int| 0 <= i < tb.ios_view().len() ==> #[trigger] tb.is_x_at(step, i),
    ensures
        tb.cycle_values(sim, values, step) == settled(sim, values),
{
    lemma_x_drives_nothing(tb, values, sim_layout(sim), step, tb.ios_view().len() as int);
}

/// A run of a testbench of which every cell is a don't-care writes no
/// input: in every cycle the signals are settled as the simulator left
/// them, and between two cycles the simulator goes on by one cycle.
pub proof fn a_run_of_x_drives_nothing(
    tb: Testbench,
    sim: &Interpreter,
    values: Map<ExprRef, Seq<Word>>,
    start: int,
    k: int,
)
    requires
        0 <= k,
        forall|step: int, i: int|
            start <= step <= start + k && 0 <= i < tb.ios_view().len() ==> #[trigger] tb.is_x_at(
                step,
                i,
            ),
    ensures
        tb.values_at(sim, values, start, k) == if k == 0 {
            settled(sim, values)
        } else {
            settled(sim, stepped(sim, tb.values_at(sim, values, start, k - 1)))
        },
{
    if k == 0 {
        a_row_of_x_drives_nothing(tb, sim, values, start);
    } else {
        a_row_of_x_drives_nothing(
            tb,
            sim,
            stepped(sim, tb.values_at(sim, values, start, k - 1)),
            start + k,
        );
    }
}

} // verus!
