//! What a search asserts of the signals of the system: the values that the
//! testbench gives, and the values that the states have in the simulator.

use crate::repair::RepairVars;
use crate::sim::Held;
use crate::sim::is_scalar;
use crate::sim::MAX_SIM_WIDTH;
use crate::sim::sim_element_words;
use crate::sim::sim_get;
use crate::sim::sim_holds_scalar;
use crate::sim::sim_layout;
use crate::sim::sim_values;
use crate::system::name_bytes;
use crate::system::StateInfo;
use crate::testbench::io_offset;
use crate::testbench::IOInfo;
use crate::testbench::ios_wf;
use crate::testbench::StepInt;
use crate::testbench::Testbench;
use crate::words::is_x;
use crate::words::width_to_words;
use crate::words::WidthInt;
use crate::words::Word;
use crate::words::words_for;
use libpatron::ir::ExprRef;
use libpatron::ir::value::ValueRef;
use libpatron::sim::interpreter::Interpreter;
use vstd::prelude::*;
use vstd::string::StringExecFns;

verus! {

/// Bit `k` of a value, counted from the least significant bit.
pub open spec fn bit_at(words: Seq<Word>, k: int) -> bool {
    (words[k / 64] >> ((k % 64) as u64)) & 1 == 1
}

/// The bits of a value of `width` bits as characters `0` and `1`, the most
/// significant bit first.
pub open spec fn bits_of(words: Seq<Word>, width: int) -> Seq<char> {
    Seq::new(
        width as nat,
        |i: int|
            if bit_at(words, width - 1 - i) {
                '1'
            } else {
                '0'
            },
    )
}

/// `ValueRef::to_bit_string` of a `ValueRef` of the given words and width:
/// the bits of the value, the most significant first.
#[verifier::external_body]
pub(crate) fn bit_string(words: &[Word], width: WidthInt) -> (r: String)
    requires
        width <= MAX_SIM_WIDTH,
        words.len() == words_for(width as int),
    ensures
        r@ == bits_of(words@, width as int),
{
    ValueRef::new(words, width).to_bit_string()
}

/// The signal `expr` is worth `bits` at cycle `step`.
pub struct Constraint {
    pub expr: ExprRef,
    pub step: StepInt,
    /// The bits of the value, the most significant first.
    pub bits: String,
}

/// What a constraint holds.
pub struct ConstraintView {
    pub expr: ExprRef,
    pub step: StepInt,
    pub bits: Seq<char>,
}

impl View for Constraint {
    type V = ConstraintView;

    open spec fn view(&self) -> ConstraintView {
        ConstraintView { expr: self.expr, step: self.step, bits: self.bits@ }
    }
}

/// What a list of constraints holds.
pub open spec fn constraint_views(list: Seq<Constraint>) -> Seq<ConstraintView> {
    Seq::new(list.len(), |i: int| list[i]@)
}

/// How a value is written for the solver.
#[derive(Debug, PartialEq, Eq)]
pub enum SmtLiteral {
    /// The boolean constant for the single bit 0.
    False,
    /// The boolean constant for the single bit 1.
    True,
    /// A bit-vector literal: `#b` and the bits.
    BitVec(String),
}

/// The literal for a value with the given bits. The two values of one bit
/// are written as boolean constants.
pub fn bit_string_to_smt(bits: &str) -> (r: SmtLiteral)
    ensures
        match r {
            SmtLiteral::False => name_bytes(bits@) == seq![48u8],
            SmtLiteral::True => name_bytes(bits@) == seq![49u8],
            SmtLiteral::BitVec(text) => {
                &&& name_bytes(bits@) != seq![48u8]
                &&& name_bytes(bits@) != seq![49u8]
                &&& text@ == "#b"@ + bits@
            },
        },
{
    let bytes = bits.as_bytes();
    if bytes.len() == 1 && bytes[0] == 48 {
        assert(bytes@ =~= seq![48u8]);
        SmtLiteral::False
    } else if bytes.len() == 1 && bytes[0] == 49 {
        assert(bytes@ =~= seq![49u8]);
        SmtLiteral::True
    } else {
        let mut text = String::from_str("#b");
        text.append(bits);
        SmtLiteral::BitVec(text)
    }
}

impl Testbench {
    /// What the testbench says of the first `n` inputs and outputs at cycle
    /// `step`: for each cell that is no don't-care, that the signal has the
    /// value of the cell.
    pub open spec fn step_constraints(&self, step: int, n: int) -> Seq<ConstraintView>
        decreases n,
    {
        if n <= 0 {
            Seq::empty()
        } else if self.is_x_at(step, n - 1) {
            self.step_constraints(step, n - 1)
        } else {
            self.step_constraints(step, n - 1).push(
                ConstraintView {
                    expr: self.ios_view()[n - 1].expr,
                    step: step as StepInt,
                    bits: bits_of(self.value_at(step, n - 1), self.ios_view()[n - 1].width as int),
                },
            )
        }
    }

    /// What the testbench says of the `count` cycles from `start` on.
    pub open spec fn range_constraints(&self, start: int, count: int) -> Seq<ConstraintView>
        decreases count,
    {
        if count <= 0 {
            Seq::empty()
        } else {
            self.range_constraints(start, count - 1) + self.step_constraints(
                start + count - 1,
                self.ios_view().len() as int,
            )
        }
    }

    /// What the testbench says of the cycles `start_step` to `end_step`:
    /// the equalities that a search asserts for them.
    pub fn apply_constraints(&self, start_step: StepInt, end_step: StepInt) -> (r: Vec<Constraint>)
        requires
            end_step < self.rows_view(),
        ensures
            constraint_views(r@) == self.range_constraints(
                start_step as int,
                end_step - start_step + 1,
            ),
    {
        proof {
            use_type_invariant(self);
        }
        let mut out: Vec<Constraint> = Vec::new();
        if start_step > end_step {
            assert(constraint_views(out@) =~= Seq::<ConstraintView>::empty());
            return out;
        }
        let mut step_id: StepInt = start_step;
        proof {
            assert(constraint_views(out@) =~= self.range_constraints(start_step as int, 0));
        }
        while step_id <= end_step
            invariant
                start_step <= step_id <= end_step + 1,
                end_step < self.rows_view(),
                ios_wf(self.ios@),
                constraint_views(out@) == self.range_constraints(
                    start_step as int,
                    step_id - start_step,
                ),
            decreases end_step + 1 - step_id,
        {
            let ghost before = constraint_views(out@);
            // apply all io constraints in this step
            let mut offset: usize = 0;
            let mut i: usize = 0;
            proof {
                assert(self.ios@.take(0) =~= Seq::<IOInfo>::empty());
                assert(before + self.step_constraints(step_id as int, 0) =~= before);
            }
            while i < self.ios.len()
                invariant
                    i <= self.ios.len(),
                    step_id < self.rows_view(),
                    ios_wf(self.ios@),
                    offset == io_offset(self.ios@, i as int),
                    constraint_views(out@) == before + self.step_constraints(
                        step_id as int,
                        i as int,
                    ),
                decreases self.ios.len() - i,
            {
                let io = &self.ios[i];
                let io_words = self.cell_slice(step_id as usize, i, offset);
                if !is_x(io_words) {
                    let non_x_num_words = width_to_words(io.width);
                    let non_x_words = vstd::slice::slice_subrange(io_words, 0, non_x_num_words);
                    let value = bit_string(non_x_words, io.width);
                    let ghost views = constraint_views(out@);
                    let c = Constraint { expr: io.expr, step: step_id, bits: value };
                    out.push(c);
                    proof {
                        assert(non_x_words@ =~= self.value_at(step_id as int, i as int));
                        assert(constraint_views(out@) =~= views.push(c@));
                        assert(before + self.step_constraints(step_id as int, i as int).push(c@)
                            =~= (before + self.step_constraints(step_id as int, i as int)).push(
                            c@,
                        ));
                    }
                }
                offset = offset + io_words.len();
                i += 1;
            }
            step_id += 1;
        }
        out
    }
}

/// What a testbench says of one of its cycles, it also says of every range
/// of cycles that holds the cycle: a search over the range asserts
/// everything that a check of the one cycle asserts.
pub proof fn constraints_of_a_cycle_are_among_those_of_a_range(
    tb: Testbench,
    start: int,
    count: int,
    step: int,
    k: int,
)
    requires
        start <= step < start + count,
        0 <= k < tb.range_constraints(step, 1).len(),
    ensures
        tb.range_constraints(start, count).contains(tb.range_constraints(step, 1)[k]),
    decreases count,
{
    let all = tb.ios_view().len() as int;
    assert(tb.range_constraints(step, 0) =~= Seq::<ConstraintView>::empty());
    assert(tb.range_constraints(step, 1) =~= tb.step_constraints(step, all));
    let front = tb.range_constraints(start, count - 1);
    let last = tb.step_constraints(start + count - 1, all);
    if step == start + count - 1 {
        assert((front + last)[front.len() + k] == last[k]);
    } else {
        constraints_of_a_cycle_are_among_those_of_a_range(tb, start, count - 1, step, k);
        let j = choose|j: int| 0 <= j < front.len() && front[j] == tb.range_constraints(step, 1)[k];
        assert((front + last)[j] == front[j]);
    }
}

/// The values that `model` gives to the signals at the cycles satisfy the
/// constraints.
pub open spec fn satisfies(
    model: Map<(ExprRef, StepInt), Seq<char>>,
    constraints: Seq<ConstraintView>,
) -> bool {
    forall|k: int|
        0 <= k < constraints.len() ==> model.contains_key(
            ((#[trigger] constraints[k]).expr, constraints[k].step),
        ) && model[(constraints[k].expr, constraints[k].step)] == constraints[k].bits
}

/// Values that satisfy what the testbench says of a range of cycles satisfy
/// what it says of each cycle of the range. So where nothing satisfies what
/// the testbench says of the failing cycle, nothing satisfies what it says
/// of the whole testbench: a search over the whole testbench cannot succeed
/// where the check of the failing cycle alone fails.
pub proof fn a_model_of_a_range_is_a_model_of_each_cycle(
    tb: Testbench,
    model: Map<(ExprRef, StepInt), Seq<char>>,
    start: int,
    count: int,
    step: int,
)
    requires
        start <= step < start + count,
        satisfies(model, tb.range_constraints(start, count)),
    ensures
        satisfies(model, tb.range_constraints(step, 1)),
{
    let one = tb.range_constraints(step, 1);
    let all = tb.range_constraints(start, count);
    assert forall|k: int| 0 <= k < one.len() implies model.contains_key(
        ((#[trigger] one[k]).expr, one[k].step),
    ) && model[(one[k].expr, one[k].step)] == one[k].bits by {
        constraints_of_a_cycle_are_among_those_of_a_range(tb, start, count, step, k);
        let j = choose|j: int| 0 <= j < all.len() && all[j] == one[k];
        assert(model.contains_key((all[j].expr, all[j].step)));
    }
}

/// The states that a search pins to their values in the simulator: those
/// without an initial value that are no repair variables.
pub open spec fn pinned(states: Seq<StateInfo>, vars: RepairVars) -> Seq<StateInfo>
    decreases states.len(),
{
    if states.len() == 0 {
        Seq::empty()
    } else if is_pinned(states.last(), vars) {
        pinned(states.drop_last(), vars).push(states.last())
    } else {
        pinned(states.drop_last(), vars)
    }
}

/// The state has no initial value and is no repair variable.
pub open spec fn is_pinned(state: StateInfo, vars: RepairVars) -> bool {
    !state.has_init && !vars.holds(state.symbol)
}

/// The simulator holds the state as a single value of the width of the
/// state.
pub open spec fn state_fits(state: StateInfo, layout: Map<ExprRef, Held>) -> bool {
    &&& is_scalar(layout, state.symbol)
    &&& state.width is Some
    &&& state.width.unwrap() <= MAX_SIM_WIDTH
    &&& layout[state.symbol].words == words_for(state.width.unwrap() as int)
}

/// The simulator holds every pinned state as a single value of its width.
pub open spec fn pinned_fit(
    states: Seq<StateInfo>,
    vars: RepairVars,
    layout: Map<ExprRef, Held>,
) -> bool {
    forall|i: int|
        0 <= i < states.len() && is_pinned(#[trigger] states[i], vars) ==> state_fits(
            states[i],
            layout,
        )
}

/// Whether the simulator holds every pinned state as a single value of its
/// width.
pub fn pinned_fit_simulator(states: &[StateInfo], vars: &RepairVars, sim: &Interpreter) -> (r: bool)
    ensures
        r == pinned_fit(states@, *vars, sim_layout(sim)),
{
    let mut i: usize = 0;
    while i < states.len()
        invariant
            i <= states.len(),
            forall|j: int|
                0 <= j < i && is_pinned(#[trigger] states[j], *vars) ==> state_fits(
                    states[j],
                    sim_layout(sim),
                ),
        decreases states.len() - i,
    {
        let state = &states[i];
        if !state.has_init && !vars.is_repair_var(state.symbol) {
            let fits = match state.width {
                Some(width) => width <= MAX_SIM_WIDTH && sim_holds_scalar(sim, state.symbol)
                    && sim_element_words(sim, state.symbol, 0) == Some(width_to_words(width)),
                None => false,
            };
            if !fits {
                assert(is_pinned(states[i as int], *vars));
                assert(!state_fits(states[i as int], sim_layout(sim)));
                return false;
            }
        }
        i += 1;
    }
    true
}

/// The constraint that pins `state` at cycle `step` to the value that it has
/// among `values`.
pub open spec fn pin_of(
    state: StateInfo,
    step: StepInt,
    values: Map<ExprRef, Seq<Word>>,
) -> ConstraintView {
    ConstraintView {
        expr: state.symbol,
        step,
        bits: bits_of(values[state.symbol], state.width.unwrap() as int),
    }
}

/// The constraints that pin the starting state of a search to the state of
/// the simulator: one for every state without an initial value that is no
/// repair variable, with the value that the state has in the simulator.
pub fn constrain_starting_state(
    states: &[StateInfo],
    vars: &RepairVars,
    sim: &Interpreter,
    start_step: StepInt,
) -> (r: Vec<Constraint>)
    requires
        pinned_fit(states@, *vars, sim_layout(sim)),
    ensures
        r.len() == pinned(states@, *vars).len(),
        forall|i: int|
            0 <= i < r.len() ==> (#[trigger] r[i])@ == pin_of(
                pinned(states@, *vars)[i],
                start_step,
                sim_values(sim),
            ),
{
    let mut out: Vec<Constraint> = Vec::new();
    let mut i: usize = 0;
    proof {
        assert(states@.take(0) =~= Seq::<StateInfo>::empty());
    }
    while i < states.len()
        invariant
            i <= states.len(),
            pinned_fit(states@, *vars, sim_layout(sim)),
            out.len() == pinned(states@.take(i as int), *vars).len(),
            forall|j: int|
                0 <= j < out.len() ==> (#[trigger] out[j])@ == pin_of(
                    pinned(states@.take(i as int), *vars)[j],
                    start_step,
                    sim_values(sim),
                ),
        decreases states.len() - i,
    {
        let state = &states[i];
        proof {
            assert(states@.take(i + 1).drop_last() =~= states@.take(i as int));
            assert(states@.take(i + 1).last() == states@[i as int]);
        }
        if !state.has_init && !vars.is_repair_var(state.symbol) {
            assert(is_pinned(states[i as int], *vars));
            assert(state_fits(states[i as int], sim_layout(sim)));
            match (sim_get(sim, state.symbol), state.width) {
                (Some(value), Some(width)) => {
                    let bits = bit_string(value.as_slice(), width);
                    out.push(Constraint { expr: state.symbol, step: start_step, bits });
                },
                _ => {},
            }
        }
        i += 1;
    }
    proof {
        assert(states@.take(states.len() as int) =~= states@);
    }
    out
}

} // verus!
