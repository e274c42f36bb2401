//! Writing the repair variables of a simulator.

use crate::bignum::big_to_value_words;
use crate::bignum::value_words;
use crate::repair::AssignmentView;
use crate::repair::RepairAssignment;
use crate::repair::RepairVars;
use crate::sim::Held;
use crate::sim::same_circuit;
use crate::sim::sim_kept;
use crate::sim::sim_layout;
use crate::sim::sim_set;
use crate::sim::sim_takes_value;
use crate::sim::sim_values;
use crate::sim::takes_value;
use crate::sim::values_after_set;
use crate::words::all_zero;
use crate::words::width_to_words;
use crate::words::WidthInt;
use crate::words::Word;
use crate::words::words_for;
use libpatron::ir::ExprRef;
use libpatron::sim::interpreter::Interpreter;
use vstd::arithmetic::power2::pow2;
use vstd::prelude::*;

verus! {

/// One value to write to the simulator.
pub struct SimWrite {
    pub expr: ExprRef,
    pub words: Vec<Word>,
    pub width: WidthInt,
}

/// What a write holds.
pub struct WriteView {
    pub expr: ExprRef,
    pub words: Seq<Word>,
    pub width: WidthInt,
}

impl View for SimWrite {
    type V = WriteView;

    open spec fn view(&self) -> WriteView {
        WriteView { expr: self.expr, words: self.words@, width: self.width }
    }
}

/// What a list of writes holds.
pub open spec fn write_views(list: Seq<SimWrite>) -> Seq<WriteView> {
    Seq::new(list.len(), |i: int| list[i]@)
}

/// The word for a bit.
pub open spec fn bit_word(bit: bool) -> Word {
    if bit {
        1
    } else {
        0
    }
}

/// What an assignment writes to the simulator: 0 or 1 to each change
/// variable, then to each free variable its number, cut down to the width
/// of the variable. Where the assignment and the registry differ in length,
/// the variables that both have are written.
pub open spec fn writes_of(vars: RepairVars, a: AssignmentView) -> Seq<WriteView> {
    let changes = vstd::math::min(vars.change.len() as int, a.change.len() as int);
    let frees = vstd::math::min(vars.free.len() as int, a.free.len() as int);
    Seq::new(
        (changes + frees) as nat,
        |i: int|
            if i < changes {
                WriteView { expr: vars.change[i], words: seq![bit_word(a.change[i])], width: 1 }
            } else {
                WriteView {
                    expr: vars.free[i - changes].0,
                    words: value_words(a.free[i - changes], vars.free[i - changes].1),
                    width: vars.free[i - changes].1,
                }
            },
    )
}

/// The assignment that gives zero to `changes` change variables and `frees`
/// free variables.
pub open spec fn all_clear(changes: int, frees: int) -> AssignmentView {
    AssignmentView {
        change: Seq::new(changes as nat, |i: int| false),
        free: Seq::new(frees as nat, |i: int| 0nat),
    }
}

/// The values of the signals after the first `n` of `writes` are carried out,
/// one after the other.
pub open spec fn after_writes(
    values: Map<ExprRef, Seq<Word>>,
    layout: Map<ExprRef, Held>,
    writes: Seq<WriteView>,
    n: int,
) -> Map<ExprRef, Seq<Word>>
    decreases n,
{
    if n <= 0 {
        values
    } else {
        values_after_set(
            after_writes(values, layout, writes, n - 1),
            layout,
            writes[n - 1].expr,
            writes[n - 1].words,
        )
    }
}

impl RepairVars {
    /// The simulator can take a value for every repair variable.
    pub open spec fn fits(&self, layout: Map<ExprRef, Held>) -> bool {
        &&& forall|i: int|
            0 <= i < self.change.len() ==> takes_value(layout, #[trigger] self.change[i], 1)
        &&& forall|i: int|
            0 <= i < self.free.len() ==> takes_value(
                layout,
                (#[trigger] self.free[i]).0,
                words_for(self.free[i].1 as int),
            )
    }

    /// Whether the simulator can take a value for every repair variable.
    pub fn fits_simulator(&self, sim: &Interpreter) -> (r: bool)
        ensures
            r == self.fits(sim_layout(sim)),
    {
        let mut i: usize = 0;
        while i < self.change.len()
            invariant
                i <= self.change.len(),
                forall|j: int|
                    0 <= j < i ==> takes_value(sim_layout(sim), #[trigger] self.change[j], 1),
            decreases self.change.len() - i,
        {
            if !sim_takes_value(sim, self.change[i], 1) {
                return false;
            }
            i += 1;
        }
        let mut k: usize = 0;
        while k < self.free.len()
            invariant
                k <= self.free.len(),
                forall|j: int|
                    0 <= j < self.change.len() ==> takes_value(
                        sim_layout(sim),
                        #[trigger] self.change[j],
                        1,
                    ),
                forall|j: int|
                    0 <= j < k ==> takes_value(
                        sim_layout(sim),
                        (#[trigger] self.free[j]).0,
                        words_for(self.free[j].1 as int),
                    ),
            decreases self.free.len() - k,
        {
            if !sim_takes_value(sim, self.free[k].0, width_to_words(self.free[k].1)) {
                return false;
            }
            k += 1;
        }
        true
    }

    /// What an assignment writes to the simulator, write by write.
    pub fn writes(&self, assignment: &RepairAssignment) -> (r: Vec<SimWrite>)
        requires
            self.wf(),
        ensures
            write_views(r@) == writes_of(*self, assignment@),
    {
        let mut out: Vec<SimWrite> = Vec::new();
        let ghost expected = writes_of(*self, assignment@);
        let mut i: usize = 0;
        while i < self.change.len() && i < assignment.change.len()
            invariant
                i <= self.change.len(),
                i <= assignment.change.len(),
                expected == writes_of(*self, assignment@),
                out.len() == i,
                forall|j: int| 0 <= j < i ==> (#[trigger] out[j])@ == expected[j],
            decreases self.change.len() - i,
        {
            let num_value: Word = if assignment.change[i] { 1 } else { 0 };
            let mut words: Vec<Word> = Vec::new();
            words.push(num_value);
            proof {
                assert(words@ =~= seq![num_value]);
            }
            out.push(SimWrite { expr: self.change[i], words, width: 1 });
            i += 1;
        }
        let changes = i;
        let mut k: usize = 0;
        while k < self.free.len() && k < assignment.free.len()
            invariant
                self.wf(),
                k <= self.free.len(),
                k <= assignment.free.len(),
                expected == writes_of(*self, assignment@),
                changes == vstd::math::min(
                    self.change.len() as int,
                    assignment.change.len() as int,
                ),
                out.len() == changes + k,
                forall|j: int| 0 <= j < out.len() ==> (#[trigger] out[j])@ == expected[j],
            decreases self.free.len() - k,
        {
            let (sym, width) = self.free[k];
            let words = big_to_value_words(&assignment.free[k], width);
            out.push(SimWrite { expr: sym, words, width });
            k += 1;
        }
        proof {
            assert(write_views(out@) =~= expected);
        }
        out
    }

    /// What clearing writes to the simulator: zero to every repair variable.
    pub fn clear_writes(&self) -> (r: Vec<SimWrite>)
        requires
            self.wf(),
        ensures
            write_views(r@) == writes_of(
                *self,
                all_clear(self.change.len() as int, self.free.len() as int),
            ),
    {
        let mut out: Vec<SimWrite> = Vec::new();
        let ghost expected = writes_of(
            *self,
            all_clear(self.change.len() as int, self.free.len() as int),
        );
        let mut i: usize = 0;
        while i < self.change.len()
            invariant
                i <= self.change.len(),
                expected == writes_of(
                    *self,
                    all_clear(self.change.len() as int, self.free.len() as int),
                ),
                out.len() == i,
                forall|j: int| 0 <= j < i ==> (#[trigger] out[j])@ == expected[j],
            decreases self.change.len() - i,
        {
            let mut words: Vec<Word> = Vec::new();
            words.push(0);
            proof {
                assert(words@ =~= seq![0u64]);
            }
            out.push(SimWrite { expr: self.change[i], words, width: 1 });
            i += 1;
        }
        let mut k: usize = 0;
        while k < self.free.len()
            invariant
                self.wf(),
                k <= self.free.len(),
                expected == writes_of(
                    *self,
                    all_clear(self.change.len() as int, self.free.len() as int),
                ),
                out.len() == self.change.len() + k,
                forall|j: int| 0 <= j < out.len() ==> (#[trigger] out[j])@ == expected[j],
            decreases self.free.len() - k,
        {
            let (sym, width) = self.free[k];
            let words = zero_words(width_to_words(width));
            proof {
                lemma_zero_value_words(width);
                assert(words@ =~= value_words(0, width));
            }
            out.push(SimWrite { expr: sym, words, width });
            k += 1;
        }
        proof {
            assert(write_views(out@) =~= expected);
        }
        out
    }

    /// Carries out the writes, one after the other.
    fn write_all(&self, sim: &mut Interpreter, writes: &Vec<SimWrite>, Ghost(a): Ghost<
        AssignmentView,
    >)
        requires
            self.wf(),
            self.fits(sim_layout(old(sim))),
            write_views(writes@) == writes_of(*self, a),
        ensures
            same_circuit(old(sim), final(sim)),
            sim_kept(final(sim)) == sim_kept(old(sim)),
            sim_values(final(sim)) == after_writes(
                sim_values(old(sim)),
                sim_layout(old(sim)),
                writes_of(*self, a),
                writes_of(*self, a).len() as int,
            ),
    {
        let ghost expected = writes_of(*self, a);
        let ghost changes = vstd::math::min(self.change.len() as int, a.change.len() as int);
        let mut i: usize = 0;
        while i < writes.len()
            invariant
                self.wf(),
                i <= writes.len(),
                expected == writes_of(*self, a),
                changes == vstd::math::min(self.change.len() as int, a.change.len() as int),
                write_views(writes@) == expected,
                self.fits(sim_layout(sim)),
                same_circuit(old(sim), sim),
                sim_kept(sim) == sim_kept(old(sim)),
                sim_values(sim) == after_writes(
                    sim_values(old(sim)),
                    sim_layout(old(sim)),
                    expected,
                    i as int,
                ),
            decreases writes.len() - i,
        {
            let w = &writes[i];
            proof {
                assert(write_views(writes@).len() == writes.len());
                assert(write_views(writes@)[i as int] == writes@[i as int]@);
                assert(writes@[i as int]@ == expected[i as int]);
                if i < changes {
                    assert(takes_value(sim_layout(sim), self.change[i as int], 1));
                } else {
                    let j = i - changes;
                    assert(takes_value(
                        sim_layout(sim),
                        self.free[j].0,
                        words_for(self.free[j].1 as int),
                    ));
                    assert(1 <= self.free[j].1 <= crate::testbench::MAX_WIDTH);
                }
            }
            sim_set(sim, w.expr, w.words.as_slice(), w.width);
            i += 1;
        }
    }

    /// Gives the repair variables of the simulator the values of the
    /// assignment.
    pub fn apply_to_sim(&self, sim: &mut Interpreter, assignment: &RepairAssignment)
        requires
            self.wf(),
            self.fits(sim_layout(old(sim))),
        ensures
            same_circuit(old(sim), final(sim)),
            sim_kept(final(sim)) == sim_kept(old(sim)),
            sim_values(final(sim)) == after_writes(
                sim_values(old(sim)),
                sim_layout(old(sim)),
                writes_of(*self, assignment@),
                writes_of(*self, assignment@).len() as int,
            ),
    {
        let writes = self.writes(assignment);
        self.write_all(sim, &writes, Ghost(assignment@));
    }

    /// Sets every repair variable of the simulator to zero: the system as it
    /// is without any change.
    pub fn clear_in_sim(&self, sim: &mut Interpreter)
        requires
            self.wf(),
            self.fits(sim_layout(old(sim))),
        ensures
            same_circuit(old(sim), final(sim)),
            sim_kept(final(sim)) == sim_kept(old(sim)),
            sim_values(final(sim)) == after_writes(
                sim_values(old(sim)),
                sim_layout(old(sim)),
                writes_of(*self, all_clear(self.change.len() as int, self.free.len() as int)),
                self.change.len() + self.free.len(),
            ),
    {
        let writes = self.clear_writes();
        self.write_all(
            sim,
            &writes,
            Ghost(all_clear(self.change.len() as int, self.free.len() as int)),
        );
    }
}

/// `n` words that are zero.
pub fn zero_words(n: usize) -> (r: Vec<Word>)
    ensures
        r.len() == n,
        all_zero(r@),
{
    let mut out: Vec<Word> = Vec::new();
    let mut i: usize = 0;
    while i < n
        invariant
            i <= n,
            out.len() == i,
            all_zero(out@),
        decreases n - i,
    {
        out.push(0);
        i += 1;
    }
    out
}

/// The words of a value for the number zero are zero.
pub proof fn lemma_zero_value_words(width: WidthInt)
    ensures
        value_words(0, width).len() == words_for(width as int),
        all_zero(value_words(0, width)),
{
    vstd::arithmetic::power2::lemma_pow2_pos(width as nat);
    assert(0nat % pow2(width as nat) == 0) by (nonlinear_arith)
        requires
            pow2(width as nat) > 0,
    ;
    assert forall|k: int| 0 <= k < words_for(width as int) implies #[trigger] value_words(
        0,
        width,
    )[k] == 0 by {
        vstd::arithmetic::power2::lemma_pow2_pos((64 * k) as nat);
        let d = pow2((64 * k) as nat);
        assert(0nat / d == 0) by (nonlinear_arith)
            requires
                d > 0,
        ;
    }
}

/// Zero words are stored as zero words.
pub proof fn lemma_stored_zero(words: Seq<Word>, n: int, width: WidthInt)
    requires
        all_zero(words),
    ensures
        all_zero(crate::sim::stored(words, n, width)),
{
    let mask = crate::sim::last_word_mask(width);
    assert(0u64 & mask == 0) by (bit_vector);
}

/// After the first `n` writes of zeros, a signal that one of them is for is
/// zero.
proof fn lemma_zero_after_writes(
    values: Map<ExprRef, Seq<Word>>,
    layout: Map<ExprRef, Held>,
    writes: Seq<WriteView>,
    n: int,
    e: ExprRef,
)
    requires
        0 <= n <= writes.len(),
        forall|i: int| 0 <= i < writes.len() ==> all_zero((#[trigger] writes[i]).words),
        exists|k: int| 0 <= k < n && (#[trigger] writes[k]).expr == e,
        layout.contains_key(e),
    ensures
        after_writes(values, layout, writes, n).contains_key(e),
        all_zero(after_writes(values, layout, writes, n)[e]),
    decreases n,
{
    if writes[n - 1].expr == e {
        lemma_stored_zero(writes[n - 1].words, layout[e].words as int, layout[e].width);
    } else {
        let k = choose|k: int| 0 <= k < n && (#[trigger] writes[k]).expr == e;
        assert(k < n - 1);
        lemma_zero_after_writes(values, layout, writes, n - 1, e);
    }
}

/// After clearing, every repair variable that the simulator holds is zero.
pub proof fn cleared_variables_are_zero(
    vars: RepairVars,
    values: Map<ExprRef, Seq<Word>>,
    layout: Map<ExprRef, Held>,
    e: ExprRef,
)
    requires
        vars.holds(e),
        layout.contains_key(e),
    ensures
        all_zero(
            after_writes(
                values,
                layout,
                writes_of(vars, all_clear(vars.change.len() as int, vars.free.len() as int)),
                vars.change.len() + vars.free.len(),
            )[e],
        ),
{
    let changes = vars.change.len() as int;
    let writes = writes_of(vars, all_clear(changes, vars.free.len() as int));
    assert forall|i: int| 0 <= i < writes.len() implies all_zero((#[trigger] writes[i]).words) by {
        if i >= changes {
            lemma_zero_value_words(vars.free[i - changes].1);
        }
    }
    if vars.change@.contains(e) {
        let k = choose|k: int| 0 <= k < vars.change.len() && vars.change[k] == e;
        assert(writes[k].expr == e);
    } else {
        let k = choose|k: int| 0 <= k < vars.free.len() && (#[trigger] vars.free[k]).0 == e;
        assert(writes[changes + k].expr == e);
    }
    lemma_zero_after_writes(values, layout, writes, writes.len() as int, e);
}

} // verus!
