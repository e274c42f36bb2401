//! Giving a value to the inputs for which a testbench has none.

use crate::session::InitKind;
use crate::sim::generate_value;
use crate::sim::generator_given;
use crate::sim::generator_seed;
use crate::sim::new_generator;
use crate::sim::random_value;
use crate::sim::seed_of;
use crate::testbench::io_offset;
use crate::testbench::IOInfo;
use crate::testbench::ios_wf;
use crate::testbench::lemma_io_offset;
use crate::testbench::lemma_total_words_nonneg;
use crate::testbench::Testbench;
use crate::testbench::total_words;
use crate::words::all_ones;
use crate::words::all_zero;
use crate::words::is_x;
use crate::words::width_to_words;
use crate::words::Word;
use crate::words::words_for;
use crate::words::words_value;
use vstd::arithmetic::power2::pow2;
use vstd::prelude::*;

verus! {

/// The words of the cell of entry `i` in cycle `step`, in rows `data` that
/// are laid out for `ios`.
pub open spec fn cell_in(data: Seq<Word>, ios: Seq<IOInfo>, step: int, i: int) -> Seq<Word> {
    let start = step * total_words(ios) + io_offset(ios, i);
    data.subrange(start, start + ios[i].words)
}

/// Number of words that filling asks of the generator for a cell: those of
/// a value, for the don't-care cell of an input.
pub open spec fn asked_for(cell: Seq<Word>, io: IOInfo) -> int {
    if io.is_input && all_ones(cell) {
        words_for(io.width as int)
    } else {
        0
    }
}

/// Number of words that filling asks of the generator for the cells of
/// cycle `step` before entry `i`.
pub open spec fn asked_in_row(data: Seq<Word>, ios: Seq<IOInfo>, step: int, i: int) -> int
    decreases i,
{
    if i <= 0 {
        0
    } else {
        asked_in_row(data, ios, step, i - 1) + asked_for(
            cell_in(data, ios, step, i - 1),
            ios[i - 1],
        )
    }
}

/// Number of words that filling asks of the generator for the cycles before
/// `step`.
pub open spec fn asked_in_rows(data: Seq<Word>, ios: Seq<IOInfo>, step: int) -> int
    decreases step,
{
    if step <= 0 {
        0
    } else {
        asked_in_rows(data, ios, step - 1) + asked_in_row(
            data,
            ios,
            step - 1,
            ios.len() as int,
        )
    }
}

/// Number of words that filling asks of the generator before it comes to
/// entry `i` of cycle `step`: it goes through the cycles in order, and
/// through the entries of each in order.
pub open spec fn asked_before(data: Seq<Word>, ios: Seq<IOInfo>, step: int, i: int) -> int {
    asked_in_rows(data, ios, step) + asked_in_row(data, ios, step, i)
}

/// What filling does to a cell: the cell of an output, and one that holds a
/// value, stays as it is. The don't-care cell of an input gets a value and
/// keeps the words past the value. The value fits the width of the input;
/// it is zero where there is no seed, and else the random value that
/// follows from the seed and from `given`, the number of words that the
/// generator gave before.
pub open spec fn filled_cell(
    before: Seq<Word>,
    after: Seq<Word>,
    io: IOInfo,
    seed: Option<u64>,
    given: int,
) -> bool {
    if io.is_input && all_ones(before) {
        let value_words = words_for(io.width as int);
        &&& after.len() == before.len()
        &&& after.skip(value_words) == before.skip(value_words)
        &&& words_value(after.take(value_words)) < pow2(io.width as nat)
        &&& match seed {
            None => all_zero(after.take(value_words)),
            Some(seed) => after.take(value_words) == random_value(seed, given as nat, io.width),
        }
    } else {
        after == before
    }
}

pub proof fn lemma_offset_within(ios: Seq<IOInfo>, b: int)
    requires
        0 <= b <= ios.len(),
    ensures
        0 <= io_offset(ios, b) <= total_words(ios),
    decreases ios.len() - b,
{
    lemma_total_words_nonneg(ios.take(b));
    if b < ios.len() {
        lemma_io_offset(ios, b);
        lemma_offset_within(ios, b + 1);
    } else {
        assert(ios.take(b) =~= ios);
    }
}

pub proof fn lemma_offsets_ordered(ios: Seq<IOInfo>, a: int, b: int)
    requires
        0 <= a <= b <= ios.len(),
    ensures
        0 <= io_offset(ios, a) <= io_offset(ios, b) <= total_words(ios),
    decreases b - a,
{
    lemma_offset_within(ios, a);
    lemma_offset_within(ios, b);
    if a < b {
        lemma_io_offset(ios, a);
        lemma_offsets_ordered(ios, a + 1, b);
    }
}

/// Where the cell of entry `i` in cycle `step` lies among the words of
/// `rows` rows.
pub proof fn lemma_cell_bounds(ios: Seq<IOInfo>, rows: int, step: int, i: int)
    requires
        0 <= step < rows,
        0 <= i < ios.len(),
    ensures
        0 <= step * total_words(ios) + io_offset(ios, i),
        step * total_words(ios) + io_offset(ios, i) + ios[i].words <= (step + 1) * total_words(ios),
        (step + 1) * total_words(ios) <= rows * total_words(ios),
{
    lemma_offsets_ordered(ios, i, i + 1);
    lemma_io_offset(ios, i);
    let sw = total_words(ios);
    assert(0 <= step * sw) by (nonlinear_arith)
        requires
            0 <= step,
            0 <= sw,
    ;
    assert((step + 1) * sw == step * sw + sw) by (nonlinear_arith);
    assert((step + 1) * sw <= rows * sw) by (nonlinear_arith)
        requires
            step + 1 <= rows,
            0 <= sw,
    ;
}

/// A cell that comes before another ends where the other starts, or before.
pub proof fn lemma_cells_ordered(ios: Seq<IOInfo>, s: int, j: int, step: int, i: int)
    requires
        0 <= s <= step,
        0 <= j < ios.len(),
        0 <= i <= ios.len(),
        s < step || j < i,
    ensures
        s * total_words(ios) + io_offset(ios, j) + ios[j].words <= step * total_words(ios)
            + io_offset(ios, i),
{
    let sw = total_words(ios);
    lemma_io_offset(ios, j);
    if s == step {
        lemma_offsets_ordered(ios, j + 1, i);
    } else {
        lemma_offsets_ordered(ios, j + 1, ios.len() as int);
        lemma_offsets_ordered(ios, 0, i);
        assert((s + 1) * sw <= step * sw) by (nonlinear_arith)
            requires
                s + 1 <= step,
                0 <= sw,
        ;
        assert((s + 1) * sw == s * sw + sw) by (nonlinear_arith);
    }
}

impl Testbench {
    /// Writes `value` over the words from `pos` on.
    fn write_words(&mut self, pos: usize, value: &Vec<Word>)
        requires
            pos + value.len() <= old(self).data_view().len(),
        ensures
            final(self).ios_view() == old(self).ios_view(),
            final(self).missing_outputs_view() == old(self).missing_outputs_view(),
            final(self).rows_view() == old(self).rows_view(),
            final(self).step_words == old(self).step_words,
            final(self).data_view().len() == old(self).data_view().len(),
            forall|p: int|
                0 <= p < final(self).data_view().len() ==> final(self).data_view()[p] == if pos <= p
                    < pos + value.len() {
                    value[p - pos]
                } else {
                    old(self).data_view()[p]
                },
    {
        let mut k: usize = 0;
        while k < value.len()
            invariant
                k <= value.len(),
                pos + value.len() <= self.data@.len(),
                self.ios@ == old(self).ios@,
                self.missing_outputs@ == old(self).missing_outputs@,
                self.rows == old(self).rows,
                self.step_words == old(self).step_words,
                self.data@.len() == old(self).data@.len(),
                forall|p: int|
                    0 <= p < self.data@.len() ==> self.data@[p] == if pos <= p < pos + k {
                        value[p - pos]
                    } else {
                        old(self).data@[p]
                    },
            decreases value.len() - k,
        {
            proof {
                use_type_invariant(&*self);
            }
            self.data[pos + k] = value[k];
            k += 1;
        }
    }

    /// Replaces all X assignments to inputs with a random or zero value.
    pub fn define_inputs(&mut self, kind: InitKind)
        ensures
            final(self).ios_view() == old(self).ios_view(),
            final(self).missing_outputs_view() == old(self).missing_outputs_view(),
            final(self).rows_view() == old(self).rows_view(),
            final(self).data_view().len() == old(self).data_view().len(),
            forall|step: int, i: int|
                0 <= step < old(self).rows_view() && 0 <= i < old(self).ios_view().len()
                    ==> filled_cell(
                    old(self).cell(step, i),
                    #[trigger] final(self).cell(step, i),
                    old(self).ios_view()[i],
                    seed_of(kind),
                    asked_before(old(self).data_view(), old(self).ios_view(), step, i),
                ),
    {
        proof {
            use_type_invariant(&*self);
        }
        let ghost orig = self.data@;
        let ghost ios = self.ios@;
        let ghost seed = seed_of(kind);
        let mut generator = new_generator(kind);
        let rows = self.rows;
        let count = self.ios.len();
        let mut step: usize = 0;
        while step < rows
            invariant
                step <= rows,
                rows == self.rows,
                count == ios.len(),
                self.ios@ == ios,
                ios_wf(ios),
                self.missing_outputs@ == old(self).missing_outputs@,
                self.data@.len() == orig.len(),
                orig.len() == rows * total_words(ios),
                self.step_words == total_words(ios),
                generator_seed(&generator) == seed,
                seed is None || generator_given(&generator) == asked_in_rows(
                    orig,
                    ios,
                    step as int,
                ),
                forall|p: int|
                    step * total_words(ios) <= p < orig.len() ==> self.data@[p] == orig[p],
                forall|s: int, j: int|
                    0 <= s < step && 0 <= j < count ==> filled_cell(
                        cell_in(orig, ios, s, j),
                        #[trigger] cell_in(self.data@, ios, s, j),
                        ios[j],
                        seed,
                        asked_before(orig, ios, s, j),
                    ),
            decreases rows - step,
        {
            let mut offset: usize = 0;
            let mut i: usize = 0;
            proof {
                assert(ios.take(0) =~= Seq::<IOInfo>::empty());
            }
            while i < count
                invariant
                    i <= count,
                    step < rows,
                    rows == self.rows,
                    count == ios.len(),
                    self.ios@ == ios,
                    ios_wf(ios),
                    self.missing_outputs@ == old(self).missing_outputs@,
                    self.data@.len() == orig.len(),
                    orig.len() == rows * total_words(ios),
                    self.step_words == total_words(ios),
                    generator_seed(&generator) == seed,
                    seed is None || generator_given(&generator) == asked_before(
                        orig,
                        ios,
                        step as int,
                        i as int,
                    ),
                    offset == io_offset(ios, i as int),
                    forall|p: int|
                        step * total_words(ios) + offset <= p < orig.len() ==> self.data@[p]
                            == orig[p],
                    forall|s: int, j: int|
                        0 <= s < step && 0 <= j < count ==> filled_cell(
                            cell_in(orig, ios, s, j),
                            #[trigger] cell_in(self.data@, ios, s, j),
                            ios[j],
                            seed,
                            asked_before(orig, ios, s, j),
                        ),
                    forall|j: int|
                        0 <= j < i ==> filled_cell(
                            cell_in(orig, ios, step as int, j),
                            #[trigger] cell_in(self.data@, ios, step as int, j),
                            ios[j],
                            seed,
                            asked_before(orig, ios, step as int, j),
                        ),
                decreases count - i,
            {
                proof {
                    lemma_cell_bounds(ios, rows as int, step as int, i as int);
                    lemma_io_offset(ios, i as int);
                }
                let words = self.ios[i].words;
                let width = self.ios[i].width;
                let is_input = self.ios[i].is_input;
                proof {
                    let sw = self.step_words as int;
                    assert(sw == total_words(ios));
                    assert(0 <= step * sw) by (nonlinear_arith)
                        requires
                            0 <= step,
                            0 <= sw,
                    ;
                    lemma_offset_within(ios, i as int);
                    assert(step * sw + offset + ios[i as int].words <= rows * sw);
                    assert(rows * sw == orig.len());
                    assert(orig.len() == self.data.len());
                    assert(self.ios@[i as int].words >= 0);
                }
                let pos = step * self.step_words + offset;
                let ghost data_before = self.data@;
                let ghost cell_before = cell_in(data_before, ios, step as int, i as int);
                proof {
                    assert(cell_before =~= cell_in(orig, ios, step as int, i as int));
                }
                let mut wrote = false;
                if is_input {
                    let io_words = vstd::slice::slice_subrange(
                        self.data.as_slice(),
                        pos,
                        pos + words,
                    );
                    if is_x(io_words) {
                        let value_words = width_to_words(width);
                        let value = generate_value(&mut generator, width, value_words);
                        self.write_words(pos, &value);
                        wrote = true;
                        proof {
                            let cell_after = cell_in(self.data@, ios, step as int, i as int);
                            assert(cell_after.skip(value_words as int) =~= cell_before.skip(
                                value_words as int,
                            ));
                            assert(cell_after.take(value_words as int) =~= value@);
                        }
                    }
                }
                proof {
                    let data_after = self.data@;
                    if !wrote {
                        assert(data_after == data_before);
                    }
                    // the cells before this one are as they were
                    assert forall|s: int, j: int|
                        0 <= s < step && 0 <= j < count implies filled_cell(
                            cell_in(orig, ios, s, j),
                            #[trigger] cell_in(data_after, ios, s, j),
                            ios[j],
                            seed,
                            asked_before(orig, ios, s, j),
                        ) by {
                        lemma_cells_ordered(ios, s, j, step as int, i as int);
                        lemma_cell_bounds(ios, rows as int, s, j);
                        assert(cell_in(data_after, ios, s, j) =~= cell_in(data_before, ios, s, j));
                    }
                    assert forall|j: int| 0 <= j < i implies filled_cell(
                        cell_in(orig, ios, step as int, j),
                        #[trigger] cell_in(data_after, ios, step as int, j),
                        ios[j],
                        seed,
                        asked_before(orig, ios, step as int, j),
                    ) by {
                        lemma_cells_ordered(ios, step as int, j, step as int, i as int);
                        lemma_cell_bounds(ios, rows as int, step as int, j);
                        assert(cell_in(data_after, ios, step as int, j) =~= cell_in(
                            data_before,
                            ios,
                            step as int,
                            j,
                        ));
                    }
                }
                offset = offset + words;
                i += 1;
            }
            proof {
                assert(ios.take(count as int) =~= ios);
                assert((step + 1) * total_words(ios) == step * total_words(ios) + total_words(ios))
                    by (nonlinear_arith);
            }
            step += 1;
        }
        proof {
            assert forall|step: int, i: int|
                0 <= step < old(self).rows_view() && 0 <= i < old(
                    self,
                ).ios_view().len() implies filled_cell(
                old(self).cell(step, i),
                #[trigger] self.cell(step, i),
                old(self).ios_view()[i],
                seed_of(kind),
                asked_before(orig, ios, step, i),
            ) by {
                assert(self.cell(step, i) == cell_in(self.data@, ios, step, i));
                assert(old(self).cell(step, i) == cell_in(orig, ios, step, i));
            }
        }
    }
}

} // verus!
