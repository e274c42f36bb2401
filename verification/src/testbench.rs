//! The testbench: for every cycle the values that drive the inputs and the
//! values that the outputs are expected to show, with don't-care cells.

use crate::bignum::big_words;
use crate::bignum::cell_digits;
use crate::bignum::dec_cell_to_big_uint;
use crate::bignum::dec_value;
use crate::bignum::is_decimal;
use crate::bignum::nat_words;
use crate::csv::is_cell_x;
use crate::csv::line_consumed;
use crate::csv::line_tokens;
use crate::csv::LOWER_X;
use crate::csv::parse_line;
use crate::csv::token_views;
use crate::csv::UPPER_X;
use crate::system::bytes_equal;
use crate::system::find_signal;
use crate::system::lemma_lookup;
use crate::system::lookup;
use crate::system::name_bytes;
use crate::system::same_expr;
use crate::system::Signal;
use crate::words::cell_words;
use crate::words::cell_words_for;
use crate::words::WidthInt;
use crate::words::Word;
use libpatron::ir::ExprRef;
use vstd::prelude::*;

verus! {

/// Number of a testbench cycle.
pub type StepInt = u64;

/// The column number of a signal that the file does not list.
pub const MISSING_CELL: usize = usize::MAX;

/// The widest signal that a testbench takes: 65535 words of 64 bits.
pub const MAX_WIDTH: WidthInt = 4_194_240;

/// Name of the output that counts the asserted change variables. A testbench
/// never checks it.
pub const CHANGE_COUNT_OUTPUT_NAME: &'static str = "__change_count";

/// One input or output of the system, as a testbench holds it.
#[derive(Debug, Clone)]
pub struct IOInfo {
    pub expr: ExprRef,
    /// The column of the file that holds the signal, or `MISSING_CELL`.
    pub cell_id: usize,
    /// Number of words of one cell.
    pub words: usize,
    pub width: WidthInt,
    pub is_input: bool,
    pub name: String,
}

/// Why a testbench file was refused.
#[derive(Debug, Clone, Copy, PartialEq, Eq, Structural)]
pub enum LoadError {
    /// The column names a signal that is both an input and an output.
    BothInputAndOutput { column: usize },
    /// The column names an input or output that is an array, or whose width
    /// is zero or above `MAX_WIDTH`.
    UnsupportedColumn { column: usize },
    /// An input or output that the file does not list is an array, or its
    /// width is zero or above `MAX_WIDTH`. `signal` is its place in the list
    /// of signals.
    UnsupportedSignal { signal: usize },
    /// The row has no cell in that column.
    MissingCell { row: usize, column: usize },
    /// The cell is neither a don't-care nor a decimal number.
    BadCell { row: usize, column: usize },
    /// The number in the cell does not fit the words of the signal.
    ValueTooWide { row: usize, column: usize },
    /// One row would take more words than the machine can address.
    RowTooLong,
}

/// A width that a testbench takes.
pub open spec fn supported_width(width: Option<WidthInt>) -> bool {
    width is Some && 1 <= width.unwrap() <= MAX_WIDTH
}

/// The entry of a testbench for signal `s`, read from column `cell_id`.
pub open spec fn io_for(s: Signal, cell_id: usize) -> IOInfo {
    IOInfo {
        expr: s.expr,
        cell_id,
        words: cell_words_for(s.width.unwrap() as int) as usize,
        width: s.width.unwrap(),
        is_input: s.is_input,
        name: s.name,
    }
}

/// The entries that a header line gives, column by column: a column counts
/// when its name is that of an input or output.
pub open spec fn header_ios(tokens: Seq<Seq<u8>>, signals: Seq<Signal>) -> Result<
    Seq<IOInfo>,
    LoadError,
>
    decreases tokens.len(),
{
    if tokens.len() == 0 {
        Ok(Seq::empty())
    } else {
        let column = (tokens.len() - 1) as usize;
        match header_ios(tokens.drop_last(), signals) {
            Err(e) => Err(e),
            Ok(ios) => match lookup(signals, tokens.last()) {
                None => Ok(ios),
                Some(i) => {
                    let s = signals[i];
                    if s.is_input && s.is_output {
                        Err(LoadError::BothInputAndOutput { column })
                    } else if !s.is_io() {
                        Ok(ios)
                    } else if !supported_width(s.width) {
                        Err(LoadError::UnsupportedColumn { column })
                    } else {
                        Ok(ios.push(io_for(s, column)))
                    }
                },
            },
        }
    }
}

/// Some entry of `ios` is for the signal `e`.
pub open spec fn listed(ios: Seq<IOInfo>, e: ExprRef) -> bool {
    exists|i: int| 0 <= i < ios.len() && (#[trigger] ios[i]).expr == e
}

/// The bytes of the name of the change-count output.
pub open spec fn change_count_name() -> Seq<u8> {
    name_bytes(CHANGE_COUNT_OUTPUT_NAME@)
}

/// The entries for the inputs and outputs of the system that `ios` does not
/// list, in the order of `signals`. The change-count output is left out.
pub open spec fn missing_ios(signals: Seq<Signal>, ios: Seq<IOInfo>) -> Result<
    Seq<IOInfo>,
    LoadError,
>
    decreases signals.len(),
{
    if signals.len() == 0 {
        Ok(Seq::empty())
    } else {
        let s = signals.last();
        match missing_ios(signals.drop_last(), ios) {
            Err(e) => Err(e),
            Ok(found) => if !s.is_io() || listed(ios, s.expr) || name_bytes(s.name@)
                == change_count_name() {
                Ok(found)
            } else if !supported_width(s.width) {
                Err(LoadError::UnsupportedSignal { signal: (signals.len() - 1) as usize })
            } else {
                Ok(found.push(io_for(s, MISSING_CELL)))
            },
        }
    }
}

/// The entries of `ios` that are inputs (or, with `inputs` false, outputs).
pub open spec fn select(ios: Seq<IOInfo>, inputs: bool) -> Seq<IOInfo>
    decreases ios.len(),
{
    if ios.len() == 0 {
        Seq::empty()
    } else if ios.last().is_input == inputs {
        select(ios.drop_last(), inputs).push(ios.last())
    } else {
        select(ios.drop_last(), inputs)
    }
}

/// Number of words of one cycle.
pub open spec fn total_words(ios: Seq<IOInfo>) -> int
    decreases ios.len(),
{
    if ios.len() == 0 {
        0
    } else {
        total_words(ios.drop_last()) + ios.last().words
    }
}

/// Every entry has a width that a testbench takes and the words for it.
pub open spec fn ios_wf(ios: Seq<IOInfo>) -> bool {
    forall|i: int|
        0 <= i < ios.len() ==> {
            &&& 1 <= (#[trigger] ios[i]).width <= MAX_WIDTH
            &&& ios[i].words == cell_words_for(ios[i].width as int)
        }
}

/// `n` words that are all ones: a don't-care cell.
pub open spec fn ones(n: int) -> Seq<Word> {
    Seq::new(n as nat, |i: int| u64::MAX)
}

/// `n` words that are zero.
pub open spec fn zeros(n: int) -> Seq<Word> {
    Seq::new(n as nat, |i: int| 0u64)
}

pub open spec fn is_x_token(token: Seq<u8>) -> bool {
    token == seq![LOWER_X] || token == seq![UPPER_X]
}

/// The words of the cell of `io` in a row with the cells `tokens`.
pub open spec fn cell_of(tokens: Seq<Seq<u8>>, io: IOInfo, row: usize) -> Result<
    Seq<Word>,
    LoadError,
> {
    if io.cell_id == MISSING_CELL {
        Ok(ones(io.words as int))
    } else if io.cell_id >= tokens.len() {
        Err(LoadError::MissingCell { row, column: io.cell_id })
    } else {
        let token = tokens[io.cell_id as int];
        if is_x_token(token) {
            Ok(ones(io.words as int))
        } else if !is_decimal(token) {
            Err(LoadError::BadCell { row, column: io.cell_id })
        } else {
            let digits = nat_words(dec_value(cell_digits(token)));
            if digits.len() > io.words {
                Err(LoadError::ValueTooWide { row, column: io.cell_id })
            } else {
                Ok(digits + zeros(io.words - digits.len()))
            }
        }
    }
}

/// `words` before what `rest` holds.
pub open spec fn prepend(words: Seq<Word>, rest: Result<Seq<Word>, LoadError>) -> Result<
    Seq<Word>,
    LoadError,
> {
    match rest {
        Ok(more) => Ok(words + more),
        Err(e) => Err(e),
    }
}

/// The words of one row: the cells of the entries, in their order.
pub open spec fn row_of(tokens: Seq<Seq<u8>>, ios: Seq<IOInfo>, row: usize) -> Result<
    Seq<Word>,
    LoadError,
>
    decreases ios.len(),
{
    if ios.len() == 0 {
        Ok(Seq::empty())
    } else {
        match row_of(tokens, ios.drop_last(), row) {
            Err(e) => Err(e),
            Ok(words) => prepend(words, cell_of(tokens, ios.last(), row)),
        }
    }
}

/// The words of all rows of `data`, the first of which has the number `row`.
pub open spec fn body_of(data: Seq<u8>, ios: Seq<IOInfo>, row: int) -> Result<
    Seq<Word>,
    LoadError,
>
    decreases data.len(),
{
    let n = line_consumed(data);
    if data.len() == 0 || n <= 0 || n > data.len() {
        Ok(Seq::empty())
    } else {
        match row_of(line_tokens(data), ios, row as usize) {
            Err(e) => Err(e),
            Ok(words) => prepend(words, body_of(data.skip(n), ios, row + 1)),
        }
    }
}

/// Number of rows of `data`.
pub open spec fn row_count(data: Seq<u8>) -> nat
    decreases data.len(),
{
    let n = line_consumed(data);
    if data.len() == 0 || n <= 0 || n > data.len() {
        0
    } else {
        1 + row_count(data.skip(n))
    }
}

pub proof fn lemma_row_len(tokens: Seq<Seq<u8>>, ios: Seq<IOInfo>, row: usize)
    ensures
        row_of(tokens, ios, row) is Ok ==> row_of(tokens, ios, row).unwrap().len() == total_words(
            ios,
        ),
    decreases ios.len(),
{
    if ios.len() > 0 {
        lemma_row_len(tokens, ios.drop_last(), row);
    }
}

/// Reads the header line: which column holds which input or output.
pub fn read_header(tokens: &Vec<&[u8]>, signals: &[Signal]) -> (r: Result<Vec<IOInfo>, LoadError>)
    ensures
        match r {
            Ok(ios) => header_ios(token_views(tokens@), signals@) == Ok::<Seq<IOInfo>, LoadError>(
                ios@,
            ) && ios_wf(ios@),
            Err(e) => header_ios(token_views(tokens@), signals@) == Err::<Seq<IOInfo>, LoadError>(
                e,
            ),
        },
{
    let mut out: Vec<IOInfo> = Vec::new();
    let ghost views = token_views(tokens@);
    let mut cell_id: usize = 0;
    proof {
        assert(views.take(0) =~= Seq::<Seq<u8>>::empty());
    }
    while cell_id < tokens.len()
        invariant
            cell_id <= tokens.len(),
            views == token_views(tokens@),
            header_ios(views.take(cell_id as int), signals@) == Ok::<Seq<IOInfo>, LoadError>(out@),
            ios_wf(out@),
        decreases tokens.len() - cell_id,
    {
        let token: &[u8] = tokens[cell_id];
        proof {
            assert(views.take(cell_id + 1).drop_last() =~= views.take(cell_id as int));
            assert(views.take(cell_id + 1).last() == token@);
            lemma_lookup(signals@, token@);
        }
        match find_signal(signals, token) {
            None => {},
            Some(i) => {
                let signal = &signals[i];
                if signal.is_input && signal.is_output {
                    proof {
                        assert(views.take(tokens.len() as int) =~= views);
                        lemma_header_error(views, signals@, cell_id as int + 1);
                    }
                    return Err(LoadError::BothInputAndOutput { column: cell_id });
                }
                if signal.is_input || signal.is_output {
                    match signal.width {
                        Some(width) if 1 <= width && width <= MAX_WIDTH => {
                            out.push(
                                IOInfo {
                                    expr: signal.expr,
                                    cell_id,
                                    words: cell_words(width),
                                    width,
                                    is_input: signal.is_input,
                                    name: signal.name.clone(),
                                },
                            );
                        },
                        _ => {
                            proof {
                                assert(views.take(tokens.len() as int) =~= views);
                                lemma_header_error(views, signals@, cell_id as int + 1);
                            }
                            return Err(LoadError::UnsupportedColumn { column: cell_id });
                        },
                    }
                }
            },
        }
        cell_id += 1;
    }
    proof {
        assert(views.take(tokens.len() as int) =~= views);
    }
    Ok(out)
}

/// An error at some column of the header is the error of the whole header.
pub proof fn lemma_header_error(tokens: Seq<Seq<u8>>, signals: Seq<Signal>, n: int)
    requires
        0 <= n <= tokens.len(),
        header_ios(tokens.take(n), signals) is Err,
    ensures
        header_ios(tokens, signals) == header_ios(tokens.take(n), signals),
    decreases tokens.len() - n,
{
    if n < tokens.len() {
        assert(tokens.take(n + 1).drop_last() =~= tokens.take(n));
        lemma_header_error(tokens, signals, n + 1);
    } else {
        assert(tokens.take(n) =~= tokens);
    }
}

/// Whether some entry of `ios` is for the signal `e`.
fn is_listed(ios: &Vec<IOInfo>, e: ExprRef) -> (r: bool)
    ensures
        r == listed(ios@, e),
{
    let mut i: usize = 0;
    while i < ios.len()
        invariant
            i <= ios.len(),
            forall|j: int| 0 <= j < i ==> (#[trigger] ios[j]).expr != e,
        decreases ios.len() - i,
    {
        if same_expr(ios[i].expr, e) {
            return true;
        }
        i += 1;
    }
    false
}

/// An error at some signal is the error of the whole list.
pub proof fn lemma_missing_error(signals: Seq<Signal>, ios: Seq<IOInfo>, n: int)
    requires
        0 <= n <= signals.len(),
        missing_ios(signals.take(n), ios) is Err,
    ensures
        missing_ios(signals, ios) == missing_ios(signals.take(n), ios),
    decreases signals.len() - n,
{
    if n < signals.len() {
        assert(signals.take(n + 1).drop_last() =~= signals.take(n));
        lemma_missing_error(signals, ios, n + 1);
    } else {
        assert(signals.take(n) =~= signals);
    }
}

/// Finds the inputs and outputs of the system that the header does not list.
pub fn find_missing_ios(signals: &[Signal], ios: &Vec<IOInfo>) -> (r: Result<
    Vec<IOInfo>,
    LoadError,
>)
    ensures
        match r {
            Ok(found) => missing_ios(signals@, ios@) == Ok::<Seq<IOInfo>, LoadError>(found@)
                && ios_wf(found@),
            Err(e) => missing_ios(signals@, ios@) == Err::<Seq<IOInfo>, LoadError>(e),
        },
{
    let mut out: Vec<IOInfo> = Vec::new();
    let mut i: usize = 0;
    proof {
        assert(signals@.take(0) =~= Seq::<Signal>::empty());
    }
    while i < signals.len()
        invariant
            i <= signals.len(),
            missing_ios(signals@.take(i as int), ios@) == Ok::<Seq<IOInfo>, LoadError>(out@),
            ios_wf(out@),
        decreases signals.len() - i,
    {
        let signal = &signals[i];
        proof {
            assert(signals@.take(i + 1).drop_last() =~= signals@.take(i as int));
            assert(signals@.take(i + 1).last() == signals@[i as int]);
        }
        if (signal.is_input || signal.is_output) && !is_listed(ios, signal.expr) && !bytes_equal(
            signal.name.as_str().as_bytes(),
            CHANGE_COUNT_OUTPUT_NAME.as_bytes(),
        ) {
            match signal.width {
                Some(width) if 1 <= width && width <= MAX_WIDTH => {
                    out.push(
                        IOInfo {
                            expr: signal.expr,
                            cell_id: MISSING_CELL,
                            words: cell_words(width),
                            width,
                            is_input: signal.is_input,
                            name: signal.name.clone(),
                        },
                    );
                },
                _ => {
                    proof {
                        lemma_missing_error(signals@, ios@, i as int + 1);
                    }
                    return Err(LoadError::UnsupportedSignal { signal: i });
                },
            }
        }
        i += 1;
    }
    proof {
        assert(signals@.take(signals.len() as int) =~= signals@);
    }
    Ok(out)
}

/// Appends a don't-care cell.
pub fn push_x(io: &IOInfo, data: &mut Vec<Word>)
    ensures
        final(data)@ == old(data)@ + ones(io.words as int),
{
    let mut i: usize = 0;
    while i < io.words
        invariant
            i <= io.words,
            data@ == old(data)@ + ones(i as int),
        decreases io.words - i,
    {
        data.push(u64::MAX);
        proof {
            assert(data@ =~= old(data)@ + ones(i + 1));
        }
        i += 1;
    }
    proof {
        assert(old(data)@ + ones(0) =~= old(data)@);
    }
}

/// What a decimal cell adds to the words of a testbench: its number in
/// the words of the signal, or an error.
pub open spec fn dec_cell_of(token: Seq<u8>, io: IOInfo, row: usize) -> Result<
    Seq<Word>,
    LoadError,
> {
    if !is_decimal(token) {
        Err(LoadError::BadCell { row, column: io.cell_id })
    } else {
        let digits = nat_words(dec_value(cell_digits(token)));
        if digits.len() > io.words {
            Err(LoadError::ValueTooWide { row, column: io.cell_id })
        } else {
            Ok(digits + zeros(io.words - digits.len()))
        }
    }
}

/// Appends the cell for a decimal number, least significant word first and
/// filled up with zero words.
pub fn push_from_dec(io: &IOInfo, data: &mut Vec<Word>, dec_ascii: &[u8], row: usize) -> (r: Result<
    (),
    LoadError,
>)
    ensures
        match r {
            Ok(_) => dec_cell_of(dec_ascii@, *io, row) is Ok && final(data)@ == old(data)@
                + dec_cell_of(dec_ascii@, *io, row).unwrap(),
            Err(e) => dec_cell_of(dec_ascii@, *io, row) == Err::<Seq<Word>, LoadError>(e)
                && final(data)@ == old(data)@,
        },
{
    let big = match dec_cell_to_big_uint(dec_ascii) {
        Some(big) => big,
        None => {
            return Err(LoadError::BadCell { row, column: io.cell_id });
        },
    };
    let digits = big_words(&big);
    if digits.len() > io.words {
        return Err(LoadError::ValueTooWide { row, column: io.cell_id });
    }
    let mut i: usize = 0;
    while i < io.words
        invariant
            i <= io.words,
            digits.len() <= io.words,
            i <= digits.len() ==> data@ == old(data)@ + digits@.take(i as int),
            i > digits.len() ==> data@ == old(data)@ + digits@ + zeros(i - digits.len()),
        decreases io.words - i,
    {
        if i < digits.len() {
            data.push(digits[i]);
            proof {
                assert(data@ =~= old(data)@ + digits@.take(i + 1));
                assert(digits@.take(digits.len() as int) =~= digits@);
                assert(old(data)@ + digits@ + zeros(0) =~= old(data)@ + digits@);
            }
        } else {
            data.push(0);
            proof {
                assert(digits@.take(digits.len() as int) =~= digits@);
                assert(data@ =~= old(data)@ + digits@ + zeros(i + 1 - digits.len()));
            }
        }
        i += 1;
    }
    proof {
        assert(digits@.take(digits.len() as int) =~= digits@);
        assert(old(data)@ + digits@.take(0) =~= old(data)@);
        assert(old(data)@ + digits@ + zeros(0) =~= old(data)@ + digits@);
        assert(old(data)@ + digits@ + zeros(io.words - digits.len()) =~= old(data)@ + (digits@
            + zeros(io.words - digits.len())));
    }
    Ok(())
}

/// Appends the words of one row.
fn push_row(tokens: &Vec<&[u8]>, ios: &Vec<IOInfo>, row: usize, data: &mut Vec<Word>) -> (r:
    Result<(), LoadError>)
    ensures
        match r {
            Ok(_) => row_of(token_views(tokens@), ios@, row) is Ok && final(data)@ == old(data)@
                + row_of(token_views(tokens@), ios@, row).unwrap(),
            Err(e) => row_of(token_views(tokens@), ios@, row) == Err::<Seq<Word>, LoadError>(e),
        },
{
    let ghost views = token_views(tokens@);
    let mut i: usize = 0;
    proof {
        assert(ios@.take(0) =~= Seq::<IOInfo>::empty());
        assert(old(data)@ + Seq::<Word>::empty() =~= old(data)@);
    }
    while i < ios.len()
        invariant
            i <= ios.len(),
            views == token_views(tokens@),
            row_of(views, ios@.take(i as int), row) is Ok,
            data@ == old(data)@ + row_of(views, ios@.take(i as int), row).unwrap(),
        decreases ios.len() - i,
    {
        let io = &ios[i];
        let ghost before = data@;
        let ghost so_far = row_of(views, ios@.take(i as int), row).unwrap();
        proof {
            assert(ios@.take(i + 1).drop_last() =~= ios@.take(i as int));
            assert(ios@.take(i + 1).last() == ios@[i as int]);
        }
        if io.cell_id == MISSING_CELL {
            push_x(io, data);
        } else if io.cell_id >= tokens.len() {
            proof {
                lemma_row_error(views, ios@, row, i as int + 1);
            }
            return Err(LoadError::MissingCell { row, column: io.cell_id });
        } else {
            let cell: &[u8] = tokens[io.cell_id];
            if is_cell_x(cell) {
                push_x(io, data);
            } else {
                match push_from_dec(io, data, cell, row) {
                    Ok(_) => {},
                    Err(e) => {
                        proof {
                            lemma_row_error(views, ios@, row, i as int + 1);
                        }
                        return Err(e);
                    },
                }
            }
        }
        proof {
            let cell = cell_of(views, ios@[i as int], row).unwrap();
            assert(data@ == before + cell);
            assert(old(data)@ + so_far + cell =~= old(data)@ + (so_far + cell));
        }
        i += 1;
    }
    proof {
        assert(ios@.take(ios.len() as int) =~= ios@);
    }
    Ok(())
}

/// An error at some cell of a row is the error of the whole row.
pub proof fn lemma_row_error(tokens: Seq<Seq<u8>>, ios: Seq<IOInfo>, row: usize, n: int)
    requires
        0 <= n <= ios.len(),
        row_of(tokens, ios.take(n), row) is Err,
    ensures
        row_of(tokens, ios, row) == row_of(tokens, ios.take(n), row),
    decreases ios.len() - n,
{
    if n < ios.len() {
        assert(ios.take(n + 1).drop_last() =~= ios.take(n));
        lemma_row_error(tokens, ios, row, n + 1);
    } else {
        assert(ios.take(n) =~= ios);
    }
}

/// Reads the rows of a testbench file: `data` without its header line.
pub fn read_body(data: &[u8], ios: &Vec<IOInfo>) -> (r: Result<Vec<Word>, LoadError>)
    ensures
        match r {
            Ok(words) => body_of(data@, ios@, 0) == Ok::<Seq<Word>, LoadError>(words@)
                && words.len() == row_count(data@) * total_words(ios@),
            Err(e) => body_of(data@, ios@, 0) == Err::<Seq<Word>, LoadError>(e),
        },
{
    let mut out: Vec<Word> = Vec::new();
    let mut pos: usize = 0;
    let mut row: usize = 0;
    let mut tokens: Vec<&[u8]> = Vec::new();
    proof {
        assert(data@.skip(0) =~= data@);
        lemma_prepend_empty(body_of(data@, ios@, 0));
    }
    while pos < data.len()
        invariant
            pos <= data.len(),
            row <= pos,
            out.len() == row * total_words(ios@),
            row + row_count(data@.skip(pos as int)) == row_count(data@),
            body_of(data@, ios@, 0) == prepend(
                out@,
                body_of(data@.skip(pos as int), ios@, row as int),
            ),
        decreases data.len() - pos,
    {
        tokens.clear();
        let rest = vstd::slice::slice_subrange(data, pos, data.len());
        assert(rest@ =~= data@.skip(pos as int));
        let n = parse_line(rest, &mut tokens);
        let ghost before = out@;
        let ghost tail = body_of(rest@.skip(n as int), ios@, row + 1);
        proof {
            assert(rest@.skip(n as int) =~= data@.skip(pos + n));
            lemma_row_len(token_views(tokens@), ios@, row);
        }
        match push_row(&tokens, ios, row, &mut out) {
            Ok(_) => {},
            Err(e) => {
                return Err(e);
            },
        }
        proof {
            let words = row_of(token_views(tokens@), ios@, row).unwrap();
            lemma_prepend_assoc(before, words, tail);
            assert(out.len() == (row + 1) * total_words(ios@)) by (nonlinear_arith)
                requires
                    out.len() == before.len() + total_words(ios@),
                    before.len() == row * total_words(ios@),
            ;
        }
        pos += n;
        row += 1;
    }
    proof {
        assert(out@ + Seq::<Word>::empty() =~= out@);
    }
    Ok(out)
}

pub proof fn lemma_prepend_empty(rest: Result<Seq<Word>, LoadError>)
    ensures
        prepend(Seq::empty(), rest) == rest,
{
    if rest is Ok {
        assert(Seq::<Word>::empty() + rest.unwrap() =~= rest.unwrap());
    }
}

pub proof fn lemma_prepend_assoc(a: Seq<Word>, b: Seq<Word>, rest: Result<Seq<Word>, LoadError>)
    ensures
        prepend(a, prepend(b, rest)) == prepend(a + b, rest),
{
    if rest is Ok {
        assert(a + (b + rest.unwrap()) =~= (a + b) + rest.unwrap());
    }
}

/// What a testbench file holds.
pub struct Loaded {
    /// The inputs and outputs that the header lists, then the inputs that it
    /// does not list.
    pub ios: Seq<IOInfo>,
    /// The outputs that the header does not list.
    pub missing_outputs: Seq<IOInfo>,
    /// The rows, each with one cell for every entry of `ios`.
    pub data: Seq<Word>,
    pub rows: nat,
}

/// What the bytes of a testbench file hold for a system with the given
/// signals: the first line is the header, every further line a row.
pub open spec fn loaded(signals: Seq<Signal>, bytes: Seq<u8>) -> Result<Loaded, LoadError> {
    match header_ios(line_tokens(bytes), signals) {
        Err(e) => Err(e),
        Ok(named) => match missing_ios(signals, named) {
            Err(e) => Err(e),
            Ok(missing) => {
                let ios = named + select(missing, true);
                let body = bytes.skip(line_consumed(bytes));
                if total_words(ios) > usize::MAX {
                    Err(LoadError::RowTooLong)
                } else {
                    match body_of(body, ios, 0) {
                        Err(e) => Err(e),
                        Ok(data) => Ok(
                            Loaded {
                                ios,
                                missing_outputs: select(missing, false),
                                data,
                                rows: row_count(body),
                            },
                        ),
                    }
                }
            },
        },
    }
}

/// Words in a row before the cell of entry `i`.
pub open spec fn io_offset(ios: Seq<IOInfo>, i: int) -> int {
    total_words(ios.take(i))
}

pub proof fn lemma_io_offset(ios: Seq<IOInfo>, i: int)
    requires
        0 <= i < ios.len(),
    ensures
        0 <= io_offset(ios, i),
        io_offset(ios, i + 1) == io_offset(ios, i) + ios[i].words,
        io_offset(ios, i + 1) <= total_words(ios),
    decreases ios.len() - i,
{
    assert(ios.take(i + 1).drop_last() =~= ios.take(i));
    lemma_total_words_nonneg(ios.take(i));
    if i + 1 < ios.len() {
        lemma_io_offset(ios, i + 1);
    } else {
        assert(ios.take(i + 1) =~= ios);
    }
}

pub proof fn lemma_total_words_nonneg(ios: Seq<IOInfo>)
    ensures
        0 <= total_words(ios),
    decreases ios.len(),
{
    if ios.len() > 0 {
        lemma_total_words_nonneg(ios.drop_last());
    }
}

fn clone_io(io: &IOInfo) -> (r: IOInfo)
    ensures
        r == *io,
{
    IOInfo {
        expr: io.expr,
        cell_id: io.cell_id,
        words: io.words,
        width: io.width,
        is_input: io.is_input,
        name: io.name.clone(),
    }
}

/// Appends to `out` the entries of `ios` that are inputs (or outputs).
fn extend_selected(out: &mut Vec<IOInfo>, ios: &Vec<IOInfo>, inputs: bool)
    requires
        ios_wf(old(out)@),
        ios_wf(ios@),
    ensures
        final(out)@ == old(out)@ + select(ios@, inputs),
        ios_wf(final(out)@),
{
    let mut i: usize = 0;
    proof {
        assert(ios@.take(0) =~= Seq::<IOInfo>::empty());
        assert(old(out)@ + Seq::<IOInfo>::empty() =~= old(out)@);
    }
    while i < ios.len()
        invariant
            i <= ios.len(),
            ios_wf(ios@),
            ios_wf(out@),
            out@ == old(out)@ + select(ios@.take(i as int), inputs),
        decreases ios.len() - i,
    {
        proof {
            assert(ios@.take(i + 1).drop_last() =~= ios@.take(i as int));
            assert(ios@.take(i + 1).last() == ios@[i as int]);
        }
        if ios[i].is_input == inputs {
            let io = clone_io(&ios[i]);
            out.push(io);
            proof {
                assert(out@ =~= old(out)@ + select(ios@.take(i + 1), inputs));
            }
        }
        i += 1;
    }
    proof {
        assert(ios@.take(ios.len() as int) =~= ios@);
    }
}

/// Adds up the words of the entries; nothing where the sum overflows.
fn sum_words(ios: &Vec<IOInfo>) -> (r: Option<usize>)
    ensures
        match r {
            Some(n) => n == total_words(ios@),
            None => total_words(ios@) > usize::MAX,
        },
{
    let mut sum: usize = 0;
    let mut i: usize = 0;
    proof {
        assert(ios@.take(0) =~= Seq::<IOInfo>::empty());
    }
    while i < ios.len()
        invariant
            i <= ios.len(),
            sum == total_words(ios@.take(i as int)),
        decreases ios.len() - i,
    {
        proof {
            assert(ios@.take(i + 1).drop_last() =~= ios@.take(i as int));
            lemma_io_offset(ios@, i as int);
        }
        if ios[i].words > usize::MAX - sum {
            return None;
        }
        sum = sum + ios[i].words;
        i += 1;
    }
    proof {
        assert(ios@.take(ios.len() as int) =~= ios@);
    }
    Some(sum)
}

/// A testbench: rows of packed words, one row for each cycle.
pub struct Testbench {
    /// For each cycle the cells of the inputs and outputs, in the order of
    /// `ios`.
    pub(crate) data: Vec<Word>,
    pub(crate) step_words: usize,
    pub(crate) rows: usize,
    pub(crate) ios: Vec<IOInfo>,
    pub(crate) missing_outputs: Vec<IOInfo>,
}

impl Testbench {
    /// The inputs and outputs that the testbench has a cell for.
    pub open(crate) spec fn ios_view(&self) -> Seq<IOInfo> {
        self.ios@
    }

    /// The outputs of the system that the testbench says nothing about.
    pub open(crate) spec fn missing_outputs_view(&self) -> Seq<IOInfo> {
        self.missing_outputs@
    }

    /// The words of all rows.
    pub open(crate) spec fn data_view(&self) -> Seq<Word> {
        self.data@
    }

    /// Number of cycles.
    pub open(crate) spec fn rows_view(&self) -> nat {
        self.rows as nat
    }

    #[verifier::type_invariant]
    pub open(crate) spec fn inv(&self) -> bool {
        &&& ios_wf(self.ios@)
        &&& self.step_words == total_words(self.ios@)
        &&& self.data.len() == self.rows * self.step_words
    }

    /// Reads a testbench file for a system with the given signals.
    pub fn load(signals: &[Signal], data: &[u8]) -> (r: Result<Testbench, LoadError>)
        ensures
            match r {
                Ok(tb) => loaded(signals@, data@) == Ok::<Loaded, LoadError>(
                    Loaded {
                        ios: tb.ios_view(),
                        missing_outputs: tb.missing_outputs_view(),
                        data: tb.data_view(),
                        rows: tb.rows_view(),
                    },
                ),
                Err(e) => loaded(signals@, data@) == Err::<Loaded, LoadError>(e),
            },
    {
        let mut header_tokens: Vec<&[u8]> = Vec::new();
        let header_len = parse_line(data, &mut header_tokens);
        let mut ios = match read_header(&header_tokens, signals) {
            Ok(ios) => ios,
            Err(e) => {
                return Err(e);
            },
        };
        let ghost named = ios@;
        let missing = match find_missing_ios(signals, &ios) {
            Ok(missing) => missing,
            Err(e) => {
                return Err(e);
            },
        };
        extend_selected(&mut ios, &missing, true);
        let mut missing_outputs: Vec<IOInfo> = Vec::new();
        extend_selected(&mut missing_outputs, &missing, false);
        proof {
            assert(Seq::<IOInfo>::empty() + select(missing@, false) =~= select(missing@, false));
        }
        let step_words = match sum_words(&ios) {
            Some(n) => n,
            None => {
                return Err(LoadError::RowTooLong);
            },
        };
        let body = vstd::slice::slice_subrange(data, header_len, data.len());
        proof {
            assert(body@ =~= data@.skip(header_len as int));
        }
        let words = match read_body(body, &ios) {
            Ok(words) => words,
            Err(e) => {
                return Err(e);
            },
        };
        let rows = if step_words == 0 {
            count_rows(body)
        } else {
            proof {
                let n = row_count(body@) as int;
                let w = step_words as int;
                assert((n * w) / w == n) by (nonlinear_arith)
                    requires
                        w > 0,
                        n >= 0,
                ;
            }
            words.len() / step_words
        };
        Ok(Testbench { data: words, step_words, rows, ios, missing_outputs })
    }
}

/// Counts the rows of `data`.
fn count_rows(data: &[u8]) -> (r: usize)
    ensures
        r == row_count(data@),
{
    let mut pos: usize = 0;
    let mut row: usize = 0;
    let mut tokens: Vec<&[u8]> = Vec::new();
    proof {
        assert(data@.skip(0) =~= data@);
    }
    while pos < data.len()
        invariant
            pos <= data.len(),
            row <= pos,
            row + row_count(data@.skip(pos as int)) == row_count(data@),
        decreases data.len() - pos,
    {
        tokens.clear();
        let rest = vstd::slice::slice_subrange(data, pos, data.len());
        assert(rest@ =~= data@.skip(pos as int));
        let n = parse_line(rest, &mut tokens);
        proof {
            assert(rest@.skip(n as int) =~= data@.skip(pos + n));
        }
        pos += n;
        row += 1;
    }
    row
}

} // verus!
