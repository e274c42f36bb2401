//! The lines and cells of a testbench file.
//!
//! A file is a sequence of lines. A line ends at the first `\r` or `\n`; when
//! the byte after it is a `\r` or `\n` too, both end the line. A line is
//! split at its commas, and spaces around each cell are dropped.

use vstd::prelude::*;

verus! {

pub const SPACE: u8 = 32;

pub const COMMA: u8 = 44;

pub const LINE_FEED: u8 = 10;

pub const CARRIAGE_RETURN: u8 = 13;

pub const DIGIT_ZERO: u8 = 48;

pub const LOWER_X: u8 = 120;

pub const UPPER_X: u8 = 88;

pub open spec fn is_newline(c: u8) -> bool {
    c == LINE_FEED || c == CARRIAGE_RETURN
}

/// Number of spaces at the front of `s`.
pub open spec fn lead_spaces(s: Seq<u8>) -> nat
    decreases s.len(),
{
    if s.len() > 0 && s[0] == SPACE {
        1 + lead_spaces(s.skip(1))
    } else {
        0
    }
}

/// Number of spaces at the back of `s`.
pub open spec fn trail_spaces(s: Seq<u8>) -> nat
    decreases s.len(),
{
    if s.len() > 0 && s.last() == SPACE {
        1 + trail_spaces(s.drop_last())
    } else {
        0
    }
}

/// `s` without the spaces at its two ends.
pub open spec fn trimmed(s: Seq<u8>) -> Seq<u8> {
    if lead_spaces(s) == s.len() {
        Seq::empty()
    } else {
        s.subrange(lead_spaces(s) as int, s.len() - trail_spaces(s))
    }
}

/// Number of bytes before the first byte that is in `stops`.
pub open spec fn run_len(s: Seq<u8>, stops: Set<u8>) -> nat
    decreases s.len(),
{
    if s.len() == 0 || stops.contains(s[0]) {
        0
    } else {
        1 + run_len(s.skip(1), stops)
    }
}

/// The bytes that end a line.
pub open spec fn newlines() -> Set<u8> {
    set![LINE_FEED, CARRIAGE_RETURN]
}

/// The byte that ends a field.
pub open spec fn commas() -> Set<u8> {
    set![COMMA]
}

/// Length of the first line of `data`, without what ends it.
pub open spec fn line_len(data: Seq<u8>) -> nat {
    run_len(data, newlines())
}

/// Number of bytes that the first line of `data` takes, with what ends it.
pub open spec fn line_consumed(data: Seq<u8>) -> int {
    let e = line_len(data) as int;
    if e == data.len() {
        e
    } else if e + 1 < data.len() && is_newline(data[e + 1]) {
        e + 2
    } else {
        e + 1
    }
}

/// The pieces of `line` between its commas.
pub open spec fn fields(line: Seq<u8>) -> Seq<Seq<u8>>
    decreases line.len(),
{
    let c = run_len(line, commas()) as int;
    if c >= line.len() {
        seq![line]
    } else {
        seq![line.subrange(0, c)] + fields(line.subrange(c + 1, line.len() as int))
    }
}

/// The cells of the first line of `data`.
pub open spec fn line_tokens(data: Seq<u8>) -> Seq<Seq<u8>> {
    trim_each(fields(data.subrange(0, line_len(data) as int)))
}

/// Each piece without the spaces at its two ends.
pub open spec fn trim_each(pieces: Seq<Seq<u8>>) -> Seq<Seq<u8>> {
    Seq::new(pieces.len(), |i: int| trimmed(pieces[i]))
}

/// The views of a list of cells.
pub open spec fn token_views(tokens: Seq<&[u8]>) -> Seq<Seq<u8>> {
    Seq::new(tokens.len(), |i: int| tokens[i]@)
}

pub proof fn lemma_lead_spaces(s: Seq<u8>, k: int)
    requires
        0 <= k <= s.len(),
        forall|j: int| 0 <= j < k ==> s[j] == SPACE,
        k == s.len() || s[k] != SPACE,
    ensures
        lead_spaces(s) == k,
    decreases k,
{
    if k > 0 {
        lemma_lead_spaces(s.skip(1), k - 1);
    }
}

pub proof fn lemma_trail_spaces(s: Seq<u8>, k: int)
    requires
        0 <= k <= s.len(),
        forall|j: int| s.len() - k <= j < s.len() ==> s[j] == SPACE,
        k == s.len() || s[s.len() - k - 1] != SPACE,
    ensures
        trail_spaces(s) == k,
    decreases k,
{
    if k > 0 {
        lemma_trail_spaces(s.drop_last(), k - 1);
    }
}

pub proof fn lemma_run_len(s: Seq<u8>, stops: Set<u8>, k: int)
    requires
        0 <= k <= s.len(),
        forall|j: int| 0 <= j < k ==> !stops.contains(s[j]),
        k == s.len() || stops.contains(s[k]),
    ensures
        run_len(s, stops) == k,
    decreases k,
{
    if k > 0 {
        lemma_run_len(s.skip(1), stops, k - 1);
    }
}

pub fn is_whitespace(c: u8) -> (r: bool)
    ensures
        r == (c == SPACE),
{
    c == SPACE
}

pub fn is_cell_x(token: &[u8]) -> (r: bool)
    ensures
        r == (token@ == seq![LOWER_X] || token@ == seq![UPPER_X]),
{
    let r = token.len() == 1 && (token[0] == LOWER_X || token[0] == UPPER_X);
    proof {
        if r {
            assert(token@ =~= seq![token[0]]);
        }
    }
    r
}

/// Removes the spaces at the two ends.
pub fn trim(data: &[u8]) -> (r: &[u8])
    ensures
        r@ == trimmed(data@),
{
    let mut start: usize = 0;
    while start < data.len() && is_whitespace(data[start])
        invariant
            start <= data.len(),
            forall|j: int| 0 <= j < start ==> data[j] == SPACE,
        decreases data.len() - start,
    {
        start += 1;
    }
    proof {
        lemma_lead_spaces(data@, start as int);
    }
    if start == data.len() {
        let r = vstd::slice::slice_subrange(data, 0, 0);
        assert(r@ =~= Seq::<u8>::empty());
        return r;
    }
    let mut end: usize = data.len();
    while end > start + 1 && is_whitespace(data[end - 1])
        invariant
            start < end <= data.len(),
            data[start as int] != SPACE,
            forall|j: int| end <= j < data.len() ==> data[j] == SPACE,
        decreases end,
    {
        end -= 1;
    }
    proof {
        lemma_trail_spaces(data@, data.len() - end);
    }
    vstd::slice::slice_subrange(data, start, end)
}

/// Splits the first line of `data` into its cells and returns the number of
/// bytes that the line takes.
pub fn parse_line<'a>(data: &'a [u8], out: &mut Vec<&'a [u8]>) -> (consumed: usize)
    requires
        old(out).len() == 0,
    ensures
        token_views(final(out)@) == line_tokens(data@),
        consumed == line_consumed(data@),
        final(out).len() >= 1,
        consumed <= data.len(),
        data.len() > 0 ==> consumed > 0,
{
    let mut end: usize = 0;
    while end < data.len() && !(data[end] == LINE_FEED || data[end] == CARRIAGE_RETURN)
        invariant
            end <= data.len(),
            forall|j: int| 0 <= j < end ==> !is_newline(data[j]),
        decreases data.len() - end,
    {
        end += 1;
    }
    proof {
        lemma_run_len(data@, newlines(), end as int);
    }
    let line = vstd::slice::slice_subrange(data, 0, end);
    split_fields(line, out);
    if end == data.len() {
        end
    } else if end + 1 < data.len() && (data[end + 1] == LINE_FEED || data[end + 1]
        == CARRIAGE_RETURN) {
        end + 2
    } else {
        end + 1
    }
}

/// Splits a line at its commas and trims each piece.
fn split_fields<'a>(line: &'a [u8], out: &mut Vec<&'a [u8]>)
    requires
        old(out).len() == 0,
    ensures
        token_views(final(out)@) == trim_each(fields(line@)),
        final(out).len() >= 1,
{
    let mut token_start: usize = 0;
    let mut offset: usize = 0;
    let ghost mut done: Seq<Seq<u8>> = Seq::empty();
    proof {
        assert(line@.subrange(0, line.len() as int) =~= line@);
        assert(done + fields(line@) =~= fields(line@));
    }
    while offset < line.len()
        invariant
            token_start <= offset <= line.len(),
            forall|j: int| token_start <= j < offset ==> line[j] != COMMA,
            fields(line@) == done + fields(line@.subrange(token_start as int, line.len() as int)),
            out.len() == done.len(),
            forall|i: int| 0 <= i < out.len() ==> (#[trigger] out[i])@ == trimmed(done[i]),
        decreases line.len() - offset,
    {
        if line[offset] == COMMA {
            let ghost rest = line@.subrange(token_start as int, line.len() as int);
            let piece = vstd::slice::slice_subrange(line, token_start, offset);
            let token = trim(piece);
            proof {
                lemma_run_len(rest, commas(), offset - token_start);
                assert(rest.subrange(0, offset - token_start) =~= piece@);
                assert(rest.subrange(offset - token_start + 1, rest.len() as int)
                    =~= line@.subrange(offset + 1, line.len() as int));
                assert(fields(rest) == seq![piece@] + fields(
                    line@.subrange(offset + 1, line.len() as int),
                ));
                assert(done + (seq![piece@] + fields(
                    line@.subrange(offset + 1, line.len() as int),
                )) =~= done.push(piece@) + fields(line@.subrange(offset + 1, line.len() as int)));
                done = done.push(piece@);
            }
            out.push(token);
            token_start = offset + 1;
        }
        offset += 1;
    }
    let ghost rest = line@.subrange(token_start as int, line.len() as int);
    let piece = vstd::slice::slice_subrange(line, token_start, line.len());
    let token = trim(piece);
    proof {
        lemma_run_len(rest, commas(), rest.len() as int);
        assert(rest =~= piece@);
        assert(fields(rest) == seq![piece@]);
        assert(done + seq![piece@] =~= done.push(piece@));
        done = done.push(piece@);
    }
    out.push(token);
    proof {
        assert(token_views(out@) =~= trim_each(done));
    }
}

} // verus!
