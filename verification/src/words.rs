//! Bit-vector values as little-endian sequences of 64-bit words.

use vstd::prelude::*;

verus! {

/// One machine word of a bit-vector value.
pub type Word = u64;

/// Width of a bit-vector in bits.
pub type WidthInt = u32;

/// Number of words that hold `width` bits.
pub open spec fn words_for(width: int) -> int {
    (width + 63) / 64
}

/// Number of words of a testbench cell for a signal of `width` bits: the value
/// and one more bit, which tells a don't-care apart from every value.
pub open spec fn cell_words_for(width: int) -> int {
    words_for(width + 1)
}

/// The number that a little-endian sequence of words stands for.
pub open spec fn words_value(words: Seq<Word>) -> nat
    decreases words.len(),
{
    if words.len() == 0 {
        0
    } else {
        (words[0] as nat) + 0x1_0000_0000_0000_0000 * words_value(words.skip(1))
    }
}

/// Every word is all-ones: the mark of a don't-care cell.
pub open spec fn all_ones(words: Seq<Word>) -> bool {
    forall|i: int| 0 <= i < words.len() ==> words[i] == u64::MAX
}

/// Every word is zero.
pub open spec fn all_zero(words: Seq<Word>) -> bool {
    forall|i: int| 0 <= i < words.len() ==> words[i] == 0
}

/// Two values are the same number: they agree on the words that both have,
/// and the words that only the longer one has are zero.
pub open spec fn same_value(a: Seq<Word>, b: Seq<Word>) -> bool {
    &&& forall|i: int| 0 <= i < a.len() && i < b.len() ==> a[i] == b[i]
    &&& forall|i: int| b.len() <= i < a.len() ==> a[i] == 0
    &&& forall|i: int| a.len() <= i < b.len() ==> b[i] == 0
}

pub fn width_to_words(width: WidthInt) -> (r: usize)
    ensures
        r == words_for(width as int),
{
    let full: u32 = width / 64;
    if width % 64 == 0 {
        full as usize
    } else {
        (full + 1) as usize
    }
}

/// Words of one testbench cell for a signal of `width` bits.
pub fn cell_words(width: WidthInt) -> (r: usize)
    ensures
        r == cell_words_for(width as int),
        r >= 1,
        r >= words_for(width as int),
{
    (width / 64) as usize + 1
}

pub fn is_x(words: &[Word]) -> (r: bool)
    ensures
        r == all_ones(words@),
{
    let mut i: usize = 0;
    while i < words.len()
        invariant
            i <= words.len(),
            forall|j: int| 0 <= j < i ==> words[j] == u64::MAX,
        decreases words.len() - i,
    {
        if words[i] != u64::MAX {
            return false;
        }
        i += 1;
    }
    true
}

/// Compares two values as numbers, whatever their lengths.
pub fn words_equal(a: &[Word], b: &[Word]) -> (r: bool)
    ensures
        r == same_value(a@, b@),
{
    let mut i: usize = 0;
    while i < a.len() || i < b.len()
        invariant
            forall|j: int| 0 <= j < i && j < a.len() && j < b.len() ==> a[j] == b[j],
            forall|j: int| b.len() <= j < i && j < a.len() ==> a[j] == 0,
            forall|j: int| a.len() <= j < i && j < b.len() ==> b[j] == 0,
        decreases (if a.len() > b.len() { a.len() } else { b.len() }) - i,
    {
        let x: Word = if i < a.len() { a[i] } else { 0 };
        let y: Word = if i < b.len() { b[i] } else { 0 };
        if x != y {
            return false;
        }
        i += 1;
    }
    true
}

} // verus!
