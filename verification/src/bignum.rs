//! Unbounded naturals: decimal cells of a testbench file and the values of
//! free repair variables.

use crate::system::name_bytes;
use crate::words::WidthInt;
use crate::words::Word;
use crate::words::words_for;
use crate::words::words_value;
use libpatron::ir::value::Value;
use num_bigint::BigUint;
use num_traits::Zero;
use vstd::arithmetic::power2::pow2;
use vstd::prelude::*;

verus! {

#[verifier::external_type_specification]
#[verifier::external_body]
pub struct ExBigUint(BigUint);

/// The number that a `BigUint` holds.
pub uninterp spec fn big_value(b: BigUint) -> nat;

/// The number that a sequence of decimal digits, most significant first,
/// stands for. The empty sequence stands for zero.
pub open spec fn dec_value(digits: Seq<u8>) -> nat
    decreases digits.len(),
{
    if digits.len() == 0 {
        0
    } else {
        dec_value(digits.drop_last()) * 10 + digits.last() as nat
    }
}

/// Every byte is one of the characters `0` to `9`.
pub open spec fn is_decimal(cell: Seq<u8>) -> bool {
    forall|i: int| 0 <= i < cell.len() ==> 48 <= #[trigger] cell[i] <= 57
}

/// The digits that the characters of a decimal cell stand for.
pub open spec fn cell_digits(cell: Seq<u8>) -> Seq<u8> {
    Seq::new(cell.len(), |i: int| (cell[i] - 48) as u8)
}

/// `BigUint::from_radix_be` with radix 10: the number whose decimal digits,
/// most significant first, are given; nothing where a digit is above 9.
#[verifier::external_body]
fn big_from_decimal_digits(digits: &[u8]) -> (r: Option<BigUint>)
    ensures
        r is Some <==> (forall|i: int| 0 <= i < digits.len() ==> digits[i] < 10),
        r is Some ==> big_value(r.unwrap()) == dec_value(digits@),
{
    BigUint::from_radix_be(digits, 10)
}

/// The 64-bit digits of a number, least significant first, with no zero
/// digit at the top: zero has no digit.
pub open spec fn nat_words(v: nat) -> Seq<Word>
    decreases v,
{
    if v == 0 {
        Seq::empty()
    } else {
        seq![(v % 0x1_0000_0000_0000_0000) as Word] + nat_words(v / 0x1_0000_0000_0000_0000)
    }
}

/// The digits of a number stand for that number.
pub proof fn lemma_nat_words_value(v: nat)
    ensures
        words_value(nat_words(v)) == v,
    decreases v,
{
    if v != 0 {
        let rest = nat_words(v / 0x1_0000_0000_0000_0000);
        lemma_nat_words_value(v / 0x1_0000_0000_0000_0000);
        assert(nat_words(v).skip(1) =~= rest);
    }
}

/// `BigUint::iter_u64_digits`, collected: the 64-bit digits of the number,
/// least significant first, with no zero digit at the top.
#[verifier::external_body]
pub(crate) fn big_words(b: &BigUint) -> (r: Vec<Word>)
    ensures
        r@ == nat_words(big_value(*b)),
{
    b.iter_u64_digits().collect()
}

/// Reads a cell of decimal characters as a number. Nothing for a cell with
/// any other character in it.
pub fn dec_cell_to_big_uint(cell: &[u8]) -> (r: Option<BigUint>)
    ensures
        r is Some <==> is_decimal(cell@),
        r is Some ==> big_value(r.unwrap()) == dec_value(cell_digits(cell@)),
{
    let mut digits: Vec<u8> = Vec::new();
    let mut i: usize = 0;
    while i < cell.len()
        invariant
            i <= cell.len(),
            digits.len() == i,
            forall|j: int| 0 <= j < i ==> 48 <= #[trigger] cell[j] <= 57,
            forall|j: int| 0 <= j < i ==> digits[j] == (cell[j] - 48) as u8,
        decreases cell.len() - i,
    {
        let c: u8 = cell[i];
        if c < 48 || c > 57 {
            return None;
        }
        digits.push(c - 48);
        i += 1;
    }
    assert(digits@ =~= cell_digits(cell@));
    big_from_decimal_digits(digits.as_slice())
}

/// `Clone` of `BigUint`: the copy holds the same number.
pub assume_specification[ <BigUint as Clone>::clone ](b: &BigUint) -> (r: BigUint)
    ensures
        big_value(r) == big_value(*b),
;

/// `Zero::is_zero` of `BigUint`.
#[verifier::external_body]
pub(crate) fn big_is_zero(b: &BigUint) -> (r: bool)
    ensures
        r == (big_value(*b) == 0),
{
    b.is_zero()
}

/// The `n` least significant 64-bit digits of a number, least significant
/// first.
pub open spec fn fixed_words(v: nat, n: int) -> Seq<Word> {
    Seq::new(n as nat, |k: int| ((v / pow2((64 * k) as nat)) % 0x1_0000_0000_0000_0000) as Word)
}

/// The words of a value of `width` bits for the number `v`, cut down to
/// that width.
pub open spec fn value_words(v: nat, width: WidthInt) -> Seq<Word> {
    fixed_words(v % pow2(width as nat), words_for(width as int))
}

/// `Value::from_big_uint`, with the words copied out: the number cut down to
/// `width` bits, in the words of a value of that width.
#[verifier::external_body]
pub(crate) fn big_to_value_words(b: &BigUint, width: WidthInt) -> (r: Vec<Word>)
    requires
        1 <= width,
    ensures
        r@ == value_words(big_value(*b), width),
{
    Value::from_big_uint(b, width).words().to_vec()
}

/// `ToString` of `BigUint`: the decimal digits of the number, with no zero
/// in front of them; `0` for zero.
#[verifier::external_body]
pub(crate) fn big_to_decimal(b: &BigUint) -> (r: String)
    ensures
        is_decimal(name_bytes(r@)),
        dec_value(cell_digits(name_bytes(r@))) == big_value(*b),
        name_bytes(r@).len() >= 1,
        name_bytes(r@).len() > 1 ==> name_bytes(r@)[0] != 48,
{
    b.to_string()
}

} // verus!
