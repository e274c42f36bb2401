//! What the library reads of a transition system: its signals and states,
//! each as plain values beside the handle under which the simulator and the
//! encoder know it.

use crate::words::WidthInt;
use libpatron::ir::ExprRef;
use vstd::prelude::*;

verus! {

#[verifier::external_type_specification]
#[verifier::external_body]
pub struct ExExprRef(ExprRef);

/// `Clone` of `ExprRef`: the copy names the same expression.
pub assume_specification[ <ExprRef as Clone>::clone ](e: &ExprRef) -> (r: ExprRef)
    ensures
        r == *e,
;

/// `PartialEq` of `ExprRef`: two handles are equal when they name the same
/// expression.
#[verifier::external_body]
pub(crate) fn same_expr(a: ExprRef, b: ExprRef) -> (r: bool)
    ensures
        r == (a == b),
{
    a == b
}

/// The bytes of a name.
pub open spec fn name_bytes(name: Seq<char>) -> Seq<u8> {
    vstd::utf8::encode_utf8(name)
}

/// A signal of the system.
pub struct Signal {
    pub expr: ExprRef,
    /// The name of the signal.
    pub name: String,
    /// A second name under which a testbench may list the signal.
    pub alias: Option<String>,
    /// The width of a bit-vector signal; nothing for an array.
    pub width: Option<WidthInt>,
    pub is_input: bool,
    pub is_output: bool,
}

/// A state of the system.
pub struct StateInfo {
    pub symbol: ExprRef,
    pub name: String,
    /// The width of a bit-vector state; nothing for an array.
    pub width: Option<WidthInt>,
    /// Whether the system gives the state an initial value.
    pub has_init: bool,
}

impl Signal {
    /// The signal for an expression that may be a symbol with a name, and
    /// that the system may list under a name. The signal goes by both names;
    /// it is called by the name of the symbol, where there is one.
    pub fn named(
        expr: ExprRef,
        symbol_name: Option<String>,
        signal_name: Option<String>,
        width: Option<WidthInt>,
        is_input: bool,
        is_output: bool,
    ) -> (r: Signal)
        ensures
            r.expr == expr,
            r.width == width,
            r.is_input == is_input,
            r.is_output == is_output,
            match (symbol_name, signal_name) {
                (Some(a), Some(b)) => r.name == a && r.alias == Some(b),
                (Some(a), None) => r.name == a && r.alias is None,
                (None, Some(b)) => r.name == b && r.alias is None,
                (None, None) => r.name@.len() == 0 && r.alias is None,
            },
    {
        match (symbol_name, signal_name) {
            (Some(a), Some(b)) => Signal { expr, name: a, alias: Some(b), width, is_input, is_output },
            (Some(a), None) => Signal { expr, name: a, alias: None, width, is_input, is_output },
            (None, Some(b)) => Signal { expr, name: b, alias: None, width, is_input, is_output },
            (None, None) => Signal {
                expr,
                name: String::new(),
                alias: None,
                width,
                is_input,
                is_output,
            },
        }
    }

    /// The signal goes by the name that `token` spells.
    pub open spec fn answers_to(&self, token: Seq<u8>) -> bool {
        name_bytes(self.name@) == token || (self.alias is Some && name_bytes(
            self.alias.unwrap()@,
        ) == token)
    }

    pub open spec fn is_io(&self) -> bool {
        self.is_input || self.is_output
    }
}

/// Compares two byte strings.
pub fn bytes_equal(a: &[u8], b: &[u8]) -> (r: bool)
    ensures
        r == (a@ == b@),
{
    if a.len() != b.len() {
        return false;
    }
    let mut i: usize = 0;
    while i < a.len()
        invariant
            a.len() == b.len(),
            i <= a.len(),
            forall|j: int| 0 <= j < i ==> a[j] == b[j],
        decreases a.len() - i,
    {
        if a[i] != b[i] {
            return false;
        }
        i += 1;
    }
    assert(a@ =~= b@);
    true
}

/// Whether `s` begins with `prefix`.
pub open spec fn starts_with(s: Seq<u8>, prefix: Seq<u8>) -> bool {
    prefix.len() <= s.len() && s.subrange(0, prefix.len() as int) == prefix
}

pub fn has_prefix(s: &[u8], prefix: &[u8]) -> (r: bool)
    ensures
        r == starts_with(s@, prefix@),
{
    if prefix.len() > s.len() {
        return false;
    }
    bytes_equal(vstd::slice::slice_subrange(s, 0, prefix.len()), prefix)
}

/// Whether the signal goes by the name in `token`.
pub fn signal_answers_to(signal: &Signal, token: &[u8]) -> (r: bool)
    ensures
        r == signal.answers_to(token@),
{
    if bytes_equal(signal.name.as_str().as_bytes(), token) {
        return true;
    }
    match &signal.alias {
        Some(alias) => bytes_equal(alias.as_str().as_bytes(), token),
        None => false,
    }
}

/// Index of the last signal that goes by the name `token`.
pub open spec fn lookup(signals: Seq<Signal>, token: Seq<u8>) -> Option<int>
    decreases signals.len(),
{
    if signals.len() == 0 {
        None
    } else if signals.last().answers_to(token) {
        Some(signals.len() - 1)
    } else {
        lookup(signals.drop_last(), token)
    }
}

pub proof fn lemma_lookup(signals: Seq<Signal>, token: Seq<u8>)
    ensures
        match lookup(signals, token) {
            Some(i) => 0 <= i < signals.len() && signals[i].answers_to(token) && forall|j: int|
                i < j < signals.len() ==> !(#[trigger] signals[j]).answers_to(token),
            None => forall|j: int|
                0 <= j < signals.len() ==> !(#[trigger] signals[j]).answers_to(token),
        },
    decreases signals.len(),
{
    if signals.len() > 0 && !signals.last().answers_to(token) {
        let front = signals.drop_last();
        lemma_lookup(front, token);
        assert(forall|j: int| 0 <= j < front.len() ==> front[j] == signals[j]);
    }
}

/// Finds the signal that a column name of a testbench means: where several
/// signals go by the name, the last of them.
pub fn find_signal(signals: &[Signal], token: &[u8]) -> (r: Option<usize>)
    ensures
        match r {
            Some(i) => lookup(signals@, token@) == Some(i as int),
            None => lookup(signals@, token@) is None,
        },
{
    let mut i: usize = signals.len();
    assert(signals@.take(i as int) =~= signals@);
    while i > 0
        invariant
            i <= signals.len(),
            lookup(signals@, token@) == lookup(signals@.take(i as int), token@),
        decreases i,
    {
        if signal_answers_to(&signals[i - 1], token) {
            return Some(i - 1);
        }
        proof {
            assert(signals@.take(i as int).drop_last() =~= signals@.take(i - 1));
        }
        i -= 1;
    }
    None
}

} // verus!
