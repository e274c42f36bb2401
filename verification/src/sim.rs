//! The simulator, as far as the library needs it: which signals it holds and
//! in how many words, what they are worth, and how many snapshots it has
//! taken. How the signals come by their values when the simulator settles
//! them or goes on by a cycle is the simulator's own business: the library
//! has a name for each of the two.

use crate::session::InitKind;
use crate::words::WidthInt;
use crate::words::Word;
use crate::words::words_for;
use libpatron::ir::ExprRef;
use libpatron::ir::value::ValueRef;
use libpatron::mc::Simulator;
use libpatron::sim::interpreter::InitValueGenerator;
use libpatron::sim::interpreter::Interpreter;
use vstd::prelude::*;

verus! {

#[verifier::external_type_specification]
#[verifier::external_body]
pub struct ExInterpreter<'a>(Interpreter<'a>);

/// The widest value that can be handed to the simulator: 65535 words.
pub const MAX_SIM_WIDTH: WidthInt = 4_194_240;

/// How the simulator holds a signal.
pub struct Held {
    /// Number of words of one element.
    pub words: usize,
    /// Number of elements: one, unless the signal is an array.
    pub elements: u64,
    /// Width of one element in bits.
    pub width: WidthInt,
    /// Whether the signal is a state of the system.
    pub is_state: bool,
}

/// How the simulator holds each signal that it holds.
pub uninterp spec fn sim_layout(sim: &Interpreter) -> Map<ExprRef, Held>;

/// The words that each signal has in the simulator; for an array, the words
/// of all its elements.
pub uninterp spec fn sim_values(sim: &Interpreter) -> Map<ExprRef, Seq<Word>>;

/// What each snapshot that the simulator has taken holds: the words that the
/// states had when it was taken.
pub uninterp spec fn sim_kept(sim: &Interpreter) -> Seq<Map<ExprRef, Seq<Word>>>;

/// The values that the signals have after the simulator has settled them,
/// where they had the values `values` before. It depends on the simulator
/// only by the system that the simulator was made for.
pub uninterp spec fn settled(sim: &Interpreter, values: Map<ExprRef, Seq<Word>>) -> Map<
    ExprRef,
    Seq<Word>,
>;

/// The values that the signals have after the simulator has gone on by a
/// cycle, where they had the values `values` before. It depends on the
/// simulator only by the system that the simulator was made for.
pub uninterp spec fn stepped(sim: &Interpreter, values: Map<ExprRef, Seq<Word>>) -> Map<
    ExprRef,
    Seq<Word>,
>;

/// The values that the signals have after the simulator was initialised,
/// where they had the values `values` before: the states have their
/// initial values, and zero (`seed` is nothing) or random values from the
/// seed where they have none.
pub uninterp spec fn started(
    sim: &Interpreter,
    values: Map<ExprRef, Seq<Word>>,
    seed: Option<u64>,
) -> Map<ExprRef, Seq<Word>>;

/// The interpreter carries out every operation in the programs of the
/// simulator, whatever values the signals have. (A multiplication of more
/// than 64 bits is one that it does not carry out, and one of more than 32
/// bits one that it carries out for some values only.)
pub uninterp spec fn sim_executes(sim: &Interpreter) -> bool;

/// The two are simulators of the same system: they hold the same signals
/// in the same way, carry out the same operations, and settle and go on in
/// the same way.
pub open spec fn same_circuit(before: &Interpreter, after: &Interpreter) -> bool {
    &&& sim_layout(after) == sim_layout(before)
    &&& sim_executes(after) == sim_executes(before)
    &&& forall|v: Map<ExprRef, Seq<Word>>| #[trigger] settled(after, v) == settled(before, v)
    &&& forall|v: Map<ExprRef, Seq<Word>>| #[trigger] stepped(after, v) == stepped(before, v)
}

/// The seed of a kind of initial values.
pub open spec fn seed_of(kind: InitKind) -> Option<u64> {
    match kind {
        InitKind::Zero => None,
        InitKind::Random(seed) => Some(seed),
    }
}

/// The values after the states are given the values that a snapshot holds:
/// all other signals are as before.
pub open spec fn restored(
    values: Map<ExprRef, Seq<Word>>,
    layout: Map<ExprRef, Held>,
    snapshot: Map<ExprRef, Seq<Word>>,
) -> Map<ExprRef, Seq<Word>> {
    Map::new(
        |e: ExprRef|
            if states_of(layout).contains(e) {
                snapshot.contains_key(e)
            } else {
                values.contains_key(e)
            },
        |e: ExprRef|
            if states_of(layout).contains(e) {
                snapshot[e]
            } else {
                values[e]
            },
    )
}

/// Number of snapshots that the simulator has taken so far.
pub open spec fn sim_snapshots(sim: &Interpreter) -> nat {
    sim_kept(sim).len()
}

/// The signals that are states.
pub open spec fn states_of(layout: Map<ExprRef, Held>) -> Set<ExprRef> {
    Set::new(|e: ExprRef| layout.contains_key(e) && layout[e].is_state)
}

/// The words of the states among `values`.
pub open spec fn state_values(
    values: Map<ExprRef, Seq<Word>>,
    layout: Map<ExprRef, Held>,
) -> Map<ExprRef, Seq<Word>> {
    values.restrict(states_of(layout))
}

/// The words of element `index` of signal `e`, where there is such an element.
pub open spec fn element_words(layout: Map<ExprRef, Held>, e: ExprRef, index: u64) -> Option<
    usize,
> {
    if layout.contains_key(e) && index < layout[e].elements {
        Some(layout[e].words)
    } else {
        None
    }
}

/// The simulator holds `e` as a single value, not as an array.
pub open spec fn is_scalar(layout: Map<ExprRef, Held>, e: ExprRef) -> bool {
    layout.contains_key(e) && layout[e].elements == 1
}

/// A value of `words` words can be written to `e`: the simulator does not
/// hold `e`, or holds it as a single value of at least so many words.
pub open spec fn takes_value(layout: Map<ExprRef, Held>, e: ExprRef, words: int) -> bool {
    !layout.contains_key(e) || (layout[e].elements == 1 && 1 <= layout[e].words && words
        <= layout[e].words)
}

/// `Interpreter::get_element`, of which only the length of the value is
/// kept: an element exists where the signal is held and the index is below
/// the number of its elements. A signal that is held has a first element.
#[verifier::external_body]
pub(crate) fn sim_element_words(sim: &Interpreter, e: ExprRef, index: u64) -> (r: Option<usize>)
    ensures
        r == element_words(sim_layout(sim), e, index),
        r is None && index == 0 ==> !sim_layout(sim).contains_key(e),
{
    sim.get_element(e, index).map(|v| v.word_len())
}

/// The bits of the last word that a value of `width` bits uses.
pub open spec fn last_word_mask(width: WidthInt) -> Word {
    if width % 64 == 0 {
        u64::MAX
    } else {
        (((1u64 << ((width % 64) as u64)) - 1) as Word)
    }
}

/// The words that the simulator keeps when `words` is written to a signal
/// that it holds in `n` words of `width` bits: the value with zero words
/// after it, cut down to the width of the signal.
pub open spec fn stored(words: Seq<Word>, n: int, width: WidthInt) -> Seq<Word> {
    Seq::new(
        n as nat,
        |k: int|
            {
                let word = if k < words.len() {
                    words[k]
                } else {
                    0u64
                };
                if k == n - 1 {
                    word & last_word_mask(width)
                } else {
                    word
                }
            },
    )
}

/// The values of the signals after `words` is written to `e`: as before,
/// but for `e`, where the simulator holds it.
pub open spec fn values_after_set(
    values: Map<ExprRef, Seq<Word>>,
    layout: Map<ExprRef, Held>,
    e: ExprRef,
    words: Seq<Word>,
) -> Map<ExprRef, Seq<Word>> {
    if layout.contains_key(e) {
        values.insert(e, stored(words, layout[e].words as int, layout[e].width))
    } else {
        values
    }
}

/// `Interpreter::set` on a `ValueRef` of the given words and width: writes
/// the value where the simulator holds the signal, with zero words after it
/// and cut down to the width of the signal; and leaves alone all other
/// values, which signals the simulator holds, and its snapshots.
#[verifier::external_body]
pub(crate) fn sim_set(sim: &mut Interpreter, e: ExprRef, words: &[Word], width: WidthInt)
    requires
        width <= MAX_SIM_WIDTH,
        words.len() == words_for(width as int),
        takes_value(sim_layout(old(sim)), e, words.len() as int),
    ensures
        same_circuit(old(sim), final(sim)),
        sim_kept(final(sim)) == sim_kept(old(sim)),
        sim_values(final(sim)) == values_after_set(
            sim_values(old(sim)),
            sim_layout(old(sim)),
            e,
            words@,
        ),
{
    sim.set(e, ValueRef::new(words, width));
}

/// `Interpreter::get`, with the value copied out: the words of the signal,
/// where the simulator holds it.
#[verifier::external_body]
pub(crate) fn sim_get(sim: &Interpreter, e: ExprRef) -> (r: Option<Vec<Word>>)
    requires
        sim_layout(sim).contains_key(e) ==> sim_layout(sim)[e].elements == 1,
    ensures
        r is Some <==> sim_layout(sim).contains_key(e),
        r is Some ==> r.unwrap().len() == sim_layout(sim)[e].words,
        r is Some ==> r.unwrap()@ == sim_values(sim)[e],
{
    sim.get(e).map(|v| v.words().to_vec())
}

/// `Interpreter::update`: settles the signals for the current cycle, on a
/// simulator all of whose operations the interpreter carries out.
#[verifier::external_body]
pub(crate) fn sim_update(sim: &mut Interpreter)
    requires
        sim_executes(old(sim)),
    ensures
        same_circuit(old(sim), final(sim)),
        sim_executes(final(sim)),
        sim_kept(final(sim)) == sim_kept(old(sim)),
        sim_values(final(sim)) == settled(old(sim), sim_values(old(sim))),
{
    sim.update();
}

/// `Interpreter::step`: goes on to the next cycle, which gives each state
/// the value that was settled for it.
#[verifier::external_body]
pub(crate) fn sim_step(sim: &mut Interpreter)
    ensures
        same_circuit(old(sim), final(sim)),
        sim_kept(final(sim)) == sim_kept(old(sim)),
        sim_values(final(sim)) == stepped(old(sim), sim_values(old(sim))),
{
    sim.step();
}

/// `Interpreter::take_snapshot`: keeps the values of the states as one more
/// snapshot and returns the number under which they can be had again: the
/// number of snapshots that there were before, as far as 32 bits hold it.
/// The values of the signals stay as they are.
#[verifier::external_body]
pub(crate) fn sim_take_snapshot(sim: &mut Interpreter) -> (id: u32)
    ensures
        same_circuit(old(sim), final(sim)),
        sim_values(final(sim)) == sim_values(old(sim)),
        sim_kept(final(sim)) == sim_kept(old(sim)).push(
            state_values(sim_values(old(sim)), sim_layout(old(sim))),
        ),
        id < sim_kept(final(sim)).len(),
        sim_kept(old(sim)).len() <= u32::MAX ==> id == sim_kept(old(sim)).len(),
{
    sim.take_snapshot()
}

/// `Interpreter::restore_snapshot`: gives the states the values that the
/// snapshot holds, and leaves all other signals as they are.
#[verifier::external_body]
pub(crate) fn sim_restore_snapshot(sim: &mut Interpreter, id: u32)
    requires
        id < sim_snapshots(old(sim)),
    ensures
        same_circuit(old(sim), final(sim)),
        sim_kept(final(sim)) == sim_kept(old(sim)),
        sim_values(final(sim)) == restored(
            sim_values(old(sim)),
            sim_layout(old(sim)),
            sim_kept(old(sim))[id as int],
        ),
{
    sim.restore_snapshot(id);
}

/// Whether the simulator holds `e` as a single value.
pub fn sim_holds_scalar(sim: &Interpreter, e: ExprRef) -> (r: bool)
    ensures
        r == is_scalar(sim_layout(sim), e),
{
    sim_element_words(sim, e, 0).is_some() && sim_element_words(sim, e, 1).is_none()
}

/// Whether a value of `words` words can be written to `e`.
pub fn sim_takes_value(sim: &Interpreter, e: ExprRef, words: usize) -> (r: bool)
    ensures
        r == takes_value(sim_layout(sim), e, words as int),
{
    match sim_element_words(sim, e, 0) {
        None => true,
        Some(n) => sim_element_words(sim, e, 1).is_none() && 1 <= n && words <= n,
    }
}

#[verifier::external_type_specification]
#[verifier::external_body]
pub struct ExInitValueGenerator(InitValueGenerator);

/// The seed of a generator of random values; none for a generator that
/// gives zero for every value.
pub uninterp spec fn generator_seed(generator: &InitValueGenerator) -> Option<u64>;

/// Number of words that a generator of random values has given since it
/// was made.
pub uninterp spec fn generator_given(generator: &InitValueGenerator) -> nat;

/// The value of `width` bits that a generator of random values from `seed`
/// gives once it has given `given` words.
pub uninterp spec fn random_value(seed: u64, given: nat, width: WidthInt) -> Seq<Word>;

/// `InitValueGenerator::from_kind`: a generator of zeros, or of random
/// values from a seed, that has given nothing yet.
#[verifier::external_body]
pub(crate) fn new_generator(kind: InitKind) -> (r: InitValueGenerator)
    ensures
        generator_seed(&r) == seed_of(kind),
        generator_given(&r) == 0,
{
    InitValueGenerator::from_kind(
        match kind {
            InitKind::Zero => libpatron::sim::interpreter::InitKind::Zero,
            InitKind::Random(seed) => libpatron::sim::interpreter::InitKind::Random(seed),
        },
    )
}

/// `InitValueGenerator::assign` for one value of `width` bits: the words of
/// the next value of the generator, which is zero, or the random value
/// that follows from the seed and from the number of words given before.
/// The value fits the width.
#[verifier::external_body]
pub(crate) fn generate_value(
    generator: &mut InitValueGenerator,
    width: WidthInt,
    words: usize,
) -> (r: Vec<Word>)
    requires
        1 <= width <= MAX_SIM_WIDTH,
        words == words_for(width as int),
    ensures
        r.len() == words,
        generator_seed(old(generator)) is None ==> crate::words::all_zero(r@),
        generator_seed(old(generator)) is Some ==> r@ == random_value(
            generator_seed(old(generator)).unwrap(),
            generator_given(old(generator)),
            width,
        ),
        crate::words::words_value(r@) < vstd::arithmetic::power2::pow2(width as nat),
        generator_seed(final(generator)) == generator_seed(old(generator)),
        generator_given(final(generator)) == generator_given(old(generator)) + if generator_seed(
            old(generator),
        ) is Some {
            words as nat
        } else {
            0
        },
{
    let mut dst = vec![0; words];
    generator.assign(&mut dst, width, 1);
    dst
}

/// `Interpreter::init`: gives the states their initial values, and zero or
/// random values to what has none, on a simulator all of whose operations
/// the interpreter carries out.
#[verifier::external_body]
pub(crate) fn sim_init(sim: &mut Interpreter, kind: InitKind)
    requires
        sim_executes(old(sim)),
    ensures
        same_circuit(old(sim), final(sim)),
        sim_kept(final(sim)) == sim_kept(old(sim)),
        sim_values(final(sim)) == started(old(sim), sim_values(old(sim)), seed_of(kind)),
{
    sim.init(
        match kind {
            InitKind::Zero => libpatron::sim::interpreter::InitKind::Zero,
            InitKind::Random(seed) => libpatron::sim::interpreter::InitKind::Random(seed),
        },
    );
}

} // verus!
