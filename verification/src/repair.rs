//! The registry of repair variables: the states of a system whose names mark
//! them as change variables (one bit, asserted to switch a change on) or as
//! free variables (any width, any value).

use crate::bignum::big_is_zero;
use crate::bignum::big_to_decimal;
use crate::bignum::big_value;
use crate::bignum::cell_digits;
use crate::bignum::dec_value;
use crate::bignum::is_decimal;
use crate::system::has_prefix;
use crate::system::name_bytes;
use crate::system::same_expr;
use crate::system::starts_with;
use crate::system::StateInfo;
use crate::testbench::MAX_WIDTH;
use crate::words::WidthInt;
use libpatron::ir::ExprRef;
use num_bigint::BigUint;
use vstd::prelude::*;
use vstd::string::StringExecFns;

verus! {

/// What the last part of the name of a free or change variable begins with.
pub const SYNTH_VAR_PREFIX: &'static str = "__synth_";

/// What the last part of the name of a change variable begins with.
pub const SYNTH_CHANGE_PREFIX: &'static str = "__synth_change_";

/// Width of the signal that counts the asserted change variables.
pub const CHANGE_COUNT_WIDTH: WidthInt = 16;

/// The largest number of change variables that the count can hold.
pub const MAX_CHANGES: usize = 65535;

pub const DOT: u8 = 46;

#[derive(Debug, Clone, Copy, PartialEq, Eq, Structural)]
pub enum StateType {
    ChangeVar,
    FreeVar,
    Other,
}

impl StateType {
    pub fn is_synth_var(&self) -> (r: bool)
        ensures
            r == (*self != StateType::Other),
    {
        !matches!(self, StateType::Other)
    }
}

/// Where the last part of a dotted name starts: after its last dot.
pub open spec fn suffix_start(name: Seq<u8>) -> int
    decreases name.len(),
{
    if name.len() == 0 {
        0
    } else if name.last() == DOT {
        name.len() as int
    } else {
        suffix_start(name.drop_last())
    }
}

/// The kind of a state with the given name. The name of a change variable
/// also begins like that of a free variable, so it is looked for first.
pub open spec fn classify(name: Seq<u8>) -> StateType {
    let suffix = name.skip(suffix_start(name));
    if starts_with(suffix, name_bytes(SYNTH_CHANGE_PREFIX@)) {
        StateType::ChangeVar
    } else if starts_with(suffix, name_bytes(SYNTH_VAR_PREFIX@)) {
        StateType::FreeVar
    } else {
        StateType::Other
    }
}

/// Determines whether a state is a synthesis variable, and of what kind, by
/// the part of its name after the last dot.
pub fn classify_state(name: &str) -> (r: StateType)
    ensures
        r == classify(name_bytes(name@)),
{
    let bytes = name.as_bytes();
    let mut start: usize = bytes.len();
    proof {
        assert(bytes@.take(start as int) =~= bytes@);
    }
    while start > 0 && bytes[start - 1] != DOT
        invariant
            start <= bytes.len(),
            suffix_start(bytes@) == suffix_start(bytes@.take(start as int)),
        decreases start,
    {
        proof {
            assert(bytes@.take(start as int).drop_last() =~= bytes@.take(start - 1));
        }
        start -= 1;
    }
    let suffix = vstd::slice::slice_subrange(bytes, start, bytes.len());
    proof {
        assert(suffix@ =~= bytes@.skip(suffix_start(bytes@)));
    }
    // important to check the change prefix first
    // (since the var prefix is a prefix of the change prefix)
    if has_prefix(suffix, SYNTH_CHANGE_PREFIX.as_bytes()) {
        StateType::ChangeVar
    } else if has_prefix(suffix, SYNTH_VAR_PREFIX.as_bytes()) {
        StateType::FreeVar
    } else {
        StateType::Other
    }
}

/// Why the states of a system give no registry.
#[derive(Debug, Clone, Copy, PartialEq, Eq, Structural)]
pub enum RepairVarsError {
    /// The change variable at this place among the states is not one bit wide.
    ChangeNotOneBit { state: usize },
    /// The free variable at this place among the states is an array, or its
    /// width is zero or more than a simulator value can have.
    FreeNotBitVector { state: usize },
    /// There are more change variables than the change count can hold.
    TooManyChanges,
}

/// The repair variables of a system, in the order of its states.
pub struct RepairVars {
    /// The change variables.
    pub change: Vec<ExprRef>,
    /// The free variables, each with its width.
    pub free: Vec<(ExprRef, WidthInt)>,
    /// The name of each change variable.
    pub change_names: Vec<String>,
    /// The name of each free variable.
    pub free_names: Vec<String>,
}

/// The kind of a state.
pub open spec fn kind_of(state: StateInfo) -> StateType {
    classify(name_bytes(state.name@))
}

/// The change variables among `states`.
pub open spec fn change_of(states: Seq<StateInfo>) -> Seq<ExprRef>
    decreases states.len(),
{
    if states.len() == 0 {
        Seq::empty()
    } else if kind_of(states.last()) == StateType::ChangeVar {
        change_of(states.drop_last()).push(states.last().symbol)
    } else {
        change_of(states.drop_last())
    }
}

/// The names of the change variables among `states`.
pub open spec fn change_names_of(states: Seq<StateInfo>) -> Seq<String>
    decreases states.len(),
{
    if states.len() == 0 {
        Seq::empty()
    } else if kind_of(states.last()) == StateType::ChangeVar {
        change_names_of(states.drop_last()).push(states.last().name)
    } else {
        change_names_of(states.drop_last())
    }
}

/// The free variables among `states`, each with its width.
pub open spec fn free_of(states: Seq<StateInfo>) -> Seq<(ExprRef, WidthInt)>
    decreases states.len(),
{
    if states.len() == 0 {
        Seq::empty()
    } else if kind_of(states.last()) == StateType::FreeVar && states.last().width is Some {
        free_of(states.drop_last()).push((states.last().symbol, states.last().width.unwrap()))
    } else {
        free_of(states.drop_last())
    }
}

/// The names of the free variables among `states`.
pub open spec fn free_names_of(states: Seq<StateInfo>) -> Seq<String>
    decreases states.len(),
{
    if states.len() == 0 {
        Seq::empty()
    } else if kind_of(states.last()) == StateType::FreeVar && states.last().width is Some {
        free_names_of(states.drop_last()).push(states.last().name)
    } else {
        free_names_of(states.drop_last())
    }
}

/// Every change variable is the symbol of a state that is named as a change
/// variable.
pub proof fn lemma_change_member(states: Seq<StateInfo>, a: int)
    requires
        0 <= a < change_of(states).len(),
    ensures
        exists|k: int|
            0 <= k < states.len() && (#[trigger] states[k]).symbol == change_of(states)[a]
                && kind_of(states[k]) == StateType::ChangeVar,
    decreases states.len(),
{
    let front = states.drop_last();
    if kind_of(states.last()) == StateType::ChangeVar && a == change_of(front).len() {
        assert(states[states.len() - 1].symbol == change_of(states)[a]);
    } else {
        lemma_change_member(front, a);
        let k = choose|k: int|
            0 <= k < front.len() && (#[trigger] front[k]).symbol == change_of(front)[a] && kind_of(
                front[k],
            ) == StateType::ChangeVar;
        assert(states[k] == front[k]);
    }
}

/// Every free variable is the symbol of a state that is named as a free
/// variable.
pub proof fn lemma_free_member(states: Seq<StateInfo>, b: int)
    requires
        0 <= b < free_of(states).len(),
    ensures
        exists|k: int|
            0 <= k < states.len() && (#[trigger] states[k]).symbol == free_of(states)[b].0
                && kind_of(states[k]) == StateType::FreeVar,
    decreases states.len(),
{
    let front = states.drop_last();
    if kind_of(states.last()) == StateType::FreeVar && states.last().width is Some && b
        == free_of(front).len() {
        assert(states[states.len() - 1].symbol == free_of(states)[b].0);
    } else {
        lemma_free_member(front, b);
        let k = choose|k: int|
            0 <= k < front.len() && (#[trigger] front[k]).symbol == free_of(front)[b].0 && kind_of(
                front[k],
            ) == StateType::FreeVar;
        assert(states[k] == front[k]);
    }
}

/// No variable is both a change variable and a free variable, where no two
/// states of the system have the same symbol.
pub proof fn change_and_free_are_disjoint(states: Seq<StateInfo>, a: int, b: int)
    requires
        forall|i: int, j: int|
            0 <= i < j < states.len() ==> (#[trigger] states[i]).symbol != (
            #[trigger] states[j]).symbol,
        0 <= a < change_of(states).len(),
        0 <= b < free_of(states).len(),
    ensures
        change_of(states)[a] != free_of(states)[b].0,
{
    lemma_change_member(states, a);
    lemma_free_member(states, b);
    let k = choose|k: int|
        0 <= k < states.len() && (#[trigger] states[k]).symbol == change_of(states)[a] && kind_of(
            states[k],
        ) == StateType::ChangeVar;
    let m = choose|m: int|
        0 <= m < states.len() && (#[trigger] states[m]).symbol == free_of(states)[b].0 && kind_of(
            states[m],
        ) == StateType::FreeVar;
    if change_of(states)[a] == free_of(states)[b].0 {
        if k < m {
            assert(states[k].symbol != states[m].symbol);
        } else if m < k {
            assert(states[m].symbol != states[k].symbol);
        }
    }
}

/// What is wrong with the state at place `i`, if anything: a change variable
/// must be one bit wide, a free variable a bit-vector of a width that a
/// simulator value can have.
pub open spec fn state_error(state: StateInfo, i: int) -> Option<RepairVarsError> {
    match kind_of(state) {
        StateType::ChangeVar => if state.width == Some(1u32) {
            None
        } else {
            Some(RepairVarsError::ChangeNotOneBit { state: i as usize })
        },
        StateType::FreeVar => if state.width is Some && 1 <= state.width.unwrap() <= MAX_WIDTH {
            None
        } else {
            Some(RepairVarsError::FreeNotBitVector { state: i as usize })
        },
        StateType::Other => None,
    }
}

/// The error of the first state that has one; where no state has one, too
/// many change variables are an error.
pub open spec fn registry_error(states: Seq<StateInfo>) -> Option<RepairVarsError> {
    if exists|i: int| 0 <= i < states.len() && state_error(#[trigger] states[i], i) is Some {
        let i = choose|i: int|
            0 <= i < states.len() && state_error(#[trigger] states[i], i) is Some && forall|j: int|
                0 <= j < i ==> state_error(#[trigger] states[j], j) is None;
        state_error(states[i], i)
    } else if change_of(states).len() > MAX_CHANGES {
        Some(RepairVarsError::TooManyChanges)
    } else {
        None
    }
}

impl RepairVars {
    /// The lists go together, the count can hold the number of change
    /// variables, and every free variable has a width that a simulator value
    /// can have.
    pub open spec fn wf(&self) -> bool {
        &&& self.change.len() == self.change_names.len()
        &&& self.free.len() == self.free_names.len()
        &&& self.change.len() <= MAX_CHANGES
        &&& forall|i: int|
            0 <= i < self.free.len() ==> 1 <= (#[trigger] self.free[i]).1 <= MAX_WIDTH
    }

    /// Whether the lists go together, the count can hold the number of change
    /// variables, and every free variable has a width that a simulator value
    /// can have.
    pub fn is_wf(&self) -> (r: bool)
        ensures
            r == self.wf(),
    {
        if self.change.len() != self.change_names.len() || self.free.len()
            != self.free_names.len() || self.change.len() > MAX_CHANGES {
            return false;
        }
        let mut i: usize = 0;
        while i < self.free.len()
            invariant
                i <= self.free.len(),
                forall|j: int| 0 <= j < i ==> 1 <= (#[trigger] self.free[j]).1 <= MAX_WIDTH,
            decreases self.free.len() - i,
        {
            if self.free[i].1 < 1 || self.free[i].1 > MAX_WIDTH {
                return false;
            }
            i += 1;
        }
        true
    }

    /// `e` is a change variable or a free variable.
    pub open spec fn holds(&self, e: ExprRef) -> bool {
        self.change@.contains(e) || exists|i: int|
            0 <= i < self.free.len() && (#[trigger] self.free[i]).0 == e
    }

    /// Collects the repair variables among the states of a system.
    pub fn from_sys(states: &[StateInfo]) -> (r: Result<RepairVars, RepairVarsError>)
        ensures
            match r {
                Ok(vars) => {
                    &&& registry_error(states@) is None
                    &&& vars.wf()
                    &&& vars.change@ == change_of(states@)
                    &&& vars.free@ == free_of(states@)
                    &&& vars.change_names@ == change_names_of(states@)
                    &&& vars.free_names@ == free_names_of(states@)
                },
                Err(e) => registry_error(states@) == Some(e),
            },
    {
        let mut change: Vec<ExprRef> = Vec::new();
        let mut free: Vec<(ExprRef, WidthInt)> = Vec::new();
        let mut change_names: Vec<String> = Vec::new();
        let mut free_names: Vec<String> = Vec::new();
        let mut i: usize = 0;
        proof {
            assert(states@.take(0) =~= Seq::<StateInfo>::empty());
        }
        while i < states.len()
            invariant
                i <= states.len(),
                forall|j: int| 0 <= j < i ==> state_error(#[trigger] states[j], j) is None,
                change@ == change_of(states@.take(i as int)),
                free@ == free_of(states@.take(i as int)),
                change_names@ == change_names_of(states@.take(i as int)),
                free_names@ == free_names_of(states@.take(i as int)),
                change.len() == change_names.len(),
                free.len() == free_names.len(),
                forall|k: int| 0 <= k < free.len() ==> 1 <= (#[trigger] free[k]).1 <= MAX_WIDTH,
            decreases states.len() - i,
        {
            let state = &states[i];
            proof {
                assert(states@.take(i + 1).drop_last() =~= states@.take(i as int));
                assert(states@.take(i + 1).last() == states@[i as int]);
            }
            match classify_state(state.name.as_str()) {
                StateType::ChangeVar => {
                    match state.width {
                        Some(1) => {},
                        _ => {
                            proof {
                                assert(state_error(states[i as int], i as int) is Some);
                            }
                            return Err(RepairVarsError::ChangeNotOneBit { state: i });
                        },
                    }
                    change.push(state.symbol);
                    change_names.push(state.name.clone());
                },
                StateType::FreeVar => {
                    match state.width {
                        Some(width) if 1 <= width && width <= MAX_WIDTH => {
                            free.push((state.symbol, width));
                            free_names.push(state.name.clone());
                        },
                        _ => {
                            proof {
                                assert(state_error(states[i as int], i as int) is Some);
                            }
                            return Err(RepairVarsError::FreeNotBitVector { state: i });
                        },
                    }
                },
                StateType::Other => {},  // nothing to do
            }
            i += 1;
        }
        proof {
            assert(states@.take(states.len() as int) =~= states@);
        }
        if change.len() > MAX_CHANGES {
            return Err(RepairVarsError::TooManyChanges);
        }
        Ok(RepairVars { change, free, change_names, free_names })
    }

    pub fn is_repair_var(&self, other: ExprRef) -> (r: bool)
        ensures
            r == self.holds(other),
    {
        let mut i: usize = 0;
        while i < self.change.len()
            invariant
                i <= self.change.len(),
                forall|j: int| 0 <= j < i ==> self.change[j] != other,
            decreases self.change.len() - i,
        {
            if same_expr(self.change[i], other) {
                return true;
            }
            i += 1;
        }
        let mut k: usize = 0;
        while k < self.free.len()
            invariant
                k <= self.free.len(),
                !self.change@.contains(other),
                forall|j: int| 0 <= j < k ==> (#[trigger] self.free[j]).0 != other,
            decreases self.free.len() - k,
        {
            if same_expr(self.free[k].0, other) {
                return true;
            }
            k += 1;
        }
        false
    }
}

/// Values for the repair variables: `change[i]` for the `i`-th change
/// variable of the registry, `free[i]` for its `i`-th free variable.
#[derive(Debug, Clone)]
pub struct RepairAssignment {
    pub change: Vec<bool>,
    pub free: Vec<BigUint>,
}

/// What a repair assignment holds.
pub struct AssignmentView {
    pub change: Seq<bool>,
    pub free: Seq<nat>,
}

/// The numbers that a list of `BigUint` holds.
pub open spec fn big_values(values: Seq<BigUint>) -> Seq<nat> {
    Seq::new(values.len(), |i: int| big_value(values[i]))
}

impl View for RepairAssignment {
    type V = AssignmentView;

    open spec fn view(&self) -> AssignmentView {
        AssignmentView { change: self.change@, free: big_values(self.free@) }
    }
}

/// Number of `true` entries.
pub open spec fn count_true(bits: Seq<bool>) -> nat
    decreases bits.len(),
{
    if bits.len() == 0 {
        0
    } else {
        count_true(bits.drop_last()) + if bits.last() {
            1nat
        } else {
            0nat
        }
    }
}

impl RepairAssignment {
    /// A copy that holds the same values.
    pub fn duplicate(&self) -> (r: RepairAssignment)
        ensures
            r@ == self@,
    {
        let mut change: Vec<bool> = Vec::new();
        let mut i: usize = 0;
        while i < self.change.len()
            invariant
                i <= self.change.len(),
                change@ == self.change@.take(i as int),
            decreases self.change.len() - i,
        {
            change.push(self.change[i]);
            proof {
                assert(change@ =~= self.change@.take(i + 1));
            }
            i += 1;
        }
        proof {
            assert(self.change@.take(self.change.len() as int) =~= self.change@);
        }
        let mut free: Vec<BigUint> = Vec::new();
        let mut k: usize = 0;
        while k < self.free.len()
            invariant
                k <= self.free.len(),
                free.len() == k,
                forall|j: int| 0 <= j < k ==> big_value(free[j]) == big_value(self.free[j]),
            decreases self.free.len() - k,
        {
            free.push(self.free[k].clone());
            k += 1;
        }
        proof {
            assert(big_values(free@) =~= big_values(self.free@));
        }
        RepairAssignment { change, free }
    }

    /// Number of change variables that the assignment asserts.
    pub fn change_count(&self) -> (r: usize)
        ensures
            r == count_true(self.change@),
    {
        let mut count: usize = 0;
        let mut i: usize = 0;
        proof {
            assert(self.change@.take(0) =~= Seq::<bool>::empty());
        }
        while i < self.change.len()
            invariant
                i <= self.change.len(),
                count <= i,
                count == count_true(self.change@.take(i as int)),
            decreases self.change.len() - i,
        {
            proof {
                assert(self.change@.take(i + 1).drop_last() =~= self.change@.take(i as int));
            }
            if self.change[i] {
                count += 1;
            }
            i += 1;
        }
        proof {
            assert(self.change@.take(self.change.len() as int) =~= self.change@);
        }
        count
    }
}

/// What a solver says a variable is worth.
#[derive(Debug, Clone)]
pub enum ModelValue {
    /// A bit-vector: its number and its width.
    Scalar(BigUint, WidthInt),
    /// An array.
    Array,
}

/// Why the values of a model give no repair assignment.
#[derive(Debug, Clone, Copy, PartialEq, Eq, Structural)]
pub enum ModelError {
    /// There is not exactly one value for each repair variable.
    WrongCount,
    /// The value at this place is an array.
    ArrayValue { index: usize },
    /// The value at this place is for a change variable and is not one bit
    /// wide.
    ChangeWidth { index: usize },
}

/// What is wrong with the value at place `i`, where the first `changes`
/// values are for change variables.
pub open spec fn value_error(value: ModelValue, i: int, changes: int) -> Option<ModelError> {
    match value {
        ModelValue::Array => Some(ModelError::ArrayValue { index: i as usize }),
        ModelValue::Scalar(_, width) => if i < changes && width != 1 {
            Some(ModelError::ChangeWidth { index: i as usize })
        } else {
            None
        },
    }
}

/// The error of the first value that has one.
pub open spec fn model_error(values: Seq<ModelValue>, changes: int, frees: int) -> Option<
    ModelError,
> {
    if values.len() != changes + frees {
        Some(ModelError::WrongCount)
    } else if exists|i: int|
        0 <= i < values.len() && value_error(#[trigger] values[i], i, changes) is Some {
        let i = choose|i: int|
            0 <= i < values.len() && value_error(#[trigger] values[i], i, changes) is Some
                && forall|j: int|
                0 <= j < i ==> value_error(#[trigger] values[j], j, changes) is None;
        value_error(values[i], i, changes)
    } else {
        None
    }
}

/// The first value with an error gives the error of the model.
pub proof fn lemma_first_model_error(values: Seq<ModelValue>, changes: int, frees: int, i: int)
    requires
        values.len() == changes + frees,
        0 <= i < values.len(),
        value_error(values[i], i, changes) is Some,
        forall|j: int| 0 <= j < i ==> value_error(#[trigger] values[j], j, changes) is None,
    ensures
        model_error(values, changes, frees) == value_error(values[i], i, changes),
{
    let c = choose|c: int|
        0 <= c < values.len() && value_error(#[trigger] values[c], c, changes) is Some
            && forall|j: int| 0 <= j < c ==> value_error(#[trigger] values[j], j, changes) is None;
    if c < i {
        assert(value_error(values[c], c, changes) is None);
    }
    if i < c {
        assert(value_error(values[i], i, changes) is None);
    }
}

/// The number of a scalar value.
pub open spec fn scalar_of(value: ModelValue) -> nat {
    match value {
        ModelValue::Scalar(number, _) => big_value(number),
        ModelValue::Array => 0,
    }
}

/// The assignment that the values of a model stand for: a change variable is
/// asserted where its value is not zero.
pub open spec fn model_assignment(values: Seq<ModelValue>, changes: int) -> AssignmentView {
    AssignmentView {
        change: Seq::new(changes as nat, |i: int| scalar_of(values[i]) != 0),
        free: Seq::new((values.len() - changes) as nat, |i: int| scalar_of(values[changes + i])),
    }
}

/// One variable, as it is or negated.
#[derive(Debug, Clone, Copy)]
pub struct Literal {
    pub var: ExprRef,
    pub positive: bool,
}

/// Whether the change variables with the values `model` satisfy the
/// constraint that blocks an assignment: the negation of the conjunction of
/// `literals`, of which the `i`-th is over the `i`-th change variable.
pub open spec fn satisfies_block(literals: Seq<Literal>, model: Seq<bool>) -> bool {
    !(forall|i: int| 0 <= i < literals.len() ==> model[i] == (#[trigger] literals[i]).positive)
}

impl RepairVars {
    /// Turns the values that a solver gives for the repair variables, those
    /// of the change variables first, into a repair assignment.
    pub fn read_assignment(&self, values: &Vec<ModelValue>) -> (r: Result<
        RepairAssignment,
        ModelError,
    >)
        ensures
            match r {
                Ok(assignment) => {
                    &&& model_error(values@, self.change.len() as int, self.free.len() as int)
                        is None
                    &&& assignment@ == model_assignment(values@, self.change.len() as int)
                },
                Err(e) => model_error(values@, self.change.len() as int, self.free.len() as int)
                    == Some(e),
            },
    {
        let changes = self.change.len();
        if values.len() < changes || values.len() - changes != self.free.len() {
            return Err(ModelError::WrongCount);
        }
        let mut change: Vec<bool> = Vec::with_capacity(changes);
        let mut free: Vec<BigUint> = Vec::with_capacity(self.free.len());
        let mut i: usize = 0;
        while i < values.len()
            invariant
                i <= values.len(),
                changes <= values.len(),
                changes == self.change.len(),
                values.len() - changes == self.free.len(),
                forall|j: int|
                    0 <= j < i ==> value_error(#[trigger] values[j], j, changes as int) is None,
                change.len() == (if i < changes { i } else { changes }),
                free.len() == (if i < changes { 0 } else { i - changes }),
                forall|j: int| 0 <= j < change.len() ==> change[j] == (scalar_of(values[j]) != 0),
                forall|j: int|
                    0 <= j < free.len() ==> big_value(free[j]) == scalar_of(values[changes + j]),
            decreases values.len() - i,
        {
            match &values[i] {
                ModelValue::Scalar(number, width) => {
                    if i < changes {
                        if *width != 1 {
                            proof {
                                lemma_first_model_error(
                                    values@,
                                    changes as int,
                                    self.free.len() as int,
                                    i as int,
                                );
                            }
                            return Err(ModelError::ChangeWidth { index: i });
                        }
                        change.push(!big_is_zero(number));
                    } else {
                        free.push(number.clone());
                    }
                },
                ModelValue::Array => {
                    proof {
                        lemma_first_model_error(
                            values@,
                            changes as int,
                            self.free.len() as int,
                            i as int,
                        );
                    }
                    return Err(ModelError::ArrayValue { index: i });
                },
            }
            i += 1;
        }
        let assignment = RepairAssignment { change, free };
        proof {
            let expected = model_assignment(values@, changes as int);
            assert(assignment@.change =~= expected.change);
            assert(assignment@.free =~= expected.free);
        }
        Ok(assignment)
    }

    /// The literals whose conjunction says that the change variables are
    /// worth what `assignment` gives them. To block the assignment is to
    /// assert the negation of that conjunction; the free variables are left
    /// open.
    pub fn block_assignment(&self, assignment: &RepairAssignment) -> (r: Vec<Literal>)
        ensures
            r.len() == vstd::math::min(self.change.len() as int, assignment.change.len() as int),
            forall|i: int|
                0 <= i < r.len() ==> (#[trigger] r[i]).var == self.change[i] && r[i].positive
                    == assignment.change[i],
    {
        let mut out: Vec<Literal> = Vec::new();
        let mut i: usize = 0;
        while i < self.change.len() && i < assignment.change.len()
            invariant
                i <= self.change.len(),
                i <= assignment.change.len(),
                out.len() == i,
                forall|j: int|
                    0 <= j < i ==> (#[trigger] out[j]).var == self.change[j] && out[j].positive
                        == assignment.change[j],
            decreases self.change.len() - i,
        {
            out.push(Literal { var: self.change[i], positive: assignment.change[i] });
            i += 1;
        }
        out
    }

    /// The names of the change variables that `assignment` asserts.
    pub fn get_change_names(&self, assignment: &RepairAssignment) -> (r: Vec<String>)
        requires
            self.wf(),
        ensures
            r@ == asserted_names(
                self.change_names@,
                assignment.change@,
                vstd::math::min(self.change.len() as int, assignment.change.len() as int),
            ),
    {
        let mut out: Vec<String> = Vec::new();
        let mut i: usize = 0;
        while i < self.change.len() && i < assignment.change.len()
            invariant
                self.wf(),
                i <= self.change.len(),
                i <= assignment.change.len(),
                out@ == asserted_names(self.change_names@, assignment.change@, i as int),
            decreases self.change.len() - i,
        {
            if assignment.change[i] {
                out.push(self.change_names[i].clone());
            }
            i += 1;
        }
        out
    }
}

/// One entry of the report of an assignment: the name of a repair variable
/// and its value as a decimal number.
pub struct JsonEntry {
    pub name: String,
    pub number: String,
}

/// `text` spells the number `value` in decimal digits, with no zero in front
/// of them.
pub open spec fn is_decimal_of(text: Seq<char>, value: nat) -> bool {
    &&& is_decimal(name_bytes(text))
    &&& dec_value(cell_digits(name_bytes(text))) == value
    &&& name_bytes(text).len() >= 1
    &&& name_bytes(text).len() > 1 ==> name_bytes(text)[0] != 48
}

impl RepairVars {
    /// The report of an assignment: for each change variable its name with 0
    /// or 1, then for each free variable its name with its number.
    pub fn to_json(&self, assignment: &RepairAssignment) -> (r: Vec<JsonEntry>)
        requires
            self.wf(),
        ensures
            ({
                let changes = vstd::math::min(
                    self.change.len() as int,
                    assignment.change.len() as int,
                );
                let frees = vstd::math::min(self.free.len() as int, assignment.free.len() as int);
                &&& r.len() == changes + frees
                &&& forall|i: int|
                    0 <= i < changes ==> (#[trigger] r[i]).name == self.change_names[i]
                        && r[i].number@ == if assignment.change[i] {
                        "1"@
                    } else {
                        "0"@
                    }
                &&& forall|i: int|
                    0 <= i < frees ==> (#[trigger] r[changes + i]).name == self.free_names[i]
                        && is_decimal_of(r[changes + i].number@, big_value(assignment.free[i]))
            }),
    {
        let mut out: Vec<JsonEntry> = Vec::new();
        let mut i: usize = 0;
        while i < self.change.len() && i < assignment.change.len()
            invariant
                self.wf(),
                i <= self.change.len(),
                i <= assignment.change.len(),
                out.len() == i,
                forall|j: int|
                    0 <= j < i ==> (#[trigger] out[j]).name == self.change_names[j]
                        && out[j].number@ == if assignment.change[j] {
                        "1"@
                    } else {
                        "0"@
                    },
            decreases self.change.len() - i,
        {
            let num_value = if assignment.change[i] { "1" } else { "0" };
            let sym_name = self.change_names[i].clone();
            out.push(JsonEntry { name: sym_name, number: String::from_str(num_value) });
            i += 1;
        }
        let changes = i;
        let mut k: usize = 0;
        while k < self.free.len() && k < assignment.free.len()
            invariant
                self.wf(),
                k <= self.free.len(),
                k <= assignment.free.len(),
                changes == vstd::math::min(
                    self.change.len() as int,
                    assignment.change.len() as int,
                ),
                out.len() == changes + k,
                forall|j: int|
                    0 <= j < changes ==> (#[trigger] out[j]).name == self.change_names[j]
                        && out[j].number@ == if assignment.change[j] {
                        "1"@
                    } else {
                        "0"@
                    },
                forall|j: int|
                    0 <= j < k ==> (#[trigger] out[changes + j]).name == self.free_names[j]
                        && is_decimal_of(out[changes + j].number@, big_value(assignment.free[j])),
            decreases self.free.len() - k,
        {
            let number = big_to_decimal(&assignment.free[k]);
            let sym_name = self.free_names[k].clone();
            out.push(JsonEntry { name: sym_name, number });
            k += 1;
        }
        out
    }
}

/// The first `n` names whose bit is set.
pub open spec fn asserted_names(names: Seq<String>, bits: Seq<bool>, n: int) -> Seq<String>
    decreases n,
{
    if n <= 0 {
        Seq::empty()
    } else if bits[n - 1] {
        asserted_names(names, bits, n - 1).push(names[n - 1])
    } else {
        asserted_names(names, bits, n - 1)
    }
}

/// The constraint that blocks an assignment holds of every other assignment
/// to the change variables, and of no assignment that gives the change
/// variables the same values.
pub proof fn blocking_excludes_exactly(
    vars: RepairVars,
    blocked: Seq<bool>,
    literals: Seq<Literal>,
    model: Seq<bool>,
)
    requires
        blocked.len() == vars.change.len(),
        model.len() == vars.change.len(),
        literals.len() == vars.change.len(),
        forall|i: int| 0 <= i < literals.len() ==> (#[trigger] literals[i]).positive == blocked[i],
    ensures
        satisfies_block(literals, model) <==> model != blocked,
{
    if !satisfies_block(literals, model) {
        assert forall|i: int| 0 <= i < model.len() implies model[i] == blocked[i] by {
            assert(model[i] == literals[i].positive);
        }
        assert(model =~= blocked);
    }
    if model == blocked {
        assert(forall|i: int|
            0 <= i < literals.len() ==> model[i] == (#[trigger] literals[i]).positive);
    }
}

} // verus!
