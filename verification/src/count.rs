//! The change count: an output of the system that says how many change
//! variables are asserted. A search asks for the fewest changes by asking
//! for values of this output.

use crate::repair::CHANGE_COUNT_WIDTH;
use crate::testbench::CHANGE_COUNT_OUTPUT_NAME;
use crate::words::WidthInt;
use libpatron::ir::AddNode;
use libpatron::ir::Context;
use libpatron::ir::ExprNodeConstruction;
use libpatron::ir::ExprRef;
use libpatron::ir::SignalKind;
use libpatron::ir::SignalLabels;
use libpatron::ir::TransitionSystem;
use libpatron::ir::TypeCheck;
use vstd::prelude::*;

verus! {

#[verifier::external_type_specification]
#[verifier::external_body]
pub struct ExContext(Context);

#[verifier::external_type_specification]
#[verifier::external_body]
pub struct ExTransitionSystem(TransitionSystem);

/// What an expression is made of, as far as the change count is built from
/// it.
pub enum Node {
    /// The number `value` in `width` bits.
    Literal { value: u64, width: WidthInt },
    /// `e` with `by` zero bits in front of it.
    ZeroExtend { e: ExprRef, by: WidthInt },
    /// The sum of `a` and `b`.
    Add { a: ExprRef, b: ExprRef },
    /// Any other expression.
    Other,
}

/// The expressions that the context holds and gives a type to, each with
/// what it is made of.
pub uninterp spec fn ctx_nodes(ctx: &Context) -> Map<ExprRef, Node>;

/// The width of each of those expressions that is a bit vector.
pub uninterp spec fn ctx_widths(ctx: &Context) -> Map<ExprRef, WidthInt>;

/// What a system says of one of its signals.
pub struct Mark {
    /// The name of the signal as the context spells it, where it has one.
    pub name: Option<Seq<char>>,
    pub is_input: bool,
    pub is_state: bool,
    pub is_output: bool,
    pub is_constraint: bool,
    pub is_bad: bool,
    pub is_fair: bool,
}

/// The signals of the system, each with what the system says of it.
pub uninterp spec fn sys_signals(ctx: &Context, sys: &TransitionSystem) -> Map<ExprRef, Mark>;

/// The states of the system in order, each with its initial value and with
/// the value that it goes on to, where it has them.
pub uninterp spec fn sys_states(sys: &TransitionSystem) -> Seq<
    (ExprRef, Option<ExprRef>, Option<ExprRef>),
>;

/// What a system says of a signal that is an output under `name` and
/// nothing else.
pub open spec fn output_named(name: Seq<char>) -> Mark {
    Mark {
        name: Some(name),
        is_input: false,
        is_state: false,
        is_output: true,
        is_constraint: false,
        is_bad: false,
        is_fair: false,
    }
}

/// Every entry of `before` is one of `after`.
pub open spec fn grown<V>(before: Map<ExprRef, V>, after: Map<ExprRef, V>) -> bool {
    forall|e: ExprRef| #[trigger]
        before.contains_key(e) ==> after.contains_key(e) && after[e] == before[e]
}

/// `after` holds what `before` holds, and `value` for `e`.
pub open spec fn holds_also<V>(
    before: Map<ExprRef, V>,
    after: Map<ExprRef, V>,
    e: ExprRef,
    value: V,
) -> bool {
    grown(before, after) && after.contains_key(e) && after[e] == value
}

/// The number `value` in `width` bits.
pub open spec fn literal(value: u64, width: WidthInt) -> Node {
    Node::Literal { value, width }
}

/// `e` with `by` zero bits in front of it.
pub open spec fn zero_extended(e: ExprRef, by: WidthInt) -> Node {
    Node::ZeroExtend { e, by }
}

/// The sum of `a` and `b`.
pub open spec fn sum_of(a: ExprRef, b: ExprRef) -> Node {
    Node::Add { a, b }
}

/// `TypeCheck::get_bv_type`: the width of an expression of the context, if
/// it is a bit vector.
#[verifier::external_body]
fn ctx_bv_width(ctx: &Context, e: ExprRef) -> (r: Option<WidthInt>)
    requires
        ctx_nodes(ctx).contains_key(e),
    ensures
        r == if ctx_widths(ctx).contains_key(e) {
            Some(ctx_widths(ctx)[e])
        } else {
            None
        },
{
    e.get_bv_type(ctx)
}

/// `ExprNodeConstruction::bv_lit`: the expression for a number of `width`
/// bits. The context keeps what it holds.
#[verifier::external_body]
fn ctx_bv_lit(ctx: &mut Context, value: u64, width: WidthInt) -> (r: ExprRef)
    requires
        value == 0,
        width > 0,
    ensures
        holds_also(ctx_nodes(old(ctx)), ctx_nodes(final(ctx)), r, literal(value, width)),
        holds_also(ctx_widths(old(ctx)), ctx_widths(final(ctx)), r, width),
{
    ctx.bv_lit(value, width)
}

/// `ExprNodeConstruction::zero_extend`: the expression for `e` with `by`
/// zero bits in front of it. The context keeps what it holds.
#[verifier::external_body]
fn ctx_zero_extend(ctx: &mut Context, e: ExprRef, by: WidthInt) -> (r: ExprRef)
    requires
        by > 0,
        ctx_widths(old(ctx)).contains_key(e),
        ctx_widths(old(ctx))[e] + by <= u32::MAX,
    ensures
        holds_also(ctx_nodes(old(ctx)), ctx_nodes(final(ctx)), r, zero_extended(e, by)),
        holds_also(
            ctx_widths(old(ctx)),
            ctx_widths(final(ctx)),
            r,
            (ctx_widths(old(ctx))[e] + by) as WidthInt,
        ),
{
    ctx.zero_extend(e, by)
}

/// `ExprNodeConstruction::add`: the expression for the sum of `a` and `b`,
/// which has the width of `b`. The context keeps what it holds.
#[verifier::external_body]
fn ctx_add(ctx: &mut Context, a: ExprRef, b: ExprRef) -> (r: ExprRef)
    requires
        ctx_widths(old(ctx)).contains_key(b),
    ensures
        holds_also(ctx_nodes(old(ctx)), ctx_nodes(final(ctx)), r, sum_of(a, b)),
        holds_also(ctx_widths(old(ctx)), ctx_widths(final(ctx)), r, ctx_widths(old(ctx))[b]),
{
    ctx.add(a, b)
}

/// `AddNode::add_node` for a name and `TransitionSystem::add_signal`: makes
/// `expr` an output of the system under the given name, and nothing else.
/// The expressions of the context, the other signals of the system and its
/// states are as they were.
#[verifier::external_body]
fn add_output(ctx: &mut Context, sys: &mut TransitionSystem, expr: ExprRef, name: &str)
    ensures
        ctx_nodes(final(ctx)) == ctx_nodes(old(ctx)),
        ctx_widths(final(ctx)) == ctx_widths(old(ctx)),
        sys_signals(final(ctx), final(sys)) == sys_signals(final(ctx), old(sys)).insert(
            expr,
            output_named(name@),
        ),
        sys_states(final(sys)) == sys_states(old(sys)),
{
    let name_ref = ctx.add_node(name);
    sys.add_signal(expr, SignalKind::Node, SignalLabels::output(), Some(name_ref));
}

/// Every one of `change` is a bit vector of one bit.
pub open spec fn all_bits(widths: Map<ExprRef, WidthInt>, change: Seq<ExprRef>) -> bool {
    forall|i: int|
        0 <= i < change.len() ==> widths.contains_key(#[trigger] change[i]) && widths[change[i]]
            == 1
}

/// `sum` is the count of `change`: the number zero where there is none;
/// else the first of them with zeros in front of it, to which the others
/// are added from left to right, each with zeros in front of it.
pub open spec fn counts(nodes: Map<ExprRef, Node>, change: Seq<ExprRef>, sum: ExprRef) -> bool
    decreases change.len(),
{
    nodes.contains_key(sum) && if change.len() == 0 {
        nodes[sum] == literal(0, CHANGE_COUNT_WIDTH)
    } else if change.len() == 1 {
        nodes[sum] == zero_extended(change[0], (CHANGE_COUNT_WIDTH - 1) as WidthInt)
    } else {
        match nodes[sum] {
            Node::Add { a, b } => {
                &&& counts(nodes, change.drop_last(), a)
                &&& nodes.contains_key(b)
                &&& nodes[b] == zero_extended(change.last(), (CHANGE_COUNT_WIDTH - 1) as WidthInt)
            },
            _ => false,
        }
    }
}

/// A count stays one where the context holds more.
pub proof fn lemma_counts_grown(
    before: Map<ExprRef, Node>,
    after: Map<ExprRef, Node>,
    change: Seq<ExprRef>,
    sum: ExprRef,
)
    requires
        grown(before, after),
        counts(before, change, sum),
    ensures
        counts(after, change, sum),
    decreases change.len(),
{
    if change.len() >= 2 {
        match before[sum] {
            Node::Add { a, b } => {
                lemma_counts_grown(before, after, change.drop_last(), a);
            },
            _ => {},
        }
    }
}

/// What `add_change_count` does to a context and a system, of which it
/// returns `sum`: the context holds what it held, and the count of `change`
/// at `sum`, in 16 bits; and `sum` is an output of the system under the
/// name of the change count, beside the signals and the states that it
/// had.
pub open spec fn count_added(
    before: &Context,
    after: &Context,
    system_before: &TransitionSystem,
    system_after: &TransitionSystem,
    change: Seq<ExprRef>,
    sum: ExprRef,
) -> bool {
    &&& grown(ctx_nodes(before), ctx_nodes(after))
    &&& counts(ctx_nodes(after), change, sum)
    &&& holds_also(ctx_widths(before), ctx_widths(after), sum, CHANGE_COUNT_WIDTH)
    &&& sys_signals(after, system_after) == sys_signals(after, system_before).insert(
        sum,
        output_named(CHANGE_COUNT_OUTPUT_NAME@),
    )
    &&& sys_states(system_after) == sys_states(system_before)
}

/// Adds to the system an output of 16 bits that is the sum of the change
/// variables, each with zeros in front of it: the constant zero where there
/// is no change variable. Returns the expression of the output.
pub fn add_change_count(ctx: &mut Context, sys: &mut TransitionSystem, change: &[ExprRef]) -> (sum:
    ExprRef)
    requires
        all_bits(ctx_widths(old(ctx)), change@),
    ensures
        count_added(old(ctx), final(ctx), old(sys), final(sys), change@, sum),
{
    let width = CHANGE_COUNT_WIDTH;
    let sum = if change.len() == 0 {
        ctx_bv_lit(ctx, 0, width)
    } else {
        let mut sum = ctx_zero_extend(ctx, change[0], width - 1);
        let mut i: usize = 1;
        proof {
            assert(change@.take(1).len() == 1 && change@.take(1)[0] == change@[0]);
        }
        while i < change.len()
            invariant
                1 <= i <= change.len(),
                width == CHANGE_COUNT_WIDTH,
                all_bits(ctx_widths(old(ctx)), change@),
                grown(ctx_nodes(old(ctx)), ctx_nodes(ctx)),
                counts(ctx_nodes(ctx), change@.take(i as int), sum),
                holds_also(ctx_widths(old(ctx)), ctx_widths(ctx), sum, CHANGE_COUNT_WIDTH),
            decreases change.len() - i,
        {
            let ghost nodes = ctx_nodes(ctx);
            assert(ctx_widths(old(ctx)).contains_key(change[i as int]));
            let extended = ctx_zero_extend(ctx, change[i], width - 1);
            let ghost between = ctx_nodes(ctx);
            let front = sum;
            sum = ctx_add(ctx, front, extended);
            proof {
                let counted = change@.take(i + 1);
                assert(counted.drop_last() =~= change@.take(i as int));
                assert(counted.last() == change@[i as int]);
                lemma_counts_grown(nodes, ctx_nodes(ctx), change@.take(i as int), front);
                assert(ctx_nodes(ctx)[extended] == between[extended]);
            }
            i += 1;
        }
        proof {
            assert(change@.take(change.len() as int) =~= change@);
        }
        sum
    };
    add_output(ctx, sys, sum, CHANGE_COUNT_OUTPUT_NAME);
    sum
}

/// Adds the change count as `add_change_count` does, where every change
/// variable is a bit vector of one bit; where one is not, nothing is added
/// and nothing is returned.
pub fn add_change_count_of_bits(
    ctx: &mut Context,
    sys: &mut TransitionSystem,
    change: &[ExprRef],
) -> (r: Option<ExprRef>)
    requires
        forall|i: int| 0 <= i < change.len() ==> ctx_nodes(old(ctx)).contains_key(change[i]),
    ensures
        r is Some <==> all_bits(ctx_widths(old(ctx)), change@),
        r is Some ==> count_added(old(ctx), final(ctx), old(sys), final(sys), change@, r.unwrap()),
        r is None ==> *final(ctx) == *old(ctx) && *final(sys) == *old(sys),
{
    let mut i: usize = 0;
    while i < change.len()
        invariant
            i <= change.len(),
            *ctx == *old(ctx),
            *sys == *old(sys),
            forall|k: int| 0 <= k < change.len() ==> ctx_nodes(ctx).contains_key(change[k]),
            all_bits(ctx_widths(ctx), change@.take(i as int)),
        decreases change.len() - i,
    {
        match ctx_bv_width(ctx, change[i]) {
            Some(1) => {},
            _ => {
                return None;
            },
        }
        proof {
            let checked = change@.take(i + 1);
            assert forall|k: int| 0 <= k < checked.len() implies ctx_widths(ctx).contains_key(
                #[trigger] checked[k],
            ) && ctx_widths(ctx)[checked[k]] == 1 by {
                if k < i {
                    assert(checked[k] == change@.take(i as int)[k]);
                }
            }
        }
        i += 1;
    }
    proof {
        assert(change@.take(change.len() as int) =~= change@);
    }
    Some(add_change_count(ctx, sys, change))
}

} // verus!
