//! What holds of every fused schedule.
//!
//! In a graph whose operators are in execution order, every operator runs
//! exactly once: it is the anchor of one group, or one group has absorbed it.

use crate::fusion;
use crate::fusion::GroupView;
use crate::model::{ParsedModel, ParsedOp, NO_TENSOR};
use vstd::prelude::*;

verus! {

/// How many inputs an operator has, where its code fixes that.
pub open spec fn has_arity(op: ParsedOp) -> bool {
    &&& fusion::standalone_activation(op.builtin_code) is Some || fusion::pools_or_softmax(
        op.builtin_code,
    ) ==> op.inputs@.len() == 1
    &&& fusion::starts_chain(op.builtin_code) ==> op.inputs@.len() == 2 && op.outputs@.len() == 1
}

/// Whether a graph can be executed in the order of its operators: a tensor has
/// one writer at most, which comes before all its readers, a computed tensor is
/// neither constant nor an input of the model, and operators have the number of
/// inputs that belongs to them.
pub open spec fn executable(model: ParsedModel) -> bool {
    &&& forall|i: int, j: int, t: u32|
        0 <= i < model.ops@.len() && 0 <= j < model.ops@.len()
            && #[trigger] model.ops@[i].outputs@.contains(t)
            && #[trigger] model.ops@[j].outputs@.contains(t) ==> i == j
    &&& forall|i: int, j: int, t: u32|
        0 <= i < model.ops@.len() && 0 <= j < model.ops@.len()
            && #[trigger] model.ops@[i].outputs@.contains(t)
            && #[trigger] model.ops@[j].inputs@.contains(t) ==> i < j
    &&& forall|i: int, t: u32|
        0 <= i < model.ops@.len() && #[trigger] model.ops@[i].outputs@.contains(t)
            ==> !model.is_constant(t as int) && !model.is_model_input(t)
    &&& forall|i: int| 0 <= i < model.ops@.len() ==> has_arity(#[trigger] model.ops@[i])
}

/// The operator in front of the absorbed operator `k`: the anchor, or the one
/// absorbed before.
pub open spec fn member_before(g: GroupView, k: int) -> int {
    if k <= 0 {
        g.anchor
    } else {
        g.absorbed[k - 1]
    }
}

/// Whether a group is a row of operators: each absorbed operator alone reads
/// the first output of the one in front of it, and whatever else it reads
/// exists when the anchor runs.
pub open spec fn is_row(model: ParsedModel, g: GroupView) -> bool {
    &&& 0 <= g.anchor < model.ops@.len()
    &&& g.absorbed.len() == g.eliminated.len()
    &&& forall|k: int|
        0 <= k < g.absorbed.len() ==> is_link(model, g, k)
}

/// Whether the absorbed operator `k` of a group follows the one in front of it.
pub open spec fn is_link(model: ParsedModel, g: GroupView, k: int) -> bool {
    let t = g.eliminated[k];
    &&& 0 <= g.absorbed[k] < model.ops@.len()
    &&& fusion::sole_reader(model, t) == Some(g.absorbed[k] as nat)
    &&& t == model.ops@[member_before(g, k)].output()
    &&& fusion::step_kind(model.ops@[g.absorbed[k]].builtin_code) is Some
    &&& forall|m: int|
        0 <= m < model.ops@[g.absorbed[k]].inputs@.len() ==> (#[trigger] model.ops@[g.absorbed[k]].inputs@[m])
            == t || fusion::exists_before(model, model.ops@[g.absorbed[k]].inputs@[m], g.anchor)
}

/// An operator that alone reads a tensor reads it.
pub proof fn lemma_sole_reader(model: ParsedModel, t: u32)
    ensures
        fusion::sole_reader(model, t) matches Some(n) ==> {
            &&& n < model.ops@.len()
            &&& model.ops@[n as int].inputs@.contains(t)
            &&& fusion::one_use(model, t)
        },
{
    fusion::lemma_reader_in_range(model.ops@, t, 0);
}

/// An output that is a tensor is among the outputs.
proof fn lemma_output_is_written(op: ParsedOp)
    ensures
        op.output() != NO_TENSOR ==> op.outputs@.contains(op.output()),
{
    if op.outputs@.len() > 0 {
        assert(op.outputs@[0] == op.output());
    }
}

/// Appending an operator that follows keeps a row.
proof fn lemma_row_extends(model: ParsedModel, g: GroupView, h: GroupView, a: int)
    requires
        is_row(model, g),
        h.anchor == g.anchor,
        h.absorbed == g.absorbed.push(a),
        h.eliminated == g.eliminated.push(g.output),
        g.output == model.ops@[member_before(g, g.absorbed.len() as int)].output(),
        is_link(model, h, g.absorbed.len() as int),
    ensures
        is_row(model, h),
{
    assert forall|k: int| 0 <= k < h.absorbed.len() implies is_link(model, h, k) by {
        if k < g.absorbed.len() {
            assert(is_link(model, g, k));
            assert(member_before(h, k) == member_before(g, k));
        }
    }
}

/// An activation behind a row continues it.
proof fn lemma_row_with_activation(model: ParsedModel, g: GroupView)
    requires
        executable(model),
        is_row(model, g),
        g.output == model.ops@[member_before(g, g.absorbed.len() as int)].output(),
    ensures
        is_row(model, fusion::with_activation(model, g)),
{
    match fusion::absorbable_activation(model, g.output) {
        Some((a, out, act)) => {
            let h = fusion::with_activation(model, g);
            let op = model.ops@[a];
            lemma_sole_reader(model, g.output);
            assert(has_arity(op));
            assert(op.inputs@.contains(g.output));
            assert(op.inputs@[0] == g.output);
            lemma_row_extends(model, g, h, a);
        },
        None => {},
    }
}

/// The group of an operator alone is a row.
proof fn lemma_anchor_is_row(model: ParsedModel, i: int)
    requires
        0 <= i < model.ops@.len(),
    ensures
        is_row(model, fusion::anchor_group(model, i)),
{
}

/// An operator with two inputs reads a tensor of its own and at most one other.
proof fn lemma_other_input(inputs: Seq<u32>, t: u32)
    requires
        inputs.len() == 2,
        inputs.contains(t),
    ensures
        forall|m: int|
            0 <= m < 2 ==> (#[trigger] inputs[m]) == t || fusion::other_from(inputs, t, 0) == Some(
                inputs[m],
            ),
        inputs[0] == t || inputs[1] == t,
{
    reveal_with_fuel(fusion::other_from, 3);
    let at = choose|k: int| 0 <= k < inputs.len() && inputs[k] == t;
    assert(inputs[at] == t);
}

/// An addition behind a convolution continues its row.
proof fn lemma_residual_is_link(model: ParsedModel, i: int, add: int, r: u32)
    requires
        executable(model),
        0 <= i < model.ops@.len(),
        fusion::residual_add(model, i) == Some((add, r)),
    ensures
        is_row(model, fusion::with_residual(model, fusion::anchor_group(model, i), add, r)),
{
    let g = fusion::anchor_group(model, i);
    let h = fusion::with_residual(model, g, add, r);
    let t = g.output;
    let inputs = model.ops@[add].inputs@;
    lemma_anchor_is_row(model, i);
    lemma_sole_reader(model, t);
    assert(has_arity(model.ops@[add]));
    lemma_other_input(inputs, t);
    assert(fusion::exists_before(model, r, i));
    lemma_row_extends(model, g, h, add);
}

/// A scale change behind a convolution continues its row.
proof fn lemma_scale_change_is_link(
    model: ParsedModel,
    i: int,
    mul: int,
    r: fusion::RequantizeView,
)
    requires
        executable(model),
        0 <= i < model.ops@.len(),
        fusion::sole_reader(model, model.ops@[i].output()) == Some(mul as nat),
        0 <= mul,
        fusion::scale_fold(model, i, mul) == Some(r),
    ensures
        is_row(model, fusion::with_requantize(model, fusion::anchor_group(model, i), mul, r)),
{
    let g = fusion::anchor_group(model, i);
    let h = fusion::with_requantize(model, g, mul, r);
    let t = g.output;
    let inputs = model.ops@[mul].inputs@;
    lemma_anchor_is_row(model, i);
    lemma_sole_reader(model, t);
    lemma_output_is_written(model.ops@[i]);
    assert(has_arity(model.ops@[mul]));
    assert(model.is_constant(inputs[1] as int));
    assert(fusion::exists_before(model, inputs[1], i));
    assert(model.ops@[i].outputs@.contains(t));
    lemma_other_input(inputs, t);
    lemma_row_extends(model, g, h, mul);
}

/// The group of a convolution is a row.
proof fn lemma_conv_is_row(model: ParsedModel, i: int)
    requires
        executable(model),
        0 <= i < model.ops@.len(),
    ensures
        is_row(model, fusion::conv_group(model, i)),
        fusion::conv_group(model, i).anchor == i,
{
    reveal(fusion::conv_group);
    let g = fusion::anchor_group(model, i);
    lemma_anchor_is_row(model, i);
    match fusion::residual_add(model, i) {
        Some((add, r)) => {
            lemma_residual_is_link(model, i, add, r);
            lemma_row_with_activation(model, fusion::with_residual(model, g, add, r));
        },
        None => {
            lemma_row_with_activation(model, g);
            match fusion::sole_reader(model, g.output) {
                Some(mul) => match fusion::scale_fold(model, i, mul as int) {
                    Some(r) => {
                        let h = fusion::with_requantize(model, g, mul as int, r);
                        lemma_scale_change_is_link(model, i, mul as int, r);
                        lemma_row_with_activation(model, h);
                        if fusion::option_activation(model.ops@[i]) is None
                            && fusion::option_activation(model.ops@[mul as int]) is Some {
                            lemma_same_row(model, h, fusion::conv_group(model, i));
                        }
                    },
                    None => {},
                },
                None => {},
            }
        },
    }
}

/// Only anchor, absorbed operators and eliminated tensors matter to a row.
proof fn lemma_same_row(model: ParsedModel, g: GroupView, h: GroupView)
    requires
        is_row(model, g),
        h.anchor == g.anchor,
        h.absorbed == g.absorbed,
        h.eliminated == g.eliminated,
    ensures
        is_row(model, h),
{
    assert forall|k: int| 0 <= k < h.absorbed.len() implies is_link(model, h, k) by {
        assert(is_link(model, g, k));
    }
}

/// Each step of a chain is the one that its running tensor leads to.
pub proof fn lemma_chain_steps(model: ParsedModel, anchor: int, running: u32, limit: nat, k: int)
    requires
        0 <= k < fusion::chain(model, anchor, running, limit).len(),
    ensures
        ({
            let steps = fusion::chain(model, anchor, running, limit);
            fusion::chain_step(model, anchor, fusion::running_tensor(model, running, steps, k))
                == Some(steps[k])
        }),
    decreases limit,
{
    let steps = fusion::chain(model, anchor, running, limit);
    match fusion::chain_step(model, anchor, running) {
        Some(step) => {
            let next = model.ops@[step.op_index as int].output();
            let rest = fusion::chain(model, anchor, next, (limit - 1) as nat);
            assert(steps == seq![step] + rest);
            assert(steps[0] == step);
            if k > 0 {
                lemma_chain_steps(model, anchor, next, (limit - 1) as nat, k - 1);
                assert(steps[k] == rest[k - 1]);
                assert(fusion::running_tensor(model, running, steps, k) == fusion::running_tensor(
                    model,
                    next,
                    rest,
                    k - 1,
                ));
            }
        },
        None => {},
    }
}

/// The group of an elementwise operator is a row.
proof fn lemma_chain_is_row(model: ParsedModel, i: int)
    requires
        0 <= i < model.ops@.len(),
    ensures
        is_row(model, fusion::chain_group(model, i)),
        fusion::chain_group(model, i).anchor == i,
{
    reveal(fusion::chain_group);
    let g = fusion::chain_group(model, i);
    let first = model.ops@[i].output();
    let steps = fusion::chain(model, i, first, model.ops@.len());
    assert(model.ops@.len() == model.ops.len());
    assert forall|k: int| 0 <= k < g.absorbed.len() implies is_link(model, g, k) by {
        lemma_chain_steps(model, i, first, model.ops@.len(), k);
        let t = fusion::running_tensor(model, first, steps, k);
        assert(g.eliminated[k] == t);
        assert(g.absorbed[k] == steps[k].op_index);
        lemma_sole_reader(model, t);
        if k > 0 {
            lemma_chain_steps(model, i, first, model.ops@.len(), k - 1);
            assert(g.absorbed[k - 1] == steps[k - 1].op_index);
        }
        let n = fusion::sole_reader(model, t)->0;
        assert(fusion::operands_exist(model, model.ops@[n as int].inputs@, t, i));
        assert forall|m: int| 0 <= m < model.ops@[n as int].inputs@.len() implies (
        #[trigger] model.ops@[n as int].inputs@[m]) == t || fusion::exists_before(
            model,
            model.ops@[n as int].inputs@[m],
            i,
        ) by {
            assert(model.ops@[n as int].inputs@[m] == t || fusion::exists_before(
                model,
                model.ops@[n as int].inputs@[m],
                i,
            ));
        }
    }
}

/// In an executable graph a row goes forward.
proof fn lemma_row_ascends(model: ParsedModel, g: GroupView, k: int)
    requires
        executable(model),
        is_row(model, g),
        0 <= k < g.absorbed.len(),
    ensures
        member_before(g, k) < g.absorbed[k],
        g.anchor < g.absorbed[k],
        model.ops@[member_before(g, k)].outputs@.contains(g.eliminated[k]),
        0 <= member_before(g, k) < model.ops@.len(),
        g.anchor <= member_before(g, k),
    decreases k,
{
    assert(is_link(model, g, k));
    if k > 0 {
        lemma_row_ascends(model, g, k - 1);
        assert(is_link(model, g, k - 1));
    }
    let m = member_before(g, k);
    lemma_sole_reader(model, g.eliminated[k]);
    lemma_output_is_written(model.ops@[m]);
    assert(model.ops@[m].outputs@.contains(g.eliminated[k]));
    assert(model.ops@[g.absorbed[k]].inputs@.contains(g.eliminated[k]));
}

/// Whether a group is that of a pool or softmax which folds the operator in
/// front of it.
pub open spec fn is_fold(model: ParsedModel, g: GroupView) -> bool {
    &&& g.absorbed.len() == 1
    &&& g.eliminated.len() == 1
    &&& 0 <= g.absorbed[0] < g.anchor < model.ops@.len()
    &&& fusion::input_fold(model, g.absorbed[0]) is Some
    &&& model.ops@[g.absorbed[0]].outputs@.contains(g.eliminated[0])
}

/// In an executable graph a group is a row or a fold.
proof fn lemma_group_shape(model: ParsedModel, consumed: Set<int>, i: int)
    requires
        executable(model),
        0 <= i < model.ops@.len(),
    ensures
        ({
            let g = fusion::group_of(model, consumed, i);
            &&& g.anchor == i
            &&& is_row(model, g) || (is_fold(model, g) && !consumed.contains(g.absorbed[0]))
        }),
{
    let g = fusion::group_of(model, consumed, i);
    let code = model.ops@[i].builtin_code;
    if fusion::convolves(code) {
        lemma_conv_is_row(model, i);
        lemma_same_row(model, fusion::conv_group(model, i), g);
    } else if fusion::starts_chain(code) {
        lemma_chain_is_row(model, i);
        lemma_same_row(model, fusion::chain_group(model, i), g);
    } else if fusion::pools_or_softmax(code) {
        reveal(fusion::pool_group);
        let t = model.ops@[i].input();
        fusion::lemma_writer_in_range(model.ops@, t, 0);
        if g.absorbed.len() > 0 {
            let p = g.absorbed[0];
            assert(model.ops@[i].inputs@[0] == t);
            assert(model.ops@[p].outputs@.contains(t));
            assert(model.ops@[i].inputs@.contains(t));
        }
    }
}

/// The groups that come before group `k`.
pub open spec fn earlier(groups: Seq<GroupView>, k: int) -> Set<int> {
    fusion::absorbed_by(groups.take(k))
}

/// How the groups of the first `n` operators come about.
pub open spec fn is_schedule(model: ParsedModel, groups: Seq<GroupView>, n: int) -> bool {
    &&& forall|k: int|
        0 <= k < groups.len() ==> {
            &&& 0 <= (#[trigger] groups[k]).anchor < n
            &&& fusion::input_fold(model, groups[k].anchor) is None
            &&& !earlier(groups, k).contains(groups[k].anchor)
            &&& groups[k] == fusion::group_of(model, earlier(groups, k), groups[k].anchor)
        }
    &&& forall|k: int, l: int|
        0 <= k < l < groups.len() ==> (#[trigger] groups[k]).anchor < (#[trigger] groups[l]).anchor
    &&& forall|j: int|
        0 <= j < n ==> #[trigger] fusion::absorbed_by(groups).contains(j) || fusion::input_fold(
            model,
            j,
        ) is Some || (exists|k: int| 0 <= k < groups.len() && (#[trigger] groups[k]).anchor == j)
}

proof fn lemma_schedule(model: ParsedModel, n: nat)
    requires
        executable(model),
        n <= model.ops@.len(),
    ensures
        is_schedule(model, fusion::groups_upto(model, n), n as int),
    decreases n,
{
    if n > 0 {
        let i = n - 1;
        let before = fusion::groups_upto(model, i as nat);
        let after = fusion::groups_upto(model, n);
        lemma_schedule(model, i as nat);
        if !(fusion::absorbed_by(before).contains(i) || fusion::input_fold(model, i) is Some) {
            let g = fusion::group_of(model, fusion::absorbed_by(before), i);
            lemma_group_shape(model, fusion::absorbed_by(before), i);
            assert(after == before.push(g));
            assert(after.take(before.len() as int) =~= before);
            assert forall|k: int| 0 <= k < after.len() implies {
                &&& 0 <= (#[trigger] after[k]).anchor < n
                &&& fusion::input_fold(model, after[k].anchor) is None
                &&& !earlier(after, k).contains(after[k].anchor)
                &&& after[k] == fusion::group_of(model, earlier(after, k), after[k].anchor)
            } by {
                if k < before.len() {
                    assert(after[k] == before[k]);
                    assert(after.take(k) =~= before.take(k));
                }
            }
            assert forall|j: int| 0 <= j < n implies #[trigger] fusion::absorbed_by(after).contains(j)
                || fusion::input_fold(model, j) is Some || (exists|k: int|
                0 <= k < after.len() && (#[trigger] after[k]).anchor == j) by {
                fusion::lemma_absorbed_by_push(before, g, j);
                if j == i {
                    assert(after[before.len() as int].anchor == j);
                } else {
                    assert(fusion::absorbed_by(before).contains(j) || fusion::input_fold(model, j) is Some
                        || (exists|k: int| 0 <= k < before.len() && (#[trigger] before[k]).anchor == j));
                    if exists|k: int| 0 <= k < before.len() && (#[trigger] before[k]).anchor == j {
                        let k = choose|k: int|
                            0 <= k < before.len() && (#[trigger] before[k]).anchor == j;
                        assert(after[k].anchor == j);
                    }
                }
            }
        } else {
            assert(after == before);
        }
    }
}

/// What an earlier group has absorbed, later groups know of.
proof fn lemma_earlier(groups: Seq<GroupView>, k: int, l: int, j: int)
    requires
        0 <= k < l <= groups.len(),
        groups[k].absorbed.contains(j),
    ensures
        earlier(groups, l).contains(j),
{
    assert(groups.take(l)[k].absorbed.contains(j));
}

/// Two rows with different anchors, neither of which has absorbed the anchor of
/// the other, have absorbed nothing in common.
proof fn lemma_rows_disjoint(model: ParsedModel, g: GroupView, h: GroupView, k: int, l: int)
    requires
        executable(model),
        is_row(model, g),
        is_row(model, h),
        g.anchor < h.anchor,
        !g.absorbed.contains(h.anchor),
        0 <= k < g.absorbed.len(),
        0 <= l < h.absorbed.len(),
    ensures
        g.absorbed[k] != h.absorbed[l],
    decreases k,
{
    if g.absorbed[k] == h.absorbed[l] {
        let x = g.absorbed[k];
        let s = g.eliminated[k];
        let t = h.eliminated[l];
        lemma_row_ascends(model, g, k);
        lemma_row_ascends(model, h, l);
        assert(is_link(model, g, k));
        assert(is_link(model, h, l));
        lemma_sole_reader(model, s);
        lemma_sole_reader(model, t);
        let v = member_before(g, k);
        let w = member_before(h, l);
        assert(model.ops@[v].outputs@.contains(s));
        assert(model.ops@[w].outputs@.contains(t));
        if s != t {
            let m = choose|m: int| 0 <= m < model.ops@[x].inputs@.len() && model.ops@[x].inputs@[m] == t;
            assert(model.ops@[x].inputs@[m] == t);
            assert(fusion::exists_before(model, t, g.anchor));
            fusion::lemma_writer_in_range(model.ops@, t, 0);
            assert(!model.is_constant(t as int) && !model.is_model_input(t));
            assert(false);
        }
        assert(v == w);
        if k == 0 {
            if l > 0 {
                lemma_row_ascends(model, h, l - 1);
            }
        } else if l == 0 {
            assert(g.absorbed[k - 1] == h.anchor);
        } else {
            lemma_rows_disjoint(model, g, h, k - 1, l - 1);
        }
        assert(false);
    }
}

/// No operator belongs to two groups of a schedule.
proof fn lemma_groups_disjoint(
    model: ParsedModel,
    groups: Seq<GroupView>,
    n: int,
    k: int,
    l: int,
    j: int,
)
    requires
        executable(model),
        n <= model.ops@.len(),
        is_schedule(model, groups, n),
        0 <= k < l < groups.len(),
    ensures
        !(groups[k].absorbed.contains(j) && groups[l].absorbed.contains(j)),
        !groups[k].absorbed.contains(groups[l].anchor),
        !groups[l].absorbed.contains(groups[k].anchor),
{
    let g = groups[k];
    let h = groups[l];
    lemma_group_shape(model, earlier(groups, k), g.anchor);
    lemma_group_shape(model, earlier(groups, l), h.anchor);
    if g.absorbed.contains(h.anchor) {
        lemma_earlier(groups, k, l, h.anchor);
    }
    if h.absorbed.contains(g.anchor) {
        let m = choose|m: int| 0 <= m < h.absorbed.len() && h.absorbed[m] == g.anchor;
        if is_row(model, h) {
            lemma_row_ascends(model, h, m);
        }
    }
    if g.absorbed.contains(j) && h.absorbed.contains(j) {
        lemma_earlier(groups, k, l, j);
        let a = choose|m: int| 0 <= m < g.absorbed.len() && g.absorbed[m] == j;
        let b = choose|m: int| 0 <= m < h.absorbed.len() && h.absorbed[m] == j;
        if is_row(model, h) {
            lemma_row_ascends(model, h, b);
            if is_row(model, g) {
                lemma_rows_disjoint(model, g, h, a, b);
            }
        }
    }
}

/// An operator is absorbed by one group at most once, and not by its own.
proof fn lemma_group_is_distinct(model: ParsedModel, g: GroupView)
    requires
        executable(model),
        is_row(model, g) || is_fold(model, g),
    ensures
        g.absorbed.no_duplicates(),
        !g.absorbed.contains(g.anchor),
{
    if is_row(model, g) {
        assert forall|k: int, l: int| 0 <= k < l < g.absorbed.len() implies g.absorbed[k] < g.absorbed[l] by {
            lemma_row_is_sorted(model, g, k, l);
        }
        if g.absorbed.contains(g.anchor) {
            let m = choose|m: int| 0 <= m < g.absorbed.len() && g.absorbed[m] == g.anchor;
            lemma_row_ascends(model, g, m);
        }
    }
}

proof fn lemma_row_is_sorted(model: ParsedModel, g: GroupView, k: int, l: int)
    requires
        executable(model),
        is_row(model, g),
        0 <= k < l < g.absorbed.len(),
    ensures
        g.absorbed[k] < g.absorbed[l],
    decreases l - k,
{
    lemma_row_ascends(model, g, l);
    if k < l - 1 {
        lemma_row_is_sorted(model, g, k, l - 1);
    }
}

/// A folded operator is absorbed.
proof fn lemma_fold_is_absorbed(model: ParsedModel, groups: Seq<GroupView>, j: int)
    requires
        executable(model),
        is_schedule(model, groups, model.ops@.len() as int),
        0 <= j < model.ops@.len(),
        fusion::input_fold(model, j) is Some,
    ensures
        fusion::absorbed_by(groups).contains(j),
{
    let t = model.ops@[j].output();
    lemma_sole_reader(model, t);
    lemma_output_is_written(model.ops@[j]);
    let c = fusion::sole_reader(model, t)->0 as int;
    assert(has_arity(model.ops@[c]));
    assert(model.ops@[c].inputs@.contains(t));
    assert(model.ops@[c].inputs@[0] == t);
    fusion::lemma_writer_in_range(model.ops@, t, 0);
    lemma_writer_found(model.ops@, t, 0, j as nat);
    assert(fusion::writer(model, t) == Some(j as nat));
    assert(fusion::input_fold(model, c) is None);
    if fusion::absorbed_by(groups).contains(c) {
        let k = choose|k: int| 0 <= k < groups.len() && #[trigger] groups[k].absorbed.contains(c);
        let g = groups[k];
        lemma_group_shape(model, earlier(groups, k), g.anchor);
        let m = choose|m: int| 0 <= m < g.absorbed.len() && g.absorbed[m] == c;
        if is_row(model, g) {
            assert(is_link(model, g, m));
        }
        assert(false);
    }
    let k = choose|k: int| 0 <= k < groups.len() && (#[trigger] groups[k]).anchor == c;
    reveal(fusion::pool_group);
    let g = groups[k];
    assert(g == fusion::group_of(model, earlier(groups, k), c));
    if earlier(groups, k).contains(j) {
        let m = choose|m: int|
            0 <= m < groups.take(k).len() && #[trigger] groups.take(k)[m].absorbed.contains(j);
        assert(groups[m].absorbed.contains(j));
    } else {
        assert(g.absorbed[0] == j);
        assert(groups[k].absorbed.contains(j));
    }
}

/// A writer is found where there is one, and no later than it.
pub proof fn lemma_writer_found(ops: Seq<ParsedOp>, t: u32, i: nat, j: nat)
    requires
        i <= j < ops.len(),
        ops[j as int].outputs@.contains(t),
    ensures
        fusion::writer_from(ops, t, i) matches Some(p) && p <= j,
    decreases j - i,
{
    if i < j && !ops[i as int].outputs@.contains(t) {
        lemma_writer_found(ops, t, i + 1, j);
    }
}

/// Whether a group runs the operator `j`.
pub open spec fn runs(g: GroupView, j: int) -> bool {
    g.anchor == j || g.absorbed.contains(j)
}

/// Every operator of an executable graph runs exactly once: one group runs it,
/// as its anchor or as one absorbed operator, and no other group does.
pub proof fn law_every_operator_runs_once(model: ParsedModel, j: int)
    requires
        executable(model),
        0 <= j < model.ops@.len(),
    ensures
        ({
            let groups = fusion::fused_groups(model);
            &&& exists|k: int| 0 <= k < groups.len() && runs(#[trigger] groups[k], j)
            &&& forall|k: int, l: int|
                0 <= k < groups.len() && 0 <= l < groups.len() && runs(#[trigger] groups[k], j)
                    && runs(#[trigger] groups[l], j) ==> k == l
            &&& forall|k: int|
                0 <= k < groups.len() ==> (#[trigger] groups[k]).absorbed.no_duplicates()
                    && !groups[k].absorbed.contains(groups[k].anchor)
        }),
{
    let n = model.ops@.len();
    let groups = fusion::fused_groups(model);
    lemma_schedule(model, n);
    if fusion::input_fold(model, j) is Some {
        lemma_fold_is_absorbed(model, groups, j);
    }
    if fusion::absorbed_by(groups).contains(j) {
        let k = choose|k: int| 0 <= k < groups.len() && #[trigger] groups[k].absorbed.contains(j);
        assert(runs(groups[k], j));
    } else {
        let k = choose|k: int| 0 <= k < groups.len() && (#[trigger] groups[k]).anchor == j;
        assert(runs(groups[k], j));
    }
    assert forall|k: int, l: int|
        0 <= k < groups.len() && 0 <= l < groups.len() && runs(#[trigger] groups[k], j) && runs(
            #[trigger] groups[l],
            j,
        ) implies k == l by {
        if k < l {
            lemma_groups_disjoint(model, groups, n as int, k, l, j);
        }
        if l < k {
            lemma_groups_disjoint(model, groups, n as int, l, k, j);
        }
    }
    assert forall|k: int| 0 <= k < groups.len() implies (
    #[trigger] groups[k]).absorbed.no_duplicates() && !groups[k].absorbed.contains(
        groups[k].anchor,
    ) by {
        lemma_group_shape(model, earlier(groups, k), groups[k].anchor);
        lemma_group_is_distinct(model, groups[k]);
    }
}

/// Groups are in the order of their anchors, and a group runs operators only.
pub proof fn law_groups_are_in_order(model: ParsedModel)
    requires
        executable(model),
    ensures
        ({
            let groups = fusion::fused_groups(model);
            &&& forall|k: int, l: int|
                0 <= k < l < groups.len() ==> (#[trigger] groups[k]).anchor < (
                #[trigger] groups[l]).anchor
            &&& forall|k: int, j: int|
                0 <= k < groups.len() && #[trigger] runs(groups[k], j) ==> 0 <= j
                    < model.ops@.len()
        }),
{
    let groups = fusion::fused_groups(model);
    lemma_schedule(model, model.ops@.len());
    assert forall|k: int, j: int| 0 <= k < groups.len() && #[trigger] runs(groups[k], j) implies 0
        <= j < model.ops@.len() by {
        fusion::lemma_absorbed_in_range(model, earlier(groups, k), groups[k].anchor);
        if groups[k].absorbed.contains(j) {
            let m = choose|m: int| 0 <= m < groups[k].absorbed.len() && groups[k].absorbed[m] == j;
            assert(groups[k].absorbed[m] == j);
        }
    }
}

/// Whether the tensor `t` is visible only inside a group: one operator reads
/// it, once, and the caller of the model never does.
pub open spec fn is_private(model: ParsedModel, t: u32) -> bool {
    &&& fusion::uses(model.ops@, t) == 1
    &&& !model.is_model_input(t)
    &&& !model.is_model_output(t)
}

/// A tensor that fusion eliminates has exactly one use, and is neither input
/// nor output of the model.
pub proof fn law_eliminated_tensors_are_private(model: ParsedModel, k: int, m: int)
    requires
        executable(model),
        0 <= k < fusion::fused_groups(model).len(),
        0 <= m < fusion::fused_groups(model)[k].eliminated.len(),
    ensures
        is_private(model, fusion::fused_groups(model)[k].eliminated[m]),
{
    let groups = fusion::fused_groups(model);
    let g = groups[k];
    lemma_schedule(model, model.ops@.len());
    lemma_group_shape(model, earlier(groups, k), g.anchor);
    if is_row(model, g) {
        assert(is_link(model, g, m));
    } else {
        let p = g.absorbed[0];
        let t = model.ops@[p].output();
        lemma_sole_reader(model, t);
        assert(has_arity(model.ops@[p]));
        assert(model.ops@[p].outputs@[0] == t);
        assert(g.eliminated[0] == t);
    }
}

/// Fusion moves no operator in front of what it reads: whatever an absorbed
/// operator reads is the tensor that the group has just computed, or exists
/// when the anchor of the group runs.
pub proof fn law_operands_exist(model: ParsedModel, k: int, m: int, q: int)
    requires
        executable(model),
        0 <= k < fusion::fused_groups(model).len(),
        0 <= m < fusion::fused_groups(model)[k].absorbed.len(),
        fusion::fused_groups(model)[k].fold is None,
        0 <= q < model.ops@[fusion::fused_groups(model)[k].absorbed[m]].inputs@.len(),
    ensures
        ({
            let g = fusion::fused_groups(model)[k];
            let t = model.ops@[g.absorbed[m]].inputs@[q];
            t == g.eliminated[m] || fusion::exists_before(model, t, g.anchor)
        }),
{
    let groups = fusion::fused_groups(model);
    let g = groups[k];
    lemma_schedule(model, model.ops@.len());
    lemma_group_shape(model, earlier(groups, k), g.anchor);
    let code = model.ops@[g.anchor].builtin_code;
    if !is_row(model, g) {
        reveal(fusion::pool_group);
        lemma_conv_is_row(model, g.anchor);
        lemma_chain_is_row(model, g.anchor);
        if fusion::convolves(code) {
            lemma_same_row(model, fusion::conv_group(model, g.anchor), g);
        } else if fusion::starts_chain(code) {
            lemma_same_row(model, fusion::chain_group(model, g.anchor), g);
        }
    }
    assert(is_link(model, g, m));
}

/// Whether every operator has one output and reads, besides absent tensors, only
/// constants, inputs of the model and what operators compute.
pub open spec fn wired(model: ParsedModel) -> bool {
    &&& forall|i: int| 0 <= i < model.ops@.len() ==> (#[trigger] model.ops@[i]).outputs@.len() == 1
    &&& forall|i: int, t: u32|
        0 <= i < model.ops@.len() && #[trigger] model.ops@[i].inputs@.contains(t) && t != NO_TENSOR
            ==> model.is_constant(t as int) || model.is_model_input(t) || fusion::writer(model, t)
            is Some
}

/// Whether the kernel of a group reads a tensor: as an input, as the tensor that
/// it adds, as an operand of its chain, or as the operand of its fold.
pub open spec fn group_reads(g: GroupView, t: u32) -> bool {
    ||| g.inputs.contains(t)
    ||| g.residual matches Some(r) && r.residual_tensor == t
    ||| exists|m: int| 0 <= m < g.chain.len() && (#[trigger] g.chain[m]).operand_tensor == t
    ||| g.fold matches Some(f) && f.operand_tensor == t
}

/// A tensor in a list occurs there.
proof fn lemma_occurs(list: Seq<u32>, t: u32)
    requires
        list.contains(t),
    ensures
        fusion::occurrences(list, t) >= 1,
    decreases list.len(),
{
    if list.last() != t {
        let k = choose|k: int| 0 <= k < list.len() && list[k] == t;
        assert(list.drop_last()[k] == t);
        lemma_occurs(list.drop_last(), t);
    }
}

/// Every reader uses a tensor.
proof fn lemma_readers_use(ops: Seq<ParsedOp>, t: u32, x: int)
    requires
        0 <= x < ops.len(),
        ops[x].inputs@.contains(t),
    ensures
        fusion::uses(ops, t) >= 1,
    decreases ops.len(),
{
    if x == ops.len() - 1 {
        lemma_occurs(ops.last().inputs@, t);
    } else {
        assert(ops.drop_last()[x] == ops[x]);
        lemma_readers_use(ops.drop_last(), t, x);
    }
}

/// Two readers use a tensor twice.
proof fn lemma_two_readers(ops: Seq<ParsedOp>, t: u32, x: int, y: int)
    requires
        0 <= x < y < ops.len(),
        ops[x].inputs@.contains(t),
        ops[y].inputs@.contains(t),
    ensures
        fusion::uses(ops, t) >= 2,
    decreases ops.len(),
{
    assert(ops.drop_last()[x] == ops[x]);
    if y == ops.len() - 1 {
        lemma_occurs(ops.last().inputs@, t);
        lemma_readers_use(ops.drop_last(), t, x);
    } else {
        assert(ops.drop_last()[y] == ops[y]);
        lemma_two_readers(ops.drop_last(), t, x, y);
    }
}

/// A tensor with one use has one reader.
pub proof fn lemma_one_reader(model: ParsedModel, t: u32, x: int, y: int)
    requires
        fusion::one_use(model, t),
        0 <= x < model.ops@.len(),
        0 <= y < model.ops@.len(),
        model.ops@[x].inputs@.contains(t),
        model.ops@[y].inputs@.contains(t),
    ensures
        x == y,
{
    if x < y {
        lemma_two_readers(model.ops@, t, x, y);
    } else if y < x {
        lemma_two_readers(model.ops@, t, y, x);
    }
}

/// The output of a row is that of its last operator.
proof fn lemma_row_output(model: ParsedModel, consumed: Set<int>, i: int)
    requires
        executable(model),
        0 <= i < model.ops@.len(),
        fusion::group_of(model, consumed, i).fold is None,
    ensures
        ({
            let g = fusion::group_of(model, consumed, i);
            &&& is_row(model, g)
            &&& g.anchor == i
            &&& g.inputs == model.ops@[i].inputs@
            &&& g.output == model.ops@[member_before(g, g.absorbed.len() as int)].output()
        }),
{
    let g = fusion::group_of(model, consumed, i);
    let code = model.ops@[i].builtin_code;
    lemma_conv_is_row(model, i);
    lemma_chain_is_row(model, i);
    if fusion::convolves(code) {
        lemma_same_row(model, fusion::conv_group(model, i), g);
        reveal(fusion::conv_group);
    } else if fusion::starts_chain(code) {
        lemma_same_row(model, fusion::chain_group(model, i), g);
        reveal(fusion::chain_group);
        let steps = fusion::chain(model, i, model.ops@[i].output(), model.ops@.len());
        assert(g.absorbed.len() == steps.len());
        if steps.len() > 0 {
            assert(g.absorbed[steps.len() - 1] == steps[steps.len() - 1].op_index);
        }
    } else if fusion::pools_or_softmax(code) {
        reveal(fusion::pool_group);
        lemma_anchor_is_row(model, i);
    }
}

/// What a group with a fold is: it runs the folded operator, and reads what that
/// one reads.
proof fn lemma_fold_members(model: ParsedModel, consumed: Set<int>, i: int)
    requires
        executable(model),
        wired(model),
        0 <= i < model.ops@.len(),
        fusion::group_of(model, consumed, i).fold is Some,
    ensures
        ({
            let g = fusion::group_of(model, consumed, i);
            let p = g.absorbed[0];
            &&& g.anchor == i
            &&& g.absorbed.len() == 1
            &&& 0 <= p < i
            &&& g.eliminated == seq![model.ops@[p].output()]
            &&& fusion::one_use(model, g.eliminated[0])
            &&& model.ops@[i].inputs@.contains(g.eliminated[0])
            &&& model.ops@[p].inputs@.len() == 2
            &&& g.inputs == seq![model.ops@[p].inputs@[0]]
            &&& g.fold->0.operand_tensor == model.ops@[p].inputs@[1]
            &&& g.residual is None
            &&& g.chain.len() == 0
            &&& g.output == model.ops@[i].output()
        }),
{
    let g = fusion::group_of(model, consumed, i);
    let code = model.ops@[i].builtin_code;
    assert(fusion::pools_or_softmax(code)) by {
        reveal(fusion::conv_group);
        reveal(fusion::chain_group);
    }
    reveal(fusion::pool_group);
    let t = model.ops@[i].input();
    fusion::lemma_writer_in_range(model.ops@, t, 0);
    let p = g.absorbed[0];
    assert(has_arity(model.ops@[i]));
    assert(has_arity(model.ops@[p]));
    assert(model.ops@[i].inputs@[0] == t);
    assert(model.ops@[i].inputs@.contains(t));
    assert(model.ops@[p].outputs@.contains(t));
    assert(model.ops@[p].outputs@[0] == t);
    lemma_sole_reader(model, t);
    assert(g.eliminated =~= seq![model.ops@[p].output()]);
    assert(g.inputs =~= seq![model.ops@[p].inputs@[0]]);
}

/// A tensor that some operator of group `k` reads, that the group does not
/// eliminate and that is computed before its anchor is the output of an earlier
/// group.
proof fn lemma_computed_before(model: ParsedModel, k: int, x: int, w: int, t: u32)
    requires
        executable(model),
        wired(model),
        0 <= k < fusion::fused_groups(model).len(),
        runs(fusion::fused_groups(model)[k], x),
        0 <= x < model.ops@.len(),
        model.ops@[x].inputs@.contains(t),
        0 <= w < fusion::fused_groups(model)[k].anchor,
        model.ops@[w].outputs@.contains(t),
        !fusion::fused_groups(model)[k].eliminated.contains(t),
    ensures
        exists|j: int| 0 <= j < k && (#[trigger] fusion::fused_groups(model)[j]).output == t,
{
    let groups = fusion::fused_groups(model);
    lemma_schedule(model, model.ops@.len());
    law_every_operator_runs_once(model, w);
    law_every_operator_runs_once(model, x);
    let j = choose|j: int| 0 <= j < groups.len() && runs(#[trigger] groups[j], w);
    let h = groups[j];
    let at = choose|at: int|
        0 <= at < model.ops@[w].outputs@.len() && model.ops@[w].outputs@[at] == t;
    assert(model.ops@[w].output() == t);
    assert(h == fusion::group_of(model, earlier(groups, j), h.anchor));
    if h.fold is Some {
        lemma_fold_members(model, earlier(groups, j), h.anchor);
        if w != h.anchor {
            assert(w == h.absorbed[0]);
            assert(h.eliminated[0] == t);
            lemma_one_reader(model, t, x, h.anchor);
            assert(runs(h, x));
            assert(j == k);
        }
    } else {
        lemma_row_output(model, earlier(groups, j), h.anchor);
        let m: int = if w == h.anchor {
            0
        } else {
            1 + choose|m: int| 0 <= m < h.absorbed.len() && h.absorbed[m] == w
        };
        assert(member_before(h, m) == w);
        if m < h.absorbed.len() {
            assert(is_link(model, h, m));
            assert(h.eliminated[m] == t);
            lemma_sole_reader(model, t);
            lemma_one_reader(model, t, x, h.absorbed[m]);
            assert(h.absorbed.contains(x));
            assert(runs(h, x));
            assert(j == k);
        }
        if m > 0 {
            lemma_row_ascends(model, h, m - 1);
        }
    }
    assert(h.output == t);
    assert(h.anchor <= w);
    if j > k {
        assert(groups[k].anchor < groups[j].anchor);
    }
}

/// What is computed before the anchor of a row, the row does not eliminate.
proof fn lemma_row_keeps(model: ParsedModel, g: GroupView, w: int, t: u32)
    requires
        executable(model),
        is_row(model, g),
        0 <= w < g.anchor,
        model.ops@[w].outputs@.contains(t),
    ensures
        !g.eliminated.contains(t),
{
    if g.eliminated.contains(t) {
        let m = choose|m: int| 0 <= m < g.eliminated.len() && g.eliminated[m] == t;
        lemma_row_ascends(model, g, m);
        assert(model.ops@[member_before(g, m)].outputs@.contains(t));
    }
}

/// A tensor other than the running one that an operator names first is an input
/// of it.
pub proof fn lemma_other_is_input(list: Seq<u32>, t: u32, i: nat)
    ensures
        fusion::other_from(list, t, i) matches Some(o) ==> o != t && list.contains(o),
    decreases list.len() - i,
{
    if i < list.len() && list[i as int] == t {
        lemma_other_is_input(list, t, i + 1);
    }
}

/// What the kernel of a group reads exists when it runs: a constant, an input of
/// the model, or the output of an earlier group.
pub proof fn law_groups_read_what_exists(model: ParsedModel, k: int, t: u32)
    requires
        executable(model),
        wired(model),
        0 <= k < fusion::fused_groups(model).len(),
        group_reads(fusion::fused_groups(model)[k], t),
        t != NO_TENSOR,
    ensures
        model.is_constant(t as int) || model.is_model_input(t) || exists|j: int|
            0 <= j < k && (#[trigger] fusion::fused_groups(model)[j]).output == t,
{
    let groups = fusion::fused_groups(model);
    let g = groups[k];
    let i = g.anchor;
    lemma_schedule(model, model.ops@.len());
    assert(g == fusion::group_of(model, earlier(groups, k), i));
    if !model.is_constant(t as int) && !model.is_model_input(t) {
        fusion::lemma_writer_in_range(model.ops@, t, 0);
        if g.fold is Some {
            lemma_fold_members(model, earlier(groups, k), i);
            let p = g.absorbed[0];
            assert(g.inputs[0] == model.ops@[p].inputs@[0]);
            assert(model.ops@[p].inputs@.contains(t)) by {
                if g.inputs.contains(t) {
                    assert(model.ops@[p].inputs@[0] == t);
                } else {
                    assert(model.ops@[p].inputs@[1] == t);
                }
            }
            let w = fusion::writer(model, t)->0 as int;
            assert(w < p);
            assert(model.ops@[p].outputs@[0] == g.eliminated[0]);
            assert(model.ops@[p].outputs@.contains(g.eliminated[0]));
            assert(runs(g, p));
            lemma_computed_before(model, k, p, w, t);
        } else {
            lemma_row_output(model, earlier(groups, k), i);
            let w = fusion::writer(model, t)->0 as int;
            if g.inputs.contains(t) {
                assert(model.ops@[i].inputs@.contains(t));
                assert(w < i);
                lemma_row_keeps(model, g, w, t);
                assert(runs(g, i));
                lemma_computed_before(model, k, i, w, t);
            } else {
                lemma_extra_operand(model, earlier(groups, k), i, t);
                let m = choose|m: int|
                    0 <= m < g.absorbed.len() && model.ops@[#[trigger] g.absorbed[m]].inputs@.contains(t);
                lemma_row_keeps(model, g, w, t);
                assert(is_link(model, g, m));
                assert(runs(g, g.absorbed[m]));
                lemma_computed_before(model, k, g.absorbed[m], w, t);
            }
        }
    }
}

/// What a row reads besides the inputs of its anchor, an absorbed operator reads,
/// and it is computed before the anchor.
proof fn lemma_extra_operand(model: ParsedModel, consumed: Set<int>, i: int, t: u32)
    requires
        executable(model),
        0 <= i < model.ops@.len(),
        t != NO_TENSOR,
        !model.is_constant(t as int),
        !model.is_model_input(t),
        ({
            let g = fusion::group_of(model, consumed, i);
            g.fold is None && !g.inputs.contains(t) && group_reads(g, t)
        }),
    ensures
        ({
            let g = fusion::group_of(model, consumed, i);
            &&& exists|m: int|
                0 <= m < g.absorbed.len() && model.ops@[#[trigger] g.absorbed[m]].inputs@.contains(t)
            &&& fusion::writer(model, t) matches Some(w) && w < i
        }),
{
    let g = fusion::group_of(model, consumed, i);
    let code = model.ops@[i].builtin_code;
    if fusion::convolves(code) {
        reveal(fusion::conv_group);
        let (add, r) = fusion::residual_add(model, i)->0;
        assert(g.absorbed[0] == add);
        lemma_other_is_input(model.ops@[add].inputs@, model.ops@[i].output(), 0);
        assert(model.ops@[g.absorbed[0]].inputs@.contains(t));
    } else if fusion::starts_chain(code) {
        reveal(fusion::chain_group);
        let first = model.ops@[i].output();
        let steps = fusion::chain(model, i, first, model.ops@.len());
        let m = choose|m: int| 0 <= m < g.chain.len() && (#[trigger] g.chain[m]).operand_tensor == t;
        assert(g.chain == steps);
        lemma_chain_steps(model, i, first, model.ops@.len(), m);
        let running = fusion::running_tensor(model, first, steps, m);
        lemma_sole_reader(model, running);
        assert(model.ops@.len() == model.ops.len());
        let n = fusion::sole_reader(model, running)->0 as int;
        let inputs = model.ops@[n].inputs@;
        lemma_other_is_input(inputs, running, 0);
        assert(g.absorbed[m] == n);
        assert(inputs.contains(t));
        let q = choose|q: int| 0 <= q < inputs.len() && inputs[q] == t;
        assert(fusion::operands_exist(model, inputs, running, i));
        assert(inputs[q] == running || fusion::exists_before(model, inputs[q], i));
        assert(model.ops@[g.absorbed[m]].inputs@.contains(t));
    } else if fusion::pools_or_softmax(code) {
        reveal(fusion::pool_group);
    }
}

/// A group needs verification exactly where it folds an input or a scale
/// change.
pub proof fn law_rounding_changes_are_tagged(model: ParsedModel, k: int)
    requires
        executable(model),
        0 <= k < fusion::fused_groups(model).len(),
    ensures
        ({
            let g = fusion::fused_groups(model)[k];
            g.requires_verification <==> (g.fold is Some || g.requantize is Some)
        }),
{
    lemma_schedule(model, model.ops@.len());
}

/// All operators that a list of groups runs, group by group.
pub open spec fn members(groups: Seq<GroupView>) -> Seq<int>
    decreases groups.len(),
{
    if groups.len() == 0 {
        Seq::empty()
    } else {
        members(groups.drop_last()).push(groups.last().anchor) + groups.last().absorbed
    }
}

/// How many operators a list of groups has absorbed.
pub open spec fn absorbed_count(groups: Seq<GroupView>) -> nat
    decreases groups.len(),
{
    if groups.len() == 0 {
        0
    } else {
        absorbed_count(groups.drop_last()) + groups.last().absorbed.len()
    }
}

/// Fewer groups have absorbed no more.
pub proof fn lemma_absorbed_count_grows(groups: Seq<GroupView>, k: int)
    requires
        0 <= k <= groups.len(),
    ensures
        absorbed_count(groups.take(k)) <= absorbed_count(groups),
    decreases groups.len() - k,
{
    if k < groups.len() {
        lemma_absorbed_count_grows(groups, k + 1);
        assert(groups.take(k + 1).drop_last() =~= groups.take(k));
    } else {
        assert(groups.take(k) =~= groups);
    }
}

proof fn lemma_members(groups: Seq<GroupView>)
    ensures
        members(groups).len() == groups.len() + absorbed_count(groups),
        forall|j: int|
            members(groups).contains(j) <==> (exists|k: int|
                0 <= k < groups.len() && runs(#[trigger] groups[k], j)),
    decreases groups.len(),
{
    if groups.len() > 0 {
        let rest = groups.drop_last();
        let g = groups.last();
        lemma_members(rest);
        let all = members(groups);
        let head = members(rest).push(g.anchor);
        assert forall|j: int| all.contains(j) <==> (exists|k: int|
            0 <= k < groups.len() && runs(#[trigger] groups[k], j)) by {
            if all.contains(j) {
                let m = choose|m: int| 0 <= m < all.len() && all[m] == j;
                if m < members(rest).len() {
                    assert(members(rest)[m] == j);
                    assert(members(rest).contains(j));
                    let k = choose|k: int| 0 <= k < rest.len() && runs(#[trigger] rest[k], j);
                    assert(runs(groups[k], j));
                } else {
                    if m > members(rest).len() {
                        assert(g.absorbed[m - head.len()] == j);
                    }
                    assert(runs(groups[groups.len() - 1], j));
                }
            }
            if exists|k: int| 0 <= k < groups.len() && runs(#[trigger] groups[k], j) {
                let k = choose|k: int| 0 <= k < groups.len() && runs(#[trigger] groups[k], j);
                if k < rest.len() {
                    assert(runs(rest[k], j));
                    assert(members(rest).contains(j));
                    let m = choose|m: int| 0 <= m < members(rest).len() && members(rest)[m] == j;
                    assert(all[m] == j);
                } else if g.anchor == j {
                    assert(all[members(rest).len() as int] == j);
                } else {
                    let m = choose|m: int| 0 <= m < g.absorbed.len() && g.absorbed[m] == j;
                    assert(all[head.len() + m] == j);
                }
            }
        }
    }
}

proof fn lemma_members_distinct(model: ParsedModel, groups: Seq<GroupView>, n: int)
    requires
        executable(model),
        is_schedule(model, groups, model.ops@.len() as int),
        0 <= n <= groups.len(),
    ensures
        members(groups.take(n)).no_duplicates(),
    decreases n,
{
    if n > 0 {
        let some = groups.take(n);
        let rest = groups.take(n - 1);
        let g = groups[n - 1];
        assert(some.drop_last() =~= rest);
        assert(some.last() == g);
        lemma_members_distinct(model, groups, n - 1);
        lemma_members(rest);
        lemma_group_shape(model, earlier(groups, n - 1), g.anchor);
        lemma_group_is_distinct(model, g);
        let before = members(rest);
        let all = members(some);
        assert forall|j: int| before.contains(j) implies !runs(g, j) by {
            let k = choose|k: int| 0 <= k < rest.len() && runs(#[trigger] rest[k], j);
            lemma_groups_disjoint(model, groups, model.ops@.len() as int, k, n - 1, j);
            assert(rest[k] == groups[k]);
            assert(groups[k].anchor < groups[n - 1].anchor);
        }
        assert forall|a: int, b: int| 0 <= a < b < all.len() implies all[a] != all[b] by {
            if a < before.len() {
                assert(before.contains(before[a]));
                if b > before.len() {
                    assert(g.absorbed.contains(g.absorbed[b - before.len() - 1]));
                }
            } else if a == before.len() {
                assert(g.absorbed.contains(g.absorbed[b - before.len() - 1]));
            }
        }
    }
}

/// The kernel calls of a schedule and the operators absorbed into them are, in
/// number, the operators of the model.
pub proof fn law_counts_add_up(model: ParsedModel)
    requires
        executable(model),
    ensures
        fusion::fused_groups(model).len() + absorbed_count(fusion::fused_groups(model))
            == model.ops@.len(),
{
    let n = model.ops@.len() as int;
    let groups = fusion::fused_groups(model);
    lemma_schedule(model, model.ops@.len());
    lemma_members(groups);
    assert(groups.take(groups.len() as int) =~= groups);
    lemma_members_distinct(model, groups, groups.len() as int);
    let all = members(groups);
    let range = vstd::set_lib::set_int_range(0, n);
    vstd::set_lib::lemma_int_range(0, n);
    law_groups_are_in_order(model);
    assert(all.to_set() =~= range) by {
        assert forall|j: int| all.to_set().contains(j) == range.contains(j) by {
            if range.contains(j) {
                law_every_operator_runs_once(model, j);
            }
            if all.contains(j) {
                let k = choose|k: int| 0 <= k < groups.len() && runs(#[trigger] groups[k], j);
                assert(runs(groups[k], j));
            }
        }
    }
    all.unique_seq_to_set();
}

/// A chain that is shorter than its limit has come to its end.
proof fn lemma_chain_ends(model: ParsedModel, anchor: int, running: u32, limit: nat)
    requires
        fusion::chain(model, anchor, running, limit).len() < limit,
    ensures
        ({
            let steps = fusion::chain(model, anchor, running, limit);
            let last = fusion::running_tensor(model, running, steps, steps.len() as int);
            fusion::chain_step(model, anchor, last) is None
        }),
    decreases limit,
{
    let steps = fusion::chain(model, anchor, running, limit);
    match fusion::chain_step(model, anchor, running) {
        Some(step) => {
            let next = model.ops@[step.op_index as int].output();
            let rest = fusion::chain(model, anchor, next, (limit - 1) as nat);
            assert(steps == seq![step] + rest);
            lemma_chain_ends(model, anchor, next, (limit - 1) as nat);
            assert(steps[0] == step);
            if rest.len() > 0 {
                assert(steps[steps.len() - 1] == rest[rest.len() - 1]);
            }
        },
        None => {},
    }
}

/// A row moves forward with every operator.
proof fn lemma_row_is_short(model: ParsedModel, g: GroupView, k: int)
    requires
        executable(model),
        is_row(model, g),
        0 <= k < g.absorbed.len(),
    ensures
        g.anchor + k < g.absorbed[k] < model.ops@.len(),
    decreases k,
{
    lemma_row_ascends(model, g, k);
    assert(is_link(model, g, k));
    if k > 0 {
        lemma_row_is_short(model, g, k - 1);
    }
}

/// A chain takes all the steps that it can: from where it ends, no further step
/// leads on.
pub proof fn law_chains_are_maximal(model: ParsedModel, i: int)
    requires
        executable(model),
        0 <= i < model.ops@.len(),
    ensures
        fusion::chain_step(model, i, fusion::chain_group(model, i).output) is None,
{
    reveal(fusion::chain_group);
    let n = model.ops@.len();
    let g = fusion::chain_group(model, i);
    let first = model.ops@[i].output();
    lemma_chain_is_row(model, i);
    if g.absorbed.len() > 0 {
        lemma_row_is_short(model, g, g.absorbed.len() - 1);
    }
    lemma_chain_ends(model, i, first, n);
}

/// A convolution absorbs an activation behind it only where that one does not
/// change scale or zero point, so that a clamp computes the same.
pub proof fn law_absorbed_activations_keep_quantization(model: ParsedModel, i: int, m: int)
    requires
        executable(model),
        0 <= i < model.ops@.len(),
        0 <= m < fusion::conv_group(model, i).absorbed.len(),
        fusion::standalone_activation(
            model.ops@[fusion::conv_group(model, i).absorbed[m]].builtin_code,
        ) is Some,
    ensures
        ({
            let g = fusion::conv_group(model, i);
            fusion::same_quantization(model, model.ops@[g.absorbed[m]].output(), g.eliminated[m])
        }),
{
    reveal(fusion::conv_group);
}

/// A convolution absorbs an activation behind it only where that one, run on
/// its own, requantizes by the identity: it computes its clamp and nothing else.
pub proof fn law_absorbed_activations_only_clamp(model: ParsedModel, i: int, m: int)
    requires
        executable(model),
        0 <= i < model.ops@.len(),
        0 <= m < fusion::conv_group(model, i).absorbed.len(),
        fusion::standalone_activation(
            model.ops@[fusion::conv_group(model, i).absorbed[m]].builtin_code,
        ) is Some,
    ensures
        ({
            let g = fusion::conv_group(model, i);
            let before = fusion::scale(model, g.eliminated[m]);
            let behind = fusion::scale(model, model.ops@[g.absorbed[m]].output());
            &&& before is Some
            &&& behind is Some
            &&& crate::ieee::is_valid_scale(before->0) ==> crate::requant::ratio(
                before->0,
                behind->0,
            ) == (0x4000_0000i32, 1i32)
        }),
{
    law_absorbed_activations_keep_quantization(model, i, m);
    let g = fusion::conv_group(model, i);
    let before = fusion::scale(model, g.eliminated[m]);
    if crate::ieee::is_valid_scale(before->0) {
        crate::requant::law_equal_scales_give_the_identity(before->0);
    }
}

/// A multiplication that is folded into a convolution multiplies by one and, run
/// on its own, requantizes by the identity, where its factor has the scale one.
pub proof fn law_folded_scale_changes_are_the_identity(model: ParsedModel, conv: int, mul: int)
    requires
        0 <= conv < model.ops@.len(),
        0 <= mul < model.ops@.len(),
        fusion::scale_fold(model, conv, mul) is Some,
        ({
            let m = model.ops@[mul];
            &&& fusion::scale(model, m.inputs@[0]) matches Some(s) && crate::ieee::is_valid_scale(s)
            &&& fusion::scale(model, m.inputs@[1]) == Some(crate::requant::UNIT_SCALE)
        }),
    ensures
        ({
            let m = model.ops@[mul];
            let factor = model.tensor(m.inputs@[1] as int);
            &&& crate::requant::product_ratio(
                fusion::scale(model, m.inputs@[0])->0,
                fusion::scale(model, m.inputs@[1])->0,
                fusion::scale(model, m.output())->0,
            ) == (0x4000_0000i32, 1i32)
            &&& fusion::zero_point(model, m.inputs@[0]) == Some(0i64)
            &&& fusion::zero_point(model, m.inputs@[1]) == Some(0i64)
            &&& factor is Some
            &&& model.data(factor->0) is Some
            &&& fusion::all_ones(model.data(factor->0)->0)
        }),
{
    let s = fusion::scale(model, model.ops@[mul].inputs@[0])->0;
    crate::requant::law_equal_scales_give_the_identity(s);
}

} // verus!
