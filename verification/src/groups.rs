//! What holds of fused groups, in terms of the graph and of real numbers.
//!
//! A group stands for its operators: what it absorbs, it absorbs with the
//! operands, the scales and the ranges that the operators have. Where operators
//! form one of the patterns, they are absorbed.

use crate::accuracy;
use crate::calls;
use crate::fusion;
use crate::fusion::{FusedActivationKind, GroupView, StepRequantize};
use crate::model::{ParsedModel, ParsedOp, ParsedOptions, NO_TENSOR};
use crate::op_params::ElementwiseKind;
use vstd::prelude::*;

verus! {

/// Whether a tensor exists and has a finite positive scale and a zero point that
/// is a word with a negative.
pub open spec fn measured(model: ParsedModel, t: u32) -> bool {
    t < model.tensors@.len() && calls::quantized(model.tensors@[t as int])
}

/// The zero point of a tensor.
pub open spec fn zero(model: ParsedModel, t: u32) -> int {
    calls::zero(model.tensors@[t as int])
}

/// The scale of a tensor.
pub open spec fn scale(model: ParsedModel, t: u32) -> u32 {
    calls::scale(model.tensors@[t as int])
}

/// Whether a step adds two tensors, as real numbers, into a third: both inputs
/// without their zero points, brought to one scale, and the sum brought to the
/// output.
pub open spec fn is_sum(q: StepRequantize, model: ParsedModel, a: u32, b: u32, out: u32) -> bool {
    &&& calls::adds(
        (q.input1_multiplier, q.input1_shift),
        (q.input2_multiplier, q.input2_shift),
        (q.output_multiplier, q.output_shift),
        q.left_shift as int,
        scale(model, a),
        scale(model, b),
        scale(model, out),
    )
    &&& q.input1_offset == -zero(model, a)
    &&& q.input2_offset == -zero(model, b)
    &&& q.output_offset == zero(model, out)
}

/// Whether a step multiplies two tensors, as real numbers, into a third.
pub open spec fn is_product(q: StepRequantize, model: ParsedModel, a: u32, b: u32, out: u32) -> bool {
    &&& q.left_shift == 0
    &&& calls::rescales_product(
        (q.output_multiplier, q.output_shift),
        scale(model, a),
        scale(model, b),
        scale(model, out),
    )
    &&& q.input1_offset == -zero(model, a)
    &&& q.input2_offset == -zero(model, b)
    &&& q.output_offset == zero(model, out)
}

/// Whether a step brings a tensor to the scale of another.
pub open spec fn is_rescale(q: StepRequantize, model: ParsedModel, a: u32, out: u32) -> bool {
    &&& q.left_shift == 0
    &&& calls::rescales((q.output_multiplier, q.output_shift), scale(model, a), scale(model, out))
    &&& q.input1_offset == zero(model, a)
    &&& q.input2_offset == 0
    &&& q.output_offset == zero(model, out)
}

/// The parameters of a step are those of its operation on real numbers: sums
/// and differences bring both inputs to one scale, products scale their result,
/// activations scale from input to output.
pub proof fn law_steps_compute_their_operation(
    model: ParsedModel,
    a: u32,
    b: u32,
    out: u32,
    kind: ElementwiseKind,
)
    requires
        measured(model, a),
        measured(model, out),
    ensures
        ({
            let q = fusion::step_parameters(model, a, b, out, kind);
            &&& (kind is Add || kind is Sub) && measured(model, b) ==> is_sum(q, model, a, b, out)
            &&& kind is Mul && measured(model, b) ==> is_product(q, model, a, b, out)
            &&& kind is Relu || kind is Relu6 || kind is HardSwish ==> is_rescale(q, model, a, out)
        }),
{
    if measured(model, b) {
        calls::law_sums_are_rescaled(scale(model, a), scale(model, b), scale(model, out));
        accuracy::law_product_ratio_is_the_quotient(
            scale(model, a),
            scale(model, b),
            scale(model, out),
        );
    }
    accuracy::law_ratio_is_the_quotient(scale(model, a), scale(model, out));
}

/// The groups of a model are the groups of their anchors.
proof fn lemma_groups(model: ParsedModel, n: nat, k: int)
    requires
        n <= model.ops@.len(),
        0 <= k < fusion::groups_upto(model, n).len(),
    ensures
        ({
            let g = fusion::groups_upto(model, n)[k];
            let consumed = fusion::absorbed_by(fusion::groups_upto(model, g.anchor as nat));
            &&& 0 <= g.anchor < n
            &&& g == fusion::group_of(model, consumed, g.anchor)
            &&& !consumed.contains(g.anchor)
            &&& fusion::input_fold(model, g.anchor) is None
        }),
    decreases n,
{
    let i = n - 1;
    let before = fusion::groups_upto(model, i as nat);
    if fusion::absorbed_by(before).contains(i) || fusion::input_fold(model, i) is Some {
        lemma_groups(model, i as nat, k);
    } else if k < before.len() {
        lemma_groups(model, i as nat, k);
    } else {
        reveal(fusion::conv_group);
        reveal(fusion::chain_group);
        reveal(fusion::pool_group);
    }
}

/// The group of a model at an index.
pub open spec fn group(model: ParsedModel, k: int) -> GroupView {
    fusion::fused_groups(model)[k]
}

/// Whether a group is one of a model, and what anchors it.
pub open spec fn anchored(model: ParsedModel, k: int, code: i32) -> bool {
    &&& 0 <= k < fusion::fused_groups(model).len()
    &&& 0 <= group(model, k).anchor < model.ops@.len()
    &&& model.ops@[group(model, k).anchor].builtin_code == code
}

/// A group has the code of its anchor. It reads what its anchor reads, but for
/// the first input where it has folded what computes that; without anything
/// absorbed it writes what the anchor writes. It changes rounding exactly where
/// it folds an input or a scale change.
pub proof fn law_groups_stand_for_their_anchors(model: ParsedModel, k: int)
    requires
        0 <= k < fusion::fused_groups(model).len(),
    ensures
        ({
            let g = group(model, k);
            let op = model.ops@[g.anchor];
            &&& 0 <= g.anchor < model.ops@.len()
            &&& g.builtin == op.builtin_code
            &&& g.fold is None ==> g.inputs == op.inputs@
            &&& g.fold is Some ==> g.inputs.len() == op.inputs@.len() && g.inputs.len() > 0
                && forall|m: int|
                1 <= m < g.inputs.len() ==> #[trigger] g.inputs[m] == op.inputs@[m]
            &&& g.absorbed.len() == 0 || g.fold is Some ==> g.output == if op.outputs@.len() > 0 {
                op.outputs@[0]
            } else {
                NO_TENSOR
            }
            &&& g.requires_verification <==> g.fold is Some || g.requantize is Some
            &&& g.absorbed.len() == g.eliminated.len()
        }),
{
    lemma_groups(model, model.ops@.len(), k);
    reveal(fusion::conv_group);
    reveal(fusion::chain_group);
    reveal(fusion::pool_group);
}

/// Only the group of a convolution has a residual, and it is the one that was
/// found.
proof fn lemma_residual_group(model: ParsedModel, k: int)
    requires
        0 <= k < fusion::fused_groups(model).len(),
        group(model, k).residual is Some,
    ensures
        ({
            let g = group(model, k);
            let i = g.anchor;
            &&& 0 <= i < model.ops@.len()
            &&& fusion::convolves(model.ops@[i].builtin_code)
            &&& fusion::residual_add(model, i) is Some
            &&& ({
                let (add, r) = fusion::residual_add(model, i)->0;
                let h = fusion::with_residual(model, fusion::anchor_group(model, i), add, r);
                &&& g.residual == h.residual
                &&& g.absorbed.len() >= 1 && g.absorbed[0] == add
                &&& g.eliminated.len() >= 1 && g.eliminated[0] == model.ops@[i].output()
            })
        }),
{
    lemma_groups(model, model.ops@.len(), k);
    reveal(fusion::conv_group);
    reveal(fusion::chain_group);
    reveal(fusion::pool_group);
}

/// A residual addition that a group has absorbed is one: a convolution is its
/// anchor, the addition reads the result of the convolution and the residual,
/// and the residual is another tensor that an earlier operator computes. The
/// recorded step is the real sum of the two, in the scale of the addition.
pub proof fn law_absorbed_residuals_are_sums(model: ParsedModel, k: int)
    requires
        0 <= k < fusion::fused_groups(model).len(),
        group(model, k).residual is Some,
    ensures
        ({
            let g = group(model, k);
            let r = g.residual->0;
            let conv = model.ops@[g.anchor];
            let add = model.ops@[r.op_index as int];
            let out = add.output();
            &&& conv.builtin_code == 3 || conv.builtin_code == 4 || conv.builtin_code == 9
            &&& r.op_index < model.ops@.len()
            &&& add.builtin_code == 0
            &&& add.inputs@.contains(conv.output())
            &&& add.inputs@.contains(r.residual_tensor)
            &&& r.residual_tensor != conv.output()
            &&& !model.inputs@.contains(r.residual_tensor)
            &&& !model.outputs@.contains(r.residual_tensor)
            &&& !model.is_constant(r.residual_tensor as int)
            &&& exists|p: int|
                0 <= p < g.anchor && (#[trigger] model.ops@[p]).outputs@.contains(r.residual_tensor)
            &&& g.absorbed.len() >= 1 && g.absorbed[0] == r.op_index
            &&& g.eliminated[0] == conv.output()
            &&& measured(model, out) ==> r.output_scale == scale(model, out) && r.output_zero_point
                == zero(model, out)
            &&& measured(model, conv.output()) && measured(model, r.residual_tensor) && measured(
                model,
                out,
            ) ==> is_sum(r.requantize, model, conv.output(), r.residual_tensor, out)
        }),
{
    lemma_residual_group(model, k);
    let g = group(model, k);
    let (add, r) = fusion::residual_add(model, g.anchor)->0;
    lemma_residual_operands(model, g.anchor);
    lemma_residual_step(model, fusion::anchor_group(model, g.anchor), add, r);
}

/// What a residual addition that was found reads.
proof fn lemma_residual_operands(model: ParsedModel, i: int)
    requires
        fusion::residual_add(model, i) is Some,
    ensures
        ({
            let (add, r) = fusion::residual_add(model, i)->0;
            let t = model.ops@[i].output();
            &&& 0 <= add < model.ops@.len()
            &&& add as usize == add
            &&& model.ops@[add].builtin_code == 0
            &&& model.ops@[add].inputs@.contains(t)
            &&& model.ops@[add].inputs@.contains(r)
            &&& r != t
            &&& !model.inputs@.contains(r)
            &&& !model.outputs@.contains(r)
            &&& !model.is_constant(r as int)
            &&& exists|p: int| 0 <= p < i && (#[trigger] model.ops@[p]).outputs@.contains(r)
        }),
{
    let t = model.ops@[i].output();
    crate::schedule::lemma_sole_reader(model, t);
    let (add, r) = fusion::residual_add(model, i)->0;
    crate::schedule::lemma_other_is_input(model.ops@[add].inputs@, t, 0);
    fusion::lemma_writer_in_range(model.ops@, r, 0);
    let p = fusion::writer(model, r)->0 as int;
    assert(model.ops@[p].outputs@.contains(r));
    assert(model.ops@.len() == model.ops.len());
}

/// What an absorbed addition records.
proof fn lemma_residual_step(model: ParsedModel, g: GroupView, add: int, r: u32)
    ensures
        ({
            let step = fusion::with_residual(model, g, add, r).residual->0;
            let out = model.ops@[add].output();
            &&& step.residual_tensor == r
            &&& step.op_index == add as usize
            &&& measured(model, out) ==> step.output_scale == scale(model, out)
                && step.output_zero_point == zero(model, out)
            &&& measured(model, g.output) && measured(model, r) && measured(model, out) ==> is_sum(
                step.requantize,
                model,
                g.output,
                r,
                out,
            )
        }),
{
    let out = model.ops@[add].output();
    if measured(model, g.output) && measured(model, r) && measured(model, out) {
        law_steps_compute_their_operation(model, g.output, r, out, ElementwiseKind::Add);
    }
}

/// A residual addition is absorbed where it can be: the result of a convolution
/// has one use, which is an addition of another tensor that an earlier operator
/// computes and that is neither constant nor input or output of the model.
pub proof fn law_residual_additions_are_absorbed(
    model: ParsedModel,
    k: int,
    add: int,
    p: int,
    first: bool,
)
    requires
        anchored(model, k, 3) || anchored(model, k, 4) || anchored(model, k, 9),
        0 <= add < model.ops@.len(),
        0 <= p < group(model, k).anchor,
        ({
            let t = model.ops@[group(model, k).anchor].output();
            let inputs = model.ops@[add].inputs@;
            let r = if first {
                inputs[0]
            } else {
                inputs[1]
            };
            &&& model.ops@[add].builtin_code == 0
            &&& inputs.len() == 2
            &&& if first {
                inputs[1] == t
            } else {
                inputs[0] == t
            }
            &&& r != t
            &&& fusion::one_use(model, t)
            &&& model.ops@[p].outputs@.contains(r)
            &&& !model.inputs@.contains(r)
            &&& !model.outputs@.contains(r)
            &&& !model.is_constant(r as int)
        }),
    ensures
        ({
            let g = group(model, k);
            &&& g.residual is Some
            &&& g.residual->0.op_index == add
            &&& g.residual->0.residual_tensor == if first {
                model.ops@[add].inputs@[0]
            } else {
                model.ops@[add].inputs@[1]
            }
        }),
{
    lemma_groups(model, model.ops@.len(), k);
    reveal(fusion::conv_group);
    let i = group(model, k).anchor;
    let t = model.ops@[i].output();
    let inputs = model.ops@[add].inputs@;
    lemma_reader_found(model, t, add);
    reveal_with_fuel(fusion::other_from, 3);
    let r = if first {
        inputs[0]
    } else {
        inputs[1]
    };
    crate::schedule::lemma_writer_found(model.ops@, r, 0, p as nat);
    assert(fusion::other_from(inputs, t, 0) == Some(r));
    assert(fusion::residual_add(model, i) == Some((add, r)));
    let g = fusion::conv_group(model, i);
    assert(model.ops@.len() <= usize::MAX) by {
        assert(model.ops@.len() == model.ops.len());
    }
}

/// The reader of a tensor with one use is the operator that reads it.
proof fn lemma_reader_found(model: ParsedModel, t: u32, j: int)
    requires
        0 <= j < model.ops@.len(),
        model.ops@[j].inputs@.contains(t) || (model.ops@[j].inputs@.len() > 0
            && model.ops@[j].inputs@[0] == t) || (model.ops@[j].inputs@.len() > 1
            && model.ops@[j].inputs@[1] == t),
        fusion::one_use(model, t),
    ensures
        fusion::sole_reader(model, t) == Some(j as nat),
        model.ops@[j].inputs@.contains(t),
{
    let inputs = model.ops@[j].inputs@;
    assert(inputs.contains(t));
    lemma_some_reader(model.ops@, t, 0, j as nat);
    crate::schedule::lemma_sole_reader(model, t);
    let n = fusion::sole_reader(model, t)->0;
    crate::schedule::lemma_one_reader(model, t, n as int, j);
}

proof fn lemma_some_reader(ops: Seq<ParsedOp>, t: u32, i: nat, j: nat)
    requires
        i <= j < ops.len(),
        ops[j as int].inputs@.contains(t),
    ensures
        fusion::reader_from(ops, t, i) is Some,
    decreases j - i,
{
    if i < j && !ops[i as int].inputs@.contains(t) {
        lemma_some_reader(ops, t, i + 1, j);
    }
}

/// The activation code in the options of an operator; none where there is no
/// such option.
pub open spec fn fused_code(op: ParsedOp) -> i8 {
    match op.options {
        Some(ParsedOptions::Conv2D { fused_activation, .. }) => fused_activation,
        Some(ParsedOptions::DepthwiseConv2D { fused_activation, .. }) => fused_activation,
        Some(ParsedOptions::FullyConnected { fused_activation, .. }) => fused_activation,
        Some(ParsedOptions::Pool2D { fused_activation, .. }) => fused_activation,
        Some(ParsedOptions::Add { fused_activation, .. }) => fused_activation,
        Some(ParsedOptions::Sub { fused_activation, .. }) => fused_activation,
        Some(ParsedOptions::Mul { fused_activation }) => fused_activation,
        _ => 0,
    }
}

/// The option code of an activation.
pub open spec fn option_code(kind: FusedActivationKind) -> i8 {
    match kind {
        FusedActivationKind::Relu => 1,
        FusedActivationKind::Relu6 => 3,
        FusedActivationKind::HardSwish => 0,
    }
}

/// The operator code of an activation.
pub open spec fn operator_code(kind: FusedActivationKind) -> i32 {
    match kind {
        FusedActivationKind::Relu => 19,
        FusedActivationKind::Relu6 => 21,
        FusedActivationKind::HardSwish => 117,
    }
}

/// Whether two tensors are quantized alike.
pub open spec fn alike(model: ParsedModel, a: u32, b: u32) -> bool {
    &&& measured(model, a)
    &&& measured(model, b)
    &&& scale(model, a) == scale(model, b)
    &&& zero(model, a) == zero(model, b)
}

/// The activation of a group is one that its operators have: the one in the
/// options of the anchor where nothing is absorbed, and otherwise the operator
/// that was absorbed last, or the options of an absorbed multiplication. Its
/// range is that of the real function on the output of the group.
pub proof fn law_group_activations_are_those_of_the_operators(model: ParsedModel, k: int)
    requires
        0 <= k < fusion::fused_groups(model).len(),
        group(model, k).activation is Some,
    ensures
        ({
            let g = group(model, k);
            let a = g.activation->0;
            let conv = model.ops@[g.anchor];
            &&& conv.builtin_code == 3 || conv.builtin_code == 4 || conv.builtin_code == 9
            &&& a.kind is HardSwish ==> g.absorbed.len() > 0
            &&& if g.absorbed.len() == 0 {
                fused_code(conv) == option_code(a.kind)
            } else {
                let last = model.ops@[g.absorbed[g.absorbed.len() - 1]];
                ||| last.builtin_code == operator_code(a.kind)
                ||| g.requantize is Some && last.builtin_code == 18 && !(a.kind is HardSwish)
                    && fused_code(last) == option_code(a.kind)
            }
            &&& measured(model, g.output) && accuracy::counts_to_six(scale(model, g.output))
                && -128 <= zero(model, g.output) <= 127 ==> accuracy::clamps(
                option_code(a.kind),
                scale(model, g.output),
                zero(model, g.output),
                a.quantized_min as int,
                a.quantized_max as int,
            )
        }),
{
    lemma_activation_group(model, k);
    let g = group(model, k);
    let a = g.activation->0;
    if measured(model, g.output) && accuracy::counts_to_six(scale(model, g.output)) && -128 <= zero(
        model,
        g.output,
    ) <= 127 {
        accuracy::law_clamp_range_is_that_of_the_activation(
            a.kind,
            scale(model, g.output),
            zero(model, g.output) as i64,
        );
    }
}

/// Where the activation of a group comes from.
proof fn lemma_activation_group(model: ParsedModel, k: int)
    requires
        0 <= k < fusion::fused_groups(model).len(),
        group(model, k).activation is Some,
    ensures
        ({
            let g = group(model, k);
            let a = g.activation->0;
            let conv = model.ops@[g.anchor];
            &&& 0 <= g.anchor < model.ops@.len()
            &&& fusion::convolves(conv.builtin_code)
            &&& a == fusion::epilogue(model, a.kind, g.output)
            &&& g.absorbed.len() == 0 ==> fusion::option_activation(conv) == Some(a.kind)
            &&& g.absorbed.len() > 0 ==> {
                let last = model.ops@[g.absorbed[g.absorbed.len() - 1]];
                ||| fusion::standalone_activation(last.builtin_code) == Some(a.kind)
                ||| g.requantize is Some && last.builtin_code == 18
                    && fusion::option_activation(last) == Some(a.kind)
            }
        }),
{
    lemma_groups(model, model.ops@.len(), k);
    reveal(fusion::conv_group);
    reveal(fusion::chain_group);
    reveal(fusion::pool_group);
    let i = group(model, k).anchor;
    let h = fusion::anchor_group(model, i);
    match fusion::residual_add(model, i) {
        Some((add, r)) => {
            lemma_with_activation(model, fusion::with_residual(model, h, add, r));
        },
        None => {
            lemma_with_activation(model, h);
            match fusion::sole_reader(model, h.output) {
                Some(mul) => match fusion::scale_fold(model, i, mul as int) {
                    Some(r) => {
                        lemma_with_activation(
                            model,
                            fusion::with_requantize(model, h, mul as int, r),
                        );
                    },
                    None => {},
                },
                None => {},
            }
        },
    }
}

/// An activation behind a group is the last that it absorbs.
proof fn lemma_with_activation(model: ParsedModel, g: GroupView)
    requires
        g.activation is None,
    ensures
        ({
            let h = fusion::with_activation(model, g);
            h.activation matches Some(a) ==> {
                &&& h.absorbed.len() > 0
                &&& fusion::standalone_activation(
                    model.ops@[h.absorbed[h.absorbed.len() - 1]].builtin_code,
                ) == Some(a.kind)
                &&& a == fusion::epilogue(model, a.kind, h.output)
            }
        }),
{
}

/// An activation in the options of a convolution is the activation of its group,
/// unless an addition is absorbed; nothing else is absorbed then.
pub proof fn law_fused_activations_are_kept(model: ParsedModel, k: int)
    requires
        anchored(model, k, 3) || anchored(model, k, 4) || anchored(model, k, 9),
        group(model, k).residual is None,
        ({
            let code = fused_code(model.ops@[group(model, k).anchor]);
            code == 1 || code == 3
        }),
    ensures
        ({
            let g = group(model, k);
            &&& g.activation is Some
            &&& option_code(g.activation->0.kind) == fused_code(model.ops@[g.anchor])
            &&& g.absorbed.len() == 0
        }),
{
    lemma_groups(model, model.ops@.len(), k);
    reveal(fusion::conv_group);
    let g = group(model, k);
    match fusion::residual_add(model, g.anchor) {
        Some((add, r)) => {
            let h = fusion::with_residual(model, fusion::anchor_group(model, g.anchor), add, r);
            assert(fusion::with_activation(model, h).residual is Some);
        },
        None => {},
    }
}

/// An activation operator is absorbed where it can be: it alone reads the result
/// of a convolution without an activation of its own, or of the addition that
/// the convolution has absorbed, and does not change scale or zero point.
pub proof fn law_activations_are_absorbed(
    model: ParsedModel,
    k: int,
    a: int,
    kind: FusedActivationKind,
)
    requires
        anchored(model, k, 3) || anchored(model, k, 4) || anchored(model, k, 9),
        0 <= a < model.ops@.len(),
        model.ops@[a].builtin_code == operator_code(kind),
        ({
            let g = group(model, k);
            let t = match g.residual {
                Some(r) => model.ops@[r.op_index as int].output(),
                None => model.ops@[g.anchor].output(),
            };
            let code = fused_code(model.ops@[g.anchor]);
            &&& g.residual is Some || (code != 1 && code != 3)
            &&& fusion::one_use(model, t)
            &&& model.ops@[a].inputs@.contains(t)
            &&& alike(model, t, model.ops@[a].output())
        }),
    ensures
        ({
            let g = group(model, k);
            &&& g.activation is Some
            &&& g.activation->0.kind == kind
            &&& g.absorbed.len() > 0
            &&& g.absorbed[g.absorbed.len() - 1] == a
            &&& g.output == model.ops@[a].output()
        }),
{
    lemma_groups(model, model.ops@.len(), k);
    reveal(fusion::conv_group);
    let g = group(model, k);
    let i = g.anchor;
    let h = fusion::anchor_group(model, i);
    match fusion::residual_add(model, i) {
        Some((add, r)) => {
            lemma_residual_operands(model, i);
            let t = model.ops@[add].output();
            lemma_absorbs(model, fusion::with_residual(model, h, add, r), add, a, kind);
        },
        None => {
            lemma_absorbs(model, h, i, a, kind);
        },
    }
}

proof fn lemma_absorbs(model: ParsedModel, g: GroupView, i: int, a: int, kind: FusedActivationKind)
    requires
        g.output == model.ops@[i].output(),
        0 <= a < model.ops@.len(),
        model.ops@[a].builtin_code == operator_code(kind),
        fusion::one_use(model, g.output),
        model.ops@[a].inputs@.contains(g.output),
        alike(model, g.output, model.ops@[a].output()),
    ensures
        ({
            let h = fusion::with_activation(model, g);
            &&& h.activation is Some
            &&& h.activation->0.kind == kind
            &&& h.absorbed == g.absorbed.push(a)
            &&& h.output == model.ops@[a].output()
            &&& h.residual == g.residual
            &&& h.anchor == g.anchor
        }),
        fusion::sole_reader(model, g.output) == Some(a as nat),
{
    lemma_reader_found(model, g.output, a);
}

/// The operator code of a step.
pub open spec fn step_code(kind: ElementwiseKind) -> i32 {
    match kind {
        ElementwiseKind::Add => 0,
        ElementwiseKind::Mul => 18,
        ElementwiseKind::Sub => 41,
        ElementwiseKind::Relu => 19,
        ElementwiseKind::Relu6 => 21,
        ElementwiseKind::HardSwish => 117,
    }
}

/// Every step of a chain is the operator that alone reads what the one before it
/// writes, with the operand that it reads besides, and computes on real numbers
/// what that operator computes.
pub proof fn law_chain_steps_are_operators(model: ParsedModel, k: int, m: int)
    requires
        0 <= k < fusion::fused_groups(model).len(),
        0 <= m < group(model, k).chain.len(),
    ensures
        ({
            let g = group(model, k);
            let step = g.chain[m];
            let op = model.ops@[step.op_index as int];
            let t = if m == 0 {
                model.ops@[g.anchor].output()
            } else {
                model.ops@[g.chain[m - 1].op_index as int].output()
            };
            let out = op.output();
            let code = model.ops@[g.anchor].builtin_code;
            &&& code == 0 || code == 18 || code == 41
            &&& step.op_index < model.ops@.len()
            &&& fusion::one_use(model, t)
            &&& op.inputs@.contains(t)
            &&& op.builtin_code == step_code(step.kind)
            &&& g.absorbed.len() == g.chain.len() && g.absorbed[m] == step.op_index
            &&& g.eliminated[m] == t
            &&& m == g.chain.len() - 1 ==> g.output == out
            &&& op.inputs@.len() == 2 && op.inputs@[0] == t && op.inputs@[1] != t
                ==> step.operand_tensor == op.inputs@[1]
            &&& op.inputs@.len() == 2 && op.inputs@[1] == t && op.inputs@[0] != t
                ==> step.operand_tensor == op.inputs@[0]
            &&& op.inputs@.len() == 1 ==> step.operand_tensor == NO_TENSOR
            &&& measured(model, out) ==> step.output_scale == scale(model, out)
                && step.output_zero_point == zero(model, out)
            &&& measured(model, t) && measured(model, out) ==> {
                let b = step.operand_tensor;
                &&& (step.kind is Add || step.kind is Sub) && measured(model, b) ==> is_sum(
                    step.requantize,
                    model,
                    t,
                    b,
                    out,
                )
                &&& step.kind is Mul && measured(model, b) ==> is_product(
                    step.requantize,
                    model,
                    t,
                    b,
                    out,
                )
                &&& step.kind is Relu || step.kind is Relu6 || step.kind is HardSwish ==> is_rescale(
                    step.requantize,
                    model,
                    t,
                    out,
                )
            }
        }),
{
    lemma_chain_group(model, k, m);
    let g = group(model, k);
    let step = g.chain[m];
    let t = if m == 0 {
        model.ops@[g.anchor].output()
    } else {
        model.ops@[g.chain[m - 1].op_index as int].output()
    };
    lemma_chain_operand(model, g.anchor, t);
    let out = model.ops@[step.op_index as int].output();
    if measured(model, t) && measured(model, out) {
        law_steps_compute_their_operation(model, t, step.operand_tensor, out, step.kind);
    }
}

/// A chain belongs to an elementwise anchor, and each of its steps is the next.
proof fn lemma_chain_group(model: ParsedModel, k: int, m: int)
    requires
        0 <= k < fusion::fused_groups(model).len(),
        0 <= m < group(model, k).chain.len(),
    ensures
        ({
            let g = group(model, k);
            let t = if m == 0 {
                model.ops@[g.anchor].output()
            } else {
                model.ops@[g.chain[m - 1].op_index as int].output()
            };
            &&& 0 <= g.anchor < model.ops@.len()
            &&& fusion::starts_chain(model.ops@[g.anchor].builtin_code)
            &&& fusion::chain_step(model, g.anchor, t) == Some(g.chain[m])
            &&& g.absorbed.len() == g.chain.len() && g.absorbed[m] == g.chain[m].op_index
            &&& g.eliminated[m] == t
            &&& m == g.chain.len() - 1 ==> g.output == model.ops@[g.chain[m].op_index as int].output()
        }),
{
    lemma_groups(model, model.ops@.len(), k);
    reveal(fusion::conv_group);
    reveal(fusion::chain_group);
    reveal(fusion::pool_group);
    let g = group(model, k);
    let first = model.ops@[g.anchor].output();
    crate::schedule::lemma_chain_steps(model, g.anchor, first, model.ops@.len(), m);
}

/// What a step reads.
proof fn lemma_chain_operand(model: ParsedModel, anchor: int, t: u32)
    requires
        fusion::chain_step(model, anchor, t) is Some,
    ensures
        ({
            let step = fusion::chain_step(model, anchor, t)->0;
            let op = model.ops@[step.op_index as int];
            let out = op.output();
            &&& step.op_index < model.ops@.len()
            &&& fusion::one_use(model, t)
            &&& op.inputs@.contains(t)
            &&& op.builtin_code == step_code(step.kind)
            &&& op.inputs@.len() == 2 && op.inputs@[0] == t && op.inputs@[1] != t
                ==> step.operand_tensor == op.inputs@[1]
            &&& op.inputs@.len() == 2 && op.inputs@[1] == t && op.inputs@[0] != t
                ==> step.operand_tensor == op.inputs@[0]
            &&& op.inputs@.len() == 1 ==> step.operand_tensor == NO_TENSOR
            &&& measured(model, out) ==> step.output_scale == scale(model, out)
                && step.output_zero_point == zero(model, out)
            &&& step.requantize == fusion::step_parameters(
                model,
                t,
                step.operand_tensor,
                out,
                step.kind,
            )
        }),
{
    crate::schedule::lemma_sole_reader(model, t);
    assert(model.ops@.len() == model.ops.len());
    let step = fusion::chain_step(model, anchor, t)->0;
    let inputs = model.ops@[step.op_index as int].inputs@;
    reveal_with_fuel(fusion::other_from, 3);
}

/// A chain goes on as far as it can: an elementwise operator or activation that
/// alone reads its result reads something else that does not exist when the
/// anchor runs.
pub proof fn law_chains_go_on(model: ParsedModel, k: int, n: int, kind: ElementwiseKind)
    requires
        crate::schedule::executable(model),
        anchored(model, k, 0) || anchored(model, k, 18) || anchored(model, k, 41),
        0 <= n < model.ops@.len(),
        model.ops@[n].builtin_code == step_code(kind),
        fusion::one_use(model, group(model, k).output),
        model.ops@[n].inputs@.contains(group(model, k).output),
    ensures
        exists|m: int|
            0 <= m < model.ops@[n].inputs@.len() && ({
                let t = #[trigger] model.ops@[n].inputs@[m];
                &&& t != group(model, k).output
                &&& !model.is_constant(t as int)
                &&& !model.inputs@.contains(t)
                &&& forall|p: int|
                    0 <= p < group(model, k).anchor ==> !(#[trigger] model.ops@[p]).outputs@.contains(
                        t,
                    )
            }),
{
    lemma_groups(model, model.ops@.len(), k);
    let g = group(model, k);
    let i = g.anchor;
    let t = g.output;
    reveal(fusion::chain_group);
    crate::schedule::law_chains_are_maximal(model, i);
    lemma_reader_found(model, t, n);
    let inputs = model.ops@[n].inputs@;
    assert(!fusion::operands_exist(model, inputs, t, i));
    let m = choose|m: int|
        0 <= m < inputs.len() && !(inputs[m] == t || #[trigger] fusion::exists_before(
            model,
            inputs[m],
            i,
        ));
    assert forall|p: int| 0 <= p < i implies !(#[trigger] model.ops@[p]).outputs@.contains(
        inputs[m],
    ) by {
        if model.ops@[p].outputs@.contains(inputs[m]) {
            crate::schedule::lemma_writer_found(model.ops@, inputs[m], 0, p as nat);
        }
    }
    assert(model.ops@[n].inputs@[m] == inputs[m]);
}

/// Whether an operator reads a tensor at a position of its inputs.
pub open spec fn reads_at(model: ParsedModel, t: u32, i: int, j: int) -> bool {
    &&& 0 <= i < model.ops@.len()
    &&& 0 <= j < model.ops@[i].inputs@.len()
    &&& model.ops@[i].inputs@[j] == t
}

/// A tensor has one use exactly where it exists, is neither input nor output of
/// the model, and one operator reads it at one position.
pub proof fn law_one_use_is_one_reader(model: ParsedModel, t: u32)
    ensures
        fusion::one_use(model, t) <==> {
            &&& t != NO_TENSOR
            &&& t < model.tensors@.len()
            &&& !model.inputs@.contains(t)
            &&& !model.outputs@.contains(t)
            &&& exists|i: int, j: int| #[trigger] reads_at(model, t, i, j)
            &&& forall|i: int, j: int, x: int, y: int| #[trigger]
                reads_at(model, t, i, j) && #[trigger] reads_at(model, t, x, y) ==> i == x && j == y
        },
{
    lemma_uses(model, t, model.ops@.len());
    let n = model.ops@.len() as int;
    assert(model.ops@.take(n) =~= model.ops@);
    if fusion::uses(model.ops@, t) == 1 {
        let (i, j) = choose|i: int, j: int| i < n && #[trigger] reads_at(model, t, i, j);
        assert(reads_at(model, t, i, j));
    }
}

/// How the readers of a tensor are counted.
proof fn lemma_uses(model: ParsedModel, t: u32, n: nat)
    requires
        n <= model.ops@.len(),
    ensures
        ({
            let count = fusion::uses(model.ops@.take(n as int), t);
            &&& count == 0 <==> forall|i: int, j: int| i < n ==> !#[trigger] reads_at(model, t, i, j)
            &&& count == 1 <==> {
                &&& exists|i: int, j: int| i < n && #[trigger] reads_at(model, t, i, j)
                &&& forall|i: int, j: int, x: int, y: int|
                    i < n && x < n && #[trigger] reads_at(model, t, i, j) && #[trigger] reads_at(
                        model,
                        t,
                        x,
                        y,
                    ) ==> i == x && j == y
            }
        }),
    decreases n,
{
    if n > 0 {
        let i = n - 1;
        let before = fusion::uses(model.ops@.take(i), t);
        let list = model.ops@[i].inputs@;
        lemma_uses(model, t, i as nat);
        assert(model.ops@.take(n as int).drop_last() =~= model.ops@.take(i));
        assert(model.ops@.take(n as int).last() == model.ops@[i]);
        lemma_occurrences(list, t);
        let here = fusion::occurrences(list, t);
        assert(fusion::uses(model.ops@.take(n as int), t) == before + here);
        if before + here == 0 {
            assert forall|x: int, y: int| x < n implies !#[trigger] reads_at(model, t, x, y) by {
                if x == i && reads_at(model, t, x, y) {
                    assert(list[y] == t);
                }
            }
        }
        if forall|x: int, y: int| x < n ==> !#[trigger] reads_at(model, t, x, y) {
            assert forall|y: int| 0 <= y < list.len() implies list[y] != t by {
                assert(!reads_at(model, t, i, y));
            }
        }
        if before == 0 && here == 1 {
            let j = choose|j: int| 0 <= j < list.len() && list[j] == t;
            assert(reads_at(model, t, i, j));
            assert forall|x: int, y: int, v: int, w: int|
                x < n && v < n && #[trigger] reads_at(model, t, x, y) && #[trigger] reads_at(
                    model,
                    t,
                    v,
                    w,
                ) implies x == v && y == w by {
                assert(x == i && v == i);
                assert(list[y] == t && list[w] == t);
            }
        }
        if before == 1 && here == 0 {
            let (x, y) = choose|x: int, y: int| x < i && #[trigger] reads_at(model, t, x, y);
            assert(x < n && reads_at(model, t, x, y));
            assert forall|x: int, y: int, v: int, w: int|
                x < n && v < n && #[trigger] reads_at(model, t, x, y) && #[trigger] reads_at(
                    model,
                    t,
                    v,
                    w,
                ) implies x == v && y == w by {
                if x == i {
                    assert(list[y] == t);
                }
                if v == i {
                    assert(list[w] == t);
                }
            }
        }
        let once = (exists|x: int, y: int| x < n && #[trigger] reads_at(model, t, x, y))
            && forall|x: int, y: int, v: int, w: int|
            x < n && v < n && #[trigger] reads_at(model, t, x, y) && #[trigger] reads_at(
                model,
                t,
                v,
                w,
            ) ==> x == v && y == w;
        if once {
            let (x, y) = choose|x: int, y: int| x < n && #[trigger] reads_at(model, t, x, y);
            if x == i {
                assert(before == 0) by {
                    assert forall|v: int, w: int| v < i implies !#[trigger] reads_at(
                        model,
                        t,
                        v,
                        w,
                    ) by {}
                }
                assert(list[y] == t);
                assert forall|v: int, w: int|
                    0 <= v < list.len() && 0 <= w < list.len() && list[v] == t && list[w]
                        == t implies v == w by {
                    assert(reads_at(model, t, i, v));
                    assert(reads_at(model, t, i, w));
                }
                assert(here == 1);
            } else {
                assert(x < i && reads_at(model, t, x, y));
                assert(before == 1);
                assert forall|w: int| 0 <= w < list.len() implies list[w] != t by {
                    if list[w] == t {
                        assert(reads_at(model, t, i, w));
                    }
                }
                assert(here == 0);
            }
        }
    }
}

/// How the places of an index in a list are counted.
proof fn lemma_occurrences(list: Seq<u32>, t: u32)
    ensures
        ({
            let count = fusion::occurrences(list, t);
            &&& count == 0 <==> forall|y: int| 0 <= y < list.len() ==> list[y] != t
            &&& count == 1 <==> {
                &&& exists|y: int| 0 <= y < list.len() && list[y] == t
                &&& forall|v: int, w: int|
                    0 <= v < list.len() && 0 <= w < list.len() && list[v] == t && list[w] == t ==> v
                        == w
            }
        }),
    decreases list.len(),
{
    if list.len() > 0 {
        let rest = list.drop_last();
        let n = rest.len() as int;
        lemma_occurrences(rest, t);
        let before = fusion::occurrences(rest, t);
        assert(forall|y: int| 0 <= y < n ==> rest[y] == list[y]);
        if list.last() == t {
            assert(list[n] == t);
            if before == 0 {
                assert forall|v: int, w: int|
                    0 <= v < list.len() && 0 <= w < list.len() && list[v] == t && list[w]
                        == t implies v == w by {
                    if v < n {
                        assert(rest[v] == t);
                    }
                    if w < n {
                        assert(rest[w] == t);
                    }
                }
            } else {
                let v = choose|v: int| 0 <= v < n && rest[v] == t;
                assert(list[v] == t && v != n);
            }
        } else {
            if before == 0 {
                assert forall|y: int| 0 <= y < list.len() implies list[y] != t by {
                    if y < n {
                        assert(rest[y] != t);
                    }
                }
            } else {
                let v = choose|v: int| 0 <= v < n && rest[v] == t;
                assert(list[v] == t);
                if before == 1 {
                    assert forall|v: int, w: int|
                        0 <= v < list.len() && 0 <= w < list.len() && list[v] == t && list[w]
                            == t implies v == w by {
                        assert(rest[v] == t && rest[w] == t);
                    }
                } else {
                    let (a, b) = choose|a: int, b: int|
                        0 <= a < n && 0 <= b < n && rest[a] == t && rest[b] == t && a != b;
                    assert(list[a] == t && list[b] == t);
                }
            }
        }
    }
}

/// A folded input is the multiplication or subtraction in front of a pool or
/// softmax: only the pool reads its result, and the group reads its first input
/// instead. A multiplication is folded as output scale over input scale, a
/// subtraction as the real number that it subtracts.
pub proof fn law_folded_inputs_are_operators(model: ParsedModel, k: int)
    requires
        0 <= k < fusion::fused_groups(model).len(),
        group(model, k).fold is Some,
    ensures
        ({
            let g = group(model, k);
            let f = g.fold->0;
            let pool = model.ops@[g.anchor];
            let op = model.ops@[f.op_index as int];
            &&& pool.builtin_code == 1 || pool.builtin_code == 17 || pool.builtin_code == 25
            &&& op.builtin_code == 18 || op.builtin_code == 41
            &&& f.builtin == op.builtin_code
            &&& f.op_index < model.ops@.len()
            &&& pool.inputs@.len() > 0
            &&& op.outputs@.contains(pool.inputs@[0])
            &&& fusion::one_use(model, op.output())
            &&& op.inputs@.len() > 0
            &&& f.folded_input_tensor == op.inputs@[0]
            &&& g.inputs.len() > 0 && g.inputs[0] == op.inputs@[0]
            &&& f.operand_tensor == if op.inputs@.len() > 1 {
                op.inputs@[1]
            } else {
                NO_TENSOR
            }
            &&& g.absorbed == seq![f.op_index as int]
            &&& g.eliminated == seq![pool.inputs@[0]]
            &&& measured(model, op.inputs@[0]) ==> f.input_zero_point == zero(
                model,
                op.inputs@[0],
            )
        }),
{
    lemma_fold_group(model, k);
    lemma_groups(model, model.ops@.len(), k);
    let f = group(model, k).fold->0;
    crate::schedule::lemma_sole_reader(model, model.ops@[f.op_index as int].output());
}

/// A fold belongs to a pool or softmax.
proof fn lemma_fold_group(model: ParsedModel, k: int)
    requires
        0 <= k < fusion::fused_groups(model).len(),
        group(model, k).fold is Some,
    ensures
        ({
            let g = group(model, k);
            let f = g.fold->0;
            let pool = model.ops@[g.anchor];
            &&& 0 <= g.anchor < model.ops@.len()
            &&& fusion::pools_or_softmax(pool.builtin_code)
            &&& f.op_index < model.ops@.len()
            &&& fusion::input_fold(model, f.op_index as int) == Some(f)
            &&& pool.inputs@.len() > 0
            &&& model.ops@[f.op_index as int].outputs@.contains(pool.inputs@[0])
            &&& g.inputs == pool.inputs@.update(0, f.folded_input_tensor)
            &&& g.absorbed == seq![f.op_index as int]
            &&& g.eliminated == seq![pool.inputs@[0]]
        }),
{
    lemma_groups(model, model.ops@.len(), k);
    reveal(fusion::conv_group);
    reveal(fusion::chain_group);
    reveal(fusion::pool_group);
    let g = group(model, k);
    fusion::lemma_writer_in_range(model.ops@, model.ops@[g.anchor].input(), 0);
    assert(model.ops@.len() == model.ops.len());
}

/// The factor of a folded multiplication is output scale over input scale.
pub proof fn law_folded_factors_are_quotients(model: ParsedModel, i: int)
    requires
        0 <= i < model.ops@.len(),
        model.ops@[i].builtin_code == 18,
        fusion::input_fold(model, i) is Some,
        model.ops@[i].inputs@.len() > 0,
        model.ops@[i].outputs@.len() > 0,
        measured(model, model.ops@[i].inputs@[0]),
        measured(model, model.ops@[i].outputs@[0]),
        ({
            let si = scale(model, model.ops@[i].inputs@[0]);
            let so = scale(model, model.ops@[i].outputs@[0]);
            accuracy::is_normal(
                accuracy::mantissa(so),
                accuracy::mantissa(si),
                accuracy::exponent(so) - accuracy::exponent(si),
            )
        }),
    ensures
        ({
            let si = scale(model, model.ops@[i].inputs@[0]);
            let so = scale(model, model.ops@[i].outputs@[0]);
            accuracy::is_near(
                fusion::input_fold(model, i)->0.folded_scale,
                accuracy::mantissa(so),
                accuracy::mantissa(si),
                accuracy::exponent(so) - accuracy::exponent(si),
            )
        }),
{
    let si = scale(model, model.ops@[i].inputs@[0]);
    let so = scale(model, model.ops@[i].outputs@[0]);
    accuracy::lemma_valid_scale(si);
    accuracy::lemma_valid_scale(so);
    accuracy::law_short_quotients_are_near(
        accuracy::mantissa(so),
        accuracy::mantissa(si),
        accuracy::exponent(so) - accuracy::exponent(si),
    );
}

/// The constant of a folded subtraction is the real number that its operand
/// stands for: scale times the distance of the first byte from the zero point.
pub proof fn law_folded_constants_are_real_numbers(model: ParsedModel, i: int)
    requires
        0 <= i < model.ops@.len(),
        model.ops@[i].builtin_code == 41,
        fusion::input_fold(model, i) is Some,
        model.ops@[i].inputs@.len() > 1,
        measured(model, model.ops@[i].inputs@[1]),
        -0x40_0000 <= zero(model, model.ops@[i].inputs@[1]) <= 0x40_0000,
    ensures
        ({
            let t = model.ops@[i].inputs@[1];
            let bytes = model.data(model.tensors@[t as int])->0;
            let q = if bytes[0] < 128 {
                bytes[0] as int
            } else {
                bytes[0] - 256
            };
            let distance = q - zero(model, t);
            let size = if distance < 0 {
                -distance
            } else {
                distance
            } as nat;
            let s = scale(model, t);
            let c = fusion::input_fold(model, i)->0.folded_scale;
            let n = accuracy::mantissa(s) * size;
            &&& model.data(model.tensors@[t as int]) is Some
            &&& distance == 0 ==> c == 0
            &&& distance > 0 && accuracy::is_normal(n, 1, accuracy::exponent(s))
                ==> accuracy::is_near(c, n, 1, accuracy::exponent(s))
            &&& distance < 0 && accuracy::is_normal(n, 1, accuracy::exponent(s)) ==> c
                >= 0x8000_0000 && accuracy::is_near(
                (c - 0x8000_0000) as u32,
                n,
                1,
                accuracy::exponent(s),
            )
        }),
{
    let t = model.ops@[i].inputs@[1];
    let s = scale(model, t);
    accuracy::lemma_valid_scale(s);
    let bytes = model.data(model.tensors@[t as int])->0;
    let q = crate::bytes::signed_byte(bytes[0]);
    let z = zero(model, t);
    let distance = q - z;
    let size = if distance < 0 {
        -distance
    } else {
        distance
    } as nat;
    accuracy::lemma_small_integer(z);
    accuracy::lemma_small_integer(distance);
    let m = accuracy::mantissa(s);
    let n = m * size;
    assert(0 <= n < 0x1_0000_0000_0000 && (size > 0 ==> n > 0)) by (nonlinear_arith)
        requires
            n == m * size,
            0 < m < 0x100_0000,
            0 <= size < 0x100_0000,
    ;
    let c = fusion::input_fold(model, i)->0.folded_scale;
    assert(c == fusion::real_constant(s, q, z as i64));
    let e = accuracy::exponent(s);
    let factor = crate::ieee::rounded_integer(distance, 24);
    let product = crate::ieee::product(crate::ieee::denoted32(s), factor);
    assert(product == (crate::ieee::Number::Finite {
        negative: distance < 0,
        mantissa: n as u64,
        exponent: e as i32,
    }));
    let magnitude = crate::ieee::magnitude_bits(n, 1, e, 24, -149, 0x7f80_0000);
    assert(crate::ieee::quotient_magnitude(
        product,
        crate::ieee::one(),
        24,
        -149,
        0x7f80_0000,
        0x7fc0_0000,
    ) == magnitude);
    assert(size == 0 ==> n == 0) by (nonlinear_arith)
        requires
            n == m * size,
    ;
    if n > 0 && accuracy::is_normal(n, 1, e) {
        accuracy::law_short_quotients_are_near(n, 1, e);
        if distance < 0 {
            assert(c == magnitude + 0x8000_0000);
            assert((c - 0x8000_0000) as u32 == magnitude as u32);
        } else {
            assert(c == magnitude);
        }
    }
}

/// A multiplication or subtraction is folded where it can be: it computes the
/// first input of a pool or softmax, nothing else reads its result, no earlier
/// group has absorbed it, and its scales, or its constant operand, are known.
pub proof fn law_inputs_are_folded(model: ParsedModel, k: int, p: int)
    requires
        crate::schedule::executable(model),
        anchored(model, k, 1) || anchored(model, k, 17) || anchored(model, k, 25),
        0 <= p < model.ops@.len(),
        forall|j: int| 0 <= j < k ==> !(#[trigger] group(model, j)).absorbed.contains(p),
        ({
            let pool = model.ops@[group(model, k).anchor];
            let op = model.ops@[p];
            let t = op.outputs@[0];
            &&& pool.inputs@.len() > 0
            &&& op.outputs@.len() == 1
            &&& pool.inputs@[0] == t
            &&& fusion::one_use(model, t)
            &&& op.inputs@.len() == 2
            &&& op.inputs@[0] != NO_TENSOR
            &&& if op.builtin_code == 18 {
                measured(model, t) && measured(model, op.inputs@[0])
            } else {
                op.builtin_code == 41 && measured(model, op.inputs@[1]) && model.is_constant(
                    op.inputs@[1] as int,
                )
            }
        }),
    ensures
        group(model, k).fold is Some,
        group(model, k).fold->0.op_index == p,
{
    lemma_groups(model, model.ops@.len(), k);
    reveal(fusion::pool_group);
    let g = group(model, k);
    let i = g.anchor;
    let t = model.ops@[p].outputs@[0];
    assert(model.ops@[p].outputs@.contains(t));
    assert(model.ops@[i].inputs@.contains(t));
    crate::schedule::lemma_writer_found(model.ops@, t, 0, p as nat);
    fusion::lemma_writer_in_range(model.ops@, t, 0);
    lemma_reader_found(model, t, i);
    assert(fusion::writer(model, t) == Some(p as nat));
    assert(model.ops@.len() == model.ops.len());
    let consumed = fusion::absorbed_by(fusion::groups_upto(model, i as nat));
    if consumed.contains(p) {
        let before = fusion::groups_upto(model, i as nat);
        let j = choose|j: int|
            0 <= j < before.len() && #[trigger] before[j].absorbed.contains(p);
        lemma_prefix(model, i as nat, model.ops@.len());
        lemma_groups(model, i as nat, j);
        if k < before.len() {
            lemma_groups(model, i as nat, k);
        }
        assert(group(model, j) == before[j]);
    }
}

/// The groups of the first operators come first.
proof fn lemma_prefix(model: ParsedModel, n: nat, m: nat)
    requires
        n <= m,
    ensures
        ({
            let a = fusion::groups_upto(model, n);
            let b = fusion::groups_upto(model, m);
            a.len() <= b.len() && forall|j: int| 0 <= j < a.len() ==> a[j] == #[trigger] b[j]
        }),
    decreases m - n,
{
    if n < m {
        lemma_prefix(model, n, (m - 1) as nat);
    }
}

/// A scale change that a group has absorbed is none: a multiplication by ones,
/// whose scale is one and whose zero point is zero, from a scale to the same.
pub proof fn law_absorbed_scale_changes_change_nothing(model: ParsedModel, k: int)
    requires
        0 <= k < fusion::fused_groups(model).len(),
        group(model, k).requantize is Some,
    ensures
        ({
            let g = group(model, k);
            let r = g.requantize->0;
            let conv = model.ops@[g.anchor];
            let mul = model.ops@[r.op_index];
            let t = conv.output();
            let one = model.tensors@[mul.inputs@[1] as int];
            &&& conv.builtin_code == 3 || conv.builtin_code == 4 || conv.builtin_code == 9
            &&& 0 <= r.op_index < model.ops@.len()
            &&& mul.builtin_code == 18
            &&& fusion::one_use(model, t)
            &&& mul.inputs@.contains(t)
            &&& mul.inputs@.len() >= 2
            &&& mul.inputs@[1] < model.tensors@.len()
            &&& one.quant is Some
            &&& accuracy::is_one_to_a_millionth(calls::scale(one))
            &&& calls::zero(one) == 0
            &&& model.data(one) is Some
            &&& forall|b: int|
                0 <= b < model.data(one)->0.len() ==> #[trigger] model.data(one)->0[b] == 1
            &&& mul.inputs@[0] < model.tensors@.len()
            &&& zero(model, mul.inputs@[0]) == 0
            &&& measured(model, mul.inputs@[0]) && measured(model, mul.output()) ==> scale(
                model,
                mul.inputs@[0],
            ) == scale(model, mul.output())
            &&& measured(model, mul.output()) ==> r.output_scale == scale(model, mul.output())
                && r.output_zero_point == zero(model, mul.output())
            &&& g.absorbed.len() >= 1 && g.absorbed[0] == r.op_index
            &&& g.eliminated[0] == t
            &&& g.residual is None
        }),
{
    lemma_requantize_group(model, k);
    let g = group(model, k);
    let r = g.requantize->0;
    let mul = model.ops@[r.op_index];
    crate::schedule::lemma_sole_reader(model, model.ops@[g.anchor].output());
    let s = fusion::scale(model, mul.inputs@[1])->0;
    accuracy::law_unit_patterns(s);
    assert(fusion::all_ones(model.data(model.tensors@[mul.inputs@[1] as int])->0));
}

/// A scale change belongs to a convolution.
proof fn lemma_requantize_group(model: ParsedModel, k: int)
    requires
        0 <= k < fusion::fused_groups(model).len(),
        group(model, k).requantize is Some,
    ensures
        ({
            let g = group(model, k);
            let r = g.requantize->0;
            let t = model.ops@[g.anchor].output();
            &&& 0 <= g.anchor < model.ops@.len()
            &&& fusion::convolves(model.ops@[g.anchor].builtin_code)
            &&& r.op_index >= 0
            &&& fusion::sole_reader(model, t) == Some(r.op_index as nat)
            &&& fusion::scale_fold(model, g.anchor, r.op_index) == Some(r)
            &&& g.absorbed.len() >= 1 && g.absorbed[0] == r.op_index
            &&& g.eliminated.len() >= 1 && g.eliminated[0] == t
            &&& g.residual is None
        }),
{
    lemma_groups(model, model.ops@.len(), k);
    reveal(fusion::conv_group);
    reveal(fusion::chain_group);
    reveal(fusion::pool_group);
}

/// A multiplication by one is absorbed where it can be: it alone reads the result
/// of a convolution without an activation, as its first input, multiplies by
/// constant ones of scale one and zero point zero, and keeps the scale; the
/// scales of the convolution are known.
#[verifier::spinoff_prover]
pub proof fn law_scale_changes_are_absorbed(model: ParsedModel, k: int, mul: int)
    requires
        anchored(model, k, 3) || anchored(model, k, 4) || anchored(model, k, 9),
        0 <= mul < model.ops@.len(),
        ({
            let conv = model.ops@[group(model, k).anchor];
            let m = model.ops@[mul];
            let t = conv.output();
            let one = model.tensors@[m.inputs@[1] as int];
            let code = fused_code(conv);
            &&& code != 1 && code != 3
            &&& m.builtin_code == 18
            &&& m.inputs@.len() == 2
            &&& m.inputs@[0] == t
            &&& fusion::one_use(model, t)
            &&& measured(model, t) && zero(model, t) == 0
            &&& measured(model, m.inputs@[1]) && zero(model, m.inputs@[1]) == 0
            &&& accuracy::is_one_to_a_millionth(scale(model, m.inputs@[1]))
            &&& model.data(one) is Some
            &&& forall|b: int|
                0 <= b < model.data(one)->0.len() ==> #[trigger] model.data(one)->0[b] == 1
            &&& measured(model, m.output()) && scale(model, m.output()) == scale(model, t)
            &&& conv.inputs@.len() >= 2
            &&& measured(model, conv.inputs@[0])
            &&& measured(model, conv.inputs@[1])
        }),
    ensures
        group(model, k).requantize is Some,
        group(model, k).requantize->0.op_index == mul,
{
    lemma_groups(model, model.ops@.len(), k);
    reveal(fusion::conv_group);
    let g = group(model, k);
    let i = g.anchor;
    let t = model.ops@[i].output();
    let m = model.ops@[mul];
    lemma_reader_found(model, t, mul);
    accuracy::law_unit_patterns(scale(model, m.inputs@[1]));
    let bytes = model.data(model.tensors@[m.inputs@[1] as int])->0;
    assert(fusion::all_ones(bytes));
    assert(fusion::scale_fold(model, i, mul) is Some);
    assert(fusion::residual_add(model, i) is None);
    let r = fusion::scale_fold(model, i, mul)->0;
    let h = fusion::with_requantize(model, fusion::anchor_group(model, i), mul, r);
    assert(fusion::with_activation(model, h).requantize == Some(r));
}

/// A convolution that has absorbed a scale change has a factor for each channel
/// of its weights, or the one of all: the product of input and weight scale over
/// that of the output, to twenty-two bits.
pub proof fn law_absorbed_scale_changes_keep_the_factors(model: ParsedModel, k: int, c: int)
    requires
        0 <= k < fusion::fused_groups(model).len(),
        group(model, k).requantize is Some,
    ensures
        ({
            let g = group(model, k);
            let r = g.requantize->0;
            let conv = model.ops@[g.anchor];
            let mul = model.ops@[r.op_index];
            let weights = model.tensors@[conv.inputs@[1] as int];
            let channels = r.multipliers.len();
            let w = calls::channel_scale(weights, channels, c);
            let n = accuracy::mantissa(scale(model, conv.inputs@[0])) * accuracy::mantissa(w);
            let e = accuracy::exponent(scale(model, conv.inputs@[0])) + accuracy::exponent(w);
            let out = scale(model, mul.output());
            &&& conv.inputs@.len() >= 2
            &&& conv.inputs@[1] < model.tensors@.len()
            &&& weights.quant is Some
            &&& match weights.quant->0.per_channel {
                Some(pc) => channels == pc.scales@.len(),
                None => channels == 1,
            }
            &&& 0 <= c < channels && measured(model, conv.inputs@[0]) && measured(
                model,
                mul.output(),
            ) && 0 < w < 0x7f80_0000 && accuracy::is_normal(n, 1, e) && accuracy::is_moderate(
                n,
                accuracy::mantissa(out),
                e - accuracy::exponent(out),
            ) ==> accuracy::stands_roughly_for(
                r.multipliers[c],
                n,
                accuracy::mantissa(out),
                e - accuracy::exponent(out),
            )
        }),
{
    lemma_requantize_group(model, k);
    let g = group(model, k);
    let r = g.requantize->0;
    let conv = model.ops@[g.anchor];
    let mul = model.ops@[r.op_index];
    let weights = model.tensors@[conv.inputs@[1] as int];
    let scales = fusion::channel_scales(model, conv.inputs@[1])->0;
    assert(r.multipliers.len() == scales.len());
    let w = calls::channel_scale(weights, r.multipliers.len(), c);
    let s_in = scale(model, conv.inputs@[0]);
    let out = scale(model, mul.output());
    let n = accuracy::mantissa(s_in) * accuracy::mantissa(w);
    let e = accuracy::exponent(s_in) + accuracy::exponent(w);
    if 0 <= c < r.multipliers.len() && measured(model, conv.inputs@[0]) && measured(
        model,
        mul.output(),
    ) && 0 < w < 0x7f80_0000 && accuracy::is_normal(n, 1, e) && accuracy::is_moderate(
        n,
        accuracy::mantissa(out),
        e - accuracy::exponent(out),
    ) {
        assert(scales[c] == w);
        assert(r.multipliers[c] == fusion::short_product_ratio(s_in, w, out));
        accuracy::law_short_product_is_the_quotient(s_in, w, out);
    }
}

/// An activation that a convolution has absorbed is a clamp: its operator leaves
/// scale and zero point as they are.
pub proof fn law_absorbed_activations_change_no_quantization(model: ParsedModel, k: int, m: int)
    requires
        0 <= k < fusion::fused_groups(model).len(),
        group(model, k).builtin == 3 || group(model, k).builtin == 4 || group(model, k).builtin
            == 9,
        0 <= m < group(model, k).absorbed.len(),
        ({
            let code = model.ops@[group(model, k).absorbed[m]].builtin_code;
            code == 19 || code == 21 || code == 117
        }),
    ensures
        ({
            let g = group(model, k);
            let before = g.eliminated[m];
            let behind = model.ops@[g.absorbed[m]].output();
            &&& before < model.tensors@.len() && behind < model.tensors@.len()
            &&& model.tensors@[before as int].quant is Some
            &&& model.tensors@[behind as int].quant is Some
            &&& zero(model, before) == zero(model, behind)
            &&& measured(model, before) && measured(model, behind) ==> scale(model, before) == scale(
                model,
                behind,
            )
        }),
{
    lemma_groups(model, model.ops@.len(), k);
    reveal(fusion::conv_group);
    reveal(fusion::chain_group);
    reveal(fusion::pool_group);
    let g = group(model, k);
    let i = g.anchor;
    let h = fusion::anchor_group(model, i);
    match fusion::residual_add(model, i) {
        Some((add, r)) => {
            lemma_clamps_alike(model, fusion::with_residual(model, h, add, r), m);
        },
        None => {
            lemma_clamps_alike(model, h, m);
            match fusion::sole_reader(model, h.output) {
                Some(mul) => match fusion::scale_fold(model, i, mul as int) {
                    Some(r) => {
                        lemma_clamps_alike(
                            model,
                            fusion::with_requantize(model, h, mul as int, r),
                            m,
                        );
                    },
                    None => {},
                },
                None => {},
            }
        },
    }
}

/// What a group absorbs as its activation leaves scale and zero point.
proof fn lemma_clamps_alike(model: ParsedModel, g: GroupView, m: int)
    requires
        g.absorbed.len() == g.eliminated.len(),
    ensures
        ({
            let h = fusion::with_activation(model, g);
            &&& 0 <= m < g.absorbed.len() ==> h.absorbed[m] == g.absorbed[m]
            &&& g.absorbed.len() <= m < h.absorbed.len() ==> fusion::same_quantization(
                model,
                model.ops@[h.absorbed[m]].output(),
                h.eliminated[m],
            )
        }),
{
}

/// Uses are counted entry by entry: each operator adds the times that it names a
/// tensor among its inputs.
pub proof fn law_uses_add_up(ops: Seq<ParsedOp>, op: ParsedOp, list: Seq<u32>, x: u32, t: u32)
    ensures
        fusion::uses(Seq::empty(), t) == 0,
        fusion::uses(ops.push(op), t) == fusion::uses(ops, t) + fusion::occurrences(op.inputs@, t),
        fusion::occurrences(Seq::empty(), t) == 0,
        x == t ==> fusion::occurrences(list.push(x), t) == fusion::occurrences(list, t) + 1,
        x != t ==> fusion::occurrences(list.push(x), t) == fusion::occurrences(list, t),
{
    assert(ops.push(op).drop_last() =~= ops);
    assert(list.push(x).drop_last() =~= list);
}

/// The operator that writes a tensor, and the one that reads it, is the first
/// that does, and it is found where there is one.
pub proof fn law_writers_and_readers_are_the_first(ops: Seq<ParsedOp>, t: u32, i: nat, j: nat)
    requires
        i <= j < ops.len(),
    ensures
        ops[j as int].outputs@.contains(t) ==> (fusion::writer_from(ops, t, i) matches Some(p) && i
            <= p <= j && ops[p as int].outputs@.contains(t)),
        ops[j as int].inputs@.contains(t) ==> (fusion::reader_from(ops, t, i) matches Some(p) && i
            <= p <= j && ops[p as int].inputs@.contains(t)),
    decreases j - i,
{
    if i < j {
        law_writers_and_readers_are_the_first(ops, t, i + 1, j);
    }
}

/// A tensor exists before an operator exactly where it is constant, an input of
/// the model, or written by an earlier operator.
pub proof fn law_tensors_exist_once_written(model: ParsedModel, t: u32, at: int)
    requires
        0 <= at <= model.ops@.len(),
    ensures
        fusion::exists_before(model, t, at) <==> {
            ||| model.is_constant(t as int)
            ||| model.inputs@.contains(t)
            ||| exists|p: int| 0 <= p < at && (#[trigger] model.ops@[p]).outputs@.contains(t)
        },
{
    if exists|p: int| 0 <= p < at && (#[trigger] model.ops@[p]).outputs@.contains(t) {
        let p = choose|p: int| 0 <= p < at && (#[trigger] model.ops@[p]).outputs@.contains(t);
        law_writers_and_readers_are_the_first(model.ops@, t, 0, p as nat);
    }
    if fusion::writer(model, t) is Some {
        fusion::lemma_writer_in_range(model.ops@, t, 0);
        let p = fusion::writer(model, t)->0 as int;
        assert(model.ops@[p].outputs@.contains(t));
    }
}

/// The activation in options is their field for it, and options without one have
/// none.
pub proof fn law_options_tell_their_activation(o: ParsedOptions)
    ensures
        fusion::activation_code(None) is None,
        o matches ParsedOptions::Conv2D { fused_activation, .. } ==> fusion::activation_code(Some(o))
            == Some(fused_activation),
        o matches ParsedOptions::DepthwiseConv2D { fused_activation, .. }
            ==> fusion::activation_code(Some(o)) == Some(fused_activation),
        o matches ParsedOptions::FullyConnected { fused_activation, .. }
            ==> fusion::activation_code(Some(o)) == Some(fused_activation),
        o matches ParsedOptions::Pool2D { fused_activation, .. } ==> fusion::activation_code(Some(o))
            == Some(fused_activation),
        o matches ParsedOptions::Add { fused_activation, .. } ==> fusion::activation_code(Some(o))
            == Some(fused_activation),
        o matches ParsedOptions::Sub { fused_activation, .. } ==> fusion::activation_code(Some(o))
            == Some(fused_activation),
        o matches ParsedOptions::Mul { fused_activation } ==> fusion::activation_code(Some(o))
            == Some(fused_activation),
        o is Softmax || o is Reshape || o is LeakyRelu || o is Prelu || o is ResizeNearest
            || o is Mean || o is Custom ==> fusion::activation_code(Some(o)) is None,
{
}

} // verus!
