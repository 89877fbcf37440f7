//! What holds of the gates of the vector kernels and of the estimates that are
//! made with them, in terms of the graph.

use crate::calls;
use crate::eligibility;
use crate::eligibility::StepView;
use crate::fusion::{AbsorbedElementwise, GroupView};
use crate::int8;
use crate::model::{ParsedModel, ParsedOp, ParsedOptions, ParsedTensor};
use crate::op_params::{ElementwiseChainStep, ElementwiseKind, ElementwiseParams, FusedActivation};
use crate::op_params::{Padding, PoolInputFold, PoolParams};
use crate::selector;
use crate::selector::{ComposedKind, Evidence, GroupSelection, SimdEst};
use vstd::arithmetic::power2::pow2;
use vstd::prelude::*;

verus! {

/// What a value becomes by a pair, in a word.
pub open spec fn by_pair(value: int, multiplier: i32, shift: i32) -> int {
    int8::clamp_int(
        int8::scaled(value, multiplier as int, shift as int),
        i32::MIN as int,
        i32::MAX as int,
    )
}

/// What an elementwise sum computes of two bytes without a left shift: both
/// inputs are scaled, their sum is scaled, and the result is clamped.
pub open spec fn scalar_sum(p: ElementwiseParams, a: int, b: int) -> int {
    let x = by_pair(a + p.input1_offset, p.input1_multiplier, p.input1_shift);
    let y = by_pair(b + p.input2_offset, p.input2_multiplier, p.input2_shift);
    int8::clamp_int(
        by_pair(x + y, p.output_multiplier, p.output_shift) + p.output_offset,
        p.quantized_activation_min as int,
        p.quantized_activation_max as int,
    )
}

/// What an elementwise product computes of two bytes.
pub open spec fn scalar_product(p: ElementwiseParams, a: int, b: int) -> int {
    int8::clamp_int(
        by_pair(
            (a + p.input1_offset) * (b + p.input2_offset),
            p.output_multiplier,
            p.output_shift,
        ) + p.output_offset,
        p.quantized_activation_min as int,
        p.quantized_activation_max as int,
    )
}

/// A sum that fits the vector unit is the saturated sum of bytes, which is what
/// the vector unit computes.
pub proof fn law_fitting_sums_add_bytes(p: ElementwiseParams, a: i8, b: i8)
    requires
        eligibility::add_fits(p),
    ensures
        scalar_sum(p, a as int, b as int) == int8::clamp_int(a + b, -128, 127),
        p.left_shift <= 0,
{
    int8::law_identity_pair(a as i32);
    int8::law_identity_pair(b as i32);
    int8::law_identity_pair((a + b) as i32);
}

/// A sum fits the vector unit exactly where its parameters have no zero points,
/// no activation and no factor.
pub proof fn law_plain_sums_fit(p: ElementwiseParams)
    ensures
        eligibility::add_fits(p) <==> {
            &&& p.input1_offset == 0 && p.input2_offset == 0 && p.output_offset == 0
            &&& p.quantized_activation_min == -128 && p.quantized_activation_max == 127
            &&& p.left_shift <= 0
            &&& p.input1_multiplier == 0x4000_0000 && p.input1_shift == 1
            &&& p.input2_multiplier == 0x4000_0000 && p.input2_shift == 1
            &&& p.output_multiplier == 0x4000_0000 && p.output_shift == 1
        },
{
}

/// A product that fits the vector unit is the product of bytes shifted to the
/// right by one less the shift of its pair, rounded with halves going up, and
/// saturated.
pub proof fn law_fitting_products_shift(p: ElementwiseParams, a: i8, b: i8)
    requires
        eligibility::mul_fits(p),
        p.output_shift >= -31,
    ensures
        p.output_shift == 1 ==> scalar_product(p, a as int, b as int) == int8::clamp_int(
            a * b,
            -128,
            127,
        ),
        p.output_shift <= 0 ==> scalar_product(p, a as int, b as int) == int8::clamp_int(
            int8::clamp_int(
                (a * b + pow2(-p.output_shift as nat)) / (pow2((1 - p.output_shift) as nat) as int),
                i32::MIN as int,
                i32::MAX as int,
            ),
            -128,
            127,
        ),
{
    let v = a * b;
    assert(-0x4000 <= v <= 0x4000) by (nonlinear_arith)
        requires
            -128 <= a <= 127,
            -128 <= b <= 127,
            v == a * b,
    ;
    assert((a + 0) * (b + 0) == v);
    if p.output_shift == 1 {
        int8::law_identity_pair(v as i32);
    } else {
        let s = p.output_shift as int;
        vstd::arithmetic::power2::lemma2_to64();
        vstd::arithmetic::power2::lemma_pow2_adds(30, (1 - s) as nat);
        vstd::arithmetic::power2::lemma_pow2_adds(30, -s as nat);
        let half = pow2(-s as nat) as int;
        let unit = pow2((1 - s) as nat) as int;
        vstd::arithmetic::power2::lemma_pow2_pos((1 - s) as nat);
        assert(v * 0x4000_0000 + 0x4000_0000 * half == 0x4000_0000 * (v + half)) by (nonlinear_arith);
        crate::arith::lemma_floor_of_floor(0x4000_0000 * (v + half), 0x4000_0000, unit);
        assert((0x4000_0000 * (v + half)) / 0x4000_0000 == v + half);
    }
}

/// A product fits the vector unit exactly where its parameters have no zero
/// points, no activation, and a factor that is a power of two up to one.
pub proof fn law_plain_products_fit(p: ElementwiseParams)
    ensures
        eligibility::mul_fits(p) <==> {
            &&& p.input1_offset == 0 && p.input2_offset == 0 && p.output_offset == 0
            &&& p.quantized_activation_min == -128 && p.quantized_activation_max == 127
            &&& p.output_multiplier == 0x4000_0000
            &&& p.output_shift <= 1
        },
{
}

/// A pool fits the vector unit exactly where its window has an area whose
/// reciprocal, in steps of `2^-8`, is a positive byte, no window of the output
/// sticks out of the input, and its channels fill whole vectors.
pub proof fn law_fitting_pools_stay_inside(
    in_h: int,
    in_w: int,
    channels: int,
    out_h: int,
    out_w: int,
    filter_h: int,
    filter_w: int,
    stride_h: int,
    stride_w: int,
)
    requires
        out_h >= 1,
        out_w >= 1,
        filter_h >= 1,
        filter_w >= 1,
        stride_h >= 1,
        stride_w >= 1,
    ensures
        eligibility::window_fits(
            in_h,
            in_w,
            channels,
            out_h,
            out_w,
            filter_h,
            filter_w,
            stride_h,
            stride_w,
        ) <==> {
            let area = filter_h * filter_w;
            &&& forall|y: int| 0 <= y < out_h ==> #[trigger] (y * stride_h) + filter_h <= in_h
            &&& forall|x: int| 0 <= x < out_w ==> #[trigger] (x * stride_w) + filter_w <= in_w
            &&& channels > 0 && channels % 16 == 0
            &&& 1 <= (512 + area) / (2 * area) <= 127
        },
{
    let area = filter_h * filter_w;
    assert(area >= 1) by (nonlinear_arith)
        requires
            filter_h >= 1,
            filter_w >= 1,
            area == filter_h * filter_w,
    ;
    let q = (512 + area) / (2 * area);
    vstd::arithmetic::div_mod::lemma_fundamental_div_mod(512 + area, 2 * area);
    assert((1 <= q <= 127) <==> (3 <= area <= 512)) by (nonlinear_arith)
        requires
            area >= 1,
            512 + area == (2 * area) * q + (512 + area) % (2 * area),
            0 <= (512 + area) % (2 * area) < 2 * area,
    ;
    assert((out_h - 1) * stride_h + filter_h <= in_h <==> forall|y: int|
        0 <= y < out_h ==> #[trigger] (y * stride_h) + filter_h <= in_h) by {
        if (out_h - 1) * stride_h + filter_h <= in_h {
            assert forall|y: int| 0 <= y < out_h implies #[trigger] (y * stride_h) + filter_h
                <= in_h by {
                assert(y * stride_h <= (out_h - 1) * stride_h) by (nonlinear_arith)
                    requires
                        0 <= y <= out_h - 1,
                        stride_h >= 1,
                ;
            }
        }
    }
    assert((out_w - 1) * stride_w + filter_w <= in_w <==> forall|x: int|
        0 <= x < out_w ==> #[trigger] (x * stride_w) + filter_w <= in_w) by {
        if (out_w - 1) * stride_w + filter_w <= in_w {
            assert forall|x: int| 0 <= x < out_w implies #[trigger] (x * stride_w) + filter_w
                <= in_w by {
                assert(x * stride_w <= (out_w - 1) * stride_w) by (nonlinear_arith)
                    requires
                        0 <= x <= out_w - 1,
                        stride_w >= 1,
                ;
            }
        }
    }
}

/// The estimate of the anchor of a group.
pub open spec fn verdict(model: ParsedModel, g: GroupView) -> SimdEst {
    selector::estimate(model, g).0
}

/// Strides and dilations of a convolution, `(stride_w, stride_h, dilation_w,
/// dilation_h)`, as its options give them; all one where it has none.
pub open spec fn conv_steps(op: ParsedOp) -> (int, int, int, int) {
    match op.options {
        Some(ParsedOptions::Conv2D { stride_w, stride_h, dilation_w, dilation_h, .. }) => (
            stride_w as int,
            stride_h as int,
            dilation_w as int,
            dilation_h as int,
        ),
        _ => (1, 1, 1, 1),
    }
}

/// Whether a group is anchored by an operator whose input, weights and output
/// exist and have four known dimensions, with a zero point that is a word.
pub open spec fn is_layer(model: ParsedModel, g: GroupView, code: i32) -> bool {
    let op = model.ops@[g.anchor];
    &&& g.builtin == code
    &&& op.inputs@.len() >= 2
    &&& op.inputs@[0] < model.tensors@.len()
    &&& op.inputs@[1] < model.tensors@.len()
    &&& g.output < model.tensors@.len()
    &&& model.tensors@[op.inputs@[0] as int].shape@.len() == 4
    &&& model.tensors@[op.inputs@[1] as int].shape@.len() == 4
    &&& model.tensors@[g.output as int].shape@.len() == 4
    &&& crate::shape::all_positive(model.tensors@[op.inputs@[0] as int].shape@)
    &&& crate::shape::all_positive(model.tensors@[op.inputs@[1] as int].shape@)
    &&& crate::shape::all_positive(model.tensors@[g.output as int].shape@)
    &&& -0x7fff_ffff <= calls::zero(model.tensors@[op.inputs@[0] as int]) <= 0x7fff_ffff
}

/// A convolution runs on the vector unit exactly in two cases. A 3x3 filter does
/// where both dilations are one and minus the zero point of the input is a byte
/// other than -128, whatever the strides. A 1x1 filter does where strides and
/// dilations are one and the output is as large as the input.
pub proof fn law_convolutions_on_the_vector_unit(model: ParsedModel, g: GroupView)
    requires
        is_layer(model, g, 3),
    ensures
        ({
            let op = model.ops@[g.anchor];
            let input = model.tensors@[op.inputs@[0] as int];
            let weights = model.tensors@[op.inputs@[1] as int].shape@;
            let output = model.tensors@[g.output as int].shape@;
            let (sw, sh, dw, dh) = conv_steps(op);
            &&& verdict(model, g) == SimdEst::Simd || verdict(model, g) == SimdEst::Scalar
            &&& verdict(model, g) == SimdEst::Simd <==> {
                ||| weights[1] == 3 && weights[2] == 3 && dw == 1 && dh == 1 && -127 <= calls::zero(
                    input,
                ) <= 127
                ||| weights[1] == 1 && weights[2] == 1 && sw == 1 && sh == 1 && dw == 1 && dh == 1
                    && input.shape@[1] == output[1] && input.shape@[2] == output[2]
            }
        }),
{
    let op = model.ops@[g.anchor];
    let input = model.tensors@[op.inputs@[0] as int];
    let weights = model.tensors@[op.inputs@[1] as int].shape@;
    let output = model.tensors@[g.output as int].shape@;
    assert(weights[3] > 0 && output[3] > 0);
    assert(input.shape@[1] > 0 && input.shape@[2] > 0 && output[1] > 0 && output[2] > 0);
}

/// Two convolutions that differ in nothing but their strides get the same
/// estimate, unless their filter is 1x1.
pub proof fn law_strides_do_not_matter_to_large_filters(
    model: ParsedModel,
    other: ParsedModel,
    g: GroupView,
)
    requires
        g.builtin == 3,
        model.tensors@ == other.tensors@,
        ({
            let a = model.ops@[g.anchor];
            let b = other.ops@[g.anchor];
            let weights = model.tensors@[a.inputs@[1] as int].shape@;
            &&& a.inputs@ == b.inputs@
            &&& conv_steps(a).2 == conv_steps(b).2
            &&& conv_steps(a).3 == conv_steps(b).3
            &&& a.inputs@.len() >= 2 && a.inputs@[1] < model.tensors@.len()
            &&& weights.len() == 4
            &&& weights[1] != 1 || weights[2] != 1
        }),
    ensures
        selector::estimate(model, g) == selector::estimate(other, g),
{
}

/// Depth multiplier and dilations of a depthwise convolution, `(multiplier,
/// dilation_w, dilation_h)`, as its options give them; all one where it has
/// none.
pub open spec fn depthwise_steps(op: ParsedOp) -> (int, int, int) {
    match op.options {
        Some(ParsedOptions::DepthwiseConv2D { depth_multiplier, dilation_w, dilation_h, .. }) => (
            depth_multiplier as int,
            dilation_w as int,
            dilation_h as int,
        ),
        _ => (1, 1, 1),
    }
}

/// A depthwise convolution runs on the vector unit exactly where both dilations
/// are one, its output has the channels of its input times the depth multiplier,
/// which counts as one where it is less, and minus the zero point of the input
/// is between -127 and 128. Strides and filter do not matter.
pub proof fn law_depthwise_convolutions_on_the_vector_unit(model: ParsedModel, g: GroupView)
    requires
        is_layer(model, g, 4),
    ensures
        ({
            let op = model.ops@[g.anchor];
            let input = model.tensors@[op.inputs@[0] as int];
            let output = model.tensors@[g.output as int].shape@;
            let (dm, dw, dh) = depthwise_steps(op);
            &&& verdict(model, g) == SimdEst::Simd || verdict(model, g) == SimdEst::Scalar
            &&& verdict(model, g) == SimdEst::Simd <==> {
                &&& dw == 1 && dh == 1
                &&& output[3] == input.shape@[3] * if dm < 1 {
                    1
                } else {
                    dm
                }
                &&& -128 <= calls::zero(input) <= 127
            }
        }),
{
    let op = model.ops@[g.anchor];
    let input = model.tensors@[op.inputs@[0] as int];
    let weights = model.tensors@[op.inputs@[1] as int].shape@;
    let output = model.tensors@[g.output as int].shape@;
    assert(weights[1] > 0 && weights[2] > 0 && output[3] > 0 && input.shape@[3] > 0);
}

/// A dense layer runs on the vector unit where input and output have elements,
/// and a softmax where a row has at least sixteen.
pub proof fn law_dense_layers_and_softmaxes_on_the_vector_unit(model: ParsedModel, g: GroupView)
    requires
        g.inputs.len() > 0,
        g.inputs[0] < model.tensors@.len(),
        g.output < model.tensors@.len(),
    ensures
        ({
            let input = model.tensors@[g.inputs[0] as int].shape@;
            let output = model.tensors@[g.output as int].shape@;
            &&& g.builtin == 9 ==> (verdict(model, g) == SimdEst::Simd <==> crate::shape::all_positive(
                input,
            ) && crate::shape::all_positive(output))
            &&& g.builtin == 25 ==> (verdict(model, g) == SimdEst::Simd <==> input.len() > 0
                && input[input.len() - 1] >= 16)
            &&& g.builtin == 9 || g.builtin == 25 ==> verdict(model, g) == SimdEst::Simd || verdict(
                model,
                g,
            ) == SimdEst::Scalar
        }),
{
    let input = model.tensors@[g.inputs[0] as int].shape@;
    let output = model.tensors@[g.output as int].shape@;
    if crate::shape::all_positive(input) {
        crate::shape::lemma_product_positive(input);
    }
    if crate::shape::all_positive(output) {
        crate::shape::lemma_product_positive(output);
    }
}

/// Strides and window of a pool, `(stride_w, stride_h, filter_w, filter_h)`, as
/// its options give them; steps of one and a window of two by two where it has
/// none.
pub open spec fn pool_steps(op: ParsedOp) -> (int, int, int, int) {
    match op.options {
        Some(ParsedOptions::Pool2D { stride_w, stride_h, filter_w, filter_h, .. }) => (
            stride_w as int,
            stride_h as int,
            filter_w as int,
            filter_h as int,
        ),
        _ => (1, 1, 2, 2),
    }
}

/// A pool without a fold runs on the vector unit exactly where its windows fit:
/// those of its options, along the heights and widths of input and output, over
/// the channels of the input. With a fold it does only where it would without.
pub proof fn law_pools_on_the_vector_unit(model: ParsedModel, g: GroupView)
    requires
        g.builtin == 1 || g.builtin == 17,
        g.inputs.len() > 0,
        g.inputs[0] < model.tensors@.len(),
        g.output < model.tensors@.len(),
        model.tensors@[g.inputs[0] as int].shape@.len() == 4,
        model.tensors@[g.output as int].shape@.len() == 4,
        crate::shape::all_positive(model.tensors@[g.inputs[0] as int].shape@),
    ensures
        ({
            let input = model.tensors@[g.inputs[0] as int].shape@;
            let output = model.tensors@[g.output as int].shape@;
            let (sw, sh, fw, fh) = pool_steps(model.ops@[g.anchor]);
            let fits = eligibility::window_fits(
                input[1] as int,
                input[2] as int,
                input[3] as int,
                output[1] as int,
                output[2] as int,
                fh,
                fw,
                sh,
                sw,
            );
            &&& verdict(model, g) == SimdEst::Simd || verdict(model, g) == SimdEst::Scalar
            &&& g.fold is None ==> (verdict(model, g) == SimdEst::Simd <==> fits)
            &&& verdict(model, g) == SimdEst::Simd ==> fits
        }),
{
    let input = model.tensors@[g.inputs[0] as int].shape@;
    assert(input[3] > 0);
}

/// A pool with a folded multiplication runs on the vector unit only where that
/// one is a plain product: input, operand and result have zero points of zero
/// and scales whose quotient is a power of two up to one. A folded subtraction
/// never does: its inputs are shifted to the left.
pub proof fn law_folds_on_the_vector_unit(model: ParsedModel, g: GroupView)
    requires
        g.builtin == 1 || g.builtin == 17,
        g.fold is Some,
        verdict(model, g) == SimdEst::Simd,
    ensures
        ({
            let f = g.fold->0;
            let op = model.ops@[f.op_index as int];
            let a = model.tensors@[f.folded_input_tensor as int];
            let b = model.tensors@[f.operand_tensor as int];
            let c = model.tensors@[op.outputs@[0] as int];
            &&& f.builtin == 18
            &&& f.op_index < model.ops@.len()
            &&& op.outputs@.len() > 0
            &&& calls::has_scale(a) && calls::has_scale(b) && calls::has_scale(c)
            &&& calls::quantized(a) && calls::quantized(b) && calls::quantized(c) ==> calls::zero(a)
                == 0 && calls::zero(b) == 0 && calls::zero(c) == 0
            &&& exists|shift: i32|
                shift <= 1 && #[trigger] calls::rescales_product(
                    (0x4000_0000i32, shift),
                    calls::scale(a),
                    calls::scale(b),
                    calls::scale(c),
                )
        }),
{
    let f = g.fold->0;
    let op = model.ops@[f.op_index as int];
    let a = model.tensors@[f.folded_input_tensor as int];
    let b = model.tensors@[f.operand_tensor as int];
    let c = model.tensors@[op.outputs@[0] as int];
    crate::accuracy::law_product_ratio_is_the_quotient(
        calls::scale(a),
        calls::scale(b),
        calls::scale(c),
    );
    let pair = crate::requant::product_ratio(calls::scale(a), calls::scale(b), calls::scale(c));
    assert(calls::rescales_product(
        (0x4000_0000i32, pair.1),
        calls::scale(a),
        calls::scale(b),
        calls::scale(c),
    ));
}

/// A chain runs on the vector unit only where its anchor is a multiplication
/// without zero points, without an activation and with scales whose quotient is
/// a power of two up to one, and its steps are multiplications and ReLUs; sums
/// and differences shift their inputs to the left.
pub proof fn law_chains_on_the_vector_unit(model: ParsedModel, g: GroupView, m: int)
    requires
        g.builtin == 0 || g.builtin == 18 || g.builtin == 41,
        verdict(model, g) == SimdEst::Simd,
        0 <= m < g.chain.len(),
        forall|j: int|
            0 <= j < g.chain.len() && ((#[trigger] g.chain[j]).kind is Add || g.chain[j].kind is Sub)
                ==> g.chain[j].requantize.left_shift == 20,
    ensures
        ({
            let op = model.ops@[g.anchor];
            let a = model.tensors@[op.inputs@[0] as int];
            let b = model.tensors@[op.inputs@[1] as int];
            let c = model.tensors@[op.outputs@[0] as int];
            let step = g.chain[m];
            let q = step.requantize;
            &&& g.builtin == 18
            &&& op.inputs@.len() > 1 && op.outputs@.len() > 0
            &&& calls::quantized(a) && calls::quantized(b) && calls::quantized(c) ==> calls::zero(a)
                == 0 && calls::zero(b) == 0 && calls::zero(c) == 0
            &&& step.kind is Mul || step.kind is Relu
            &&& q.input1_offset == 0 && q.output_offset == 0
            &&& q.output_multiplier == 0x4000_0000
            &&& step.kind is Relu ==> q.output_shift == 1
            &&& step.kind is Mul ==> q.output_shift <= 1 && q.input2_offset == 0
                && step.operand_tensor != crate::model::NO_TENSOR
        }),
{
    let op = model.ops@[g.anchor];
    let n = match selector::first_tensor(model, g.inputs) {
        Some(tensor) => crate::shape::element_count(tensor.shape@) as i32,
        None => 0,
    };
    assert(eligibility::view_fits(selector::absorbed_view(model, g.chain[m], n)));
}

/// Nothing but convolutions, dense layers, pools, softmaxes and elementwise
/// operators has a vector kernel.
pub proof fn law_other_operators_have_no_vector_kernel(model: ParsedModel, g: GroupView)
    requires
        verdict(model, g) == SimdEst::Simd,
    ensures
        g.builtin == 0 || g.builtin == 1 || g.builtin == 3 || g.builtin == 4 || g.builtin == 9
            || g.builtin == 17 || g.builtin == 18 || g.builtin == 25 || g.builtin == 41,
{
}

/// A composed kernel is selected exactly where the group has something to
/// compose, does not change rounding, and its anchor runs on the vector unit: a
/// convolution with what it has absorbed, an elementwise operator with the steps
/// behind it, a pool with the operator in front of it.
pub proof fn law_composed_kernels_are_selected(model: ParsedModel, g: GroupView)
    ensures
        ({
            let free = !g.requires_verification && verdict(model, g) == SimdEst::Simd;
            let kernel = selector::selected_kernel(model, g);
            &&& kernel == GroupSelection::Composed(ComposedKind::Conv) <==> free && g.builtin == 3
                && (g.residual is Some || g.absorbed.len() > 0)
            &&& kernel == GroupSelection::Composed(ComposedKind::Chain) <==> free && (g.builtin == 0
                || g.builtin == 18 || g.builtin == 41) && g.chain.len() > 0
            &&& kernel == GroupSelection::Composed(ComposedKind::PoolFold) <==> free && (g.builtin
                == 1 || g.builtin == 17) && g.fold is Some
        }),
{
}

/// The bytes that are staged are the elements of all inputs: none without an
/// input, and each input adds its own.
pub proof fn law_staged_bytes_are_those_of_the_inputs(model: ParsedModel, list: Seq<u32>, t: u32)
    requires
        t < model.tensors@.len(),
        crate::shape::all_positive(model.tensors@[t as int].shape@),
        crate::shape::product_of(model.tensors@[t as int].shape@) <= usize::MAX,
    ensures
        selector::byte_count(model, Seq::empty()) == 0,
        selector::byte_count(model, list.push(t)) == selector::byte_count(model, list)
            + crate::shape::product_of(model.tensors@[t as int].shape@),
{
    assert(list.push(t).drop_last() =~= list);
}

/// Whether parameters are those of an elementwise operator on three tensors: a
/// sum or difference brings both inputs to one scale, a product scales its
/// result only; inputs lose their zero points, the output gets its own.
pub open spec fn computes(
    p: ElementwiseParams,
    kind: ElementwiseKind,
    a: ParsedTensor,
    b: ParsedTensor,
    c: ParsedTensor,
) -> bool {
    let (s1, s2, so) = (calls::scale(a), calls::scale(b), calls::scale(c));
    &&& p.input1_offset == -calls::zero(a)
    &&& p.input2_offset == -calls::zero(b)
    &&& p.output_offset == calls::zero(c)
    &&& kind is Add || kind is Sub || kind is Mul
    &&& kind is Mul ==> p.left_shift == 0 && calls::rescales_product(
        (p.output_multiplier, p.output_shift),
        s1,
        s2,
        so,
    ) && p.input1_multiplier == 0 && p.input2_multiplier == 0
    &&& kind is Add || kind is Sub ==> calls::adds(
        (p.input1_multiplier, p.input1_shift),
        (p.input2_multiplier, p.input2_shift),
        (p.output_multiplier, p.output_shift),
        p.left_shift as int,
        s1,
        s2,
        so,
    )
}

/// The parameters of an elementwise operator are those of its operation on the
/// three tensors, with no activation; there are none where a scale is missing or
/// the operator is an activation.
pub proof fn law_elementwise_parameters_follow_the_tensors(
    a: ParsedTensor,
    b: ParsedTensor,
    c: ParsedTensor,
    kind: ElementwiseKind,
    n: i32,
)
    ensures
        selector::elementwise_view(a, b, c, kind, n) is Some <==> calls::has_scale(a)
            && calls::has_scale(b) && calls::has_scale(c) && (kind is Add || kind is Sub
            || kind is Mul),
        selector::elementwise_view(a, b, c, kind, n) matches Some(p) ==> p.num_elements == n
            && p.quantized_activation_min == -128 && p.quantized_activation_max == 127,
        calls::quantized(a) && calls::quantized(b) && calls::quantized(c) ==> (
        selector::elementwise_view(a, b, c, kind, n) matches Some(p) ==> computes(p, kind, a, b, c)),
{
    if calls::quantized(a) && calls::quantized(b) && calls::quantized(c) {
        let (s1, s2, so) = (calls::scale(a), calls::scale(b), calls::scale(c));
        calls::law_sums_are_rescaled(s1, s2, so);
        crate::accuracy::law_product_ratio_is_the_quotient(s1, s2, so);
    }
}

/// The operation of an elementwise operator code.
pub open spec fn operation(code: i32) -> ElementwiseKind {
    if code == 0 {
        ElementwiseKind::Add
    } else if code == 41 {
        ElementwiseKind::Sub
    } else {
        ElementwiseKind::Mul
    }
}

/// The activation code in the options of an elementwise operator.
pub open spec fn own_activation(op: ParsedOp) -> i8 {
    match op.options {
        Some(ParsedOptions::Add { fused_activation, .. }) => fused_activation,
        Some(ParsedOptions::Sub { fused_activation, .. }) => fused_activation,
        Some(ParsedOptions::Mul { fused_activation }) => fused_activation,
        _ => 0,
    }
}

/// The first step of a chain is its anchor: the operation of the anchor on its
/// two inputs and its output, with the range of its own activation.
pub proof fn law_first_steps_are_the_anchor(model: ParsedModel, code: i32, op: ParsedOp, n: i32)
    requires
        op.inputs@.len() > 1,
        op.outputs@.len() > 0,
        op.inputs@[0] < model.tensors@.len(),
        op.inputs@[1] < model.tensors@.len(),
        op.outputs@[0] < model.tensors@.len(),
        calls::quantized(model.tensors@[op.inputs@[0] as int]),
        calls::quantized(model.tensors@[op.inputs@[1] as int]),
        calls::quantized(model.tensors@[op.outputs@[0] as int]),
    ensures
        ({
            let a = model.tensors@[op.inputs@[0] as int];
            let b = model.tensors@[op.inputs@[1] as int];
            let c = model.tensors@[op.outputs@[0] as int];
            let view = selector::anchor_view(model, code, op, n);
            &&& view is Some <==> code == 0 || code == 18 || code == 41
            &&& view matches Some(v) ==> {
                &&& v.kind == operation(code)
                &&& v.has_operand
                &&& v.params.num_elements == n
                &&& computes(v.params, v.kind, a, b, c)
                &&& crate::accuracy::measurable(
                    own_activation(op),
                    calls::scale(c),
                    calls::zero(c),
                ) ==> crate::accuracy::clamps(
                    own_activation(op),
                    calls::scale(c),
                    calls::zero(c),
                    v.params.quantized_activation_min as int,
                    v.params.quantized_activation_max as int,
                )
            }
        }),
{
    let a = model.tensors@[op.inputs@[0] as int];
    let b = model.tensors@[op.inputs@[1] as int];
    let c = model.tensors@[op.outputs@[0] as int];
    law_elementwise_parameters_follow_the_tensors(a, b, c, operation(code), n);
    let act = own_activation(op);
    if crate::accuracy::measurable(act, calls::scale(c), calls::zero(c)) {
        crate::accuracy::law_bounds_are_those_of_the_activation(
            act,
            calls::scale(c),
            calls::zero(c) as i32,
        );
    }
}

/// A later step of a chain is an operator that the group has absorbed: its kind,
/// its numbers, whether it has an operand, and the range of its own activation.
pub proof fn law_later_steps_are_the_absorbed_operators(
    model: ParsedModel,
    step: AbsorbedElementwise,
    n: i32,
)
    ensures
        ({
            let v = selector::absorbed_view(model, step, n);
            let q = step.requantize;
            let p = v.params;
            &&& v.kind == step.kind
            &&& v.has_operand <==> step.operand_tensor != 0xffff_ffff
            &&& p.num_elements == n
            &&& (p.input1_offset, p.input1_multiplier, p.input1_shift) == (
                q.input1_offset,
                q.input1_multiplier,
                q.input1_shift,
            )
            &&& (p.input2_offset, p.input2_multiplier, p.input2_shift) == (
                q.input2_offset,
                q.input2_multiplier,
                q.input2_shift,
            )
            &&& (p.output_offset, p.output_multiplier, p.output_shift) == (
                q.output_offset,
                q.output_multiplier,
                q.output_shift,
            )
            &&& p.left_shift == q.left_shift
            &&& step.op_index < model.ops@.len() && 0 < step.output_scale < 0x7f80_0000
                && -0x8000_0000 <= step.output_zero_point < 0x8000_0000 && crate::accuracy::measurable(
                own_activation(model.ops@[step.op_index as int]),
                step.output_scale,
                step.output_zero_point as int,
            ) ==> crate::accuracy::clamps(
                own_activation(model.ops@[step.op_index as int]),
                step.output_scale,
                step.output_zero_point as int,
                p.quantized_activation_min as int,
                p.quantized_activation_max as int,
            )
        }),
{
    if step.op_index < model.ops@.len() && 0 < step.output_scale < 0x7f80_0000 && -0x8000_0000
        <= step.output_zero_point < 0x8000_0000 {
        let act = own_activation(model.ops@[step.op_index as int]);
        if crate::accuracy::measurable(act, step.output_scale, step.output_zero_point as int) {
            crate::accuracy::law_bounds_are_those_of_the_activation(
                act,
                step.output_scale,
                step.output_zero_point as i32,
            );
        }
    }
}

/// A step fits the vector chain exactly where it is a sum or difference of bytes
/// with an operand, a product with one whose factor is a power of two up to one,
/// or a ReLU that scales nothing.
pub proof fn law_plain_steps_fit(v: StepView)
    ensures
        eligibility::view_fits(v) <==> {
            let p = v.params;
            ||| (v.kind is Add || v.kind is Sub) && v.has_operand && eligibility::add_fits(p)
            ||| v.kind is Mul && v.has_operand && eligibility::mul_fits(p)
            ||| v.kind is Relu && p.input1_offset == 0 && p.output_offset == 0
                && p.output_multiplier == 0x4000_0000 && p.output_shift == 1
        },
{
}

/// A chain runs on the vector unit exactly where its first step and all later
/// ones fit, and it has no estimate only where its first step has no parameters.
pub proof fn law_chains_run_where_all_steps_fit(model: ParsedModel, g: GroupView, n: i32)
    requires
        g.builtin == 0 || g.builtin == 18 || g.builtin == 41,
        g.inputs.len() > 0,
        g.inputs[0] < model.tensors@.len(),
        crate::shape::all_positive(model.tensors@[g.inputs[0] as int].shape@),
        n == crate::shape::product_of(model.tensors@[g.inputs[0] as int].shape@),
    ensures
        ({
            let first = selector::anchor_view(model, g.builtin, model.ops@[g.anchor], n);
            &&& verdict(model, g) == SimdEst::NoSimdPath <==> first is None
            &&& verdict(model, g) == SimdEst::Simd <==> (first matches Some(v)
                && eligibility::view_fits(v) && forall|k: int|
                0 <= k < g.chain.len() ==> eligibility::view_fits(
                    selector::absorbed_view(model, #[trigger] g.chain[k], n),
                ))
        }),
{
    crate::shape::lemma_product_positive(model.tensors@[g.inputs[0] as int].shape@);
}

/// A pool with a folded operator runs on the vector unit exactly where it would
/// without and the folded operator fits: the operation of its code on what it
/// reads, its operand and its own output.
pub proof fn law_folded_pools_run_where_the_fold_fits(model: ParsedModel, g: GroupView)
    requires
        g.builtin == 1 || g.builtin == 17,
        g.fold matches Some(f) && (f.builtin == 18 || f.builtin == 41) && f.op_index
            < model.ops@.len() && f.folded_input_tensor < model.tensors@.len()
            && f.operand_tensor < model.tensors@.len() && model.ops@[f.op_index as int].outputs@.len()
            > 0 && model.ops@[f.op_index as int].outputs@[0] < model.tensors@.len(),
    ensures
        ({
            let f = g.fold->0;
            let a = model.tensors@[f.folded_input_tensor as int];
            let b = model.tensors@[f.operand_tensor as int];
            let c = model.tensors@[model.ops@[f.op_index as int].outputs@[0] as int];
            let n = crate::shape::element_count(a.shape@) as i32;
            let view = selector::elementwise_view(a, b, c, operation(f.builtin), n);
            let plain = verdict(model, GroupView { fold: None, ..g });
            &&& selector::fold_view(model, f) == view
            &&& verdict(model, g) == SimdEst::Simd <==> plain == SimdEst::Simd && (
            view matches Some(p) && (f.builtin == 18 ==> eligibility::mul_fits(p)) && (f.builtin
                == 41 ==> eligibility::add_fits(p)))
        }),
{
}

/// A step read as an elementwise operator keeps its numbers, and a fold read as
/// one loses the zero points of its inputs and gets that of its output.
pub proof fn law_views_keep_the_numbers(step: ElementwiseChainStep, fold: PoolInputFold, n: i32)
    requires
        -0x8000_0000 < fold.input_zero_point < 0x8000_0000,
        -0x8000_0000 < fold.operand_zero_point < 0x8000_0000,
        -0x8000_0000 < fold.output_zero_point < 0x8000_0000,
    ensures
        ({
            let p = eligibility::step_params(step, n);
            &&& p.num_elements == n
            &&& (p.input1_offset, p.input1_multiplier, p.input1_shift) == (
                step.input1_offset,
                step.input1_multiplier,
                step.input1_shift,
            )
            &&& (p.input2_offset, p.input2_multiplier, p.input2_shift) == (
                step.input2_offset,
                step.input2_multiplier,
                step.input2_shift,
            )
            &&& (p.output_offset, p.output_multiplier, p.output_shift, p.left_shift) == (
                step.output_offset,
                step.output_multiplier,
                step.output_shift,
                step.left_shift,
            )
            &&& (p.quantized_activation_min, p.quantized_activation_max) == (
                step.quantized_activation_min,
                step.quantized_activation_max,
            )
        }),
        ({
            let p = eligibility::fold_params(fold);
            &&& p.num_elements == fold.num_elements
            &&& p.input1_offset == -fold.input_zero_point
            &&& p.input2_offset == -fold.operand_zero_point
            &&& p.output_offset == fold.output_zero_point
            &&& (p.input1_multiplier, p.input1_shift) == (fold.input1_multiplier, fold.input1_shift)
            &&& (p.input2_multiplier, p.input2_shift) == (fold.input2_multiplier, fold.input2_shift)
            &&& (p.output_multiplier, p.output_shift, p.left_shift) == (
                fold.output_multiplier,
                fold.output_shift,
                fold.left_shift,
            )
            &&& p.quantized_activation_min == -128 && p.quantized_activation_max == 127
        }),
{
}

/// The reciprocal of a positive area is the nearest number of steps.
pub proof fn law_reciprocals_are_nearest(p: int, area: int)
    requires
        0 <= p,
        0 < area,
    ensures
        -area <= 2 * (eligibility::rounded_quotient(p, area) * area - p) <= area,
{
    let n = p + area / 2;
    vstd::arithmetic::div_mod::lemma_fundamental_div_mod(n, area);
    assert(area * (n / area) == (n / area) * area) by (nonlinear_arith);
}

/// A folded operator fits exactly where it is a product that fits or a difference
/// that does.
pub proof fn law_plain_folds_fit(code: i32, p: ElementwiseParams)
    ensures
        code == 18 ==> (eligibility::fold_fits(code, p) <==> eligibility::mul_fits(p)),
        code == 41 ==> (eligibility::fold_fits(code, p) <==> eligibility::add_fits(p)),
        code != 18 && code != 41 ==> !eligibility::fold_fits(code, p),
{
}

/// Whether a list names a tensor at a position.
pub open spec fn names(model: ParsedModel, list: Seq<u32>, k: int) -> bool {
    k < list.len() && list[k] < model.tensors@.len()
}

/// Whether evidence speaks for the vector unit.
pub open spec fn speaks_for(e: Evidence) -> bool {
    ||| e == Evidence::Conv1x1Fits || e == Evidence::Conv3x3Fits
    ||| e == Evidence::DepthwiseFits || e == Evidence::FullyConnectedFits
    ||| e == Evidence::PoolFits || e == Evidence::SoftmaxFits || e == Evidence::ChainFits
}

/// Whether evidence speaks against the vector unit.
pub open spec fn speaks_against(e: Evidence) -> bool {
    ||| e == Evidence::Conv1x1Fails || e == Evidence::Conv3x3Fails
    ||| e == Evidence::DepthwiseFails || e == Evidence::FullyConnectedFails
    ||| e == Evidence::PoolFails || e == Evidence::PoolFoldFails
    ||| e == Evidence::SoftmaxFails || e == Evidence::ChainFails
}

/// The evidence of an estimate agrees with it.
pub proof fn law_evidence_agrees_with_the_estimate(model: ParsedModel, g: GroupView)
    ensures
        ({
            let (v, e) = selector::estimate(model, g);
            &&& v == SimdEst::Simd <==> speaks_for(e)
            &&& v == SimdEst::Scalar <==> speaks_against(e)
            &&& e == Evidence::NoKernel <==> g.builtin != 0 && g.builtin != 1 && g.builtin != 3
                && g.builtin != 4 && g.builtin != 9 && g.builtin != 17 && g.builtin != 18
                && g.builtin != 25 && g.builtin != 41
        }),
{
}

/// The evidence for a convolution names what is missing, the weights first and
/// then the input; without anything missing it tells pointwise filters from
/// others. That for a depthwise convolution names the input first.
pub proof fn law_evidence_names_what_is_missing(model: ParsedModel, g: GroupView)
    ensures
        ({
            let e = selector::estimate(model, g).1;
            let op = model.ops@[g.anchor];
            let weights = model.tensors@[op.inputs@[1] as int].shape@;
            let first = names(model, op.inputs@, 0);
            let second = names(model, op.inputs@, 1);
            let written = g.output < model.tensors@.len();
            &&& g.builtin == 3 ==> {
                &&& e == Evidence::ConvWeightMissing <==> !second
                &&& e == Evidence::ConvInputMissing <==> second && !first
                &&& e == Evidence::ConvOutputMissing <==> second && first && !written
                &&& e == Evidence::Conv1x1Fits || e == Evidence::Conv1x1Fails <==> second && first
                    && written && weights.len() > 2 && weights[1] == 1 && weights[2] == 1
            }
            &&& g.builtin == 4 ==> {
                &&& e == Evidence::DepthwiseInputMissing <==> !first
                &&& e == Evidence::DepthwiseWeightMissing <==> first && !second
                &&& e == Evidence::DepthwiseOutputMissing <==> first && second && !written
            }
            &&& g.builtin == 1 || g.builtin == 17 ==> {
                &&& e == Evidence::PoolUnknown <==> !names(model, g.inputs, 0) || !written
                &&& e == Evidence::PoolFoldFails ==> g.fold is Some
                &&& e == Evidence::PoolFails ==> selector::estimate(
                    model,
                    GroupView { fold: None, ..g },
                ).1 == Evidence::PoolFails
            }
        }),
{
}

/// A composed kernel matches a convolution that has absorbed something, an
/// elementwise operator with steps behind it, and a pool with an operator in
/// front of it.
pub proof fn law_composed_kernels_match_what_is_absorbed(g: GroupView)
    ensures
        selector::matches_conv(g) <==> g.builtin == 3 && (g.residual is Some || g.absorbed.len()
            > 0),
        selector::matches_chain(g) <==> (g.builtin == 0 || g.builtin == 18 || g.builtin == 41)
            && g.chain.len() > 0,
        selector::matches_pool(g) <==> (g.builtin == 1 || g.builtin == 17) && g.fold is Some,
{
}

/// The parameters of the pool of a group are those of its anchor: heights, widths
/// and channels of the tensors, the window and strides, padding and activation of
/// the options. A pool without options has a 2x2 window.
pub proof fn law_pool_parameters_follow_the_operator(
    p: PoolParams,
    model: ParsedModel,
    inputs: Seq<u32>,
    output: u32,
    op: ParsedOp,
)
    requires
        selector::is_pool_view(p, model, inputs, output, op),
        inputs.len() > 0,
        inputs[0] < model.tensors@.len(),
        output < model.tensors@.len(),
        model.tensors@[inputs[0] as int].shape@.len() == 4,
        model.tensors@[output as int].shape@.len() == 4,
        crate::shape::all_positive(model.tensors@[inputs[0] as int].shape@),
        crate::shape::all_positive(model.tensors@[output as int].shape@),
    ensures
        forall|k: int|
            1 <= k < 4 ==> #[trigger] p.input_shape@[k] == model.tensors@[inputs[0] as int].shape@[k],
        forall|k: int|
            1 <= k < 4 ==> #[trigger] p.output_shape@[k] == model.tensors@[output as int].shape@[k],
        match op.options {
            Some(
                ParsedOptions::Pool2D {
                    padding,
                    stride_w,
                    stride_h,
                    filter_w,
                    filter_h,
                    fused_activation,
                },
            ) => {
                &&& p.stride_width == stride_w && p.stride_height == stride_h
                &&& p.filter_width == filter_w && p.filter_height == filter_h
                &&& p.padding == Padding::Valid <==> padding == 1
                &&& p.activation == FusedActivation::Relu <==> fused_activation == 1
                &&& p.activation == FusedActivation::Relu6 <==> fused_activation == 3
            },
            _ => {
                &&& p.stride_width == 1 && p.stride_height == 1
                &&& p.filter_width == 2 && p.filter_height == 2
                &&& p.padding == Padding::Same
                &&& p.activation == FusedActivation::Identity
            },
        },
{
    let a = model.tensors@[inputs[0] as int].shape@;
    let b = model.tensors@[output as int].shape@;
    assert(a[1] > 0 && a[2] > 0 && a[3] > 0 && b[1] > 0 && b[2] > 0 && b[3] > 0);
}

} // verus!
