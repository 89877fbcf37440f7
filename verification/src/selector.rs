//! Which kernel computes a fused group.
//!
//! A group whose operators match a composed kernel gets that kernel only where
//! its vector path runs: a composed call that falls back to scalar code would
//! be slower without a word. All other groups run operator by operator, and so
//! do groups that change rounding.

use crate::eligibility;
use crate::eligibility::{chain_simd_eligible, conv1x1_dispatch_eligible};
use crate::eligibility::{conv3x3_dispatch_eligible, depthwise_dispatch_eligible};
use crate::eligibility::{fc_dispatch_eligible, fold_is_exact, simd_eligible_pool};
use crate::eligibility::{softmax_row_simd_eligible, StepView};
use crate::fusion::{AbsorbedElementwise, FusedGroup, GroupView, InputFold};
use crate::model::{ParsedModel, ParsedOp, ParsedOptions, ParsedTensor};
use crate::model::{ADD, AVERAGE_POOL_2D, CONV_2D, DEPTHWISE_CONV_2D, FULLY_CONNECTED};
use crate::model::{MAX_POOL_2D, MUL, NO_TENSOR, SOFTMAX, SUB};
use crate::op_params::{ElementwiseChainParams, ElementwiseChainStep, ElementwiseKind};
use crate::op_params::{ElementwiseParams, FusedActivation, Padding, PoolParams};
use crate::requant::{act_range, add_input_pair, add_output_pair, negate, product_ratio_pair};
use crate::requant::{to_word, ADD_LEFT_SHIFT};
use crate::shape::{flat_prod, last_dim};
use crate::text::{join, to_decimal};
use vstd::prelude::*;
use vstd::string::*;

verus! {

/// A composed kernel.
#[derive(Clone, Copy, Debug, PartialEq, Eq, Structural)]
pub enum ComposedKind {
    /// Convolution with residual addition and activation.
    Conv,
    /// Elementwise chain.
    Chain,
    /// Pool with a folded input.
    PoolFold,
}

/// What computes a group.
#[derive(Clone, Copy, Debug, PartialEq, Eq, Structural)]
pub enum GroupSelection {
    Composed(ComposedKind),
    /// One kernel per operator.
    PerOp,
}

/// Whether the kernel of an anchor runs on the vector unit.
#[derive(Clone, Copy, Debug, PartialEq, Eq, Structural)]
pub enum SimdEst {
    Simd,
    /// There is a vector kernel, and it does not fit.
    Scalar,
    /// There is no vector kernel, or the model does not say enough.
    NoSimdPath,
}

/// What computes a group, why, and whether the kernel runs on the vector unit.
#[derive(Debug)]
pub struct Selection {
    pub kernel: GroupSelection,
    pub reason: String,
    pub simd: SimdEst,
}

impl SimdEst {
    /// The word for an estimate in a table.
    pub open spec fn label_text(self) -> Seq<char> {
        match self {
            SimdEst::Simd => "SIMD"@,
            SimdEst::Scalar => "scalar"@,
            SimdEst::NoSimdPath => "n/a"@,
        }
    }

    /// The word for an estimate in a table.
    pub fn label(self) -> (r: &'static str)
        ensures
            r@ == self.label_text(),
    {
        match self {
            SimdEst::Simd => "SIMD",
            SimdEst::Scalar => "scalar",
            SimdEst::NoSimdPath => "n/a",
        }
    }
}

/// What an estimate rests on.
#[derive(Clone, Copy, Debug, PartialEq, Eq, Structural)]
pub enum Evidence {
    ConvWeightMissing,
    ConvInputMissing,
    ConvOutputMissing,
    Conv1x1Fits,
    Conv1x1Fails,
    Conv3x3Fits,
    Conv3x3Fails,
    DepthwiseInputMissing,
    DepthwiseWeightMissing,
    DepthwiseOutputMissing,
    DepthwiseFits,
    DepthwiseFails,
    FullyConnectedFits,
    FullyConnectedFails,
    PoolUnknown,
    PoolFits,
    PoolFoldFails,
    PoolFails,
    SoftmaxFits,
    SoftmaxFails,
    ChainUnknown,
    ChainFits,
    ChainFails,
    NoKernel,
}

impl Evidence {
    /// The evidence in words.
    pub open spec fn spec_text(self) -> Seq<char> {
        match self {
            Evidence::ConvWeightMissing => "conv weight tensor missing"@,
            Evidence::ConvInputMissing => "conv input tensor missing"@,
            Evidence::ConvOutputMissing => "conv output tensor missing"@,
            Evidence::Conv1x1Fits => "conv1x1: mirror of conv1x1_accx_dispatch (conv1x1.rs:214-224); ptr-align/scratch runtime-only"@,
            Evidence::Conv1x1Fails => "conv1x1: mirror conv1x1_dispatch_eligible fails (conv1x1.rs:214-224)"@,
            Evidence::Conv3x3Fits => "conv3x3: mirror of conv3x3_accx_dispatch (conv3x3.rs:128-139); ptr-align/scratch runtime-only"@,
            Evidence::Conv3x3Fails => "conv3x3: mirror conv3x3_dispatch_eligible fails (conv3x3.rs:128-139)"@,
            Evidence::DepthwiseInputMissing => "depthwise input tensor missing"@,
            Evidence::DepthwiseWeightMissing => "depthwise weight tensor missing"@,
            Evidence::DepthwiseOutputMissing => "depthwise output tensor missing"@,
            Evidence::DepthwiseFits => "depthwise: mirror of depthwise_accx_dispatch (depthwise.rs:310-324); ptr-align/scratch runtime-only"@,
            Evidence::DepthwiseFails => "depthwise: mirror depthwise_dispatch_eligible fails (depthwise.rs:310-324)"@,
            Evidence::FullyConnectedFits => "fc: mirror of fc_accx_dispatch (gemm.rs:137, accx_eligible_1x1_padded); ptr-align/scratch runtime-only"@,
            Evidence::FullyConnectedFails => "fc: mirror fc_dispatch_eligible fails (gemm.rs:137)"@,
            Evidence::PoolUnknown => "pool tensor/options missing"@,
            Evidence::PoolFits => "pool: mirror simd_eligible_pool (pool.rs:1171-1208) + fold_simd_exact (fused.rs:677-684); ptr-align runtime-only"@,
            Evidence::PoolFoldFails => "pool: mirror simd_eligible_pool OK but fold_simd_exact fails (fused.rs:677-684)"@,
            Evidence::PoolFails => "pool: mirror simd_eligible_pool fails (pool.rs:1171-1208)"@,
            Evidence::SoftmaxFits => "softmax: mirror row_size>=16 (softmax.rs:383-387); ptr-align/scratch runtime-only"@,
            Evidence::SoftmaxFails => "softmax: mirror softmax_row_simd_eligible fails (softmax.rs:383-387)"@,
            Evidence::ChainUnknown => "chain anchor params not derivable"@,
            Evidence::ChainFits => "elementwise chain: mirror chain_simd_eligible (fused.rs:486-502); n%16/ptr-align runtime-only"@,
            Evidence::ChainFails => "elementwise chain: mirror chain_simd_eligible fails (fused.rs:486-502)"@,
            Evidence::NoKernel => "no composed SIMD kernel in C2/C3 scope (data movement / pad / reshape / transpose / mean)"@,
        }
    }

    /// The evidence in words.
    pub fn text(self) -> (r: &'static str)
        ensures
            r@ == self.spec_text(),
    {
        match self {
            Evidence::ConvWeightMissing => "conv weight tensor missing",
            Evidence::ConvInputMissing => "conv input tensor missing",
            Evidence::ConvOutputMissing => "conv output tensor missing",
            Evidence::Conv1x1Fits => "conv1x1: mirror of conv1x1_accx_dispatch (conv1x1.rs:214-224); ptr-align/scratch runtime-only",
            Evidence::Conv1x1Fails => "conv1x1: mirror conv1x1_dispatch_eligible fails (conv1x1.rs:214-224)",
            Evidence::Conv3x3Fits => "conv3x3: mirror of conv3x3_accx_dispatch (conv3x3.rs:128-139); ptr-align/scratch runtime-only",
            Evidence::Conv3x3Fails => "conv3x3: mirror conv3x3_dispatch_eligible fails (conv3x3.rs:128-139)",
            Evidence::DepthwiseInputMissing => "depthwise input tensor missing",
            Evidence::DepthwiseWeightMissing => "depthwise weight tensor missing",
            Evidence::DepthwiseOutputMissing => "depthwise output tensor missing",
            Evidence::DepthwiseFits => "depthwise: mirror of depthwise_accx_dispatch (depthwise.rs:310-324); ptr-align/scratch runtime-only",
            Evidence::DepthwiseFails => "depthwise: mirror depthwise_dispatch_eligible fails (depthwise.rs:310-324)",
            Evidence::FullyConnectedFits => "fc: mirror of fc_accx_dispatch (gemm.rs:137, accx_eligible_1x1_padded); ptr-align/scratch runtime-only",
            Evidence::FullyConnectedFails => "fc: mirror fc_dispatch_eligible fails (gemm.rs:137)",
            Evidence::PoolUnknown => "pool tensor/options missing",
            Evidence::PoolFits => "pool: mirror simd_eligible_pool (pool.rs:1171-1208) + fold_simd_exact (fused.rs:677-684); ptr-align runtime-only",
            Evidence::PoolFoldFails => "pool: mirror simd_eligible_pool OK but fold_simd_exact fails (fused.rs:677-684)",
            Evidence::PoolFails => "pool: mirror simd_eligible_pool fails (pool.rs:1171-1208)",
            Evidence::SoftmaxFits => "softmax: mirror row_size>=16 (softmax.rs:383-387); ptr-align/scratch runtime-only",
            Evidence::SoftmaxFails => "softmax: mirror softmax_row_simd_eligible fails (softmax.rs:383-387)",
            Evidence::ChainUnknown => "chain anchor params not derivable",
            Evidence::ChainFits => "elementwise chain: mirror chain_simd_eligible (fused.rs:486-502); n%16/ptr-align runtime-only",
            Evidence::ChainFails => "elementwise chain: mirror chain_simd_eligible fails (fused.rs:486-502)",
            Evidence::NoKernel => "no composed SIMD kernel in C2/C3 scope (data movement / pad / reshape / transpose / mean)",
        }
    }
}

/// The zero point of a tensor as a word; zero without quantization.
pub open spec fn word_of(tensor: ParsedTensor) -> i32 {
    match tensor.quant {
        Some(q) => crate::requant::low_word(q.zero_point),
        None => 0,
    }
}

/// The scale of a tensor, where it is a finite number above zero.
pub open spec fn usable_scale(tensor: ParsedTensor) -> Option<u32> {
    match tensor.quant {
        Some(q) => if crate::ieee::is_valid_scale(q.scale) {
            Some(q.scale)
        } else {
            None
        },
        None => None,
    }
}

/// What a kernel adds to its input: minus the zero point.
pub open spec fn offset_of(model: ParsedModel, t: u32) -> i32 {
    match model.tensor(t as int) {
        Some(tensor) => crate::requant::negated(word_of(tensor)),
        None => 0,
    }
}

/// The zero point of a tensor as a word; zero without quantization.
pub fn tensor_zp(tensor: &ParsedTensor) -> (r: i32)
    ensures
        r == word_of(*tensor),
{
    match &tensor.quant {
        Some(q) => to_word(q.zero_point),
        None => 0,
    }
}

/// The scale of a tensor, where it is a finite number above zero.
pub fn tensor_scale(tensor: &ParsedTensor) -> (r: Option<u32>)
    ensures
        r == usable_scale(*tensor),
{
    match &tensor.quant {
        Some(q) => if 0 < q.scale && q.scale < 0x7f80_0000 {
            Some(q.scale)
        } else {
            None
        },
        None => None,
    }
}

/// What a kernel adds to its input: minus the zero point.
pub fn input_offset_of(model: &ParsedModel, t: u32) -> (r: i32)
    ensures
        r == offset_of(*model, t),
{
    match model.tensor_by_index(t as usize) {
        Some(tensor) => negate(tensor_zp(tensor)),
        None => 0,
    }
}

/// The parameters of an elementwise operator without an activation.
pub open spec fn elementwise_view(
    in1: ParsedTensor,
    in2: ParsedTensor,
    out: ParsedTensor,
    kind: ElementwiseKind,
    num_elements: i32,
) -> Option<ElementwiseParams> {
    match (usable_scale(in1), usable_scale(in2), usable_scale(out)) {
        (Some(s1), Some(s2), Some(so)) => {
            let adds = kind == ElementwiseKind::Add || kind == ElementwiseKind::Sub;
            let a = if adds {
                crate::requant::add_input(s1, s1, s2)
            } else {
                (0i32, 0i32)
            };
            let b = if adds {
                crate::requant::add_input(s2, s1, s2)
            } else {
                (0i32, 0i32)
            };
            let c = if adds {
                crate::requant::add_output(s1, s2, so)
            } else {
                crate::requant::product_ratio(s1, s2, so)
            };
            if crate::fusion::is_activation(kind) {
                None
            } else {
                Some(
                    ElementwiseParams {
                        num_elements,
                        input1_offset: crate::requant::negated(word_of(in1)),
                        input2_offset: crate::requant::negated(word_of(in2)),
                        output_offset: word_of(out),
                        output_multiplier: c.0,
                        output_shift: c.1,
                        left_shift: if adds {
                            ADD_LEFT_SHIFT
                        } else {
                            0
                        },
                        input1_multiplier: a.0,
                        input1_shift: a.1,
                        input2_multiplier: b.0,
                        input2_shift: b.1,
                        quantized_activation_min: -128i32,
                        quantized_activation_max: 127i32,
                    },
                )
            }
        },
        _ => None,
    }
}

/// The parameters of an elementwise operator without an activation.
pub fn elementwise_params_view(
    in1: &ParsedTensor,
    in2: &ParsedTensor,
    out: &ParsedTensor,
    kind: ElementwiseKind,
    num_elements: i32,
) -> (r: Option<ElementwiseParams>)
    ensures
        r == elementwise_view(*in1, *in2, *out, kind, num_elements),
{
    let (s1, s2, so): (u32, u32, u32) = match (tensor_scale(in1), tensor_scale(in2), tensor_scale(out)) {
        (Some(s1), Some(s2), Some(so)) => (s1, s2, so),
        _ => return None,
    };
    let mut params = ElementwiseParams {
        num_elements,
        input1_offset: negate(tensor_zp(in1)),
        input2_offset: negate(tensor_zp(in2)),
        output_offset: tensor_zp(out),
        output_multiplier: 0,
        output_shift: 0,
        left_shift: 0,
        input1_multiplier: 0,
        input1_shift: 0,
        input2_multiplier: 0,
        input2_shift: 0,
        quantized_activation_min: -128,
        quantized_activation_max: 127,
    };
    match kind {
        ElementwiseKind::Add | ElementwiseKind::Sub => {
            let (a, b): (i32, i32) = add_input_pair(s1, s1, s2);
            let (c, d): (i32, i32) = add_input_pair(s2, s1, s2);
            let (e, f): (i32, i32) = add_output_pair(s1, s2, so);
            params.left_shift = ADD_LEFT_SHIFT;
            params.input1_multiplier = a;
            params.input1_shift = b;
            params.input2_multiplier = c;
            params.input2_shift = d;
            params.output_multiplier = e;
            params.output_shift = f;
        },
        ElementwiseKind::Mul => {
            let (e, f): (i32, i32) = product_ratio_pair(s1, s2, so);
            params.output_multiplier = e;
            params.output_shift = f;
        },
        ElementwiseKind::Relu | ElementwiseKind::Relu6 | ElementwiseKind::HardSwish => {
            return None;
        },
    }
    Some(params)
}

/// A dimension of a shape, or a default where there is none.
pub open spec fn dim(shape: Seq<i32>, k: int, default: i32) -> i32 {
    if 0 <= k < shape.len() {
        shape[k]
    } else {
        default
    }
}

/// A dimension of a shape, or a default where there is none.
fn dim_or(shape: &Vec<i32>, k: usize, default: i32) -> (r: i32)
    ensures
        r == dim(shape@, k as int, default),
{
    if k < shape.len() {
        shape[k]
    } else {
        default
    }
}

/// The tensor of the first index in a list, where there is one.
pub open spec fn first_tensor(model: ParsedModel, list: Seq<u32>) -> Option<ParsedTensor> {
    if list.len() > 0 {
        model.tensor(list[0] as int)
    } else {
        None
    }
}

/// The tensor of the second index in a list, where there is one.
pub open spec fn second_tensor(model: ParsedModel, list: Seq<u32>) -> Option<ParsedTensor> {
    if list.len() > 1 {
        model.tensor(list[1] as int)
    } else {
        None
    }
}

fn tensor_of<'a>(model: &'a ParsedModel, list: &Vec<u32>, k: usize) -> (r: Option<&'a ParsedTensor>)
    ensures
        match r {
            Some(tensor) => k < list@.len() && model.tensor(list@[k as int] as int) == Some(*tensor),
            None => k >= list@.len() || model.tensor(list@[k as int] as int) is None,
        },
{
    if k < list.len() {
        model.tensor_by_index(list[k] as usize)
    } else {
        None
    }
}

/// Strides and filter of a pool: `(stride_w, stride_h, filter_w, filter_h)`. A
/// pool without options has stride one and a 2x2 window.
pub open spec fn pool_window(op: ParsedOp) -> (i32, i32, i32, i32) {
    match op.options {
        Some(ParsedOptions::Pool2D { padding, stride_w, stride_h, filter_w, filter_h, fused_activation }) => (
            stride_w,
            stride_h,
            filter_w,
            filter_h,
        ),
        _ => (1i32, 1i32, 2i32, 2i32),
    }
}

/// Padding and activation code of a pool.
pub open spec fn pool_codes(op: ParsedOp) -> (i8, i8) {
    match op.options {
        Some(ParsedOptions::Pool2D { padding, stride_w, stride_h, filter_w, filter_h, fused_activation }) => (
            padding,
            fused_activation,
        ),
        _ => (0i8, 0i8),
    }
}

/// Whether the pool of a group fits the vector unit; nothing where a tensor of
/// it is missing.
pub open spec fn pool_view_fits(model: ParsedModel, g: GroupView, op: ParsedOp) -> Option<bool> {
    match (first_tensor(model, g.inputs), model.tensor(g.output as int)) {
        (Some(input), Some(output)) => {
            let (stride_w, stride_h, filter_w, filter_h) = pool_window(op);
            Some(
                eligibility::window_fits(
                    dim(input.shape@, 1, 1) as int,
                    dim(input.shape@, 2, 1) as int,
                    crate::shape::channel_count(input.shape@),
                    dim(output.shape@, 1, 1) as int,
                    dim(output.shape@, 2, 1) as int,
                    filter_h as int,
                    filter_w as int,
                    stride_h as int,
                    stride_w as int,
                ),
            )
        },
        _ => None,
    }
}

/// Whether parameters are those of a pool: the dimensions of its tensors, and
/// window, padding and activation of its options.
pub open spec fn is_pool_view(
    params: PoolParams,
    model: ParsedModel,
    inputs: Seq<u32>,
    output: u32,
    op: ParsedOp,
) -> bool {
    let (stride_w, stride_h, filter_w, filter_h) = pool_window(op);
    let (padding, act) = pool_codes(op);
    &&& first_tensor(model, inputs) matches Some(t) && params.input_shape@ == seq![
        1i32,
        dim(t.shape@, 1, 1),
        dim(t.shape@, 2, 1),
        crate::shape::channel_count(t.shape@) as i32,
    ]
    &&& model.tensor(output as int) matches Some(t) && params.output_shape@ == seq![
        1i32,
        dim(t.shape@, 1, 1),
        dim(t.shape@, 2, 1),
        crate::shape::channel_count(t.shape@) as i32,
    ]
    &&& params.stride_width == stride_w
    &&& params.stride_height == stride_h
    &&& params.filter_width == filter_w
    &&& params.filter_height == filter_h
    &&& params.padding == if padding == 1 {
        Padding::Valid
    } else {
        Padding::Same
    }
    &&& params.activation == if act == 1 {
        FusedActivation::Relu
    } else if act == 3 {
        FusedActivation::Relu6
    } else {
        FusedActivation::Identity
    }
}

/// The parameters of the pool of a group. The activation range is not looked
/// at, so it is the full one.
pub fn pool_params_view(model: &ParsedModel, g: &FusedGroup, anchor: &ParsedOp) -> (r: Option<
    PoolParams,
>)
    ensures
        match r {
            Some(params) => {
                let (stride_w, stride_h, filter_w, filter_h) = pool_window(*anchor);
                &&& first_tensor(*model, g.inputs@) matches Some(input) && params.input_shape@
                    == seq![
                    1i32,
                    dim(input.shape@, 1, 1),
                    dim(input.shape@, 2, 1),
                    crate::shape::channel_count(input.shape@) as i32,
                ]
                &&& model.tensor(g.output_tensor as int) matches Some(output) && params.output_shape@
                    == seq![
                    1i32,
                    dim(output.shape@, 1, 1),
                    dim(output.shape@, 2, 1),
                    crate::shape::channel_count(output.shape@) as i32,
                ]
                &&& params.stride_width == stride_w && params.stride_height == stride_h
                &&& params.filter_width == filter_w && params.filter_height == filter_h
                &&& params.padding == if pool_codes(*anchor).0 == 1 {
                    Padding::Valid
                } else {
                    Padding::Same
                }
                &&& params.activation == if pool_codes(*anchor).1 == 1 {
                    FusedActivation::Relu
                } else if pool_codes(*anchor).1 == 3 {
                    FusedActivation::Relu6
                } else {
                    FusedActivation::Identity
                }
                &&& params.quantized_activation_min == -128
                &&& params.quantized_activation_max == 127
                &&& pool_view_fits(*model, g@, *anchor) == Some(eligibility::pool_fits(params))
                &&& is_pool_view(params, *model, g.inputs@, g.output_tensor, *anchor)
            },
            None => pool_view_fits(*model, g@, *anchor) is None,
        },
{
    let input = match tensor_of(model, &g.inputs, 0) {
        Some(t) => t,
        None => return None,
    };
    let output = match model.tensor_by_index(g.output_tensor as usize) {
        Some(t) => t,
        None => return None,
    };
    let (padding, stride_w, stride_h, filter_w, filter_h, fused_activation): (
        i8,
        i32,
        i32,
        i32,
        i32,
        i8,
    ) = match &anchor.options {
        Some(ParsedOptions::Pool2D { padding, stride_w, stride_h, filter_w, filter_h, fused_activation }) => (
            *padding,
            *stride_w,
            *stride_h,
            *filter_w,
            *filter_h,
            *fused_activation,
        ),
        _ => (0, 1, 1, 2, 2, 0),
    };
    let params = PoolParams {
        input_shape: [
            1,
            dim_or(&input.shape, 1, 1),
            dim_or(&input.shape, 2, 1),
            last_dim(&input.shape) as i32,
        ],
        output_shape: [
            1,
            dim_or(&output.shape, 1, 1),
            dim_or(&output.shape, 2, 1),
            last_dim(&output.shape) as i32,
        ],
        filter_width: filter_w,
        filter_height: filter_h,
        stride_width: stride_w,
        stride_height: stride_h,
        padding: if padding == 1 {
            Padding::Valid
        } else {
            Padding::Same
        },
        activation: if fused_activation == 1 {
            FusedActivation::Relu
        } else if fused_activation == 3 {
            FusedActivation::Relu6
        } else {
            FusedActivation::Identity
        },
        quantized_activation_min: -128,
        quantized_activation_max: 127,
    };
    assert(params.input_shape@ =~= seq![
        1i32,
        dim(input.shape@, 1, 1),
        dim(input.shape@, 2, 1),
        crate::shape::channel_count(input.shape@) as i32,
    ]);
    assert(params.output_shape@ =~= seq![
        1i32,
        dim(output.shape@, 1, 1),
        dim(output.shape@, 2, 1),
        crate::shape::channel_count(output.shape@) as i32,
    ]);
    Some(params)
}

/// What a fold computes.
pub open spec fn fold_kind(builtin: i32) -> Option<ElementwiseKind> {
    if builtin == MUL {
        Some(ElementwiseKind::Mul)
    } else if builtin == SUB {
        Some(ElementwiseKind::Sub)
    } else {
        None
    }
}

/// The parameters of a folded operator, from its own tensors.
pub open spec fn fold_view(model: ParsedModel, fold: InputFold) -> Option<ElementwiseParams> {
    if fold.op_index < model.ops@.len() {
        match (
            model.tensor(fold.folded_input_tensor as int),
            model.tensor(fold.operand_tensor as int),
            first_tensor(model, model.ops@[fold.op_index as int].outputs@),
            fold_kind(fold.builtin),
        ) {
            (Some(in1), Some(in2), Some(out), Some(kind)) => elementwise_view(
                in1,
                in2,
                out,
                kind,
                crate::shape::element_count(in1.shape@) as i32,
            ),
            _ => None,
        }
    } else {
        None
    }
}

/// The parameters of a folded operator, from its own tensors.
pub fn fold_params_view(model: &ParsedModel, fold: &InputFold) -> (r: Option<ElementwiseParams>)
    ensures
        r == fold_view(*model, *fold),
{
    if fold.op_index >= model.ops.len() {
        return None;
    }
    let op = &model.ops[fold.op_index];
    let in1 = match model.tensor_by_index(fold.folded_input_tensor as usize) {
        Some(t) => t,
        None => return None,
    };
    let in2 = match model.tensor_by_index(fold.operand_tensor as usize) {
        Some(t) => t,
        None => return None,
    };
    let out = match tensor_of(model, &op.outputs, 0) {
        Some(t) => t,
        None => return None,
    };
    let kind: ElementwiseKind = if fold.builtin == MUL {
        ElementwiseKind::Mul
    } else if fold.builtin == SUB {
        ElementwiseKind::Sub
    } else {
        return None;
    };
    let num_elements: i32 = word_count(&in1.shape);
    elementwise_params_view(in1, in2, out, kind, num_elements)
}

/// The number of elements of a tensor, as a word.
fn word_count(shape: &Vec<i32>) -> (r: i32)
    ensures
        r == crate::shape::element_count(shape@) as i32,
{
    #[verifier::truncate]
    (flat_prod(shape) as i32)
}

/// The activation code in the options of an elementwise operator.
pub open spec fn elementwise_code(options: Option<ParsedOptions>) -> i8 {
    match options {
        Some(ParsedOptions::Add { fused_activation, pot_scale_int16 }) => fused_activation,
        Some(ParsedOptions::Sub { fused_activation, pot_scale_int16 }) => fused_activation,
        Some(ParsedOptions::Mul { fused_activation }) => fused_activation,
        _ => 0,
    }
}

fn elementwise_activation(options: &Option<ParsedOptions>) -> (r: i8)
    ensures
        r == elementwise_code(*options),
{
    match options {
        Some(ParsedOptions::Add { fused_activation, .. }) => *fused_activation,
        Some(ParsedOptions::Sub { fused_activation, .. }) => *fused_activation,
        Some(ParsedOptions::Mul { fused_activation }) => *fused_activation,
        _ => 0,
    }
}

/// What the anchor of a chain computes.
pub open spec fn anchor_kind(builtin: i32) -> Option<ElementwiseKind> {
    if builtin == ADD {
        Some(ElementwiseKind::Add)
    } else if builtin == MUL {
        Some(ElementwiseKind::Mul)
    } else if builtin == SUB {
        Some(ElementwiseKind::Sub)
    } else {
        None
    }
}

/// Parameters with another activation range.
pub open spec fn with_range(params: ElementwiseParams, range: (i32, i32)) -> ElementwiseParams {
    ElementwiseParams {
        quantized_activation_min: range.0,
        quantized_activation_max: range.1,
        ..params
    }
}

/// The first step of a chain: the anchor with its own activation.
pub open spec fn anchor_view(
    model: ParsedModel,
    builtin: i32,
    op: ParsedOp,
    num_elements: i32,
) -> Option<StepView> {
    match (
        anchor_kind(builtin),
        first_tensor(model, op.inputs@),
        second_tensor(model, op.inputs@),
        first_tensor(model, op.outputs@),
    ) {
        (Some(kind), Some(in1), Some(in2), Some(out)) => match elementwise_view(
            in1,
            in2,
            out,
            kind,
            num_elements,
        ) {
            Some(params) => Some(
                StepView {
                    kind,
                    has_operand: true,
                    params: with_range(
                        params,
                        crate::requant::bounds(
                            elementwise_code(op.options),
                            usable_scale(out)->0,
                            word_of(out),
                        ),
                    ),
                },
            ),
            None => None,
        },
        _ => None,
    }
}

/// A later step of a chain, with the activation of its own operator.
pub open spec fn absorbed_view(model: ParsedModel, step: AbsorbedElementwise, num_elements: i32) -> StepView {
    let options = if step.op_index < model.ops@.len() {
        model.ops@[step.op_index as int].options
    } else {
        None
    };
    let range = crate::requant::bounds(
        elementwise_code(options),
        step.output_scale,
        crate::requant::low_word(step.output_zero_point),
    );
    let q = step.requantize;
    StepView {
        kind: step.kind,
        has_operand: step.operand_tensor != NO_TENSOR,
        params: ElementwiseParams {
            num_elements,
            input1_offset: q.input1_offset,
            input2_offset: q.input2_offset,
            output_offset: q.output_offset,
            output_multiplier: q.output_multiplier,
            output_shift: q.output_shift,
            left_shift: q.left_shift,
            input1_multiplier: q.input1_multiplier,
            input1_shift: q.input1_shift,
            input2_multiplier: q.input2_multiplier,
            input2_shift: q.input2_shift,
            quantized_activation_min: range.0,
            quantized_activation_max: range.1,
        },
    }
}

/// Whether the chain of a group fits the vector unit; nothing where the first
/// step cannot be derived.
pub open spec fn chain_view_fits(model: ParsedModel, g: GroupView, op: ParsedOp) -> Option<bool> {
    let num_elements = match first_tensor(model, g.inputs) {
        Some(tensor) => crate::shape::element_count(tensor.shape@) as i32,
        None => 0,
    };
    match anchor_view(model, g.builtin, op, num_elements) {
        Some(first) => Some(
            eligibility::view_fits(first) && forall|k: int|
                0 <= k < g.chain.len() ==> eligibility::view_fits(
                    absorbed_view(model, #[trigger] g.chain[k], num_elements),
                ),
        ),
        None => None,
    }
}

/// Whether the operand of a step, where it has one, is left empty.
pub open spec fn no_data(step: ElementwiseChainStep) -> bool {
    step.operand matches Some(data) ==> data@.len() == 0
}

/// The first step of a chain: the anchor with its own activation. The operand
/// only has to be there, so an empty slice stands for it.
pub fn chain_anchor_step(
    model: &ParsedModel,
    g: &FusedGroup,
    anchor: &ParsedOp,
    num_elements: i32,
) -> (r: Option<ElementwiseChainStep<'static>>)
    ensures
        match r {
            Some(step) => anchor_view(*model, g.anchor_builtin, *anchor, num_elements) == Some(
                eligibility::step_view(step, num_elements),
            ) && no_data(step),
            None => anchor_view(*model, g.anchor_builtin, *anchor, num_elements) is None,
        },
{
    let kind: ElementwiseKind = if g.anchor_builtin == ADD {
        ElementwiseKind::Add
    } else if g.anchor_builtin == MUL {
        ElementwiseKind::Mul
    } else if g.anchor_builtin == SUB {
        ElementwiseKind::Sub
    } else {
        return None;
    };
    let in1 = match tensor_of(model, &anchor.inputs, 0) {
        Some(t) => t,
        None => return None,
    };
    let in2 = match tensor_of(model, &anchor.inputs, 1) {
        Some(t) => t,
        None => return None,
    };
    let out = match tensor_of(model, &anchor.outputs, 0) {
        Some(t) => t,
        None => return None,
    };
    let fused_activation: i8 = elementwise_activation(&anchor.options);
    let out_scale: u32 = match tensor_scale(out) {
        Some(s) => s,
        None => return None,
    };
    let (amin, amax): (i32, i32) = act_range(fused_activation, out_scale, tensor_zp(out));
    match elementwise_params_view(in1, in2, out, kind, num_elements) {
        Some(q) => {
            let step = ElementwiseChainStep {
                kind,
                operand: Some(&[]),
                input1_offset: q.input1_offset,
                input2_offset: q.input2_offset,
                output_offset: q.output_offset,
                output_multiplier: q.output_multiplier,
                output_shift: q.output_shift,
                left_shift: q.left_shift,
                input1_multiplier: q.input1_multiplier,
                input1_shift: q.input1_shift,
                input2_multiplier: q.input2_multiplier,
                input2_shift: q.input2_shift,
                quantized_activation_min: amin,
                quantized_activation_max: amax,
            };
            Some(step)
        },
        None => None,
    }
}

fn absorbed_step(model: &ParsedModel, absorbed: &AbsorbedElementwise) -> (r: ElementwiseChainStep<
    'static,
>)
    ensures
        forall|n: i32| #[trigger]
            eligibility::step_view(r, n) == absorbed_view(*model, *absorbed, n),
        no_data(r),
{
    let fused: i8 = if absorbed.op_index < model.ops.len() {
        elementwise_activation(&model.ops[absorbed.op_index].options)
    } else {
        0
    };
    let (amin, amax): (i32, i32) = act_range(
        fused,
        absorbed.output_scale,
        to_word(absorbed.output_zero_point),
    );
    let rq = &absorbed.requantize;
    ElementwiseChainStep {
        kind: absorbed.kind,
        operand: if absorbed.operand_tensor == NO_TENSOR {
            None
        } else {
            Some(&[])
        },
        input1_offset: rq.input1_offset,
        input2_offset: rq.input2_offset,
        output_offset: rq.output_offset,
        output_multiplier: rq.output_multiplier,
        output_shift: rq.output_shift,
        left_shift: rq.left_shift,
        input1_multiplier: rq.input1_multiplier,
        input1_shift: rq.input1_shift,
        input2_multiplier: rq.input2_multiplier,
        input2_shift: rq.input2_shift,
        quantized_activation_min: amin,
        quantized_activation_max: amax,
    }
}

/// The later steps of a chain, each with the activation of its own operator.
pub fn chain_absorbed_steps(model: &ParsedModel, g: &FusedGroup) -> (steps: Vec<
    ElementwiseChainStep<'static>,
>)
    ensures
        steps@.len() == g.elementwise_chain@.len(),
        forall|k: int, n: i32|
            0 <= k < steps@.len() ==> #[trigger] eligibility::step_view(steps@[k], n)
                == absorbed_view(*model, g.elementwise_chain@[k], n),
        forall|k: int| 0 <= k < steps@.len() ==> no_data(#[trigger] steps@[k]),
{
    let mut steps: Vec<ElementwiseChainStep<'static>> = Vec::new();
    let mut i: usize = 0;
    while i < g.elementwise_chain.len()
        invariant
            i <= g.elementwise_chain@.len(),
            steps@.len() == i,
            forall|k: int, n: i32|
                0 <= k < i ==> #[trigger] eligibility::step_view(steps@[k], n) == absorbed_view(
                    *model,
                    g.elementwise_chain@[k],
                    n,
                ),
            forall|k: int| 0 <= k < i ==> no_data(#[trigger] steps@[k]),
        decreases g.elementwise_chain@.len() - i,
    {
        steps.push(absorbed_step(model, &g.elementwise_chain[i]));
        i = i + 1;
    }
    steps
}

/// Strides and dilations of a convolution: `(stride_w, stride_h, dilation_w,
/// dilation_h)`, all one without options.
pub open spec fn conv_window(op: ParsedOp) -> (i32, i32, i32, i32) {
    match op.options {
        Some(ParsedOptions::Conv2D { padding, stride_w, stride_h, dilation_w, dilation_h, fused_activation }) => (
            stride_w,
            stride_h,
            dilation_w,
            dilation_h,
        ),
        _ => (1i32, 1i32, 1i32, 1i32),
    }
}

/// Depth multiplier and dilations of a depthwise convolution: `(multiplier,
/// dilation_w, dilation_h)`, all one without options.
pub open spec fn depthwise_window(op: ParsedOp) -> (i32, i32, i32) {
    match op.options {
        Some(
            ParsedOptions::DepthwiseConv2D {
                padding,
                stride_w,
                stride_h,
                depth_multiplier,
                dilation_w,
                dilation_h,
                fused_activation,
            },
        ) => (depth_multiplier, dilation_w, dilation_h),
        _ => (1i32, 1i32, 1i32),
    }
}

/// A dimension as an unsigned word; a negative one becomes a large number.
pub open spec fn unsigned(d: i32) -> usize {
    d as usize
}

/// The estimate for a convolution.
pub open spec fn conv_estimate(model: ParsedModel, g: GroupView, op: ParsedOp) -> (SimdEst, Evidence) {
    match (
        second_tensor(model, op.inputs@),
        first_tensor(model, op.inputs@),
        model.tensor(g.output as int),
    ) {
        (None, _, _) => (SimdEst::NoSimdPath, Evidence::ConvWeightMissing),
        (_, None, _) => (SimdEst::NoSimdPath, Evidence::ConvInputMissing),
        (_, _, None) => (SimdEst::NoSimdPath, Evidence::ConvOutputMissing),
        (Some(w), Some(input), Some(out)) => {
            let in_c = crate::shape::channel_count(w.shape@);
            let out_c = crate::shape::channel_count(out.shape@);
            let fh = dim(w.shape@, 1, 0);
            let fw = dim(w.shape@, 2, 0);
            let (sw, sh, dw, dh) = conv_window(op);
            if fh == 1 && fw == 1 {
                if eligibility::conv1x1_fits(
                    in_c,
                    out_c,
                    sh as int,
                    sw as int,
                    dh as int,
                    dw as int,
                    unsigned(dim(input.shape@, 1, 1)) as int,
                    unsigned(dim(input.shape@, 2, 1)) as int,
                    unsigned(dim(out.shape@, 1, 1)) as int,
                    unsigned(dim(out.shape@, 2, 1)) as int,
                ) {
                    (SimdEst::Simd, Evidence::Conv1x1Fits)
                } else {
                    (SimdEst::Scalar, Evidence::Conv1x1Fails)
                }
            } else if eligibility::conv3x3_fits(
                in_c,
                out_c,
                fh as int,
                fw as int,
                dh as int,
                dw as int,
                offset_of(model, op.inputs@[0]) as int,
            ) {
                (SimdEst::Simd, Evidence::Conv3x3Fits)
            } else {
                (SimdEst::Scalar, Evidence::Conv3x3Fails)
            }
        },
    }
}

/// The estimate for a depthwise convolution.
pub open spec fn depthwise_estimate(model: ParsedModel, g: GroupView, op: ParsedOp) -> (
    SimdEst,
    Evidence,
) {
    match (
        first_tensor(model, op.inputs@),
        second_tensor(model, op.inputs@),
        model.tensor(g.output as int),
    ) {
        (None, _, _) => (SimdEst::NoSimdPath, Evidence::DepthwiseInputMissing),
        (_, None, _) => (SimdEst::NoSimdPath, Evidence::DepthwiseWeightMissing),
        (_, _, None) => (SimdEst::NoSimdPath, Evidence::DepthwiseOutputMissing),
        (Some(input), Some(w), Some(out)) => {
            let (dm, dw, dh) = depthwise_window(op);
            if eligibility::depthwise_fits(
                crate::shape::channel_count(input.shape@),
                crate::shape::channel_count(out.shape@),
                dm,
                dim(w.shape@, 1, 0) as int,
                dim(w.shape@, 2, 0) as int,
                dh as int,
                dw as int,
                offset_of(model, op.inputs@[0]) as int,
            ) {
                (SimdEst::Simd, Evidence::DepthwiseFits)
            } else {
                (SimdEst::Scalar, Evidence::DepthwiseFails)
            }
        },
    }
}

/// The number of elements of a tensor that may be missing.
pub open spec fn count_or_zero(tensor: Option<ParsedTensor>) -> int {
    match tensor {
        Some(t) => crate::shape::element_count(t.shape@),
        None => 0,
    }
}

/// The estimate for a pool, with its fold where it has one.
pub open spec fn pool_estimate(model: ParsedModel, g: GroupView, op: ParsedOp) -> (SimdEst, Evidence) {
    let fold_ok = match g.fold {
        None => true,
        Some(fold) => fold_view(model, fold) matches Some(params) && eligibility::fold_fits(
            fold.builtin,
            params,
        ),
    };
    match pool_view_fits(model, g, op) {
        None => (SimdEst::NoSimdPath, Evidence::PoolUnknown),
        Some(true) => if fold_ok {
            (SimdEst::Simd, Evidence::PoolFits)
        } else {
            (SimdEst::Scalar, Evidence::PoolFoldFails)
        },
        Some(false) => (SimdEst::Scalar, Evidence::PoolFails),
    }
}

/// Whether the kernel of the anchor of a group runs on the vector unit.
pub open spec fn estimate(model: ParsedModel, g: GroupView) -> (SimdEst, Evidence) {
    let op = model.ops@[g.anchor];
    if g.builtin == CONV_2D {
        conv_estimate(model, g, op)
    } else if g.builtin == DEPTHWISE_CONV_2D {
        depthwise_estimate(model, g, op)
    } else if g.builtin == FULLY_CONNECTED {
        if count_or_zero(first_tensor(model, g.inputs)) >= 1 && count_or_zero(
            model.tensor(g.output as int),
        ) >= 1 {
            (SimdEst::Simd, Evidence::FullyConnectedFits)
        } else {
            (SimdEst::Scalar, Evidence::FullyConnectedFails)
        }
    } else if g.builtin == AVERAGE_POOL_2D || g.builtin == MAX_POOL_2D {
        pool_estimate(model, g, op)
    } else if g.builtin == SOFTMAX {
        if first_tensor(model, g.inputs) matches Some(t) && crate::shape::channel_count(t.shape@)
            >= 16 {
            (SimdEst::Simd, Evidence::SoftmaxFits)
        } else {
            (SimdEst::Scalar, Evidence::SoftmaxFails)
        }
    } else if g.builtin == ADD || g.builtin == SUB || g.builtin == MUL {
        match chain_view_fits(model, g, op) {
            None => (SimdEst::NoSimdPath, Evidence::ChainUnknown),
            Some(true) => (SimdEst::Simd, Evidence::ChainFits),
            Some(false) => (SimdEst::Scalar, Evidence::ChainFails),
        }
    } else {
        (SimdEst::NoSimdPath, Evidence::NoKernel)
    }
}

fn estimate_conv(model: &ParsedModel, g: &FusedGroup, anchor: &ParsedOp) -> (r: (SimdEst, Evidence))
    ensures
        r == conv_estimate(*model, g@, *anchor),
{
    let w = match tensor_of(model, &anchor.inputs, 1) {
        Some(t) => t,
        None => return (SimdEst::NoSimdPath, Evidence::ConvWeightMissing),
    };
    let input = match tensor_of(model, &anchor.inputs, 0) {
        Some(t) => t,
        None => return (SimdEst::NoSimdPath, Evidence::ConvInputMissing),
    };
    let out = match model.tensor_by_index(g.output_tensor as usize) {
        Some(t) => t,
        None => return (SimdEst::NoSimdPath, Evidence::ConvOutputMissing),
    };
    let in_c: usize = last_dim(&w.shape);
    let out_c: usize = last_dim(&out.shape);
    let fh: i32 = dim_or(&w.shape, 1, 0);
    let fw: i32 = dim_or(&w.shape, 2, 0);
    let (sw, sh, dw, dh): (i32, i32, i32, i32) = match &anchor.options {
        Some(ParsedOptions::Conv2D { stride_w, stride_h, dilation_w, dilation_h, .. }) => (
            *stride_w,
            *stride_h,
            *dilation_w,
            *dilation_h,
        ),
        _ => (1, 1, 1, 1),
    };
    if fh == 1 && fw == 1 {
        if conv1x1_dispatch_eligible(
            in_c,
            out_c,
            sh,
            sw,
            dh,
            dw,
            to_unsigned(dim_or(&input.shape, 1, 1)),
            to_unsigned(dim_or(&input.shape, 2, 1)),
            to_unsigned(dim_or(&out.shape, 1, 1)),
            to_unsigned(dim_or(&out.shape, 2, 1)),
        ) {
            (SimdEst::Simd, Evidence::Conv1x1Fits)
        } else {
            (SimdEst::Scalar, Evidence::Conv1x1Fails)
        }
    } else if conv3x3_dispatch_eligible(
        in_c,
        out_c,
        fh,
        fw,
        dh,
        dw,
        input_offset_of(model, anchor.inputs[0]),
    ) {
        (SimdEst::Simd, Evidence::Conv3x3Fits)
    } else {
        (SimdEst::Scalar, Evidence::Conv3x3Fails)
    }
}

fn to_unsigned(d: i32) -> (r: usize)
    ensures
        r == unsigned(d),
{
    #[verifier::truncate]
    (d as usize)
}

fn estimate_depthwise(model: &ParsedModel, g: &FusedGroup, anchor: &ParsedOp) -> (r: (
    SimdEst,
    Evidence,
))
    ensures
        r == depthwise_estimate(*model, g@, *anchor),
{
    let input = match tensor_of(model, &anchor.inputs, 0) {
        Some(t) => t,
        None => return (SimdEst::NoSimdPath, Evidence::DepthwiseInputMissing),
    };
    let w = match tensor_of(model, &anchor.inputs, 1) {
        Some(t) => t,
        None => return (SimdEst::NoSimdPath, Evidence::DepthwiseWeightMissing),
    };
    let out = match model.tensor_by_index(g.output_tensor as usize) {
        Some(t) => t,
        None => return (SimdEst::NoSimdPath, Evidence::DepthwiseOutputMissing),
    };
    let (dm, dw, dh): (i32, i32, i32) = match &anchor.options {
        Some(ParsedOptions::DepthwiseConv2D { depth_multiplier, dilation_w, dilation_h, .. }) => (
            *depth_multiplier,
            *dilation_w,
            *dilation_h,
        ),
        _ => (1, 1, 1),
    };
    if depthwise_dispatch_eligible(
        last_dim(&input.shape),
        last_dim(&out.shape),
        dm,
        dim_or(&w.shape, 1, 0),
        dim_or(&w.shape, 2, 0),
        dh,
        dw,
        input_offset_of(model, anchor.inputs[0]),
    ) {
        (SimdEst::Simd, Evidence::DepthwiseFits)
    } else {
        (SimdEst::Scalar, Evidence::DepthwiseFails)
    }
}

fn estimate_pool(model: &ParsedModel, g: &FusedGroup, anchor: &ParsedOp) -> (r: (SimdEst, Evidence))
    ensures
        r == pool_estimate(*model, g@, *anchor),
{
    let pool: PoolParams = match pool_params_view(model, g, anchor) {
        Some(pool) => pool,
        None => return (SimdEst::NoSimdPath, Evidence::PoolUnknown),
    };
    let pool_ok: bool = simd_eligible_pool(&pool);
    let fold_ok: bool = match &g.input_fold {
        None => true,
        Some(fold) => match fold_params_view(model, fold) {
            Some(params) => fold_is_exact(fold.builtin, &params),
            None => false,
        },
    };
    if pool_ok && fold_ok {
        (SimdEst::Simd, Evidence::PoolFits)
    } else if pool_ok {
        (SimdEst::Scalar, Evidence::PoolFoldFails)
    } else {
        (SimdEst::Scalar, Evidence::PoolFails)
    }
}

fn estimate_chain(model: &ParsedModel, g: &FusedGroup, anchor: &ParsedOp) -> (r: (SimdEst, Evidence))
    ensures
        r == match chain_view_fits(*model, g@, *anchor) {
            None => (SimdEst::NoSimdPath, Evidence::ChainUnknown),
            Some(true) => (SimdEst::Simd, Evidence::ChainFits),
            Some(false) => (SimdEst::Scalar, Evidence::ChainFails),
        },
{
    let num_elements: i32 = match tensor_of(model, &g.inputs, 0) {
        Some(t) => word_count(&t.shape),
        None => 0,
    };
    let first = match chain_anchor_step(model, g, anchor, num_elements) {
        Some(step) => step,
        None => return (SimdEst::NoSimdPath, Evidence::ChainUnknown),
    };
    let mut steps: Vec<ElementwiseChainStep<'static>> = Vec::new();
    steps.push(first);
    let mut rest = chain_absorbed_steps(model, g);
    let ghost later = rest@;
    steps.append(&mut rest);
    let params = ElementwiseChainParams { num_elements, steps: steps.as_slice() };
    let fits: bool = chain_simd_eligible(&params);
    proof {
        assert(steps@ =~= seq![first] + later);
        assert(steps@[0] == first);
        let all = forall|k: int|
            0 <= k < g@.chain.len() ==> eligibility::view_fits(
                absorbed_view(*model, #[trigger] g@.chain[k], num_elements),
            );
        if fits {
            assert(eligibility::step_fits(steps@[0], num_elements));
            assert forall|k: int| 0 <= k < g@.chain.len() implies eligibility::view_fits(
                absorbed_view(*model, #[trigger] g@.chain[k], num_elements),
            ) by {
                assert(eligibility::step_fits(steps@[k + 1], num_elements));
                assert(steps@[k + 1] == later[k]);
            }
        }
        if all && eligibility::step_fits(first, num_elements) {
            assert forall|k: int| 0 <= k < steps@.len() implies eligibility::step_fits(
                #[trigger] steps@[k],
                num_elements,
            ) by {
                if k > 0 {
                    assert(steps@[k] == later[k - 1]);
                    assert(eligibility::view_fits(
                        absorbed_view(*model, g@.chain[k - 1], num_elements),
                    ));
                }
            }
        }
    }
    if fits {
        (SimdEst::Simd, Evidence::ChainFits)
    } else {
        (SimdEst::Scalar, Evidence::ChainFails)
    }
}

fn estimate_group(model: &ParsedModel, g: &FusedGroup) -> (r: (SimdEst, Evidence))
    requires
        g.anchor_op_index < model.ops@.len(),
    ensures
        r == estimate(*model, g@),
{
    let anchor = &model.ops[g.anchor_op_index];
    let builtin: i32 = g.anchor_builtin;
    if builtin == CONV_2D {
        estimate_conv(model, g, anchor)
    } else if builtin == DEPTHWISE_CONV_2D {
        estimate_depthwise(model, g, anchor)
    } else if builtin == FULLY_CONNECTED {
        let in_dim: usize = match tensor_of(model, &g.inputs, 0) {
            Some(t) => flat_prod(&t.shape),
            None => 0,
        };
        let out_dim: usize = match model.tensor_by_index(g.output_tensor as usize) {
            Some(t) => flat_prod(&t.shape),
            None => 0,
        };
        if fc_dispatch_eligible(in_dim, out_dim) {
            (SimdEst::Simd, Evidence::FullyConnectedFits)
        } else {
            (SimdEst::Scalar, Evidence::FullyConnectedFails)
        }
    } else if builtin == AVERAGE_POOL_2D || builtin == MAX_POOL_2D {
        estimate_pool(model, g, anchor)
    } else if builtin == SOFTMAX {
        let row_size: i32 = match tensor_of(model, &g.inputs, 0) {
            Some(t) => last_dim(&t.shape) as i32,
            None => 0,
        };
        if softmax_row_simd_eligible(row_size) {
            (SimdEst::Simd, Evidence::SoftmaxFits)
        } else {
            (SimdEst::Scalar, Evidence::SoftmaxFails)
        }
    } else if builtin == ADD || builtin == SUB || builtin == MUL {
        estimate_chain(model, g, anchor)
    } else {
        (SimdEst::NoSimdPath, Evidence::NoKernel)
    }
}

/// Whether the kernel of the anchor of a group runs on the vector unit, and
/// what that rests on.
pub fn simd_eligibility(model: &ParsedModel, g: &FusedGroup) -> (r: (SimdEst, String))
    requires
        g.anchor_op_index < model.ops@.len(),
    ensures
        r.0 == estimate(*model, g@).0,
        r.1@ == estimate(*model, g@).1.spec_text(),
{
    let (simd, evidence): (SimdEst, Evidence) = estimate_group(model, g);
    (simd, evidence.text().to_owned())
}

/// Whether a group is a convolution that absorbed something.
pub open spec fn matches_conv(g: GroupView) -> bool {
    g.builtin == CONV_2D && (g.residual is Some || g.absorbed.len() > 0)
}

/// Whether a group is an elementwise operator with steps behind it.
pub open spec fn matches_chain(g: GroupView) -> bool {
    (g.builtin == ADD || g.builtin == SUB || g.builtin == MUL) && g.chain.len() > 0
}

/// Whether a group is a pool with a folded input.
pub open spec fn matches_pool(g: GroupView) -> bool {
    (g.builtin == AVERAGE_POOL_2D || g.builtin == MAX_POOL_2D) && g.fold is Some
}

/// Whether a group is a convolution that absorbed something.
pub fn conv_candidate(group: &FusedGroup) -> (r: bool)
    ensures
        r == matches_conv(group@),
{
    group.anchor_builtin == CONV_2D && (group.residual_add.is_some() || group.absorbed_ops.len() > 0)
}

/// Whether a group is an elementwise operator with steps behind it.
pub fn chain_candidate(group: &FusedGroup) -> (r: bool)
    ensures
        r == matches_chain(group@),
{
    (group.anchor_builtin == ADD || group.anchor_builtin == SUB || group.anchor_builtin == MUL)
        && group.elementwise_chain.len() > 0
}

/// Whether a group is a pool with a folded input.
pub fn pool_fold_candidate(group: &FusedGroup) -> (r: bool)
    ensures
        r == matches_pool(group@),
{
    (group.anchor_builtin == AVERAGE_POOL_2D || group.anchor_builtin == MAX_POOL_2D)
        && group.input_fold.is_some()
}

/// Whether a composed kernel matches the operators of a group.
pub fn has_composed_candidate(group: &FusedGroup) -> (r: bool)
    ensures
        r == (matches_conv(group@) || matches_chain(group@) || matches_pool(group@)),
{
    conv_candidate(group) || chain_candidate(group) || pool_fold_candidate(group)
}

/// The first composed kernel that matches the operators of a group.
pub open spec fn candidate(g: GroupView) -> Option<ComposedKind> {
    if matches_conv(g) {
        Some(ComposedKind::Conv)
    } else if matches_chain(g) {
        Some(ComposedKind::Chain)
    } else if matches_pool(g) {
        Some(ComposedKind::PoolFold)
    } else {
        None
    }
}

/// What computes a group: the kernel that matches, where it runs on the vector
/// unit and the group does not change rounding.
pub open spec fn selected_kernel(model: ParsedModel, g: GroupView) -> GroupSelection {
    match candidate(g) {
        Some(kind) => if !g.requires_verification && estimate(model, g).0 == SimdEst::Simd {
            GroupSelection::Composed(kind)
        } else {
            GroupSelection::PerOp
        },
        None => GroupSelection::PerOp,
    }
}

/// What a selection says before its evidence.
pub open spec fn selection_prefix(model: ParsedModel, g: GroupView) -> Seq<char> {
    if g.requires_verification {
        "T2 group (requires_verification) — per-op until the fused==unfused verification passes (W5 flips); "@
    } else if estimate(model, g).0 == SimdEst::Simd {
        Seq::empty()
    } else {
        match candidate(g) {
            Some(ComposedKind::Conv) => "conv composed mirror-ineligible — per-op, no silent scalar composed call: "@,
            Some(ComposedKind::Chain) => "chain composed mirror-ineligible — per-op, no silent scalar composed call: "@,
            Some(ComposedKind::PoolFold) => "pool-fold composed mirror-ineligible — per-op, no silent scalar composed call: "@,
            None => Seq::empty(),
        }
    }
}

/// Picks what computes a group: the first matching composed kernel, where its
/// vector path runs, and one kernel per operator otherwise.
pub fn select_kernel(model: &ParsedModel, group: &FusedGroup) -> (r: Selection)
    requires
        group.anchor_op_index < model.ops@.len(),
    ensures
        r.kernel == selected_kernel(*model, group@),
        r.simd == estimate(*model, group@).0,
        r.reason@ == selection_prefix(*model, group@) + estimate(*model, group@).1.spec_text(),
{
    let (simd, evidence): (SimdEst, Evidence) = estimate_group(model, group);
    let note: &'static str = evidence.text();
    if group.requires_verification {
        return Selection {
            kernel: GroupSelection::PerOp,
            reason: join(
                "T2 group (requires_verification) — per-op until the fused==unfused verification passes (W5 flips); ",
                note,
            ),
            simd,
        };
    }
    assert(Seq::<char>::empty() + note@ =~= note@);
    let (kind, prefix): (ComposedKind, &'static str) = if conv_candidate(group) {
        (
            ComposedKind::Conv,
            "conv composed mirror-ineligible — per-op, no silent scalar composed call: ",
        )
    } else if chain_candidate(group) {
        (
            ComposedKind::Chain,
            "chain composed mirror-ineligible — per-op, no silent scalar composed call: ",
        )
    } else if pool_fold_candidate(group) {
        (
            ComposedKind::PoolFold,
            "pool-fold composed mirror-ineligible — per-op, no silent scalar composed call: ",
        )
    } else {
        return Selection { kernel: GroupSelection::PerOp, reason: note.to_owned(), simd };
    };
    if simd == SimdEst::Simd {
        Selection { kernel: GroupSelection::Composed(kind), reason: note.to_owned(), simd }
    } else {
        Selection { kernel: GroupSelection::PerOp, reason: join(prefix, note), simd }
    }
}

/// Whether the caller's input is copied to an aligned place before the first
/// kernel reads it.
#[derive(Debug)]
pub struct StagingDecision {
    pub stage: bool,
    /// Size of the model's input.
    pub bytes: usize,
    /// Anchor of the first kernel.
    pub first_anchor: usize,
    pub reason: String,
}

/// The size of the tensors in a list.
pub open spec fn byte_count(model: ParsedModel, list: Seq<u32>) -> int
    decreases list.len(),
{
    if list.len() == 0 {
        0
    } else {
        byte_count(model, list.drop_last()) + count_or_zero(model.tensor(list.last() as int))
    }
}

/// Why an input is staged, or not.
pub open spec fn staging_reason(stage: bool, bytes: nat, note: Seq<char>) -> Seq<char> {
    if stage {
        "stage "@ + crate::text::decimal(bytes)
            + " B into a 16B-aligned intermediate (default YES) — first kernel SIMD-eligible: "@
            + note + "; copy ≈ "@ + crate::text::decimal(bytes) + " B ≈ "@ + crate::text::decimal(
            (bytes + 3) / 4,
        ) + " cycles at ~4 B/cyc (word memcpy), ~1-time per predict"@
    } else {
        "no staging — first kernel does not benefit: "@ + note
    }
}

proof fn lemma_byte_count_grows(model: ParsedModel, list: Seq<u32>, k: int)
    requires
        0 <= k <= list.len(),
    ensures
        0 <= byte_count(model, list.take(k)) <= byte_count(model, list),
    decreases list.len() - k,
{
    if k < list.len() {
        lemma_byte_count_grows(model, list, k + 1);
        assert(list.take(k + 1).drop_last() =~= list.take(k));
        lemma_count_not_negative(model.tensor(list.take(k + 1).last() as int));
        lemma_byte_count_not_negative(model, list.take(k));
    } else {
        assert(list.take(k) =~= list);
        lemma_byte_count_not_negative(model, list);
    }
}

proof fn lemma_byte_count_not_negative(model: ParsedModel, list: Seq<u32>)
    ensures
        byte_count(model, list) >= 0,
    decreases list.len(),
{
    if list.len() > 0 {
        lemma_byte_count_not_negative(model, list.drop_last());
        lemma_count_not_negative(model.tensor(list.last() as int));
    }
}

proof fn lemma_count_not_negative(tensor: Option<ParsedTensor>)
    ensures
        count_or_zero(tensor) >= 0,
{
    match tensor {
        Some(t) => if crate::shape::all_positive(t.shape@) {
            crate::shape::lemma_product_positive(t.shape@);
        },
        None => {},
    }
}

/// Decides whether the input is copied to an aligned place: it is where the
/// first kernel runs on the vector unit, which demands alignment.
pub fn input_staging_decision(model: &ParsedModel, first: &FusedGroup) -> (r: StagingDecision)
    requires
        first.anchor_op_index < model.ops@.len(),
        byte_count(*model, model.inputs@) <= usize::MAX,
    ensures
        r.stage == (estimate(*model, first@).0 == SimdEst::Simd),
        r.bytes == byte_count(*model, model.inputs@),
        r.first_anchor == first.anchor_op_index,
        r.reason@ == staging_reason(
            r.stage,
            r.bytes as nat,
            estimate(*model, first@).1.spec_text(),
        ),
{
    let mut bytes: usize = 0;
    let mut k: usize = 0;
    assert(model.inputs@.take(0) =~= Seq::empty());
    while k < model.inputs.len()
        invariant
            k <= model.inputs@.len(),
            bytes == byte_count(*model, model.inputs@.take(k as int)),
            byte_count(*model, model.inputs@) <= usize::MAX,
        decreases model.inputs@.len() - k,
    {
        proof {
            lemma_byte_count_grows(*model, model.inputs@, k + 1);
            assert(model.inputs@.take(k + 1).drop_last() =~= model.inputs@.take(k as int));
        }
        let size: usize = match model.tensor_by_index(model.inputs[k] as usize) {
            Some(t) => flat_prod(&t.shape),
            None => 0,
        };
        bytes = bytes + size;
        k = k + 1;
    }
    assert(model.inputs@.take(model.inputs@.len() as int) =~= model.inputs@);
    let (simd, evidence): (SimdEst, Evidence) = estimate_group(model, first);
    let note: &'static str = evidence.text();
    let stage: bool = simd == SimdEst::Simd;
    let reason: String = if stage {
        let size = to_decimal(bytes as u64);
        let cycles: u64 = bytes as u64 / 4 + (if bytes % 4 == 0 { 0 } else { 1 });
        let mut text = join("stage ", size.as_str());
        text.append(
            " B into a 16B-aligned intermediate (default YES) — first kernel SIMD-eligible: ",
        );
        text.append(note);
        text.append("; copy ≈ ");
        text.append(size.as_str());
        text.append(" B ≈ ");
        text.append(to_decimal(cycles).as_str());
        text.append(" cycles at ~4 B/cyc (word memcpy), ~1-time per predict");
        text
    } else {
        join("no staging — first kernel does not benefit: ", note)
    };
    StagingDecision { stage, bytes, first_anchor: first.anchor_op_index, reason }
}

/// A composed kernel is selected only where its vector path runs and the group
/// does not change rounding; so a composed call never falls back silently.
pub proof fn law_composed_kernels_run_on_the_vector_unit(model: ParsedModel, g: GroupView)
    requires
        selected_kernel(model, g) is Composed,
    ensures
        estimate(model, g).0 == SimdEst::Simd,
        !g.requires_verification,
        candidate(g) == Some(selected_kernel(model, g)->Composed_0),
{
}

/// No group that a composed kernel can compute is left to single operators.
pub proof fn law_fitting_candidates_are_taken(model: ParsedModel, g: GroupView)
    requires
        matches_conv(g) || matches_chain(g) || matches_pool(g),
        estimate(model, g).0 == SimdEst::Simd,
        !g.requires_verification,
    ensures
        selected_kernel(model, g) is Composed,
{
}

/// At most one composed kernel matches a group.
pub proof fn law_candidates_exclude_each_other(g: GroupView)
    ensures
        !(matches_conv(g) && matches_chain(g)),
        !(matches_conv(g) && matches_pool(g)),
        !(matches_chain(g) && matches_pool(g)),
{
}

/// A group that changes rounding runs operator by operator. So does every group
/// of a fused model that folds an input or a scale change.
pub proof fn law_rounding_changes_run_per_operator(model: ParsedModel, k: int)
    requires
        crate::schedule::executable(model),
        0 <= k < crate::fusion::fused_groups(model).len(),
        ({
            let g = crate::fusion::fused_groups(model)[k];
            g.fold is Some || g.requantize is Some
        }),
    ensures
        selected_kernel(model, crate::fusion::fused_groups(model)[k]) == GroupSelection::PerOp,
{
    crate::schedule::law_rounding_changes_are_tagged(model, k);
}

} // verus!
