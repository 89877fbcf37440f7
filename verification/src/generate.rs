//! The emitted call of every operator: what it reads and writes, and the
//! integer parameters that are computed beforehand. Of each operator one
//! specification says when there is no call and why, in the order of the
//! checks, and one says what the call is.

use crate::bytes::{read_word, read_words};
use crate::emit_error::{EmitError, OperandName, OperatorName, OptionsName};
use crate::model::{ParsedModel, ParsedOp, ParsedOptions, ADD, CONV_2D, DEPTHWISE_CONV_2D};
use crate::model::{FULLY_CONNECTED, HARD_SWISH, MUL, PRELU, RELU, RELU6, SOFTMAX, SUB};
use crate::op_params::{ActivationParams, Conv2DParams, DepthwiseConv2DParams, ElementwiseParams};
use crate::op_params::{FullyConnectedParams, PadParams, Padding, PoolKind, PoolParams};
use crate::op_params::{ReduceParams, ReshapeParams, ResizeNearestParams, SoftmaxParams};
use crate::op_params::TransposeParams;
use crate::operands::{bias_const, check_count, check_operand, check_weights, conv_quant, dst_expr};
use crate::operands::{find_outside, flat_len};
use crate::operands::{fused_activation_enum, optional_operand, padding_enum, required_operand};
use crate::operands::{shape4, src_expr, tensor_at, tensor_quant, weight_const};
use crate::operands::{ConvQuant, Source, Storage, Target};
use crate::requant::{act_range, add_input_pair, add_output_pair, negate, product_ratio_pair};
use crate::requant::{ratio_pair, to_word, ADD_LEFT_SHIFT, UNIT_SCALE};
use crate::operands;
use vstd::prelude::*;

verus! {

/// The emitted call of a convolution.
#[derive(Debug)]
pub struct ConvEmission {
    pub source: Source,
    pub target: Target,
    pub weights: Vec<i8>,
    pub bias: Vec<i32>,
    pub quant: ConvQuant,
    pub input_shape: [i32; 4],
    pub filter_shape: [i32; 4],
    pub output_shape: [i32; 4],
    pub padding: Padding,
    pub stride_width: i32,
    pub stride_height: i32,
    pub dilation_width_factor: i32,
    pub dilation_height_factor: i32,
}

/// The emitted call of a depthwise convolution.
#[derive(Debug)]
pub struct DepthwiseEmission {
    pub conv: ConvEmission,
    pub depth_multiplier: i32,
}

/// The emitted call of a dense layer.
#[derive(Debug)]
pub struct FullyConnectedEmission {
    pub source: Source,
    pub target: Target,
    pub weights: Vec<i8>,
    pub bias: Vec<i32>,
    pub quant: ConvQuant,
    pub input_dim: i32,
    pub output_dim: i32,
}

/// The emitted call of a pool.
#[derive(Debug)]
pub struct PoolEmission {
    pub kind: PoolKind,
    pub source: Source,
    pub target: Target,
    pub params: PoolParams,
}

/// The emitted call of a softmax.
#[derive(Debug)]
pub struct SoftmaxEmission {
    pub source: Source,
    pub target: Target,
    pub params: SoftmaxParams,
}

/// Which kernel an activation calls.
#[derive(Clone, Copy, Debug, PartialEq, Eq, Structural)]
pub enum ActivationMethod {
    Relu,
    Relu6,
    HardSwish,
    LeakyRelu,
    Prelu,
}

/// The emitted call of an activation. What the kernel does not read is zero.
#[derive(Debug)]
pub struct ActivationEmission {
    pub method: ActivationMethod,
    pub source: Source,
    pub target: Target,
    pub input_offset: i32,
    pub output_offset: i32,
    /// Multiplier and shift of ReLU, ReLU6 and hard swish.
    pub output: (i32, i32),
    pub act_min: i32,
    pub act_max: i32,
    /// Multiplier and shift of leaky ReLU above zero.
    pub identity: (i32, i32),
    /// Multiplier and shift of leaky ReLU below zero.
    pub slope: (i32, i32),
    /// Multiplier and shift of PReLU above zero.
    pub above: (i32, i32),
    /// Multiplier and shift of PReLU below zero.
    pub below: (i32, i32),
    pub alpha_offset: i32,
    pub alpha: Vec<i8>,
}

/// Which kernel an elementwise operator calls.
#[derive(Clone, Copy, Debug, PartialEq, Eq, Structural)]
pub enum ElementwiseMethod {
    Add,
    Sub,
    Mul,
}

/// The emitted call of an elementwise operator.
#[derive(Debug)]
pub struct ElementwiseEmission {
    pub method: ElementwiseMethod,
    pub source1: Source,
    pub source2: Source,
    pub target: Target,
    pub params: ElementwiseParams,
}

/// The emitted call of a mean.
#[derive(Debug)]
pub struct MeanEmission {
    pub source: Source,
    pub target: Target,
    pub params: ReduceParams,
}

/// The emitted call of a reshape.
#[derive(Debug)]
pub struct ReshapeEmission {
    pub source: Source,
    pub target: Target,
    pub params: ReshapeParams,
}

/// The emitted call of a pad.
#[derive(Debug)]
pub struct PadEmission {
    pub source: Source,
    pub target: Target,
    pub params: PadParams,
}

/// The emitted call of a transpose.
#[derive(Debug)]
pub struct TransposeEmission {
    pub source: Source,
    pub target: Target,
    pub params: TransposeParams,
}

/// The emitted call of a nearest-neighbour resize.
#[derive(Debug)]
pub struct ResizeEmission {
    pub source: Source,
    pub target: Target,
    pub params: ResizeNearestParams,
}

/// The first operands and the output of an operator.
pub open spec fn input_of(op: ParsedOp) -> u32 {
    op.inputs@[0]
}

/// The second operand of an operator.
pub open spec fn second_of(op: ParsedOp) -> u32 {
    op.inputs@[1]
}

/// The output of an operator.
pub open spec fn output_of(op: ParsedOp) -> u32 {
    op.outputs@[0]
}

/// Fails where an operator with one operand lacks it or its output.
pub open spec fn unary(model: ParsedModel, op: ParsedOp, name: OperatorName) -> Option<EmitError> {
    operands::either(
        operands::listed(op.inputs@, 0, name, OperandName::Input),
        operands::either(
            operands::listed(op.outputs@, 0, name, OperandName::Output),
            operands::either(
                operands::known(model, input_of(op)),
                operands::known(model, output_of(op)),
            ),
        ),
    )
}

/// Fails where an operator with two operands lacks one or its output.
pub open spec fn binary(
    model: ParsedModel,
    op: ParsedOp,
    name: OperatorName,
    first: OperandName,
    second: OperandName,
) -> Option<EmitError> {
    operands::either(
        operands::listed(op.inputs@, 0, name, first),
        operands::either(
            operands::listed(op.inputs@, 1, name, second),
            operands::either(
                operands::listed(op.outputs@, 0, name, OperandName::Output),
                operands::either(
                    operands::known(model, input_of(op)),
                    operands::either(
                        operands::known(model, second_of(op)),
                        operands::known(model, output_of(op)),
                    ),
                ),
            ),
        ),
    )
}

/// Fails where an operator reads or writes what it cannot.
pub open spec fn placed(storage: Seq<Storage>, op: ParsedOp) -> Option<EmitError> {
    operands::either(
        operands::readable(storage, input_of(op)),
        operands::writable(storage, output_of(op)),
    )
}

/// The operand and the output of an operator.
fn unary_operands(model: &ParsedModel, op: &ParsedOp, name: OperatorName) -> (r: Result<
    (u32, u32),
    EmitError,
>)
    ensures
        match r {
            Ok(ts) => {
                &&& unary(*model, *op, name) is None
                &&& ts == (input_of(*op), output_of(*op))
                &&& ts.0 < model.tensors@.len()
                &&& ts.1 < model.tensors@.len()
            },
            Err(e) => unary(*model, *op, name) == Some(e),
        },
{
    let input: u32 = required_operand(&op.inputs, 0, name, OperandName::Input)?;
    let output: u32 = required_operand(&op.outputs, 0, name, OperandName::Output)?;
    tensor_at(model, input)?;
    tensor_at(model, output)?;
    Ok((input, output))
}

/// The two operands and the output of an operator.
fn binary_operands(
    model: &ParsedModel,
    op: &ParsedOp,
    name: OperatorName,
    first: OperandName,
    second: OperandName,
) -> (r: Result<(u32, u32, u32), EmitError>)
    ensures
        match r {
            Ok(ts) => {
                &&& binary(*model, *op, name, first, second) is None
                &&& ts == (input_of(*op), second_of(*op), output_of(*op))
                &&& ts.0 < model.tensors@.len()
                &&& ts.1 < model.tensors@.len()
                &&& ts.2 < model.tensors@.len()
            },
            Err(e) => binary(*model, *op, name, first, second) == Some(e),
        },
{
    let a: u32 = required_operand(&op.inputs, 0, name, first)?;
    let b: u32 = required_operand(&op.inputs, 1, name, second)?;
    let output: u32 = required_operand(&op.outputs, 0, name, OperandName::Output)?;
    tensor_at(model, a)?;
    tensor_at(model, b)?;
    tensor_at(model, output)?;
    Ok((a, b, output))
}

/// Where an operator reads and writes.
fn places(storage: &Vec<Storage>, input: u32, output: u32) -> (r: Result<
    (Source, Target),
    EmitError,
>)
    ensures
        match r {
            Ok(p) => {
                &&& operands::either(
                    operands::readable(storage@, input),
                    operands::writable(storage@, output),
                ) is None
                &&& p == (
                    operands::source_of(storage@, input),
                    operands::target_of(storage@, output),
                )
            },
            Err(e) => operands::either(
                operands::readable(storage@, input),
                operands::writable(storage@, output),
            ) == Some(e),
        },
{
    let source: Source = src_expr(storage, input)?;
    let target: Target = dst_expr(storage, output)?;
    Ok((source, target))
}

/// The output channels of a convolution: the first dimension of its filter, or
/// the last where it is depthwise.
pub open spec fn filter_channels(model: ParsedModel, op: ParsedOp, depthwise: bool) -> nat {
    let filter = operands::widened(model.tensors@[second_of(op) as int].shape@);
    if depthwise {
        filter[3] as nat
    } else {
        filter[0] as nat
    }
}

/// Fails where a convolution has no call, its options apart.
pub open spec fn conv_failure(
    model: ParsedModel,
    storage: Seq<Storage>,
    op: ParsedOp,
    padding: i8,
    depthwise: bool,
) -> Option<EmitError> {
    let channels = filter_channels(model, op, depthwise);
    let name = if depthwise {
        OperatorName::Depthwise
    } else {
        OperatorName::Conv2D
    };
    operands::either(
        binary(model, op, name, OperandName::Input, OperandName::Weights),
        operands::either(
            operands::four_dimensional(model.tensors@[input_of(op) as int].shape@),
            operands::either(
                operands::four_dimensional(model.tensors@[second_of(op) as int].shape@),
                operands::either(
                    operands::four_dimensional(model.tensors@[output_of(op) as int].shape@),
                    operands::either(
                        operands::conv_quantized(
                            model,
                            input_of(op),
                            second_of(op),
                            output_of(op),
                            channels,
                        ),
                        operands::either(
                            operands::padded(padding),
                            operands::either(
                                operands::weighted(model, second_of(op)),
                                operands::either(
                                    operands::biased(
                                        model,
                                        operands::optional(op.inputs@, 2),
                                        channels,
                                    ),
                                    placed(storage, op),
                                ),
                            ),
                        ),
                    ),
                ),
            ),
        ),
    )
}

/// Whether a call is that of a convolution, its strides and dilations apart.
pub open spec fn is_conv(
    e: ConvEmission,
    model: ParsedModel,
    storage: Seq<Storage>,
    op: ParsedOp,
    padding: i8,
    act: i8,
    depthwise: bool,
) -> bool {
    let input = model.tensors@[input_of(op) as int];
    let weights = model.tensors@[second_of(op) as int];
    let output = model.tensors@[output_of(op) as int];
    let channels = filter_channels(model, op, depthwise);
    &&& e.source == operands::source_of(storage, input_of(op))
    &&& e.target == operands::target_of(storage, output_of(op))
    &&& e.weights@ == operands::weights_of(model, second_of(op))
    &&& e.bias@ == operands::bias_of(model, operands::optional(op.inputs@, 2), channels)
    &&& operands::is_conv_quant(e.quant, input, weights, output, channels, act)
    &&& e.input_shape@ == operands::widened(input.shape@)
    &&& e.filter_shape@ == operands::widened(weights.shape@)
    &&& e.output_shape@ == operands::widened(output.shape@)
    &&& e.padding == operands::padding_of(padding)
}

/// Strides and dilations of a convolution, and its padding and activation.
#[derive(Clone, Copy)]
struct ConvOptions {
    padding: i8,
    stride_w: i32,
    stride_h: i32,
    dilation_w: i32,
    dilation_h: i32,
    activation: i8,
}

/// The call of a convolution.
fn emit_conv(
    model: &ParsedModel,
    storage: &Vec<Storage>,
    op: &ParsedOp,
    options: ConvOptions,
    depthwise: bool,
) -> (r: Result<ConvEmission, EmitError>)
    requires
        operands::weights_fit(*model, op.inputs@, 1),
    ensures
        match r {
            Ok(e) => {
                &&& conv_failure(*model, storage@, *op, options.padding, depthwise) is None
                &&& is_conv(
                    e,
                    *model,
                    storage@,
                    *op,
                    options.padding,
                    options.activation,
                    depthwise,
                )
                &&& e.stride_width == options.stride_w
                &&& e.stride_height == options.stride_h
                &&& e.dilation_width_factor == options.dilation_w
                &&& e.dilation_height_factor == options.dilation_h
            },
            Err(e) => conv_failure(*model, storage@, *op, options.padding, depthwise) == Some(e),
        },
{
    let name: OperatorName = if depthwise {
        OperatorName::Depthwise
    } else {
        OperatorName::Conv2D
    };
    let (input, weights, output): (u32, u32, u32) = binary_operands(
        model,
        op,
        name,
        OperandName::Input,
        OperandName::Weights,
    )?;
    let input_shape: [i32; 4] = shape4(&model.tensors[input as usize].shape)?;
    let filter_shape: [i32; 4] = shape4(&model.tensors[weights as usize].shape)?;
    let output_shape: [i32; 4] = shape4(&model.tensors[output as usize].shape)?;
    let channels: usize = if depthwise {
        filter_shape[3] as usize
    } else {
        filter_shape[0] as usize
    };
    assert(channels == filter_channels(*model, *op, depthwise));
    let quant: ConvQuant = conv_quant(model, input, weights, output, channels, options.activation)?;
    let padding: Padding = padding_enum(options.padding)?;
    let weights: Vec<i8> = weight_const(model, weights)?;
    let bias: Vec<i32> = bias_const(model, optional_operand(&op.inputs, 2), channels)?;
    let (source, target): (Source, Target) = places(storage, input, output)?;
    Ok(
        ConvEmission {
            source,
            target,
            weights,
            bias,
            quant,
            input_shape,
            filter_shape,
            output_shape,
            padding,
            stride_width: options.stride_w,
            stride_height: options.stride_h,
            dilation_width_factor: options.dilation_w,
            dilation_height_factor: options.dilation_h,
        },
    )
}

/// Fails where a convolution has no call.
pub open spec fn conv2d_failure(
    model: ParsedModel,
    storage: Seq<Storage>,
    i: usize,
    op: ParsedOp,
) -> Option<EmitError> {
    match op.options {
        Some(ParsedOptions::Conv2D { padding, .. }) => conv_failure(
            model,
            storage,
            op,
            padding,
            false,
        ),
        _ => Some(EmitError::Options { op: i, options: OptionsName::Conv2D }),
    }
}

/// Whether a call is that of a convolution.
pub open spec fn is_conv2d(
    e: ConvEmission,
    model: ParsedModel,
    storage: Seq<Storage>,
    op: ParsedOp,
) -> bool {
    match op.options {
        Some(
            ParsedOptions::Conv2D {
                padding,
                stride_w,
                stride_h,
                dilation_w,
                dilation_h,
                fused_activation,
            },
        ) => {
            &&& is_conv(e, model, storage, op, padding, fused_activation, false)
            &&& e.stride_width == stride_w
            &&& e.stride_height == stride_h
            &&& e.dilation_width_factor == dilation_w
            &&& e.dilation_height_factor == dilation_h
        },
        _ => false,
    }
}

/// The call of a convolution.
pub fn emit_conv2d(model: &ParsedModel, storage: &Vec<Storage>, i: usize, op: &ParsedOp) -> (r:
    Result<ConvEmission, EmitError>)
    requires
        operands::weights_fit(*model, op.inputs@, 1),
    ensures
        match r {
            Ok(e) => conv2d_failure(*model, storage@, i, *op) is None && is_conv2d(
                e,
                *model,
                storage@,
                *op,
            ),
            Err(e) => conv2d_failure(*model, storage@, i, *op) == Some(e),
        },
{
    match &op.options {
        Some(
            ParsedOptions::Conv2D {
                padding,
                stride_w,
                stride_h,
                dilation_w,
                dilation_h,
                fused_activation,
            },
        ) => emit_conv(
            model,
            storage,
            op,
            ConvOptions {
                padding: *padding,
                stride_w: *stride_w,
                stride_h: *stride_h,
                dilation_w: *dilation_w,
                dilation_h: *dilation_h,
                activation: *fused_activation,
            },
            false,
        ),
        _ => Err(EmitError::Options { op: i, options: OptionsName::Conv2D }),
    }
}

/// Fails where a depthwise convolution has no call.
pub open spec fn depthwise_failure(
    model: ParsedModel,
    storage: Seq<Storage>,
    i: usize,
    op: ParsedOp,
) -> Option<EmitError> {
    match op.options {
        Some(ParsedOptions::DepthwiseConv2D { padding, .. }) => conv_failure(
            model,
            storage,
            op,
            padding,
            true,
        ),
        _ => Some(EmitError::Options { op: i, options: OptionsName::DepthwiseConv2D }),
    }
}

/// Whether a call is that of a depthwise convolution.
pub open spec fn is_depthwise(
    e: DepthwiseEmission,
    model: ParsedModel,
    storage: Seq<Storage>,
    op: ParsedOp,
) -> bool {
    match op.options {
        Some(
            ParsedOptions::DepthwiseConv2D {
                padding,
                stride_w,
                stride_h,
                depth_multiplier,
                dilation_w,
                dilation_h,
                fused_activation,
            },
        ) => {
            &&& is_conv(e.conv, model, storage, op, padding, fused_activation, true)
            &&& e.conv.stride_width == stride_w
            &&& e.conv.stride_height == stride_h
            &&& e.conv.dilation_width_factor == dilation_w
            &&& e.conv.dilation_height_factor == dilation_h
            &&& e.depth_multiplier == depth_multiplier
        },
        _ => false,
    }
}

/// The call of a depthwise convolution.
pub fn emit_depthwise(model: &ParsedModel, storage: &Vec<Storage>, i: usize, op: &ParsedOp) -> (r:
    Result<DepthwiseEmission, EmitError>)
    requires
        operands::weights_fit(*model, op.inputs@, 1),
    ensures
        match r {
            Ok(e) => depthwise_failure(*model, storage@, i, *op) is None && is_depthwise(
                e,
                *model,
                storage@,
                *op,
            ),
            Err(e) => depthwise_failure(*model, storage@, i, *op) == Some(e),
        },
{
    match &op.options {
        Some(
            ParsedOptions::DepthwiseConv2D {
                padding,
                stride_w,
                stride_h,
                depth_multiplier,
                dilation_w,
                dilation_h,
                fused_activation,
            },
        ) => {
            let conv: ConvEmission = emit_conv(
                model,
                storage,
                op,
                ConvOptions {
                    padding: *padding,
                    stride_w: *stride_w,
                    stride_h: *stride_h,
                    dilation_w: *dilation_w,
                    dilation_h: *dilation_h,
                    activation: *fused_activation,
                },
                true,
            )?;
            Ok(DepthwiseEmission { conv, depth_multiplier: *depth_multiplier })
        },
        _ => Err(EmitError::Options { op: i, options: OptionsName::DepthwiseConv2D }),
    }
}

/// The batches of a dense layer: what its weights do not reach.
pub open spec fn batches_of(input: Seq<i32>, keep_num_dims: bool) -> int {
    if keep_num_dims {
        crate::shape::product_of(input.drop_last())
    } else if input.len() == 1 {
        1
    } else {
        input[0] as int
    }
}

/// The inputs of one output of a dense layer.
pub open spec fn depth_of(input: Seq<i32>, keep_num_dims: bool) -> int {
    if keep_num_dims {
        input.last() as int
    } else if input.len() == 1 {
        input[0] as int
    } else {
        crate::shape::product_of(input.skip(1))
    }
}

/// Fails where the dimensions of a dense layer make no sense.
pub open spec fn dense_failure(input: Seq<i32>, output: Seq<i32>, keep_num_dims: bool) -> Option<
    EmitError,
> {
    let batches = batches_of(input, keep_num_dims);
    let length = crate::shape::product_of(output);
    operands::either(
        operands::countable(output),
        operands::either(
            if keep_num_dims {
                if input.len() == 0 {
                    Some(EmitError::EmptyShape)
                } else {
                    operands::countable(input.drop_last())
                }
            } else if input.len() == 1 {
                None
            } else {
                match operands::bad_dimension(input.skip(1)) {
                    Some(dim) => Some(EmitError::ShapeDimension { dim }),
                    None => None,
                }
            },
            operands::unless(
                batches > 0 && length % batches == 0,
                EmitError::BatchSize { batches: batches as i64, length: length as i64 },
            ),
        ),
    )
}

/// The dimensions of a dense layer: its batches, the inputs of one output, and
/// the outputs of one batch.
pub open spec fn dense_dimensions(
    input: Seq<i32>,
    output: Seq<i32>,
    keep_num_dims: bool,
) -> (i32, i32, i32) {
    let batches = batches_of(input, keep_num_dims);
    (
        crate::requant::low_word(batches as i64),
        crate::requant::low_word(depth_of(input, keep_num_dims) as i64),
        crate::requant::low_word((crate::shape::product_of(output) / batches) as i64),
    )
}

/// Whether the counts of a dense layer fit into the numbers that hold them.
pub open spec fn dense_counts_fit(input: Seq<i32>, output: Seq<i32>, keep_num_dims: bool) -> bool {
    &&& keep_num_dims || input.len() > 0
    &&& operands::count_fits(output)
    &&& keep_num_dims && input.len() > 0 ==> operands::count_fits(input.drop_last())
    &&& !keep_num_dims ==> operands::count_fits(input.skip(1))
}

/// Whether the dimensions of a dense layer fit into the numbers that hold them.
pub open spec fn dense_fits(input: Seq<i32>, output: Seq<i32>, keep_num_dims: bool) -> bool {
    let batches = batches_of(input, keep_num_dims);
    &&& dense_counts_fit(input, output, keep_num_dims)
    &&& dense_failure(input, output, keep_num_dims) is None ==> crate::shape::product_of(output)
        / batches <= i32::MAX
}

/// The dimensions of a shape from one position up to another.
fn part(shape: &Vec<i32>, from: usize, to: usize) -> (r: Vec<i32>)
    requires
        from <= to <= shape@.len(),
    ensures
        r@ == shape@.subrange(from as int, to as int),
{
    let mut r: Vec<i32> = Vec::new();
    let mut k: usize = from;
    while k < to
        invariant
            from <= k <= to <= shape@.len(),
            r@ == shape@.subrange(from as int, k as int),
        decreases to - k,
    {
        r.push(shape[k]);
        k = k + 1;
        assert(r@ =~= shape@.subrange(from as int, k as int));
    }
    r
}

/// The sizes of a dense layer: its batches, the inputs of one output, and the
/// outputs of one batch.
fn dense_sizes(input: &Vec<i32>, output: &Vec<i32>, keep_num_dims: bool) -> (r: Result<
    (i64, i64, i64),
    EmitError,
>)
    requires
        dense_counts_fit(input@, output@, keep_num_dims),
    ensures
        match r {
            Ok(d) => {
                &&& dense_failure(input@, output@, keep_num_dims) is None
                &&& d.0 == batches_of(input@, keep_num_dims)
                &&& d.1 == depth_of(input@, keep_num_dims)
                &&& d.2 == crate::shape::product_of(output@) / d.0 as int
                &&& d.2 >= 0
            },
            Err(e) => dense_failure(input@, output@, keep_num_dims) == Some(e),
        },
{
    let length: usize = flat_len(output)?;
    let n: usize = input.len();
    let (batches, depth): (i64, i64) = if keep_num_dims {
        if n == 0 {
            return Err(EmitError::EmptyShape);
        }
        let front: Vec<i32> = part(input, 0, n - 1);
        assert(front@ =~= input@.drop_last());
        (flat_len(&front)? as i64, input[n - 1] as i64)
    } else if n == 1 {
        (1, input[0] as i64)
    } else {
        let rest: Vec<i32> = part(input, 1, n);
        assert(rest@ =~= input@.skip(1));
        match find_outside(&rest, 1, 0x8000_0000) {
            Some(dim) => return Err(EmitError::ShapeDimension { dim }),
            None => {},
        }
        proof {
            operands::lemma_bad_dimension(rest@);
        }
        (input[0] as i64, flat_len(&rest)? as i64)
    };
    assert(batches == batches_of(input@, keep_num_dims));
    assert(depth == depth_of(input@, keep_num_dims));
    proof {
        operands::lemma_bad_dimension(output@);
        crate::shape::lemma_product_positive(output@);
    }
    if batches <= 0 || (length as u64) % (batches as u64) != 0 {
        return Err(EmitError::BatchSize { batches, length: length as i64 });
    }
    let share: u64 = (length as u64) / (batches as u64);
    assert(share <= length) by (nonlinear_arith)
        requires
            share == (length as u64) / (batches as u64),
            batches > 0,
    ;
    Ok((batches, depth, share as i64))
}

/// The dimensions of a dense layer: its batches, the inputs of one output, and
/// the outputs of one batch.
pub fn fc_dimensions(input: &Vec<i32>, output: &Vec<i32>, keep_num_dims: bool) -> (r: Result<
    (i32, i32, i32),
    EmitError,
>)
    requires
        dense_fits(input@, output@, keep_num_dims),
    ensures
        match r {
            Ok(d) => {
                &&& dense_failure(input@, output@, keep_num_dims) is None
                &&& d == dense_dimensions(input@, output@, keep_num_dims)
                &&& d.2 >= 0
            },
            Err(e) => dense_failure(input@, output@, keep_num_dims) == Some(e),
        },
{
    let (batches, depth, share): (i64, i64, i64) = dense_sizes(input, output, keep_num_dims)?;
    Ok((to_word(batches), to_word(depth), to_word(share)))
}

/// Whether the dimensions of a dense layer fit into the numbers that hold them.
fn check_dense(input: &Vec<i32>, output: &Vec<i32>, keep_num_dims: bool) -> (r: bool)
    ensures
        r == dense_fits(input@, output@, keep_num_dims),
{
    let n: usize = input.len();
    if !keep_num_dims && n == 0 {
        return false;
    }
    if !check_count(output) {
        return false;
    }
    if keep_num_dims && n > 0 {
        let front: Vec<i32> = part(input, 0, n - 1);
        assert(front@ =~= input@.drop_last());
        if !check_count(&front) {
            return false;
        }
    }
    if !keep_num_dims {
        let rest: Vec<i32> = part(input, 1, n);
        assert(rest@ =~= input@.skip(1));
        if !check_count(&rest) {
            return false;
        }
    }
    match dense_sizes(input, output, keep_num_dims) {
        Ok((_, _, share)) => share <= i32::MAX as i64,
        Err(_) => true,
    }
}

/// Fails where a dense layer has no call.
pub open spec fn fully_connected_failure(
    model: ParsedModel,
    storage: Seq<Storage>,
    i: usize,
    op: ParsedOp,
) -> Option<EmitError> {
    match op.options {
        Some(ParsedOptions::FullyConnected { keep_num_dims, .. }) => {
            let input = model.tensors@[input_of(op) as int].shape@;
            let output = model.tensors@[output_of(op) as int].shape@;
            let channels = dense_dimensions(input, output, keep_num_dims).2 as nat;
            operands::either(
                binary(
                    model,
                    op,
                    OperatorName::FullyConnected,
                    OperandName::Input,
                    OperandName::Weights,
                ),
                operands::either(
                    dense_failure(input, output, keep_num_dims),
                    operands::either(
                        operands::conv_quantized(
                            model,
                            input_of(op),
                            second_of(op),
                            output_of(op),
                            channels,
                        ),
                        operands::either(
                            operands::weighted(model, second_of(op)),
                            operands::either(
                                operands::biased(
                                    model,
                                    operands::optional(op.inputs@, 2),
                                    channels,
                                ),
                                placed(storage, op),
                            ),
                        ),
                    ),
                ),
            )
        },
        _ => Some(EmitError::Options { op: i, options: OptionsName::FullyConnected }),
    }
}

/// Whether a call is that of a dense layer.
pub open spec fn is_fully_connected(
    e: FullyConnectedEmission,
    model: ParsedModel,
    storage: Seq<Storage>,
    op: ParsedOp,
) -> bool {
    match op.options {
        Some(ParsedOptions::FullyConnected { fused_activation, keep_num_dims, .. }) => {
            let input = model.tensors@[input_of(op) as int];
            let weights = model.tensors@[second_of(op) as int];
            let output = model.tensors@[output_of(op) as int];
            let dims = dense_dimensions(input.shape@, output.shape@, keep_num_dims);
            let channels = dims.2 as nat;
            &&& e.source == operands::source_of(storage, input_of(op))
            &&& e.target == operands::target_of(storage, output_of(op))
            &&& e.weights@ == operands::weights_of(model, second_of(op))
            &&& e.bias@ == operands::bias_of(model, operands::optional(op.inputs@, 2), channels)
            &&& operands::is_conv_quant(
                e.quant,
                input,
                weights,
                output,
                channels,
                fused_activation,
            )
            &&& e.input_dim == dims.1
            &&& e.output_dim == dims.2
        },
        _ => false,
    }
}

/// Whether the sizes that the call of an operator is made of fit into the
/// numbers that hold them.
pub open spec fn dimensions_fit(model: ParsedModel, op: ParsedOp) -> bool {
    let code = op.builtin_code;
    if code == CONV_2D || code == DEPTHWISE_CONV_2D || code == PRELU {
        operands::weights_fit(model, op.inputs@, 1)
    } else if code == FULLY_CONNECTED {
        operands::weights_fit(model, op.inputs@, 1) && layer_fits(model, op)
    } else if code == SOFTMAX {
        operands::operand_fits(model, op.inputs@, 0)
    } else if code == RELU || code == RELU6 || code == HARD_SWISH {
        &&& operands::operand_fits(model, op.inputs@, 0)
        &&& operands::operand_fits(model, op.outputs@, 0)
    } else if code == ADD || code == SUB || code == MUL {
        &&& operands::operand_fits(model, op.inputs@, 0)
        &&& operands::operand_fits(model, op.inputs@, 1)
        &&& operands::operand_fits(model, op.outputs@, 0)
    } else {
        true
    }
}

/// Whether the dimensions of an operator with the options of a dense layer fit
/// into the numbers that hold them.
pub open spec fn layer_fits(model: ParsedModel, op: ParsedOp) -> bool {
    match op.options {
        Some(ParsedOptions::FullyConnected { keep_num_dims, .. }) => binary(
            model,
            op,
            OperatorName::FullyConnected,
            OperandName::Input,
            OperandName::Weights,
        ) is None ==> dense_fits(
            model.tensors@[input_of(op) as int].shape@,
            model.tensors@[output_of(op) as int].shape@,
            keep_num_dims,
        ),
        _ => true,
    }
}

/// Whether the sizes that the call of an operator is made of fit into the
/// numbers that hold them.
pub fn check_dimensions(model: &ParsedModel, op: &ParsedOp) -> (r: bool)
    ensures
        r == dimensions_fit(*model, *op),
{
    let code: i32 = op.builtin_code;
    if code == CONV_2D || code == DEPTHWISE_CONV_2D || code == PRELU {
        check_weights(model, &op.inputs, 1)
    } else if code == FULLY_CONNECTED {
        check_weights(model, &op.inputs, 1) && check_layer(model, op)
    } else if code == SOFTMAX {
        check_operand(model, &op.inputs, 0)
    } else if code == RELU || code == RELU6 || code == HARD_SWISH {
        check_operand(model, &op.inputs, 0) && check_operand(model, &op.outputs, 0)
    } else if code == ADD || code == SUB || code == MUL {
        check_operand(model, &op.inputs, 0) && check_operand(model, &op.inputs, 1)
            && check_operand(model, &op.outputs, 0)
    } else {
        true
    }
}

/// Whether the dimensions of an operator with the options of a dense layer fit
/// into the numbers that hold them.
fn check_layer(model: &ParsedModel, op: &ParsedOp) -> (r: bool)
    ensures
        r == layer_fits(*model, *op),
{
    match &op.options {
        Some(ParsedOptions::FullyConnected { keep_num_dims, .. }) => match binary_operands(
            model,
            op,
            OperatorName::FullyConnected,
            OperandName::Input,
            OperandName::Weights,
        ) {
            Ok((input, _, output)) => check_dense(
                &model.tensors[input as usize].shape,
                &model.tensors[output as usize].shape,
                *keep_num_dims,
            ),
            Err(_) => true,
        },
        _ => true,
    }
}

/// The call of a dense layer.
pub fn emit_fully_connected(
    model: &ParsedModel,
    storage: &Vec<Storage>,
    i: usize,
    op: &ParsedOp,
) -> (r: Result<FullyConnectedEmission, EmitError>)
    requires
        operands::weights_fit(*model, op.inputs@, 1),
        layer_fits(*model, *op),
    ensures
        match r {
            Ok(e) => {
                &&& fully_connected_failure(*model, storage@, i, *op) is None
                &&& is_fully_connected(e, *model, storage@, *op)
            },
            Err(e) => fully_connected_failure(*model, storage@, i, *op) == Some(e),
        },
{
    match &op.options {
        Some(ParsedOptions::FullyConnected { fused_activation, keep_num_dims, .. }) => {
            let (input, weights, output): (u32, u32, u32) = binary_operands(
                model,
                op,
                OperatorName::FullyConnected,
                OperandName::Input,
                OperandName::Weights,
            )?;
            let (_, input_dim, output_dim): (i32, i32, i32) = fc_dimensions(
                &model.tensors[input as usize].shape,
                &model.tensors[output as usize].shape,
                *keep_num_dims,
            )?;
            let channels: usize = output_dim as usize;
            let quant: ConvQuant = conv_quant(
                model,
                input,
                weights,
                output,
                channels,
                *fused_activation,
            )?;
            let weights: Vec<i8> = weight_const(model, weights)?;
            let bias: Vec<i32> = bias_const(model, optional_operand(&op.inputs, 2), channels)?;
            let (source, target): (Source, Target) = places(storage, input, output)?;
            Ok(
                FullyConnectedEmission {
                    source,
                    target,
                    weights,
                    bias,
                    quant,
                    input_dim,
                    output_dim,
                },
            )
        },
        _ => Err(EmitError::Options { op: i, options: OptionsName::FullyConnected }),
    }
}

/// Fails where a pool has no call.
pub open spec fn pool_failure(
    model: ParsedModel,
    storage: Seq<Storage>,
    i: usize,
    op: ParsedOp,
) -> Option<EmitError> {
    match op.options {
        Some(ParsedOptions::Pool2D { padding, .. }) => operands::either(
            unary(model, op, OperatorName::Pool),
            operands::either(
                operands::four_dimensional(model.tensors@[input_of(op) as int].shape@),
                operands::either(
                    operands::four_dimensional(model.tensors@[output_of(op) as int].shape@),
                    operands::either(
                        operands::scaled(model, output_of(op)),
                        operands::either(operands::padded(padding), placed(storage, op)),
                    ),
                ),
            ),
        ),
        _ => Some(EmitError::Options { op: i, options: OptionsName::Pool2D }),
    }
}

/// Whether a call is that of a pool.
pub open spec fn is_pool(
    e: PoolEmission,
    model: ParsedModel,
    storage: Seq<Storage>,
    op: ParsedOp,
    kind: PoolKind,
) -> bool {
    match op.options {
        Some(
            ParsedOptions::Pool2D {
                padding,
                stride_w,
                stride_h,
                filter_w,
                filter_h,
                fused_activation,
            },
        ) => {
            let input = model.tensors@[input_of(op) as int];
            let output = model.tensors@[output_of(op) as int];
            &&& e.kind == kind
            &&& e.source == operands::source_of(storage, input_of(op))
            &&& e.target == operands::target_of(storage, output_of(op))
            &&& e.params.input_shape@ == operands::widened(input.shape@)
            &&& e.params.output_shape@ == operands::widened(output.shape@)
            &&& e.params.filter_width == filter_w
            &&& e.params.filter_height == filter_h
            &&& e.params.stride_width == stride_w
            &&& e.params.stride_height == stride_h
            &&& e.params.padding == operands::padding_of(padding)
            &&& e.params.activation == operands::activation_of(fused_activation)
            &&& (e.params.quantized_activation_min, e.params.quantized_activation_max)
                == crate::requant::bounds(
                fused_activation,
                operands::scale_of(output),
                operands::zero_point_of(output),
            )
        },
        _ => false,
    }
}

/// The call of a pool.
pub fn emit_pool(
    model: &ParsedModel,
    storage: &Vec<Storage>,
    i: usize,
    op: &ParsedOp,
    kind: PoolKind,
) -> (r: Result<PoolEmission, EmitError>)
    ensures
        match r {
            Ok(e) => pool_failure(*model, storage@, i, *op) is None && is_pool(
                e,
                *model,
                storage@,
                *op,
                kind,
            ),
            Err(e) => pool_failure(*model, storage@, i, *op) == Some(e),
        },
{
    match &op.options {
        Some(
            ParsedOptions::Pool2D {
                padding,
                stride_w,
                stride_h,
                filter_w,
                filter_h,
                fused_activation,
            },
        ) => {
            let (input, output): (u32, u32) = unary_operands(model, op, OperatorName::Pool)?;
            let input_shape: [i32; 4] = shape4(&model.tensors[input as usize].shape)?;
            let output_shape: [i32; 4] = shape4(&model.tensors[output as usize].shape)?;
            let (scale, zp): (u32, i32) = tensor_quant(model, output)?;
            let (act_min, act_max): (i32, i32) = act_range(*fused_activation, scale, zp);
            let padding: Padding = padding_enum(*padding)?;
            let (source, target): (Source, Target) = places(storage, input, output)?;
            Ok(
                PoolEmission {
                    kind,
                    source,
                    target,
                    params: PoolParams {
                        input_shape,
                        output_shape,
                        filter_width: *filter_w,
                        filter_height: *filter_h,
                        stride_width: *stride_w,
                        stride_height: *stride_h,
                        padding,
                        activation: fused_activation_enum(*fused_activation),
                        quantized_activation_min: act_min,
                        quantized_activation_max: act_max,
                    },
                },
            )
        },
        _ => Err(EmitError::Options { op: i, options: OptionsName::Pool2D }),
    }
}

/// Whether a binary32 pattern is within a millionth of one.
pub open spec fn near_one(beta: u32) -> bool {
    0x3f7f_fff0 <= beta <= 0x3f80_0008
}

/// Fails where a softmax has no call.
pub open spec fn softmax_failure(
    model: ParsedModel,
    storage: Seq<Storage>,
    i: usize,
    op: ParsedOp,
) -> Option<EmitError> {
    operands::either(
        match op.options {
            None => None,
            Some(ParsedOptions::Softmax { beta }) => operands::unless(
                near_one(beta),
                EmitError::SoftmaxOptions { op: i },
            ),
            Some(_) => Some(EmitError::SoftmaxOptions { op: i }),
        },
        operands::either(
            unary(model, op, OperatorName::Softmax),
            operands::either(
                operands::four_dimensional(model.tensors@[input_of(op) as int].shape@),
                operands::either(operands::scaled(model, input_of(op)), placed(storage, op)),
            ),
        ),
    )
}

/// The quotient of two numbers, rounded towards zero.
pub open spec fn truncated_quotient(a: int, b: int) -> int {
    if a >= 0 {
        a / b
    } else {
        -((-a) / b)
    }
}

/// Whether a call is that of a softmax.
pub open spec fn is_softmax(
    e: SoftmaxEmission,
    model: ParsedModel,
    storage: Seq<Storage>,
    op: ParsedOp,
) -> bool {
    let input = model.tensors@[input_of(op) as int];
    let row = operands::widened(input.shape@)[3] as int;
    let count = crate::requant::low_word(crate::shape::product_of(input.shape@) as i64);
    let pair = crate::requant::ratio(operands::scale_of(input), UNIT_SCALE);
    &&& e.source == operands::source_of(storage, input_of(op))
    &&& e.target == operands::target_of(storage, output_of(op))
    &&& e.params.num_rows == truncated_quotient(count as int, row)
    &&& e.params.row_size == row
    &&& e.params.input_multiplier == pair.0
    &&& e.params.input_left_shift == 25 + pair.1
    &&& e.params.diff_min == -128
    &&& e.params.input_offset == operands::zero_point_of(input)
    &&& e.params.output_offset == -128
    &&& e.params.quantized_activation_min == -128
    &&& e.params.quantized_activation_max == 127
}

fn divide_towards_zero(a: i32, b: i32) -> (r: i32)
    requires
        b > 0,
    ensures
        r == truncated_quotient(a as int, b as int),
{
    if a >= 0 {
        ((a as u32) / (b as u32)) as i32
    } else {
        let size: u64 = (-(a as i64)) as u64;
        let q: u64 = size / (b as u64);
        assert(q <= size) by (nonlinear_arith)
            requires
                q == size / (b as u64),
                b > 0,
        ;
        (-(q as i64)) as i32
    }
}

/// The call of a softmax.
pub fn emit_softmax(model: &ParsedModel, storage: &Vec<Storage>, i: usize, op: &ParsedOp) -> (r:
    Result<SoftmaxEmission, EmitError>)
    requires
        operands::operand_fits(*model, op.inputs@, 0),
    ensures
        match r {
            Ok(e) => softmax_failure(*model, storage@, i, *op) is None && is_softmax(
                e,
                *model,
                storage@,
                *op,
            ),
            Err(e) => softmax_failure(*model, storage@, i, *op) == Some(e),
        },
{
    match &op.options {
        None => {},
        Some(ParsedOptions::Softmax { beta }) => {
            if *beta < 0x3f7f_fff0 || *beta > 0x3f80_0008 {
                return Err(EmitError::SoftmaxOptions { op: i });
            }
        },
        Some(_) => return Err(EmitError::SoftmaxOptions { op: i }),
    }
    let (input, output): (u32, u32) = unary_operands(model, op, OperatorName::Softmax)?;
    let shape = &model.tensors[input as usize].shape;
    let dims: [i32; 4] = shape4(shape)?;
    let row_size: i32 = dims[3];
    proof {
        operands::lemma_bad_dimension(shape@);
    }
    let count: usize = flat_len(shape)?;
    let num_rows: i32 = divide_towards_zero(to_word(count as i64), row_size);
    let (scale, zp): (u32, i32) = tensor_quant(model, input)?;
    let (multiplier, shift): (i32, i32) = ratio_pair(scale, UNIT_SCALE);
    let (source, target): (Source, Target) = places(storage, input, output)?;
    Ok(
        SoftmaxEmission {
            source,
            target,
            params: SoftmaxParams {
                num_rows,
                row_size,
                input_multiplier: multiplier,
                input_left_shift: 25 + shift,
                diff_min: -128,
                input_offset: zp,
                output_offset: -128,
                quantized_activation_min: -128,
                quantized_activation_max: 127,
            },
        },
    )
}

/// The code of the activation that a kernel clamps by.
pub open spec fn clamp_code(method: ActivationMethod) -> i8 {
    match method {
        ActivationMethod::Relu => 1i8,
        ActivationMethod::Relu6 => 3i8,
        _ => 0i8,
    }
}

/// Fails where a ReLU, ReLU6 or hard swish has no call.
pub open spec fn activation_failure(
    model: ParsedModel,
    storage: Seq<Storage>,
    i: usize,
    op: ParsedOp,
) -> Option<EmitError> {
    let input = model.tensors@[input_of(op) as int].shape@;
    let output = model.tensors@[output_of(op) as int].shape@;
    operands::either(
        unary(model, op, OperatorName::Activation),
        operands::either(
            operands::countable(output),
            operands::either(
                operands::countable(input),
                operands::either(
                    operands::unless(
                        crate::shape::product_of(output) == crate::shape::product_of(input),
                        EmitError::ActivationCount { op: i },
                    ),
                    operands::either(
                        operands::scaled(model, input_of(op)),
                        operands::either(
                            operands::scaled(model, output_of(op)),
                            placed(storage, op),
                        ),
                    ),
                ),
            ),
        ),
    )
}

/// Whether a call reads and writes what an activation does, and with which
/// offsets.
pub open spec fn is_activation_of(
    e: ActivationEmission,
    model: ParsedModel,
    storage: Seq<Storage>,
    op: ParsedOp,
) -> bool {
    &&& e.source == operands::source_of(storage, input_of(op))
    &&& e.target == operands::target_of(storage, output_of(op))
    &&& e.input_offset == operands::zero_point_of(model.tensors@[input_of(op) as int])
    &&& e.output_offset == operands::zero_point_of(model.tensors@[output_of(op) as int])
}

/// Whether a call is that of a ReLU, ReLU6 or hard swish.
pub open spec fn is_activation(
    e: ActivationEmission,
    model: ParsedModel,
    storage: Seq<Storage>,
    op: ParsedOp,
    method: ActivationMethod,
) -> bool {
    let input = model.tensors@[input_of(op) as int];
    let output = model.tensors@[output_of(op) as int];
    &&& e.method == method
    &&& is_activation_of(e, model, storage, op)
    &&& e.output == crate::requant::ratio(operands::scale_of(input), operands::scale_of(output))
    &&& (e.act_min, e.act_max) == crate::requant::bounds(
        clamp_code(method),
        operands::scale_of(output),
        operands::zero_point_of(output),
    )
    &&& e.identity == (0i32, 0i32)
    &&& e.slope == (0i32, 0i32)
    &&& e.above == (0i32, 0i32)
    &&& e.below == (0i32, 0i32)
    &&& e.alpha_offset == 0
    &&& e.alpha@ == Seq::<i8>::empty()
}

/// The call of a ReLU, ReLU6 or hard swish.
pub fn emit_activation(
    model: &ParsedModel,
    storage: &Vec<Storage>,
    i: usize,
    op: &ParsedOp,
    method: ActivationMethod,
) -> (r: Result<ActivationEmission, EmitError>)
    requires
        operands::operand_fits(*model, op.inputs@, 0),
        operands::operand_fits(*model, op.outputs@, 0),
    ensures
        match r {
            Ok(e) => activation_failure(*model, storage@, i, *op) is None && is_activation(
                e,
                *model,
                storage@,
                *op,
                method,
            ),
            Err(e) => activation_failure(*model, storage@, i, *op) == Some(e),
        },
{
    let (input, output): (u32, u32) = unary_operands(model, op, OperatorName::Activation)?;
    let written: usize = flat_len(&model.tensors[output as usize].shape)?;
    let read: usize = flat_len(&model.tensors[input as usize].shape)?;
    if written != read {
        return Err(EmitError::ActivationCount { op: i });
    }
    let (in_scale, in_zp): (u32, i32) = tensor_quant(model, input)?;
    let (out_scale, out_zp): (u32, i32) = tensor_quant(model, output)?;
    let code: i8 = match method {
        ActivationMethod::Relu => 1,
        ActivationMethod::Relu6 => 3,
        _ => 0,
    };
    let (act_min, act_max): (i32, i32) = act_range(code, out_scale, out_zp);
    let (source, target): (Source, Target) = places(storage, input, output)?;
    Ok(
        ActivationEmission {
            method,
            source,
            target,
            input_offset: in_zp,
            output_offset: out_zp,
            output: ratio_pair(in_scale, out_scale),
            act_min,
            act_max,
            identity: (0, 0),
            slope: (0, 0),
            above: (0, 0),
            below: (0, 0),
            alpha_offset: 0,
            alpha: Vec::new(),
        },
    )
}

/// Fails where a leaky ReLU has no call.
pub open spec fn leaky_failure(
    model: ParsedModel,
    storage: Seq<Storage>,
    i: usize,
    op: ParsedOp,
) -> Option<EmitError> {
    match op.options {
        Some(ParsedOptions::LeakyRelu { .. }) => operands::either(
            unary(model, op, OperatorName::LeakyRelu),
            operands::either(
                operands::scaled(model, input_of(op)),
                operands::either(operands::scaled(model, output_of(op)), placed(storage, op)),
            ),
        ),
        _ => Some(EmitError::Options { op: i, options: OptionsName::LeakyRelu }),
    }
}

/// Whether a call is that of a leaky ReLU.
pub open spec fn is_leaky(
    e: ActivationEmission,
    model: ParsedModel,
    storage: Seq<Storage>,
    op: ParsedOp,
) -> bool {
    let input = operands::scale_of(model.tensors@[input_of(op) as int]);
    let output = operands::scale_of(model.tensors@[output_of(op) as int]);
    match op.options {
        Some(ParsedOptions::LeakyRelu { alpha }) => {
            &&& e.method == ActivationMethod::LeakyRelu
            &&& is_activation_of(e, model, storage, op)
            &&& e.output == (0i32, 0i32)
            &&& e.act_min == -128
            &&& e.act_max == 127
            &&& e.identity == crate::requant::ratio(input, output)
            &&& e.slope == crate::requant::product_ratio(input, alpha, output)
            &&& e.above == (0i32, 0i32)
            &&& e.below == (0i32, 0i32)
            &&& e.alpha_offset == 0
            &&& e.alpha@ == Seq::<i8>::empty()
        },
        _ => false,
    }
}

/// The call of a leaky ReLU.
pub fn emit_leaky_relu(model: &ParsedModel, storage: &Vec<Storage>, i: usize, op: &ParsedOp) -> (r:
    Result<ActivationEmission, EmitError>)
    ensures
        match r {
            Ok(e) => leaky_failure(*model, storage@, i, *op) is None && is_leaky(
                e,
                *model,
                storage@,
                *op,
            ),
            Err(e) => leaky_failure(*model, storage@, i, *op) == Some(e),
        },
{
    match &op.options {
        Some(ParsedOptions::LeakyRelu { alpha }) => {
            let (input, output): (u32, u32) = unary_operands(model, op, OperatorName::LeakyRelu)?;
            let (in_scale, in_zp): (u32, i32) = tensor_quant(model, input)?;
            let (out_scale, out_zp): (u32, i32) = tensor_quant(model, output)?;
            let (source, target): (Source, Target) = places(storage, input, output)?;
            Ok(
                ActivationEmission {
                    method: ActivationMethod::LeakyRelu,
                    source,
                    target,
                    input_offset: in_zp,
                    output_offset: out_zp,
                    output: (0, 0),
                    act_min: -128,
                    act_max: 127,
                    identity: ratio_pair(in_scale, out_scale),
                    slope: product_ratio_pair(in_scale, *alpha, out_scale),
                    above: (0, 0),
                    below: (0, 0),
                    alpha_offset: 0,
                    alpha: Vec::new(),
                },
            )
        },
        _ => Err(EmitError::Options { op: i, options: OptionsName::LeakyRelu }),
    }
}

/// Fails where a PReLU has no call.
pub open spec fn prelu_failure(
    model: ParsedModel,
    storage: Seq<Storage>,
    i: usize,
    op: ParsedOp,
) -> Option<EmitError> {
    operands::either(
        match op.options {
            None | Some(ParsedOptions::Prelu) => None,
            Some(_) => Some(EmitError::PreluOptions { op: i }),
        },
        operands::either(
            binary(model, op, OperatorName::Prelu, OperandName::Input, OperandName::Alpha),
            operands::either(
                operands::scaled(model, input_of(op)),
                operands::either(
                    operands::scaled(model, output_of(op)),
                    operands::either(
                        operands::scaled(model, second_of(op)),
                        operands::either(
                            operands::weighted(model, second_of(op)),
                            placed(storage, op),
                        ),
                    ),
                ),
            ),
        ),
    )
}

/// Whether a call is that of a PReLU.
pub open spec fn is_prelu(
    e: ActivationEmission,
    model: ParsedModel,
    storage: Seq<Storage>,
    op: ParsedOp,
) -> bool {
    let input = operands::scale_of(model.tensors@[input_of(op) as int]);
    let alpha = model.tensors@[second_of(op) as int];
    let output = operands::scale_of(model.tensors@[output_of(op) as int]);
    &&& e.method == ActivationMethod::Prelu
    &&& is_activation_of(e, model, storage, op)
    &&& e.output == (0i32, 0i32)
    &&& e.act_min == -128
    &&& e.act_max == 127
    &&& e.identity == (0i32, 0i32)
    &&& e.slope == (0i32, 0i32)
    &&& e.above == crate::requant::ratio(input, output)
    &&& e.below == crate::requant::product_ratio(input, operands::scale_of(alpha), output)
    &&& e.alpha_offset == operands::zero_point_of(alpha)
    &&& e.alpha@ == operands::weights_of(model, second_of(op))
}

/// The call of a PReLU.
pub fn emit_prelu(model: &ParsedModel, storage: &Vec<Storage>, i: usize, op: &ParsedOp) -> (r:
    Result<ActivationEmission, EmitError>)
    requires
        operands::weights_fit(*model, op.inputs@, 1),
    ensures
        match r {
            Ok(e) => prelu_failure(*model, storage@, i, *op) is None && is_prelu(
                e,
                *model,
                storage@,
                *op,
            ),
            Err(e) => prelu_failure(*model, storage@, i, *op) == Some(e),
        },
{
    match &op.options {
        None | Some(ParsedOptions::Prelu) => {},
        Some(_) => return Err(EmitError::PreluOptions { op: i }),
    }
    let (input, alpha, output): (u32, u32, u32) = binary_operands(
        model,
        op,
        OperatorName::Prelu,
        OperandName::Input,
        OperandName::Alpha,
    )?;
    let (in_scale, in_zp): (u32, i32) = tensor_quant(model, input)?;
    let (out_scale, out_zp): (u32, i32) = tensor_quant(model, output)?;
    let (alpha_scale, alpha_zp): (u32, i32) = tensor_quant(model, alpha)?;
    let slopes: Vec<i8> = weight_const(model, alpha)?;
    let (source, target): (Source, Target) = places(storage, input, output)?;
    Ok(
        ActivationEmission {
            method: ActivationMethod::Prelu,
            source,
            target,
            input_offset: in_zp,
            output_offset: out_zp,
            output: (0, 0),
            act_min: -128,
            act_max: 127,
            identity: (0, 0),
            slope: (0, 0),
            above: ratio_pair(in_scale, out_scale),
            below: product_ratio_pair(in_scale, alpha_scale, out_scale),
            alpha_offset: alpha_zp,
            alpha: slopes,
        },
    )
}

/// The activation that an elementwise operator applies to its result.
pub open spec fn elementwise_activation(op: ParsedOp) -> Option<i8> {
    match op.options {
        Some(ParsedOptions::Add { fused_activation, .. }) => Some(fused_activation),
        Some(ParsedOptions::Sub { fused_activation, .. }) => Some(fused_activation),
        Some(ParsedOptions::Mul { fused_activation }) => Some(fused_activation),
        None => Some(0i8),
        Some(_) => None,
    }
}

/// The element count of an elementwise operator, as its parameters hold it.
pub open spec fn element_word(shape: Seq<i32>) -> i32 {
    crate::requant::low_word(crate::shape::product_of(shape) as i64)
}

/// Fails where an elementwise operator has no call.
pub open spec fn elementwise_failure(
    model: ParsedModel,
    storage: Seq<Storage>,
    i: usize,
    op: ParsedOp,
) -> Option<EmitError> {
    let input1 = model.tensors@[input_of(op) as int].shape@;
    let input2 = model.tensors@[second_of(op) as int].shape@;
    let output = model.tensors@[output_of(op) as int].shape@;
    let count = element_word(input1);
    operands::either(
        operands::unless(
            elementwise_activation(op) is Some,
            EmitError::ElementwiseOptions { op: i },
        ),
        operands::either(
            binary(
                model,
                op,
                OperatorName::Elementwise,
                OperandName::Input1,
                OperandName::Input2,
            ),
            operands::either(
                operands::countable(input1),
                operands::either(
                    operands::countable(input2),
                    operands::either(
                        operands::unless(
                            crate::shape::product_of(input2) == count,
                            EmitError::ElementwiseCount { op: i },
                        ),
                        operands::either(
                            operands::countable(output),
                            operands::either(
                                operands::unless(
                                    crate::shape::product_of(output) == count,
                                    EmitError::ElementwiseCount { op: i },
                                ),
                                operands::either(
                                    operands::scaled(model, input_of(op)),
                                    operands::either(
                                        operands::scaled(model, second_of(op)),
                                        operands::either(
                                            operands::scaled(model, output_of(op)),
                                            operands::either(
                                                operands::readable(storage, input_of(op)),
                                                operands::either(
                                                    operands::readable(storage, second_of(op)),
                                                    operands::writable(storage, output_of(op)),
                                                ),
                                            ),
                                        ),
                                    ),
                                ),
                            ),
                        ),
                    ),
                ),
            ),
        ),
    )
}

/// The scaling of an elementwise operator: the pairs of both inputs and of the
/// output, and the left shift. A product scales only its result.
pub open spec fn elementwise_scaling(
    method: ElementwiseMethod,
    input1: u32,
    input2: u32,
    output: u32,
) -> ((i32, i32), (i32, i32), (i32, i32), i32) {
    match method {
        ElementwiseMethod::Mul => (
            (0i32, 0i32),
            (0i32, 0i32),
            crate::requant::product_ratio(input1, input2, output),
            0i32,
        ),
        _ => (
            crate::requant::add_input(input1, input1, input2),
            crate::requant::add_input(input2, input1, input2),
            crate::requant::add_output(input1, input2, output),
            ADD_LEFT_SHIFT,
        ),
    }
}

/// The parameters of an elementwise operator.
pub open spec fn elementwise_params(
    model: ParsedModel,
    op: ParsedOp,
    method: ElementwiseMethod,
) -> ElementwiseParams {
    let input1 = model.tensors@[input_of(op) as int];
    let input2 = model.tensors@[second_of(op) as int];
    let output = model.tensors@[output_of(op) as int];
    let (pair1, pair2, pair, shift) = elementwise_scaling(
        method,
        operands::scale_of(input1),
        operands::scale_of(input2),
        operands::scale_of(output),
    );
    let range = crate::requant::bounds(
        elementwise_activation(op)->0,
        operands::scale_of(output),
        operands::zero_point_of(output),
    );
    ElementwiseParams {
        num_elements: element_word(input1.shape@),
        input1_offset: crate::requant::negated(operands::zero_point_of(input1)),
        input2_offset: crate::requant::negated(operands::zero_point_of(input2)),
        output_offset: operands::zero_point_of(output),
        output_multiplier: pair.0,
        output_shift: pair.1,
        left_shift: shift,
        input1_multiplier: pair1.0,
        input1_shift: pair1.1,
        input2_multiplier: pair2.0,
        input2_shift: pair2.1,
        quantized_activation_min: range.0,
        quantized_activation_max: range.1,
    }
}

/// Whether a call is that of an elementwise operator.
pub open spec fn is_elementwise(
    e: ElementwiseEmission,
    model: ParsedModel,
    storage: Seq<Storage>,
    op: ParsedOp,
    method: ElementwiseMethod,
) -> bool {
    &&& e.method == method
    &&& e.source1 == operands::source_of(storage, input_of(op))
    &&& e.source2 == operands::source_of(storage, second_of(op))
    &&& e.target == operands::target_of(storage, output_of(op))
    &&& e.params == elementwise_params(model, op, method)
}

/// The call of an elementwise operator.
pub fn emit_elementwise(
    model: &ParsedModel,
    storage: &Vec<Storage>,
    i: usize,
    op: &ParsedOp,
    method: ElementwiseMethod,
) -> (r: Result<ElementwiseEmission, EmitError>)
    requires
        operands::operand_fits(*model, op.inputs@, 0),
        operands::operand_fits(*model, op.inputs@, 1),
        operands::operand_fits(*model, op.outputs@, 0),
    ensures
        match r {
            Ok(e) => elementwise_failure(*model, storage@, i, *op) is None && is_elementwise(
                e,
                *model,
                storage@,
                *op,
                method,
            ),
            Err(e) => elementwise_failure(*model, storage@, i, *op) == Some(e),
        },
{
    let activation: i8 = match &op.options {
        Some(ParsedOptions::Add { fused_activation, .. }) => *fused_activation,
        Some(ParsedOptions::Sub { fused_activation, .. }) => *fused_activation,
        Some(ParsedOptions::Mul { fused_activation }) => *fused_activation,
        None => 0,
        Some(_) => return Err(EmitError::ElementwiseOptions { op: i }),
    };
    let (input1, input2, output): (u32, u32, u32) = binary_operands(
        model,
        op,
        OperatorName::Elementwise,
        OperandName::Input1,
        OperandName::Input2,
    )?;
    let num_elements: i32 = to_word(flat_len(&model.tensors[input1 as usize].shape)? as i64);
    let count2: usize = flat_len(&model.tensors[input2 as usize].shape)?;
    if num_elements < 0 || count2 as u64 != num_elements as u64 {
        return Err(EmitError::ElementwiseCount { op: i });
    }
    let written: usize = flat_len(&model.tensors[output as usize].shape)?;
    if written as u64 != num_elements as u64 {
        return Err(EmitError::ElementwiseCount { op: i });
    }
    let (scale1, zp1): (u32, i32) = tensor_quant(model, input1)?;
    let (scale2, zp2): (u32, i32) = tensor_quant(model, input2)?;
    let (out_scale, out_zp): (u32, i32) = tensor_quant(model, output)?;
    let (act_min, act_max): (i32, i32) = act_range(activation, out_scale, out_zp);
    let (pair1, pair2, pair, left_shift): (
        (i32, i32),
        (i32, i32),
        (i32, i32),
        i32,
    ) = match method {
        ElementwiseMethod::Mul => (
            (0, 0),
            (0, 0),
            product_ratio_pair(scale1, scale2, out_scale),
            0,
        ),
        _ => (
            add_input_pair(scale1, scale1, scale2),
            add_input_pair(scale2, scale1, scale2),
            add_output_pair(scale1, scale2, out_scale),
            ADD_LEFT_SHIFT,
        ),
    };
    let source1: Source = src_expr(storage, input1)?;
    let source2: Source = src_expr(storage, input2)?;
    let target: Target = dst_expr(storage, output)?;
    Ok(
        ElementwiseEmission {
            method,
            source1,
            source2,
            target,
            params: ElementwiseParams {
                num_elements,
                input1_offset: negate(zp1),
                input2_offset: negate(zp2),
                output_offset: out_zp,
                output_multiplier: pair.0,
                output_shift: pair.1,
                left_shift,
                input1_multiplier: pair1.0,
                input1_shift: pair1.1,
                input2_multiplier: pair2.0,
                input2_shift: pair2.1,
                quantized_activation_min: act_min,
                quantized_activation_max: act_max,
            },
        },
    )
}

/// A list of at most four numbers, filled up with zeros.
pub open spec fn filled(list: Seq<i32>) -> Seq<i32> {
    Seq::new(
        4,
        |k: int|
            if k < list.len() {
                list[k]
            } else {
                0
            },
    )
}

fn entry(list: &Vec<i32>, k: usize) -> (r: i32)
    ensures
        r == (if k < list@.len() {
            list@[k as int]
        } else {
            0
        }),
{
    if k < list.len() {
        list[k]
    } else {
        0
    }
}

/// A list of at most four numbers, filled up with zeros.
fn fill(list: &Vec<i32>) -> (r: [i32; 4])
    ensures
        r@ == filled(list@),
{
    let r: [i32; 4] = [entry(list, 0), entry(list, 1), entry(list, 2), entry(list, 3)];
    assert(r@ =~= filled(list@));
    r
}

/// Fails where a mean has no call.
pub open spec fn mean_failure(
    model: ParsedModel,
    storage: Seq<Storage>,
    i: usize,
    op: ParsedOp,
) -> Option<EmitError> {
    match op.options {
        Some(ParsedOptions::Mean { axis, .. }) => operands::either(
            operands::unless(
                1 <= axis@.len() <= 4,
                EmitError::AxisCount { op: i, count: axis@.len() as usize },
            ),
            operands::either(
                match operands::first_outside(axis@, -0x8000, 0x8000) {
                    Some(axis) => Some(EmitError::Axis { op: i, axis }),
                    None => None,
                },
                operands::either(
                    unary(model, op, OperatorName::Mean),
                    operands::either(
                        operands::four_dimensional(model.tensors@[input_of(op) as int].shape@),
                        operands::either(
                            operands::four_dimensional(
                                model.tensors@[output_of(op) as int].shape@,
                            ),
                            operands::either(
                                operands::scaled(model, input_of(op)),
                                operands::either(
                                    operands::scaled(model, output_of(op)),
                                    placed(storage, op),
                                ),
                            ),
                        ),
                    ),
                ),
            ),
        ),
        _ => Some(EmitError::Options { op: i, options: OptionsName::Mean }),
    }
}

/// Whether a call is that of a mean.
pub open spec fn is_mean(
    e: MeanEmission,
    model: ParsedModel,
    storage: Seq<Storage>,
    op: ParsedOp,
) -> bool {
    match op.options {
        Some(ParsedOptions::Mean { axis, keep_dims }) => {
            let input = model.tensors@[input_of(op) as int];
            let output = model.tensors@[output_of(op) as int];
            let pair = crate::requant::ratio(
                operands::scale_of(input),
                operands::scale_of(output),
            );
            &&& e.source == operands::source_of(storage, input_of(op))
            &&& e.target == operands::target_of(storage, output_of(op))
            &&& e.params.keep_dims == keep_dims
            &&& e.params.axis@ == filled(axis@).map_values(|a: i32| a as i16)
            &&& e.params.axis_count == axis@.len()
            &&& e.params.input_shape@ == operands::widened(input.shape@)
            &&& e.params.output_shape@ == operands::widened(output.shape@)
            &&& e.params.output_type == 0
            &&& e.params.input_offset == crate::requant::negated(operands::zero_point_of(input))
            &&& e.params.output_offset == operands::zero_point_of(output)
            &&& e.params.output_multiplier == pair.0
            &&& e.params.output_shift == pair.1
            &&& e.params.quantized_activation_min == -128
            &&& e.params.quantized_activation_max == 127
        },
        _ => false,
    }
}

/// The call of a mean.
pub fn emit_mean(model: &ParsedModel, storage: &Vec<Storage>, i: usize, op: &ParsedOp) -> (r: Result<
    MeanEmission,
    EmitError,
>)
    ensures
        match r {
            Ok(e) => mean_failure(*model, storage@, i, *op) is None && is_mean(
                e,
                *model,
                storage@,
                *op,
            ),
            Err(e) => mean_failure(*model, storage@, i, *op) == Some(e),
        },
{
    match &op.options {
        Some(ParsedOptions::Mean { axis, keep_dims }) => {
            if axis.len() == 0 || axis.len() > 4 {
                return Err(EmitError::AxisCount { op: i, count: axis.len() });
            }
            match find_outside(axis, -0x8000, 0x8000) {
                Some(axis) => return Err(EmitError::Axis { op: i, axis }),
                None => {},
            }
            let a: [i32; 4] = fill(axis);
            assert forall|k: int| 0 <= k < 4 implies -0x8000 <= #[trigger] a@[k] < 0x8000 by {
                if k < axis@.len() {
                    assert(a@[k] == axis@[k]);
                }
            }
            let axes: [i16; 4] = [a[0] as i16, a[1] as i16, a[2] as i16, a[3] as i16];
            assert(axes@ =~= filled(axis@).map_values(|a: i32| a as i16));
            let (input, output): (u32, u32) = unary_operands(model, op, OperatorName::Mean)?;
            let input_shape: [i32; 4] = shape4(&model.tensors[input as usize].shape)?;
            let output_shape: [i32; 4] = shape4(&model.tensors[output as usize].shape)?;
            let (in_scale, in_zp): (u32, i32) = tensor_quant(model, input)?;
            let (out_scale, out_zp): (u32, i32) = tensor_quant(model, output)?;
            let (multiplier, shift): (i32, i32) = ratio_pair(in_scale, out_scale);
            let (source, target): (Source, Target) = places(storage, input, output)?;
            Ok(
                MeanEmission {
                    source,
                    target,
                    params: ReduceParams {
                        keep_dims: *keep_dims,
                        axis: axes,
                        axis_count: axis.len() as i8,
                        input_shape,
                        output_shape,
                        output_type: 0,
                        input_offset: negate(in_zp),
                        output_offset: out_zp,
                        output_multiplier: multiplier,
                        output_shift: shift,
                        quantized_activation_min: -128,
                        quantized_activation_max: 127,
                    },
                },
            )
        },
        _ => Err(EmitError::Options { op: i, options: OptionsName::Mean }),
    }
}

/// The shape that a reshape gives: the one in its options where that is known
/// throughout, or else the shape of its output.
pub open spec fn reshaped(model: ParsedModel, op: ParsedOp) -> Seq<i32> {
    let output = model.tensors@[output_of(op) as int].shape@;
    match op.options {
        Some(ParsedOptions::Reshape { new_shape }) => if new_shape@.len() > 0
            && crate::shape::all_positive(new_shape@) {
            new_shape@
        } else {
            output
        },
        _ => output,
    }
}

/// Fails where a reshape has no call.
pub open spec fn reshape_failure(
    model: ParsedModel,
    storage: Seq<Storage>,
    i: usize,
    op: ParsedOp,
) -> Option<EmitError> {
    let shape = reshaped(model, op);
    operands::either(
        operands::listed(op.outputs@, 0, OperatorName::Reshape, OperandName::Output),
        operands::either(
            operands::listed(op.inputs@, 0, OperatorName::Reshape, OperandName::Input),
            operands::either(
                operands::known(model, output_of(op)),
                operands::either(
                    operands::unless(
                        shape.len() <= 4,
                        EmitError::ReshapeRank { op: i, rank: shape.len() as usize },
                    ),
                    operands::either(
                        match operands::bad_dimension(shape) {
                            Some(dim) => Some(EmitError::ReshapeDimension { op: i, dim }),
                            None => None,
                        },
                        placed(storage, op),
                    ),
                ),
            ),
        ),
    )
}

/// Whether a call is that of a reshape.
pub open spec fn is_reshape(
    e: ReshapeEmission,
    model: ParsedModel,
    storage: Seq<Storage>,
    op: ParsedOp,
) -> bool {
    let shape = reshaped(model, op);
    &&& e.source == operands::source_of(storage, input_of(op))
    &&& e.target == operands::target_of(storage, output_of(op))
    &&& e.params.shape@ == filled(shape)
    &&& e.params.shape_count == shape.len()
}

/// The call of a reshape.
pub fn emit_reshape(model: &ParsedModel, storage: &Vec<Storage>, i: usize, op: &ParsedOp) -> (r:
    Result<ReshapeEmission, EmitError>)
    ensures
        match r {
            Ok(e) => reshape_failure(*model, storage@, i, *op) is None && is_reshape(
                e,
                *model,
                storage@,
                *op,
            ),
            Err(e) => reshape_failure(*model, storage@, i, *op) == Some(e),
        },
{
    let output: u32 = required_operand(
        &op.outputs,
        0,
        OperatorName::Reshape,
        OperandName::Output,
    )?;
    let input: u32 = required_operand(&op.inputs, 0, OperatorName::Reshape, OperandName::Input)?;
    let tensor = tensor_at(model, output)?;
    let shape: &Vec<i32> = match &op.options {
        Some(ParsedOptions::Reshape { new_shape }) => {
            proof {
                operands::lemma_bad_dimension(new_shape@);
            }
            if new_shape.len() > 0 && find_outside(new_shape, 1, 0x8000_0000).is_none() {
                new_shape
            } else {
                &tensor.shape
            }
        },
        _ => &tensor.shape,
    };
    assert(shape@ == reshaped(*model, *op));
    if shape.len() > 4 {
        return Err(EmitError::ReshapeRank { op: i, rank: shape.len() });
    }
    match find_outside(shape, 1, 0x8000_0000) {
        Some(dim) => return Err(EmitError::ReshapeDimension { op: i, dim }),
        None => {},
    }
    let (source, target): (Source, Target) = places(storage, input, output)?;
    Ok(
        ReshapeEmission {
            source,
            target,
            params: ReshapeParams { shape: fill(shape), shape_count: shape.len() as i8 },
        },
    )
}

/// Fails where a pad has no call.
pub open spec fn pad_failure(
    model: ParsedModel,
    storage: Seq<Storage>,
    i: usize,
    op: ParsedOp,
) -> Option<EmitError> {
    let input = model.tensors@[input_of(op) as int].shape@;
    let output = model.tensors@[output_of(op) as int].shape@;
    operands::either(
        binary(model, op, OperatorName::Pad, OperandName::Input, OperandName::Padding),
        operands::either(
            operands::unless(
                1 <= input.len() <= 4,
                EmitError::PadRank { op: i, rank: input.len() as usize },
            ),
            operands::either(
                match model.data(model.tensors@[second_of(op) as int]) {
                    None => Some(EmitError::PadData { op: i, tensor: second_of(op) }),
                    Some(bytes) => operands::unless(
                        bytes.len() == 8 * input.len(),
                        EmitError::PadLength {
                            op: i,
                            tensor: second_of(op),
                            bytes: bytes.len() as usize,
                            expected: (8 * input.len()) as u64,
                        },
                    ),
                },
                operands::either(
                    operands::four_dimensional(input),
                    operands::either(operands::four_dimensional(output), placed(storage, op)),
                ),
            ),
        ),
    )
}

/// The amounts before or behind each dimension: pairs of words, one pair per
/// dimension.
pub open spec fn amounts(bytes: Seq<u8>, rank: nat, behind: bool) -> Seq<i32> {
    Seq::new(
        4,
        |d: int|
            if d < rank {
                crate::bytes::word_at(
                    bytes,
                    8 * d + (if behind {
                        4int
                    } else {
                        0
                    }),
                ) as i32
            } else {
                0
            },
    )
}

/// Whether a call is that of a pad.
pub open spec fn is_pad(
    e: PadEmission,
    model: ParsedModel,
    storage: Seq<Storage>,
    op: ParsedOp,
) -> bool {
    let input = model.tensors@[input_of(op) as int].shape@;
    let output = model.tensors@[output_of(op) as int].shape@;
    let bytes = model.data(model.tensors@[second_of(op) as int])->0;
    &&& e.source == operands::source_of(storage, input_of(op))
    &&& e.target == operands::target_of(storage, output_of(op))
    &&& e.params.input_shape@ == operands::widened(input)
    &&& e.params.output_shape@ == operands::widened(output)
    &&& e.params.left_padding@ == amounts(bytes, input.len(), false)
    &&& e.params.left_padding_count == input.len()
    &&& e.params.right_padding@ == amounts(bytes, input.len(), true)
    &&& e.params.right_padding_count == input.len()
}

/// The amount before or behind a dimension.
fn amount(bytes: &Vec<u8>, rank: usize, d: usize, behind: bool) -> (r: i32)
    requires
        rank <= 4,
        d < 4,
        bytes@.len() == 8 * rank,
    ensures
        r == amounts(bytes@, rank as nat, behind)[d as int],
{
    if d >= rank {
        0
    } else if behind {
        read_word(bytes, 8 * d + 4)
    } else {
        read_word(bytes, 8 * d)
    }
}

/// The amounts before or behind each dimension.
fn read_amounts(bytes: &Vec<u8>, rank: usize, behind: bool) -> (r: [i32; 4])
    requires
        rank <= 4,
        bytes@.len() == 8 * rank,
    ensures
        r@ == amounts(bytes@, rank as nat, behind),
{
    let r: [i32; 4] = [
        amount(bytes, rank, 0, behind),
        amount(bytes, rank, 1, behind),
        amount(bytes, rank, 2, behind),
        amount(bytes, rank, 3, behind),
    ];
    assert(r@ =~= amounts(bytes@, rank as nat, behind));
    r
}

/// The call of a pad.
pub fn emit_pad(model: &ParsedModel, storage: &Vec<Storage>, i: usize, op: &ParsedOp) -> (r: Result<
    PadEmission,
    EmitError,
>)
    ensures
        match r {
            Ok(e) => pad_failure(*model, storage@, i, *op) is None && is_pad(
                e,
                *model,
                storage@,
                *op,
            ),
            Err(e) => pad_failure(*model, storage@, i, *op) == Some(e),
        },
{
    let (input, padding, output): (u32, u32, u32) = binary_operands(
        model,
        op,
        OperatorName::Pad,
        OperandName::Input,
        OperandName::Padding,
    )?;
    let shape = &model.tensors[input as usize].shape;
    let rank: usize = shape.len();
    if rank < 1 || rank > 4 {
        return Err(EmitError::PadRank { op: i, rank });
    }
    let bytes = match model.buffer_data(&model.tensors[padding as usize]) {
        Some(bytes) => bytes,
        None => return Err(EmitError::PadData { op: i, tensor: padding }),
    };
    if bytes.len() != 8 * rank {
        return Err(
            EmitError::PadLength {
                op: i,
                tensor: padding,
                bytes: bytes.len(),
                expected: 8 * (rank as u64),
            },
        );
    }
    let input_shape: [i32; 4] = shape4(shape)?;
    let output_shape: [i32; 4] = shape4(&model.tensors[output as usize].shape)?;
    let (source, target): (Source, Target) = places(storage, input, output)?;
    Ok(
        PadEmission {
            source,
            target,
            params: PadParams {
                input_shape,
                output_shape,
                left_padding: read_amounts(bytes, rank, false),
                left_padding_count: rank as i8,
                right_padding: read_amounts(bytes, rank, true),
                right_padding_count: rank as i8,
            },
        },
    )
}

/// Fails where a transpose has no call.
pub open spec fn transpose_failure(
    model: ParsedModel,
    storage: Seq<Storage>,
    i: usize,
    op: ParsedOp,
) -> Option<EmitError> {
    let input = model.tensors@[input_of(op) as int].shape@;
    let rank = input.len();
    operands::either(
        binary(
            model,
            op,
            OperatorName::Transpose,
            OperandName::Input,
            OperandName::Permutation,
        ),
        operands::either(
            operands::unless(
                1 <= rank <= 4,
                EmitError::TransposeRank { op: i, rank: rank as usize },
            ),
            operands::either(
                match model.data(model.tensors@[second_of(op) as int]) {
                    None => Some(EmitError::PermutationData { op: i, tensor: second_of(op) }),
                    Some(bytes) => if bytes.len() != 4 * rank {
                        Some(
                            EmitError::PermutationLength {
                                op: i,
                                tensor: second_of(op),
                                bytes: bytes.len() as usize,
                                expected: (4 * rank) as u64,
                            },
                        )
                    } else {
                        match operands::first_outside(
                            crate::bytes::words(bytes),
                            0,
                            rank as int,
                        ) {
                            Some(entry) => Some(
                                EmitError::PermutationEntry { op: i, entry, rank: rank as usize },
                            ),
                            None => None,
                        }
                    },
                },
                operands::either(operands::four_dimensional(input), placed(storage, op)),
            ),
        ),
    )
}

/// A list of at most four numbers, filled up with zeros to eight.
pub open spec fn filled_to_eight(list: Seq<i32>) -> Seq<i32> {
    Seq::new(
        8,
        |k: int|
            if k < list.len() {
                list[k]
            } else {
                0
            },
    )
}

/// Whether a call is that of a transpose.
pub open spec fn is_transpose(
    e: TransposeEmission,
    model: ParsedModel,
    storage: Seq<Storage>,
    op: ParsedOp,
) -> bool {
    let input = model.tensors@[input_of(op) as int].shape@;
    let bytes = model.data(model.tensors@[second_of(op) as int])->0;
    &&& e.source == operands::source_of(storage, input_of(op))
    &&& e.target == operands::target_of(storage, output_of(op))
    &&& e.params.input_shape@ == operands::widened(input)
    &&& e.params.perm@ == filled_to_eight(crate::bytes::words(bytes))
    &&& e.params.perm_count == input.len()
}

/// The call of a transpose.
pub fn emit_transpose(model: &ParsedModel, storage: &Vec<Storage>, i: usize, op: &ParsedOp) -> (r:
    Result<TransposeEmission, EmitError>)
    ensures
        match r {
            Ok(e) => transpose_failure(*model, storage@, i, *op) is None && is_transpose(
                e,
                *model,
                storage@,
                *op,
            ),
            Err(e) => transpose_failure(*model, storage@, i, *op) == Some(e),
        },
{
    let (input, permutation, output): (u32, u32, u32) = binary_operands(
        model,
        op,
        OperatorName::Transpose,
        OperandName::Input,
        OperandName::Permutation,
    )?;
    let shape = &model.tensors[input as usize].shape;
    let rank: usize = shape.len();
    if rank < 1 || rank > 4 {
        return Err(EmitError::TransposeRank { op: i, rank });
    }
    let bytes = match model.buffer_data(&model.tensors[permutation as usize]) {
        Some(bytes) => bytes,
        None => return Err(EmitError::PermutationData { op: i, tensor: permutation }),
    };
    if bytes.len() != 4 * rank {
        return Err(
            EmitError::PermutationLength {
                op: i,
                tensor: permutation,
                bytes: bytes.len(),
                expected: 4 * (rank as u64),
            },
        );
    }
    let words: Vec<i32> = read_words(bytes);
    match find_outside(&words, 0, rank as i64) {
        Some(entry) => return Err(EmitError::PermutationEntry { op: i, entry, rank }),
        None => {},
    }
    let input_shape: [i32; 4] = shape4(shape)?;
    let perm: [i32; 8] = [
        entry(&words, 0),
        entry(&words, 1),
        entry(&words, 2),
        entry(&words, 3),
        entry(&words, 4),
        entry(&words, 5),
        entry(&words, 6),
        entry(&words, 7),
    ];
    assert(perm@ =~= filled_to_eight(words@));
    let (source, target): (Source, Target) = places(storage, input, output)?;
    Ok(
        TransposeEmission {
            source,
            target,
            params: TransposeParams { input_shape, perm, perm_count: rank as i8 },
        },
    )
}

/// Fails where a resize has no call.
pub open spec fn resize_failure(
    model: ParsedModel,
    storage: Seq<Storage>,
    i: usize,
    op: ParsedOp,
) -> Option<EmitError> {
    match op.options {
        Some(ParsedOptions::ResizeNearest { .. }) => operands::either(
            unary(model, op, OperatorName::Resize),
            operands::either(
                operands::four_dimensional(model.tensors@[input_of(op) as int].shape@),
                operands::either(
                    operands::four_dimensional(model.tensors@[output_of(op) as int].shape@),
                    placed(storage, op),
                ),
            ),
        ),
        _ => Some(EmitError::Options { op: i, options: OptionsName::ResizeNearest }),
    }
}

/// A flag as a number.
pub open spec fn flag(b: bool) -> i32 {
    if b {
        1
    } else {
        0
    }
}

/// Whether a call is that of a resize.
pub open spec fn is_resize(
    e: ResizeEmission,
    model: ParsedModel,
    storage: Seq<Storage>,
    op: ParsedOp,
) -> bool {
    match op.options {
        Some(ParsedOptions::ResizeNearest { align_corners, half_pixel_centers }) => {
            let input = model.tensors@[input_of(op) as int];
            let output = model.tensors@[output_of(op) as int];
            &&& e.source == operands::source_of(storage, input_of(op))
            &&& e.target == operands::target_of(storage, output_of(op))
            &&& e.params.input_shape@ == operands::widened(input.shape@)
            &&& e.params.output_shape@ == operands::widened(output.shape@)
            &&& e.params.align_corners == flag(align_corners)
            &&& e.params.half_pixel_centers == flag(half_pixel_centers)
        },
        _ => false,
    }
}

/// The call of a resize.
pub fn emit_resize(model: &ParsedModel, storage: &Vec<Storage>, i: usize, op: &ParsedOp) -> (r:
    Result<ResizeEmission, EmitError>)
    ensures
        match r {
            Ok(e) => resize_failure(*model, storage@, i, *op) is None && is_resize(
                e,
                *model,
                storage@,
                *op,
            ),
            Err(e) => resize_failure(*model, storage@, i, *op) == Some(e),
        },
{
    match &op.options {
        Some(ParsedOptions::ResizeNearest { align_corners, half_pixel_centers }) => {
            let (input, output): (u32, u32) = unary_operands(model, op, OperatorName::Resize)?;
            let input_shape: [i32; 4] = shape4(&model.tensors[input as usize].shape)?;
            let output_shape: [i32; 4] = shape4(&model.tensors[output as usize].shape)?;
            let (source, target): (Source, Target) = places(storage, input, output)?;
            Ok(
                ResizeEmission {
                    source,
                    target,
                    params: ResizeNearestParams {
                        input_shape,
                        output_shape,
                        align_corners: if *align_corners { 1 } else { 0 },
                        half_pixel_centers: if *half_pixel_centers { 1 } else { 0 },
                    },
                },
            )
        },
        _ => Err(EmitError::Options { op: i, options: OptionsName::ResizeNearest }),
    }
}

impl ConvEmission {
    /// Whether parameters are those of the call.
    pub open spec fn hands_over(self, p: Conv2DParams) -> bool {
        &&& p.input_shape == self.input_shape
        &&& p.filter_shape == self.filter_shape
        &&& p.output_shape == self.output_shape
        &&& p.padding == self.padding
        &&& p.stride_width == self.stride_width
        &&& p.stride_height == self.stride_height
        &&& p.dilation_width_factor == self.dilation_width_factor
        &&& p.dilation_height_factor == self.dilation_height_factor
        &&& p.input_offset == self.quant.input_offset
        &&& p.weights_offset == self.quant.weights_offset
        &&& p.output_offset == self.quant.output_offset
        &&& p.output_multiplier_per_channel@ == self.quant.multipliers@
        &&& p.output_shift_per_channel@ == self.quant.shifts@
        &&& p.quantized_activation_min == self.quant.act_min
        &&& p.quantized_activation_max == self.quant.act_max
    }

    /// The parameters of the call.
    pub fn params(&self) -> (p: Conv2DParams<'_>)
        ensures
            self.hands_over(p),
            p.input_shape == self.input_shape,
            p.filter_shape == self.filter_shape,
            p.output_shape == self.output_shape,
            p.padding == self.padding,
            p.stride_width == self.stride_width,
            p.stride_height == self.stride_height,
            p.dilation_width_factor == self.dilation_width_factor,
            p.dilation_height_factor == self.dilation_height_factor,
            p.input_offset == self.quant.input_offset,
            p.weights_offset == self.quant.weights_offset,
            p.output_offset == self.quant.output_offset,
            p.output_multiplier_per_channel@ == self.quant.multipliers@,
            p.output_shift_per_channel@ == self.quant.shifts@,
            p.quantized_activation_min == self.quant.act_min,
            p.quantized_activation_max == self.quant.act_max,
    {
        Conv2DParams {
            input_shape: self.input_shape,
            filter_shape: self.filter_shape,
            output_shape: self.output_shape,
            padding: self.padding,
            stride_width: self.stride_width,
            stride_height: self.stride_height,
            dilation_width_factor: self.dilation_width_factor,
            dilation_height_factor: self.dilation_height_factor,
            input_offset: self.quant.input_offset,
            weights_offset: self.quant.weights_offset,
            output_offset: self.quant.output_offset,
            output_multiplier_per_channel: self.quant.multipliers.as_slice(),
            output_shift_per_channel: self.quant.shifts.as_slice(),
            quantized_activation_min: self.quant.act_min,
            quantized_activation_max: self.quant.act_max,
        }
    }
}

impl DepthwiseEmission {
    /// Whether parameters are those of the call.
    pub open spec fn hands_over(self, p: DepthwiseConv2DParams) -> bool {
        &&& p.input_shape == self.conv.input_shape
        &&& p.filter_shape == self.conv.filter_shape
        &&& p.output_shape == self.conv.output_shape
        &&& p.padding == self.conv.padding
        &&& p.stride_width == self.conv.stride_width
        &&& p.stride_height == self.conv.stride_height
        &&& p.dilation_width_factor == self.conv.dilation_width_factor
        &&& p.dilation_height_factor == self.conv.dilation_height_factor
        &&& p.depth_multiplier == self.depth_multiplier
        &&& p.input_offset == self.conv.quant.input_offset
        &&& p.weights_offset == self.conv.quant.weights_offset
        &&& p.output_offset == self.conv.quant.output_offset
        &&& p.output_multiplier_per_channel@ == self.conv.quant.multipliers@
        &&& p.output_shift_per_channel@ == self.conv.quant.shifts@
        &&& p.quantized_activation_min == self.conv.quant.act_min
        &&& p.quantized_activation_max == self.conv.quant.act_max
    }

    /// The parameters of the call.
    pub fn params(&self) -> (p: DepthwiseConv2DParams<'_>)
        ensures
            self.hands_over(p),
            p.input_shape == self.conv.input_shape,
            p.filter_shape == self.conv.filter_shape,
            p.output_shape == self.conv.output_shape,
            p.padding == self.conv.padding,
            p.stride_width == self.conv.stride_width,
            p.stride_height == self.conv.stride_height,
            p.dilation_width_factor == self.conv.dilation_width_factor,
            p.dilation_height_factor == self.conv.dilation_height_factor,
            p.depth_multiplier == self.depth_multiplier,
            p.input_offset == self.conv.quant.input_offset,
            p.weights_offset == self.conv.quant.weights_offset,
            p.output_offset == self.conv.quant.output_offset,
            p.output_multiplier_per_channel@ == self.conv.quant.multipliers@,
            p.output_shift_per_channel@ == self.conv.quant.shifts@,
            p.quantized_activation_min == self.conv.quant.act_min,
            p.quantized_activation_max == self.conv.quant.act_max,
    {
        DepthwiseConv2DParams {
            input_shape: self.conv.input_shape,
            filter_shape: self.conv.filter_shape,
            output_shape: self.conv.output_shape,
            padding: self.conv.padding,
            stride_width: self.conv.stride_width,
            stride_height: self.conv.stride_height,
            dilation_width_factor: self.conv.dilation_width_factor,
            dilation_height_factor: self.conv.dilation_height_factor,
            depth_multiplier: self.depth_multiplier,
            input_offset: self.conv.quant.input_offset,
            weights_offset: self.conv.quant.weights_offset,
            output_offset: self.conv.quant.output_offset,
            output_multiplier_per_channel: self.conv.quant.multipliers.as_slice(),
            output_shift_per_channel: self.conv.quant.shifts.as_slice(),
            quantized_activation_min: self.conv.quant.act_min,
            quantized_activation_max: self.conv.quant.act_max,
        }
    }
}

impl FullyConnectedEmission {
    /// Whether parameters are those of the call.
    pub open spec fn hands_over(self, p: FullyConnectedParams) -> bool {
        &&& p.input_dim == self.input_dim
        &&& p.output_dim == self.output_dim
        &&& p.input_offset == self.quant.input_offset
        &&& p.weights_offset == self.quant.weights_offset
        &&& p.output_offset == self.quant.output_offset
        &&& p.output_multiplier_per_channel@ == self.quant.multipliers@
        &&& p.output_shift_per_channel@ == self.quant.shifts@
        &&& p.quantized_activation_min == self.quant.act_min
        &&& p.quantized_activation_max == self.quant.act_max
    }

    /// The parameters of the call.
    pub fn params(&self) -> (p: FullyConnectedParams<'_>)
        ensures
            self.hands_over(p),
            p.input_dim == self.input_dim,
            p.output_dim == self.output_dim,
            p.input_offset == self.quant.input_offset,
            p.weights_offset == self.quant.weights_offset,
            p.output_offset == self.quant.output_offset,
            p.output_multiplier_per_channel@ == self.quant.multipliers@,
            p.output_shift_per_channel@ == self.quant.shifts@,
            p.quantized_activation_min == self.quant.act_min,
            p.quantized_activation_max == self.quant.act_max,
    {
        FullyConnectedParams {
            input_dim: self.input_dim,
            output_dim: self.output_dim,
            input_offset: self.quant.input_offset,
            weights_offset: self.quant.weights_offset,
            output_offset: self.quant.output_offset,
            output_multiplier_per_channel: self.quant.multipliers.as_slice(),
            output_shift_per_channel: self.quant.shifts.as_slice(),
            quantized_activation_min: self.quant.act_min,
            quantized_activation_max: self.quant.act_max,
        }
    }
}

impl ActivationEmission {
    /// Whether parameters are those of the call.
    pub open spec fn hands_over(self, p: ActivationParams) -> bool {
        &&& p.input_offset == self.input_offset
        &&& p.output_offset == self.output_offset
        &&& (p.output_multiplier, p.output_shift) == self.output
        &&& p.quantized_activation_min == self.act_min
        &&& p.quantized_activation_max == self.act_max
        &&& (p.output_multiplier_alpha, p.output_shift_alpha) == self.slope
        &&& (p.output_multiplier_identity, p.output_shift_identity) == self.identity
        &&& p.alpha_offset == self.alpha_offset
        &&& p.alpha_data@ == self.alpha@
        &&& (p.output_multiplier_1, p.output_shift_1) == self.above
        &&& (p.output_multiplier_2, p.output_shift_2) == self.below
    }

    /// The parameters of the call.
    pub fn params(&self) -> (p: ActivationParams<'_>)
        ensures
            self.hands_over(p),
            p.input_offset == self.input_offset,
            p.output_offset == self.output_offset,
            p.output_multiplier == self.output.0,
            p.output_shift == self.output.1,
            p.quantized_activation_min == self.act_min,
            p.quantized_activation_max == self.act_max,
            p.input_multiplier == 0,
            p.input_left_shift == 0,
            p.input_range_radius == 0,
            p.output_multiplier_alpha == self.slope.0,
            p.output_shift_alpha == self.slope.1,
            p.output_multiplier_identity == self.identity.0,
            p.output_shift_identity == self.identity.1,
            p.alpha_offset == self.alpha_offset,
            p.alpha_data@ == self.alpha@,
            p.output_multiplier_1 == self.above.0,
            p.output_shift_1 == self.above.1,
            p.output_multiplier_2 == self.below.0,
            p.output_shift_2 == self.below.1,
            p.reluish_multiplier_fixedpoint_int16 == 0,
            p.reluish_multiplier_exponent == 0,
            p.output_multiplier_fixedpoint_int16 == 0,
            p.output_multiplier_exponent == 0,
    {
        ActivationParams {
            input_offset: self.input_offset,
            output_offset: self.output_offset,
            output_multiplier: self.output.0,
            output_shift: self.output.1,
            quantized_activation_min: self.act_min,
            quantized_activation_max: self.act_max,
            input_multiplier: 0,
            input_left_shift: 0,
            input_range_radius: 0,
            output_multiplier_alpha: self.slope.0,
            output_shift_alpha: self.slope.1,
            output_multiplier_identity: self.identity.0,
            output_shift_identity: self.identity.1,
            alpha_offset: self.alpha_offset,
            alpha_data: self.alpha.as_slice(),
            output_multiplier_1: self.above.0,
            output_shift_1: self.above.1,
            output_multiplier_2: self.below.0,
            output_shift_2: self.below.1,
            reluish_multiplier_fixedpoint_int16: 0,
            reluish_multiplier_exponent: 0,
            output_multiplier_fixedpoint_int16: 0,
            output_multiplier_exponent: 0,
        }
    }
}

} // verus!
