//! What holds of emitted calls, in terms of the graph and of real numbers.
//!
//! An emitted call computes on integers what the operator computes on real
//! numbers. So its fields are tied here to the options and the tensors of the
//! operator: strides to strides, multipliers to quotients of scales, clamps to
//! the ranges of activations, constants to bytes.

use crate::accuracy;
use crate::generate;
use crate::generate::{ActivationEmission, ActivationMethod, ConvEmission, DepthwiseEmission};
use crate::generate::{ElementwiseEmission, ElementwiseMethod, FullyConnectedEmission};
use crate::generate::{MeanEmission, PadEmission, PoolEmission, ReshapeEmission, ResizeEmission};
use crate::generate::{SoftmaxEmission, TransposeEmission};
use crate::model::{ParsedModel, ParsedOp, ParsedOptions, ParsedTensor, NO_TENSOR};
use crate::op_params::{ActivationParams, Conv2DParams, DepthwiseConv2DParams, FullyConnectedParams};
use crate::op_params::{FusedActivation, Padding, PoolKind};
use crate::operands;
use crate::operands::{ConvQuant, Source, Storage, Target};
use vstd::prelude::*;

verus! {

/// Whether a source is the place of a tensor.
pub open spec fn reads(source: Source, storage: Seq<Storage>, t: u32) -> bool {
    t < storage.len() && match storage[t as int] {
        Storage::Input { start, len } => source == (Source::Input { start, len }),
        Storage::Tensor { idx } => source == (Source::Tensor { idx }),
        _ => false,
    }
}

/// Whether a target is the place of a tensor.
pub open spec fn writes(target: Target, storage: Seq<Storage>, t: u32) -> bool {
    t < storage.len() && match storage[t as int] {
        Storage::Output { start, len } => target == (Target::Output { start, len }),
        Storage::Tensor { idx } => target == (Target::Tensor { idx }),
        _ => false,
    }
}

/// Whether four dimensions end with those of a shape, with ones in front.
pub open spec fn spreads(dims: Seq<i32>, shape: Seq<i32>) -> bool {
    &&& dims.len() == 4
    &&& shape.len() <= 4
    &&& forall|k: int|
        0 <= k < 4 ==> (#[trigger] dims[3 - k]) == if k < shape.len() {
            shape[shape.len() - 1 - k]
        } else {
            1
        }
}

/// Whether signed bytes are the bytes of constant data.
pub open spec fn carries(values: Seq<i8>, bytes: Seq<u8>) -> bool {
    &&& values.len() == bytes.len()
    &&& forall|k: int| 0 <= k < values.len() ==> (#[trigger] values[k] - bytes[k]) % 256 == 0
}

/// Whether a word is the four bytes at a position, the lowest first.
pub open spec fn is_word(value: int, bytes: Seq<u8>, at: int) -> bool {
    (value - (bytes[at] + 0x100 * bytes[at + 1] + 0x1_0000 * bytes[at + 2] + 0x100_0000 * bytes[at
        + 3])) % 0x1_0000_0000 == 0
}

/// The zero point of a tensor.
pub open spec fn zero(tensor: ParsedTensor) -> int {
    match tensor.quant {
        Some(q) => q.zero_point as int,
        None => 0,
    }
}

/// The scale of a tensor.
pub open spec fn scale(tensor: ParsedTensor) -> u32 {
    match tensor.quant {
        Some(q) => q.scale,
        None => 0,
    }
}

/// Whether a tensor has a finite positive scale and a zero point that is a word
/// with a negative.
pub open spec fn quantized(tensor: ParsedTensor) -> bool {
    &&& tensor.quant is Some
    &&& 0 < scale(tensor) < 0x7f80_0000
    &&& -0x7fff_ffff <= zero(tensor) <= 0x7fff_ffff
}

/// Whether a pair scales values of one tensor to values of another.
pub open spec fn rescales(pair: (i32, i32), from: u32, to: u32) -> bool {
    let e = accuracy::exponent(from) - accuracy::exponent(to);
    &&& pair.0 != 0 ==> accuracy::stands_for(
        pair,
        accuracy::mantissa(from),
        accuracy::mantissa(to),
        e,
    )
    &&& accuracy::within_reach(accuracy::mantissa(from), accuracy::mantissa(to), e) ==> pair.0
        >= 0x4000_0000
}

/// Whether a pair scales products of values of two tensors to values of another.
pub open spec fn rescales_product(pair: (i32, i32), first: u32, second: u32, to: u32) -> bool {
    let n = accuracy::mantissa(first) * accuracy::mantissa(second);
    let e = accuracy::exponent(first) + accuracy::exponent(second) - accuracy::exponent(to);
    &&& pair.0 != 0 ==> accuracy::stands_for(pair, n, accuracy::mantissa(to), e)
    &&& accuracy::within_reach(n, accuracy::mantissa(to), e) ==> pair.0 >= 0x4000_0000
}

/// The scale of the weights of a channel: its own, or the one of all.
pub open spec fn channel_scale(weights: ParsedTensor, channels: nat, k: int) -> u32 {
    match weights.quant {
        Some(q) => match q.per_channel {
            Some(pc) => if pc.scales@.len() == channels {
                pc.scales@[k]
            } else {
                pc.scales@[0]
            },
            None => q.scale,
        },
        None => 0,
    }
}

/// Whether a quantization scales sums of products of input and weights to the
/// output, channel by channel, and clamps as the activation does.
pub open spec fn weighs(
    q: ConvQuant,
    input: ParsedTensor,
    weights: ParsedTensor,
    output: ParsedTensor,
    channels: nat,
    act: i8,
) -> bool {
    &&& q.input_offset == -zero(input)
    &&& q.weights_offset == zero(weights)
    &&& q.output_offset == zero(output)
    &&& q.multipliers@.len() == channels
    &&& q.shifts@.len() == channels
    &&& forall|k: int|
        0 <= k < channels && 0 < channel_scale(weights, channels, k) < 0x7f80_0000
            ==> rescales_product(
            (#[trigger] q.multipliers@[k], q.shifts@[k]),
            scale(input),
            channel_scale(weights, channels, k),
            scale(output),
        )
    &&& accuracy::measurable(act, scale(output), zero(output)) ==> accuracy::clamps(
        act,
        scale(output),
        zero(output),
        q.act_min as int,
        q.act_max as int,
    )
}

/// The quantization of a convolution or dense layer is that of the real
/// function: input scale times weight scale over output scale for every
/// channel, zero points where the scales have theirs, and the range of the
/// activation.
pub proof fn law_weighted_sums_are_rescaled(
    q: ConvQuant,
    input: ParsedTensor,
    weights: ParsedTensor,
    output: ParsedTensor,
    channels: nat,
    act: i8,
)
    requires
        operands::is_conv_quant(q, input, weights, output, channels, act),
        quantized(input),
        quantized(output),
        weights.quant is Some,
        -0x7fff_ffff <= zero(weights) <= 0x7fff_ffff,
    ensures
        weighs(q, input, weights, output, channels, act),
{
    assert forall|k: int|
        0 <= k < channels && 0 < channel_scale(weights, channels, k)
            < 0x7f80_0000 implies rescales_product(
        (#[trigger] q.multipliers@[k], q.shifts@[k]),
        scale(input),
        channel_scale(weights, channels, k),
        scale(output),
    ) by {
        accuracy::law_product_ratio_is_the_quotient(
            scale(input),
            channel_scale(weights, channels, k),
            scale(output),
        );
    }
    if accuracy::measurable(act, scale(output), zero(output)) {
        accuracy::law_bounds_are_those_of_the_activation(
            act,
            scale(output),
            zero(output) as i32,
        );
    }
}

/// Whether a bias has one value per channel: the words of the third operand
/// where that is constant, and zeros otherwise.
pub open spec fn biases(bias: Seq<i32>, model: ParsedModel, op: ParsedOp, channels: nat) -> bool {
    &&& bias.len() == channels
    &&& if op.inputs@.len() > 2 && op.inputs@[2] != NO_TENSOR && model.is_constant(
        op.inputs@[2] as int,
    ) {
        let bytes = model.data(model.tensors@[op.inputs@[2] as int])->0;
        bytes.len() == 4 * channels && forall|k: int|
            0 <= k < channels ==> is_word(#[trigger] bias[k] as int, bytes, 4 * k)
    } else {
        forall|k: int| 0 <= k < channels ==> #[trigger] bias[k] == 0
    }
}

proof fn lemma_biases(model: ParsedModel, op: ParsedOp, channels: nat)
    requires
        operands::biased(model, operands::optional(op.inputs@, 2), channels) is None,
    ensures
        biases(
            operands::bias_of(model, operands::optional(op.inputs@, 2), channels),
            model,
            op,
            channels,
        ),
{
}

proof fn lemma_carries(bytes: Seq<u8>)
    ensures
        carries(crate::bytes::signed_bytes(bytes), bytes),
{
}

proof fn lemma_spreads(shape: Seq<i32>)
    requires
        shape.len() <= 4,
    ensures
        spreads(operands::widened(shape), shape),
{
}

/// Whether the tensors of an operator with weights are in order: input, weights
/// and output exist.
pub open spec fn has_three(model: ParsedModel, op: ParsedOp) -> bool {
    &&& op.inputs@.len() >= 2
    &&& op.outputs@.len() >= 1
    &&& op.inputs@[0] < model.tensors@.len()
    &&& op.inputs@[1] < model.tensors@.len()
    &&& op.outputs@[0] < model.tensors@.len()
}

/// Whether input and output of an operator exist.
pub open spec fn has_two(model: ParsedModel, op: ParsedOp) -> bool {
    &&& op.inputs@.len() >= 1
    &&& op.outputs@.len() >= 1
    &&& op.inputs@[0] < model.tensors@.len()
    &&& op.outputs@[0] < model.tensors@.len()
}

/// Whether a shape has up to four dimensions, all of them known.
pub open spec fn is_shape(shape: Seq<i32>) -> bool {
    shape.len() <= 4 && forall|k: int| 0 <= k < shape.len() ==> #[trigger] shape[k] > 0
}

/// Whether a tensor has a finite positive scale.
pub open spec fn has_scale(tensor: ParsedTensor) -> bool {
    tensor.quant is Some && 0 < scale(tensor) < 0x7f80_0000
}

/// Whether a tensor lies where a call can read it.
pub open spec fn can_read(storage: Seq<Storage>, t: u32) -> bool {
    t < storage.len() && (storage[t as int] is Input || storage[t as int] is Tensor)
}

/// Whether a tensor lies where a call can write it.
pub open spec fn can_write(storage: Seq<Storage>, t: u32) -> bool {
    t < storage.len() && (storage[t as int] is Output || storage[t as int] is Tensor)
}

/// Whether there is a scale for each of the channels of weights.
pub open spec fn has_channel_scales(weights: ParsedTensor, channels: int) -> bool {
    match weights.quant {
        Some(q) => match q.per_channel {
            Some(pc) => pc.scales@.len() == channels || pc.scales@.len() == 1,
            None => true,
        },
        None => false,
    }
}

/// Whether constant bytes fill a shape.
pub open spec fn fills(model: ParsedModel, tensor: ParsedTensor) -> bool {
    &&& model.data(tensor) is Some
    &&& forall|k: int| 0 <= k < tensor.shape@.len() ==> #[trigger] tensor.shape@[k] > 0
    &&& model.data(tensor)->0.len() == crate::shape::product_of(tensor.shape@)
}

/// Whether the third operand, where it is listed, exists and holds nothing or
/// one word per channel.
pub open spec fn has_bias(model: ParsedModel, op: ParsedOp, channels: int) -> bool {
    op.inputs@.len() > 2 && op.inputs@[2] != NO_TENSOR ==> {
        &&& op.inputs@[2] < model.tensors@.len()
        &&& model.is_constant(op.inputs@[2] as int) ==> model.data(
            model.tensors@[op.inputs@[2] as int],
        )->0.len() == 4 * channels
    }
}

proof fn lemma_four_dimensional(shape: Seq<i32>)
    ensures
        operands::four_dimensional(shape) is None <==> is_shape(shape),
{
    operands::lemma_bad_dimension(shape);
}

proof fn lemma_weighted(model: ParsedModel, t: u32)
    ensures
        operands::weighted(model, t) is None <==> t < model.tensors@.len() && fills(
            model,
            model.tensors@[t as int],
        ),
{
    if t < model.tensors@.len() {
        operands::lemma_bad_dimension(model.tensors@[t as int].shape@);
    }
}

/// Whether a convolution call reads, writes and carries what its operator names,
/// with its shapes.
pub open spec fn connects(
    e: ConvEmission,
    model: ParsedModel,
    storage: Seq<Storage>,
    op: ParsedOp,
) -> bool {
    &&& reads(e.source, storage, op.inputs@[0])
    &&& writes(e.target, storage, op.outputs@[0])
    &&& spreads(e.input_shape@, model.tensors@[op.inputs@[0] as int].shape@)
    &&& spreads(e.filter_shape@, model.tensors@[op.inputs@[1] as int].shape@)
    &&& spreads(e.output_shape@, model.tensors@[op.outputs@[0] as int].shape@)
    &&& carries(e.weights@, model.data(model.tensors@[op.inputs@[1] as int])->0)
}

/// Whether the zero points of three tensors are words.
pub open spec fn has_words(model: ParsedModel, op: ParsedOp) -> bool {
    &&& -0x7fff_ffff <= zero(model.tensors@[op.inputs@[0] as int]) <= 0x7fff_ffff
    &&& -0x7fff_ffff <= zero(model.tensors@[op.inputs@[1] as int]) <= 0x7fff_ffff
    &&& -0x7fff_ffff <= zero(model.tensors@[op.outputs@[0] as int]) <= 0x7fff_ffff
}

/// A convolution call takes its strides from the strides of the operator and
/// its dilations from the dilations, connects the tensors that the operator
/// names, has one bias and one multiplier for each filter, and scales and clamps
/// as the real convolution.
pub proof fn law_convolution_calls_follow_the_operator(
    e: ConvEmission,
    model: ParsedModel,
    storage: Seq<Storage>,
    i: usize,
    op: ParsedOp,
)
    requires
        generate::conv2d_failure(model, storage, i, op) is None,
        generate::is_conv2d(e, model, storage, op),
        has_words(model, op),
    ensures
        match op.options {
            Some(
                ParsedOptions::Conv2D {
                    padding,
                    stride_w,
                    stride_h,
                    dilation_w,
                    dilation_h,
                    fused_activation,
                },
            ) => {
                &&& e.stride_width == stride_w
                &&& e.stride_height == stride_h
                &&& e.dilation_width_factor == dilation_w
                &&& e.dilation_height_factor == dilation_h
                &&& padding == 0 ==> e.padding == Padding::Same
                &&& padding == 1 ==> e.padding == Padding::Valid
                &&& connects(e, model, storage, op)
                &&& biases(e.bias@, model, op, e.filter_shape@[0] as nat)
                &&& weighs(
                    e.quant,
                    model.tensors@[op.inputs@[0] as int],
                    model.tensors@[op.inputs@[1] as int],
                    model.tensors@[op.outputs@[0] as int],
                    e.filter_shape@[0] as nat,
                    fused_activation,
                )
            },
            _ => false,
        },
{
    match op.options {
        Some(ParsedOptions::Conv2D { padding, fused_activation, .. }) => {
            lemma_conv(e, model, storage, op, padding, fused_activation, false);
        },
        _ => {},
    }
}

/// A depthwise call takes its strides from the strides of the operator, its
/// dilations from the dilations and its depth multiplier from the depth
/// multiplier, connects the tensors that the operator names, has one bias and
/// one multiplier for each output channel, and scales and clamps as the real
/// convolution.
pub proof fn law_depthwise_calls_follow_the_operator(
    e: DepthwiseEmission,
    model: ParsedModel,
    storage: Seq<Storage>,
    i: usize,
    op: ParsedOp,
)
    requires
        generate::depthwise_failure(model, storage, i, op) is None,
        generate::is_depthwise(e, model, storage, op),
        has_words(model, op),
    ensures
        match op.options {
            Some(
                ParsedOptions::DepthwiseConv2D {
                    padding,
                    stride_w,
                    stride_h,
                    depth_multiplier,
                    dilation_w,
                    dilation_h,
                    fused_activation,
                },
            ) => {
                &&& e.conv.stride_width == stride_w
                &&& e.conv.stride_height == stride_h
                &&& e.conv.dilation_width_factor == dilation_w
                &&& e.conv.dilation_height_factor == dilation_h
                &&& e.depth_multiplier == depth_multiplier
                &&& padding == 0 ==> e.conv.padding == Padding::Same
                &&& padding == 1 ==> e.conv.padding == Padding::Valid
                &&& connects(e.conv, model, storage, op)
                &&& biases(e.conv.bias@, model, op, e.conv.filter_shape@[3] as nat)
                &&& weighs(
                    e.conv.quant,
                    model.tensors@[op.inputs@[0] as int],
                    model.tensors@[op.inputs@[1] as int],
                    model.tensors@[op.outputs@[0] as int],
                    e.conv.filter_shape@[3] as nat,
                    fused_activation,
                )
            },
            _ => false,
        },
{
    match op.options {
        Some(ParsedOptions::DepthwiseConv2D { padding, fused_activation, .. }) => {
            lemma_conv(e.conv, model, storage, op, padding, fused_activation, true);
        },
        _ => {},
    }
}

/// What both kinds of convolution have in common.
proof fn lemma_conv(
    e: ConvEmission,
    model: ParsedModel,
    storage: Seq<Storage>,
    op: ParsedOp,
    padding: i8,
    act: i8,
    depthwise: bool,
)
    requires
        generate::conv_failure(model, storage, op, padding, depthwise) is None,
        generate::is_conv(e, model, storage, op, padding, act, depthwise),
        has_words(model, op),
    ensures
        connects(e, model, storage, op),
        depthwise ==> biases(e.bias@, model, op, e.filter_shape@[3] as nat) && weighs(
            e.quant,
            model.tensors@[op.inputs@[0] as int],
            model.tensors@[op.inputs@[1] as int],
            model.tensors@[op.outputs@[0] as int],
            e.filter_shape@[3] as nat,
            act,
        ),
        !depthwise ==> biases(e.bias@, model, op, e.filter_shape@[0] as nat) && weighs(
            e.quant,
            model.tensors@[op.inputs@[0] as int],
            model.tensors@[op.inputs@[1] as int],
            model.tensors@[op.outputs@[0] as int],
            e.filter_shape@[0] as nat,
            act,
        ),
{
    let input = model.tensors@[op.inputs@[0] as int];
    let weights = model.tensors@[op.inputs@[1] as int];
    let output = model.tensors@[op.outputs@[0] as int];
    lemma_spreads(input.shape@);
    lemma_spreads(weights.shape@);
    lemma_spreads(output.shape@);
    lemma_carries(model.data(weights)->0);
    let channels = generate::filter_channels(model, op, depthwise);
    lemma_biases(model, op, channels);
    law_weighted_sums_are_rescaled(e.quant, input, weights, output, channels, act);
}

/// There is a call exactly where the convolution is one: its tensors exist and
/// are of up to four known dimensions, input and output have scales, the weights
/// have theirs, the padding is known, constant weights fill their shape, the
/// bias has a word per filter, and input and output lie where a call reads and
/// writes.
pub proof fn law_sound_convolutions_have_calls(
    model: ParsedModel,
    storage: Seq<Storage>,
    i: usize,
    op: ParsedOp,
)
    requires
        op.options is Some,
        op.options->0 is Conv2D || op.options->0 is DepthwiseConv2D,
    ensures
        ({
            let input = model.tensors@[op.inputs@[0] as int];
            let weights = model.tensors@[op.inputs@[1] as int];
            let output = model.tensors@[op.outputs@[0] as int];
            let deep = op.options->0 is DepthwiseConv2D;
            let channels = if deep && weights.shape@.len() > 0 {
                weights.shape@[weights.shape@.len() - 1] as int
            } else if !deep && weights.shape@.len() == 4 {
                weights.shape@[0] as int
            } else {
                1
            };
            let padding = match op.options {
                Some(ParsedOptions::Conv2D { padding, .. }) => padding,
                Some(ParsedOptions::DepthwiseConv2D { padding, .. }) => padding,
                _ => 2i8,
            };
            let failure = if deep {
                generate::depthwise_failure(model, storage, i, op)
            } else {
                generate::conv2d_failure(model, storage, i, op)
            };
            failure is None <==> {
                &&& has_three(model, op)
                &&& is_shape(input.shape@)
                &&& is_shape(weights.shape@)
                &&& is_shape(output.shape@)
                &&& has_scale(input)
                &&& has_scale(output)
                &&& has_channel_scales(weights, channels)
                &&& padding == 0 || padding == 1
                &&& fills(model, weights)
                &&& has_bias(model, op, channels)
                &&& can_read(storage, op.inputs@[0])
                &&& can_write(storage, op.outputs@[0])
            }
        }),
{
    let input = model.tensors@[op.inputs@[0] as int];
    let weights = model.tensors@[op.inputs@[1] as int];
    let output = model.tensors@[op.outputs@[0] as int];
    lemma_four_dimensional(input.shape@);
    lemma_four_dimensional(weights.shape@);
    lemma_four_dimensional(output.shape@);
    lemma_weighted(model, op.inputs@[1]);
}

/// A dense call connects the tensors that the operator names, has one bias and
/// one multiplier for each of its outputs, and scales and clamps as the real
/// layer: where the fused activation is ReLU or ReLU6, nothing below the zero
/// point of the output passes.
pub proof fn law_dense_calls_follow_the_operator(
    e: FullyConnectedEmission,
    model: ParsedModel,
    storage: Seq<Storage>,
    i: usize,
    op: ParsedOp,
)
    requires
        generate::fully_connected_failure(model, storage, i, op) is None,
        generate::is_fully_connected(e, model, storage, op),
        has_words(model, op),
        e.output_dim >= 0,
    ensures
        reads(e.source, storage, op.inputs@[0]),
        writes(e.target, storage, op.outputs@[0]),
        carries(e.weights@, model.data(model.tensors@[op.inputs@[1] as int])->0),
        biases(e.bias@, model, op, e.output_dim as nat),
        match op.options {
            Some(ParsedOptions::FullyConnected { fused_activation, .. }) => weighs(
                e.quant,
                model.tensors@[op.inputs@[0] as int],
                model.tensors@[op.inputs@[1] as int],
                model.tensors@[op.outputs@[0] as int],
                e.output_dim as nat,
                fused_activation,
            ) && (fused_activation == 1 || fused_activation == 3 ==> e.quant.act_min >= zero(
                model.tensors@[op.outputs@[0] as int],
            )),
            _ => false,
        },
{
    let input = model.tensors@[op.inputs@[0] as int];
    let weights = model.tensors@[op.inputs@[1] as int];
    let output = model.tensors@[op.outputs@[0] as int];
    lemma_carries(model.data(weights)->0);
    lemma_biases(model, op, e.output_dim as nat);
    match op.options {
        Some(ParsedOptions::FullyConnected { fused_activation, .. }) => {
            law_weighted_sums_are_rescaled(
                e.quant,
                input,
                weights,
                output,
                e.output_dim as nat,
                fused_activation,
            );
        },
        _ => {},
    }
}

/// The first dimension times the product of the others is the product of all.
proof fn lemma_first_dimension(shape: Seq<i32>)
    requires
        shape.len() > 0,
    ensures
        crate::shape::product_of(shape) == shape[0] * crate::shape::product_of(shape.skip(1)),
    decreases shape.len(),
{
    let rest = shape.skip(1);
    if shape.len() == 1 {
        assert(shape.drop_last() =~= Seq::empty());
        assert(rest =~= Seq::empty());
        assert(crate::shape::product_of(shape.drop_last()) == 1);
    } else {
        let short = shape.drop_last();
        lemma_first_dimension(short);
        assert(short.skip(1) =~= rest.drop_last());
        let p = crate::shape::product_of(short.skip(1));
        let d = shape.last() as int;
        assert((shape[0] * p) * d == shape[0] * (p * d)) by (nonlinear_arith);
    }
}

/// A dense layer reads all of its input and writes all of its output: some
/// number of batches divides both into rows of its dimensions. A row is the last
/// dimension where the others are kept, and all but the first otherwise.
pub proof fn law_dense_layers_cover_their_tensors(
    e: FullyConnectedEmission,
    model: ParsedModel,
    storage: Seq<Storage>,
    i: usize,
    op: ParsedOp,
)
    requires
        generate::fully_connected_failure(model, storage, i, op) is None,
        generate::is_fully_connected(e, model, storage, op),
        model.tensors@[op.inputs@[0] as int].shape@.len() > 0,
        crate::shape::all_positive(model.tensors@[op.inputs@[0] as int].shape@),
        crate::shape::product_of(model.tensors@[op.inputs@[0] as int].shape@) <= i32::MAX,
        crate::shape::product_of(model.tensors@[op.outputs@[0] as int].shape@) <= i32::MAX,
    ensures
        ({
            let input = model.tensors@[op.inputs@[0] as int].shape@;
            let output = model.tensors@[op.outputs@[0] as int].shape@;
            match op.options {
                Some(ParsedOptions::FullyConnected { keep_num_dims, .. }) => {
                    let rows = if keep_num_dims {
                        crate::shape::product_of(input.drop_last())
                    } else if input.len() == 1 {
                        1
                    } else {
                        input[0] as int
                    };
                    &&& rows > 0
                    &&& rows * e.input_dim == crate::shape::product_of(input)
                    &&& rows * e.output_dim == crate::shape::product_of(output)
                    &&& e.input_dim > 0
                    &&& keep_num_dims ==> e.input_dim == input.last()
                },
                _ => false,
            }
        }),
{
    let input = model.tensors@[op.inputs@[0] as int].shape@;
    let output = model.tensors@[op.outputs@[0] as int].shape@;
    operands::lemma_bad_dimension(output);
    crate::shape::lemma_product_positive(input);
    crate::shape::lemma_product_positive(output);
    lemma_first_dimension(input);
    match op.options {
        Some(ParsedOptions::FullyConnected { keep_num_dims, .. }) => {
            let rows = generate::batches_of(input, keep_num_dims);
            let depth = generate::depth_of(input, keep_num_dims);
            let length = crate::shape::product_of(output);
            if !keep_num_dims && input.len() == 1 {
                assert(input.skip(1) =~= Seq::empty());
                assert(input[0] * 1 == input[0]);
                assert(1 * depth == depth);
            }
            assert(rows > 0);
            assert(rows * depth == crate::shape::product_of(input));
            assert(0 < depth <= crate::shape::product_of(input)) by (nonlinear_arith)
                requires
                    rows > 0,
                    rows * depth == crate::shape::product_of(input),
                    crate::shape::product_of(input) >= 1,
            ;
            vstd::arithmetic::div_mod::lemma_fundamental_div_mod(length, rows);
            assert(0 <= length / rows <= length) by (nonlinear_arith)
                requires
                    rows > 0,
                    length >= 1,
                    length == rows * (length / rows) + 0,
            ;
        },
        _ => {},
    }
}

/// There is a call exactly where the layer is one: its tensors exist, rows of
/// the input are known and divide the output, input and output have scales, the
/// weights have theirs, constant weights fill their shape, the bias has a word
/// per output, and input and output lie where a call reads and writes.
pub proof fn law_sound_dense_layers_have_calls(
    model: ParsedModel,
    storage: Seq<Storage>,
    i: usize,
    op: ParsedOp,
    keep: bool,
)
    requires
        op.options is Some,
        op.options->0 is FullyConnected,
        op.options->0->keep_num_dims == keep,
        has_three(model, op) ==> {
            let input = model.tensors@[op.inputs@[0] as int].shape@;
            let output = model.tensors@[op.outputs@[0] as int].shape@;
            &&& input.len() > 0
            &&& crate::shape::all_positive(input)
            &&& crate::shape::product_of(input) <= i32::MAX
            &&& crate::shape::product_of(output) <= i32::MAX
        },
    ensures
        ({
            let input = model.tensors@[op.inputs@[0] as int];
            let weights = model.tensors@[op.inputs@[1] as int];
            let output = model.tensors@[op.outputs@[0] as int];
            let rows = if keep {
                crate::shape::product_of(input.shape@.drop_last())
            } else if input.shape@.len() == 1 {
                1
            } else {
                input.shape@[0] as int
            };
            let length = crate::shape::product_of(output.shape@);
            generate::fully_connected_failure(model, storage, i, op) is None <==> {
                &&& has_three(model, op)
                &&& crate::shape::all_positive(output.shape@)
                &&& length % rows == 0
                &&& has_scale(input)
                &&& has_scale(output)
                &&& has_channel_scales(weights, length / rows)
                &&& fills(model, weights)
                &&& has_bias(model, op, length / rows)
                &&& can_read(storage, op.inputs@[0])
                &&& can_write(storage, op.outputs@[0])
            }
        }),
{
    if has_three(model, op) {
        let input = model.tensors@[op.inputs@[0] as int].shape@;
        let output = model.tensors@[op.outputs@[0] as int].shape@;
        operands::lemma_bad_dimension(output);
        lemma_part_positive(input);
        lemma_weighted(model, op.inputs@[1]);
        let rows = generate::batches_of(input, keep);
        let length = crate::shape::product_of(output);
        assert(rows > 0);
        if crate::shape::all_positive(output) {
            crate::shape::lemma_product_positive(output);
            vstd::arithmetic::div_mod::lemma_fundamental_div_mod(length, rows);
            assert(0 <= length / rows <= length) by (nonlinear_arith)
                requires
                    rows > 0,
                    length >= 1,
                    length == rows * (length / rows) + length % rows,
                    0 <= length % rows < rows,
            ;
        }
    }
}

/// Parts of a shape without a bad dimension have none.
proof fn lemma_part_positive(shape: Seq<i32>)
    requires
        shape.len() > 0,
        crate::shape::all_positive(shape),
    ensures
        operands::bad_dimension(shape.drop_last()) is None,
        operands::bad_dimension(shape.skip(1)) is None,
        crate::shape::product_of(shape.drop_last()) >= 1,
        crate::shape::product_of(shape.skip(1)) >= 1,
        shape[0] > 0,
{
    assert forall|k: int| 0 <= k < shape.drop_last().len() implies #[trigger] shape.drop_last()[k]
        > 0 by {
        assert(shape[k] > 0);
    }
    assert forall|k: int| 0 <= k < shape.skip(1).len() implies #[trigger] shape.skip(1)[k] > 0 by {
        assert(shape[k + 1] > 0);
    }
    operands::lemma_bad_dimension(shape.drop_last());
    operands::lemma_bad_dimension(shape.skip(1));
    crate::shape::lemma_product_positive(shape.drop_last());
    crate::shape::lemma_product_positive(shape.skip(1));
}

/// A pool call has the window, the strides and the padding of its operator,
/// connects the tensors that the operator names, and clamps as the activation
/// does; its kind is the one that was asked for.
pub proof fn law_pool_calls_follow_the_operator(
    e: PoolEmission,
    model: ParsedModel,
    storage: Seq<Storage>,
    i: usize,
    op: ParsedOp,
    kind: PoolKind,
)
    requires
        generate::pool_failure(model, storage, i, op) is None,
        generate::is_pool(e, model, storage, op, kind),
        -0x7fff_ffff <= zero(model.tensors@[op.outputs@[0] as int]) <= 0x7fff_ffff,
    ensures
        ({
            let input = model.tensors@[op.inputs@[0] as int];
            let output = model.tensors@[op.outputs@[0] as int];
            match op.options {
                Some(
                    ParsedOptions::Pool2D {
                        padding,
                        stride_w,
                        stride_h,
                        filter_w,
                        filter_h,
                        fused_activation,
                    },
                ) => {
                    &&& e.kind == kind
                    &&& e.params.stride_width == stride_w
                    &&& e.params.stride_height == stride_h
                    &&& e.params.filter_width == filter_w
                    &&& e.params.filter_height == filter_h
                    &&& padding == 0 ==> e.params.padding == Padding::Same
                    &&& padding == 1 ==> e.params.padding == Padding::Valid
                    &&& fused_activation == 1 <==> e.params.activation == FusedActivation::Relu
                    &&& fused_activation == 3 <==> e.params.activation == FusedActivation::Relu6
                    &&& fused_activation != 1 && fused_activation != 3 ==> e.params.activation
                        == FusedActivation::Identity
                    &&& reads(e.source, storage, op.inputs@[0])
                    &&& writes(e.target, storage, op.outputs@[0])
                    &&& spreads(e.params.input_shape@, input.shape@)
                    &&& spreads(e.params.output_shape@, output.shape@)
                    &&& accuracy::measurable(fused_activation, scale(output), zero(output))
                        ==> accuracy::clamps(
                        fused_activation,
                        scale(output),
                        zero(output),
                        e.params.quantized_activation_min as int,
                        e.params.quantized_activation_max as int,
                    )
                },
                _ => false,
            }
        }),
{
    let input = model.tensors@[op.inputs@[0] as int];
    let output = model.tensors@[op.outputs@[0] as int];
    lemma_spreads(input.shape@);
    lemma_spreads(output.shape@);
    match op.options {
        Some(ParsedOptions::Pool2D { fused_activation, .. }) => {
            if accuracy::measurable(fused_activation, scale(output), zero(output)) {
                accuracy::law_bounds_are_those_of_the_activation(
                    fused_activation,
                    scale(output),
                    zero(output) as i32,
                );
            }
        },
        _ => {},
    }
}

/// There is a call exactly where the pool is one: it has pool options with a
/// known padding, input and output exist with up to four known dimensions, the
/// output has a scale, and both lie where a call reads and writes.
pub proof fn law_sound_pools_have_calls(
    model: ParsedModel,
    storage: Seq<Storage>,
    i: usize,
    op: ParsedOp,
)
    ensures
        generate::pool_failure(model, storage, i, op) is None <==> {
            &&& op.options matches Some(ParsedOptions::Pool2D { padding, .. }) && (padding == 0
                || padding == 1)
            &&& has_two(model, op)
            &&& is_shape(model.tensors@[op.inputs@[0] as int].shape@)
            &&& is_shape(model.tensors@[op.outputs@[0] as int].shape@)
            &&& has_scale(model.tensors@[op.outputs@[0] as int])
            &&& can_read(storage, op.inputs@[0])
            &&& can_write(storage, op.outputs@[0])
        },
{
    lemma_four_dimensional(model.tensors@[op.inputs@[0] as int].shape@);
    lemma_four_dimensional(model.tensors@[op.outputs@[0] as int].shape@);
}

/// A softmax call works on rows of the last dimension that together are the
/// whole input, takes the scale of the input with its twenty-five extra bits,
/// and connects the tensors that the operator names.
pub proof fn law_softmax_calls_follow_the_operator(
    e: SoftmaxEmission,
    model: ParsedModel,
    storage: Seq<Storage>,
    i: usize,
    op: ParsedOp,
)
    requires
        generate::softmax_failure(model, storage, i, op) is None,
        generate::is_softmax(e, model, storage, op),
        -0x7fff_ffff <= zero(model.tensors@[op.inputs@[0] as int]) <= 0x7fff_ffff,
        crate::shape::product_of(model.tensors@[op.inputs@[0] as int].shape@) <= i32::MAX,
    ensures
        ({
            let input = model.tensors@[op.inputs@[0] as int];
            &&& reads(e.source, storage, op.inputs@[0])
            &&& writes(e.target, storage, op.outputs@[0])
            &&& e.params.row_size == if input.shape@.len() > 0 {
                input.shape@[input.shape@.len() - 1]
            } else {
                1
            }
            &&& e.params.num_rows * e.params.row_size == crate::shape::product_of(input.shape@)
            &&& rescales(
                (e.params.input_multiplier, (e.params.input_left_shift - 25) as i32),
                scale(input),
                crate::requant::UNIT_SCALE,
            )
            &&& e.params.input_left_shift >= -6
            &&& e.params.input_offset == zero(input)
            &&& e.params.output_offset == -128
            &&& e.params.diff_min == -128
            &&& e.params.quantized_activation_min == -128
            &&& e.params.quantized_activation_max == 127
        }),
{
    let input = model.tensors@[op.inputs@[0] as int];
    let shape = input.shape@;
    lemma_four_dimensional(shape);
    crate::shape::lemma_product_positive(shape);
    accuracy::law_ratio_is_the_quotient(scale(input), crate::requant::UNIT_SCALE);
    crate::requant::law_pairs_are_normalized(
        scale(input),
        crate::requant::UNIT_SCALE,
        crate::requant::UNIT_SCALE,
    );
    let count = crate::shape::product_of(shape);
    if shape.len() > 0 {
        let row = shape.last() as int;
        let rest = crate::shape::product_of(shape.drop_last());
        assert(shape[shape.len() - 1] > 0);
        assert(count / row == rest && (count / row) * row == count) by {
            vstd::arithmetic::div_mod::lemma_div_multiples_vanish(rest, row);
            assert(rest * row == row * rest) by (nonlinear_arith);
        }
    }
}

/// There is a call exactly where the softmax is one: its exponent factor, where
/// it names one, is one up to a millionth, input and output exist, the input has
/// up to four known dimensions and a scale, and both lie where a call reads and
/// writes.
pub proof fn law_sound_softmaxes_have_calls(
    model: ParsedModel,
    storage: Seq<Storage>,
    i: usize,
    op: ParsedOp,
)
    ensures
        generate::softmax_failure(model, storage, i, op) is None <==> {
            &&& match op.options {
                None => true,
                Some(ParsedOptions::Softmax { beta }) => accuracy::is_one_to_a_millionth(beta),
                Some(_) => false,
            }
            &&& has_two(model, op)
            &&& is_shape(model.tensors@[op.inputs@[0] as int].shape@)
            &&& has_scale(model.tensors@[op.inputs@[0] as int])
            &&& can_read(storage, op.inputs@[0])
            &&& can_write(storage, op.outputs@[0])
        },
{
    lemma_four_dimensional(model.tensors@[op.inputs@[0] as int].shape@);
    match op.options {
        Some(ParsedOptions::Softmax { beta }) => {
            accuracy::law_unit_patterns(beta);
        },
        _ => {},
    }
}

/// Whether an activation call connects input and output and has their zero
/// points.
pub open spec fn activates(
    e: ActivationEmission,
    model: ParsedModel,
    storage: Seq<Storage>,
    op: ParsedOp,
) -> bool {
    &&& reads(e.source, storage, op.inputs@[0])
    &&& writes(e.target, storage, op.outputs@[0])
    &&& e.input_offset == zero(model.tensors@[op.inputs@[0] as int])
    &&& e.output_offset == zero(model.tensors@[op.outputs@[0] as int])
}

/// Whether the zero points of input and output are words.
pub open spec fn has_two_words(model: ParsedModel, op: ParsedOp) -> bool {
    &&& -0x7fff_ffff <= zero(model.tensors@[op.inputs@[0] as int]) <= 0x7fff_ffff
    &&& -0x7fff_ffff <= zero(model.tensors@[op.outputs@[0] as int]) <= 0x7fff_ffff
}

/// The call of a ReLU, ReLU6 or hard swish scales values of the input to values
/// of the output, clamps as the function does, and has nothing of the other
/// activations.
pub proof fn law_activation_calls_follow_the_operator(
    e: ActivationEmission,
    model: ParsedModel,
    storage: Seq<Storage>,
    i: usize,
    op: ParsedOp,
    method: ActivationMethod,
)
    requires
        generate::activation_failure(model, storage, i, op) is None,
        generate::is_activation(e, model, storage, op, method),
        has_two_words(model, op),
    ensures
        ({
            let input = model.tensors@[op.inputs@[0] as int];
            let output = model.tensors@[op.outputs@[0] as int];
            let act: i8 = if method == ActivationMethod::Relu {
                1
            } else if method == ActivationMethod::Relu6 {
                3
            } else {
                0
            };
            &&& e.method == method
            &&& activates(e, model, storage, op)
            &&& rescales(e.output, scale(input), scale(output))
            &&& accuracy::measurable(act, scale(output), zero(output)) ==> accuracy::clamps(
                act,
                scale(output),
                zero(output),
                e.act_min as int,
                e.act_max as int,
            )
            &&& e.identity == (0i32, 0i32)
            &&& e.slope == (0i32, 0i32)
            &&& e.above == (0i32, 0i32)
            &&& e.below == (0i32, 0i32)
            &&& e.alpha_offset == 0
            &&& e.alpha@.len() == 0
        }),
{
    let input = model.tensors@[op.inputs@[0] as int];
    let output = model.tensors@[op.outputs@[0] as int];
    accuracy::law_ratio_is_the_quotient(scale(input), scale(output));
    let act: i8 = if method == ActivationMethod::Relu {
        1
    } else if method == ActivationMethod::Relu6 {
        3
    } else {
        0
    };
    if accuracy::measurable(act, scale(output), zero(output)) {
        accuracy::law_bounds_are_those_of_the_activation(act, scale(output), zero(output) as i32);
    }
}

/// There is a call exactly where input and output exist with known dimensions
/// and equally many elements, both have scales, and both lie where a call reads
/// and writes.
pub proof fn law_sound_activations_have_calls(
    model: ParsedModel,
    storage: Seq<Storage>,
    i: usize,
    op: ParsedOp,
)
    ensures
        generate::activation_failure(model, storage, i, op) is None <==> {
            let input = model.tensors@[op.inputs@[0] as int];
            let output = model.tensors@[op.outputs@[0] as int];
            &&& has_two(model, op)
            &&& crate::shape::all_positive(input.shape@)
            &&& crate::shape::all_positive(output.shape@)
            &&& crate::shape::product_of(input.shape@) == crate::shape::product_of(output.shape@)
            &&& has_scale(input)
            &&& has_scale(output)
            &&& can_read(storage, op.inputs@[0])
            &&& can_write(storage, op.outputs@[0])
        },
{
    operands::lemma_bad_dimension(model.tensors@[op.inputs@[0] as int].shape@);
    operands::lemma_bad_dimension(model.tensors@[op.outputs@[0] as int].shape@);
}

/// The call of a leaky ReLU scales values above zero from input to output, and
/// values below zero by the slope besides.
pub proof fn law_leaky_calls_follow_the_operator(
    e: ActivationEmission,
    model: ParsedModel,
    storage: Seq<Storage>,
    i: usize,
    op: ParsedOp,
)
    requires
        generate::leaky_failure(model, storage, i, op) is None,
        generate::is_leaky(e, model, storage, op),
        has_two_words(model, op),
    ensures
        ({
            let input = model.tensors@[op.inputs@[0] as int];
            let output = model.tensors@[op.outputs@[0] as int];
            match op.options {
                Some(ParsedOptions::LeakyRelu { alpha }) => {
                    &&& e.method == ActivationMethod::LeakyRelu
                    &&& activates(e, model, storage, op)
                    &&& rescales(e.identity, scale(input), scale(output))
                    &&& 0 < alpha < 0x7f80_0000 ==> rescales_product(
                        e.slope,
                        scale(input),
                        alpha,
                        scale(output),
                    )
                    &&& e.act_min == -128 && e.act_max == 127
                    &&& e.output == (0i32, 0i32)
                    &&& e.above == (0i32, 0i32)
                    &&& e.below == (0i32, 0i32)
                    &&& e.alpha_offset == 0
                    &&& e.alpha@.len() == 0
                },
                _ => false,
            }
        }),
{
    let input = model.tensors@[op.inputs@[0] as int];
    let output = model.tensors@[op.outputs@[0] as int];
    accuracy::law_ratio_is_the_quotient(scale(input), scale(output));
    match op.options {
        Some(ParsedOptions::LeakyRelu { alpha }) => {
            if 0 < alpha < 0x7f80_0000 {
                accuracy::law_product_ratio_is_the_quotient(scale(input), alpha, scale(output));
            }
        },
        _ => {},
    }
}

/// There is a call of a leaky ReLU exactly where it has its options, input and
/// output exist and have scales, and both lie where a call reads and writes.
pub proof fn law_sound_leaky_relus_have_calls(
    model: ParsedModel,
    storage: Seq<Storage>,
    i: usize,
    op: ParsedOp,
)
    ensures
        generate::leaky_failure(model, storage, i, op) is None <==> {
            &&& op.options matches Some(ParsedOptions::LeakyRelu { .. })
            &&& has_two(model, op)
            &&& has_scale(model.tensors@[op.inputs@[0] as int])
            &&& has_scale(model.tensors@[op.outputs@[0] as int])
            &&& can_read(storage, op.inputs@[0])
            &&& can_write(storage, op.outputs@[0])
        },
{
}

/// The call of a PReLU scales values above zero from input to output, and values
/// below zero by the slopes besides, whose bytes and zero point it carries.
pub proof fn law_prelu_calls_follow_the_operator(
    e: ActivationEmission,
    model: ParsedModel,
    storage: Seq<Storage>,
    i: usize,
    op: ParsedOp,
)
    requires
        generate::prelu_failure(model, storage, i, op) is None,
        generate::is_prelu(e, model, storage, op),
        has_words(model, op),
    ensures
        ({
            let input = model.tensors@[op.inputs@[0] as int];
            let alpha = model.tensors@[op.inputs@[1] as int];
            let output = model.tensors@[op.outputs@[0] as int];
            &&& e.method == ActivationMethod::Prelu
            &&& activates(e, model, storage, op)
            &&& rescales(e.above, scale(input), scale(output))
            &&& rescales_product(e.below, scale(input), scale(alpha), scale(output))
            &&& e.alpha_offset == zero(alpha)
            &&& carries(e.alpha@, model.data(alpha)->0)
            &&& e.act_min == -128 && e.act_max == 127
            &&& e.output == (0i32, 0i32)
            &&& e.identity == (0i32, 0i32)
            &&& e.slope == (0i32, 0i32)
        }),
{
    let input = model.tensors@[op.inputs@[0] as int];
    let alpha = model.tensors@[op.inputs@[1] as int];
    let output = model.tensors@[op.outputs@[0] as int];
    accuracy::law_ratio_is_the_quotient(scale(input), scale(output));
    accuracy::law_product_ratio_is_the_quotient(scale(input), scale(alpha), scale(output));
    lemma_carries(model.data(alpha)->0);
}

/// There is a call of a PReLU exactly where it has no options or its own, input,
/// slopes and output exist and have scales, constant slopes fill their shape,
/// and input and output lie where a call reads and writes.
pub proof fn law_sound_prelus_have_calls(
    model: ParsedModel,
    storage: Seq<Storage>,
    i: usize,
    op: ParsedOp,
)
    ensures
        generate::prelu_failure(model, storage, i, op) is None <==> {
            &&& op.options is Some ==> op.options->0 is Prelu
            &&& has_three(model, op)
            &&& has_scale(model.tensors@[op.inputs@[0] as int])
            &&& has_scale(model.tensors@[op.inputs@[1] as int])
            &&& has_scale(model.tensors@[op.outputs@[0] as int])
            &&& fills(model, model.tensors@[op.inputs@[1] as int])
            &&& can_read(storage, op.inputs@[0])
            &&& can_write(storage, op.outputs@[0])
        },
{
    lemma_weighted(model, op.inputs@[1]);
}

/// Whether three pairs and a left shift are those of an addition: the inputs are
/// brought to twice the larger scale, with `shift` more bits, and their sum to
/// the output.
pub open spec fn adds(
    first: (i32, i32),
    second: (i32, i32),
    sum: (i32, i32),
    shift: int,
    s1: u32,
    s2: u32,
    so: u32,
) -> bool {
    let m = accuracy::maximum(s1, s2);
    let e1 = accuracy::exponent(s1) - accuracy::exponent(m) - 1;
    let e2 = accuracy::exponent(s2) - accuracy::exponent(m) - 1;
    let eo = accuracy::exponent(m) + 1 - shift - accuracy::exponent(so);
    let mm = accuracy::mantissa(m);
    &&& shift == 20
    &&& first.0 != 0 ==> accuracy::stands_for(first, accuracy::mantissa(s1), mm, e1)
    &&& second.0 != 0 ==> accuracy::stands_for(second, accuracy::mantissa(s2), mm, e2)
    &&& sum.0 != 0 ==> accuracy::stands_for(sum, mm, accuracy::mantissa(so), eo)
    &&& accuracy::within_reach(accuracy::mantissa(s1), mm, e1) ==> first.0 >= 0x4000_0000
    &&& accuracy::within_reach(accuracy::mantissa(s2), mm, e2) ==> second.0 >= 0x4000_0000
    &&& accuracy::within_reach(mm, accuracy::mantissa(so), eo) ==> sum.0 >= 0x4000_0000
}

/// The pairs of an addition are those of the real sum.
pub proof fn law_sums_are_rescaled(s1: u32, s2: u32, so: u32)
    requires
        0 < s1 < 0x7f80_0000,
        0 < s2 < 0x7f80_0000,
        0 < so < 0x7f80_0000,
    ensures
        adds(
            crate::requant::add_input(s1, s1, s2),
            crate::requant::add_input(s2, s1, s2),
            crate::requant::add_output(s1, s2, so),
            crate::requant::ADD_LEFT_SHIFT as int,
            s1,
            s2,
            so,
        ),
{
    accuracy::law_addition_pairs_are_the_quotients(s1, s2, so);
}

/// The call of an elementwise operator connects its three tensors in order, has
/// all their elements, minus the zero points of the inputs and the zero point of
/// the output. A sum or difference brings both inputs to one scale; a product
/// scales its result only. The range is that of the activation in the options.
pub proof fn law_elementwise_calls_follow_the_operator(
    e: ElementwiseEmission,
    model: ParsedModel,
    storage: Seq<Storage>,
    i: usize,
    op: ParsedOp,
    method: ElementwiseMethod,
)
    requires
        generate::elementwise_failure(model, storage, i, op) is None,
        generate::is_elementwise(e, model, storage, op, method),
        has_words(model, op),
        crate::shape::product_of(model.tensors@[op.inputs@[0] as int].shape@) <= i32::MAX,
    ensures
        ({
            let input1 = model.tensors@[op.inputs@[0] as int];
            let input2 = model.tensors@[op.inputs@[1] as int];
            let output = model.tensors@[op.outputs@[0] as int];
            let act = match op.options {
                Some(ParsedOptions::Add { fused_activation, .. }) => fused_activation,
                Some(ParsedOptions::Sub { fused_activation, .. }) => fused_activation,
                Some(ParsedOptions::Mul { fused_activation }) => fused_activation,
                _ => 0i8,
            };
            let p = e.params;
            &&& e.method == method
            &&& reads(e.source1, storage, op.inputs@[0])
            &&& reads(e.source2, storage, op.inputs@[1])
            &&& writes(e.target, storage, op.outputs@[0])
            &&& p.num_elements == crate::shape::product_of(input1.shape@)
            &&& p.num_elements == crate::shape::product_of(input2.shape@)
            &&& p.num_elements == crate::shape::product_of(output.shape@)
            &&& p.input1_offset == -zero(input1)
            &&& p.input2_offset == -zero(input2)
            &&& p.output_offset == zero(output)
            &&& if method == ElementwiseMethod::Mul {
                &&& p.left_shift == 0
                &&& rescales_product(
                    (p.output_multiplier, p.output_shift),
                    scale(input1),
                    scale(input2),
                    scale(output),
                )
            } else {
                adds(
                    (p.input1_multiplier, p.input1_shift),
                    (p.input2_multiplier, p.input2_shift),
                    (p.output_multiplier, p.output_shift),
                    p.left_shift as int,
                    scale(input1),
                    scale(input2),
                    scale(output),
                )
            }
            &&& accuracy::measurable(act, scale(output), zero(output)) ==> accuracy::clamps(
                act,
                scale(output),
                zero(output),
                p.quantized_activation_min as int,
                p.quantized_activation_max as int,
            )
        }),
{
    let input1 = model.tensors@[op.inputs@[0] as int];
    let input2 = model.tensors@[op.inputs@[1] as int];
    let output = model.tensors@[op.outputs@[0] as int];
    operands::lemma_bad_dimension(input1.shape@);
    crate::shape::lemma_product_positive(input1.shape@);
    law_sums_are_rescaled(scale(input1), scale(input2), scale(output));
    accuracy::law_product_ratio_is_the_quotient(scale(input1), scale(input2), scale(output));
    let act = generate::elementwise_activation(op)->0;
    if accuracy::measurable(act, scale(output), zero(output)) {
        accuracy::law_bounds_are_those_of_the_activation(act, scale(output), zero(output) as i32);
    }
}

/// There is a call of an elementwise operator exactly where its options are
/// those of one, or none, its three tensors exist with known dimensions and
/// equally many elements, all have scales, and they lie where a call reads and
/// writes.
pub proof fn law_sound_elementwise_operators_have_calls(
    model: ParsedModel,
    storage: Seq<Storage>,
    i: usize,
    op: ParsedOp,
)
    requires
        has_three(model, op) ==> crate::shape::product_of(
            model.tensors@[op.inputs@[0] as int].shape@,
        ) <= i32::MAX,
    ensures
        generate::elementwise_failure(model, storage, i, op) is None <==> {
            let input1 = model.tensors@[op.inputs@[0] as int];
            let input2 = model.tensors@[op.inputs@[1] as int];
            let output = model.tensors@[op.outputs@[0] as int];
            let count = crate::shape::product_of(input1.shape@);
            &&& op.options is None || op.options->0 is Add || op.options->0 is Sub
                || op.options->0 is Mul
            &&& has_three(model, op)
            &&& crate::shape::all_positive(input1.shape@)
            &&& crate::shape::all_positive(input2.shape@)
            &&& crate::shape::all_positive(output.shape@)
            &&& crate::shape::product_of(input2.shape@) == count
            &&& crate::shape::product_of(output.shape@) == count
            &&& has_scale(input1)
            &&& has_scale(input2)
            &&& has_scale(output)
            &&& can_read(storage, op.inputs@[0])
            &&& can_read(storage, op.inputs@[1])
            &&& can_write(storage, op.outputs@[0])
        },
{
    let input1 = model.tensors@[op.inputs@[0] as int].shape@;
    operands::lemma_bad_dimension(input1);
    operands::lemma_bad_dimension(model.tensors@[op.inputs@[1] as int].shape@);
    operands::lemma_bad_dimension(model.tensors@[op.outputs@[0] as int].shape@);
    if crate::shape::all_positive(input1) {
        crate::shape::lemma_product_positive(input1);
    }
}

/// The call of a mean reduces the axes that the options list, in order and no
/// others, keeps dimensions as they say, and scales values of the input to
/// values of the output.
pub proof fn law_mean_calls_follow_the_operator(
    e: MeanEmission,
    model: ParsedModel,
    storage: Seq<Storage>,
    i: usize,
    op: ParsedOp,
)
    requires
        generate::mean_failure(model, storage, i, op) is None,
        generate::is_mean(e, model, storage, op),
        has_two_words(model, op),
    ensures
        ({
            let input = model.tensors@[op.inputs@[0] as int];
            let output = model.tensors@[op.outputs@[0] as int];
            match op.options {
                Some(ParsedOptions::Mean { axis, keep_dims }) => {
                    &&& e.params.keep_dims == keep_dims
                    &&& 1 <= axis@.len() <= 4
                    &&& e.params.axis_count == axis@.len()
                    &&& forall|k: int|
                        0 <= k < axis@.len() ==> #[trigger] e.params.axis@[k] == axis@[k]
                    &&& reads(e.source, storage, op.inputs@[0])
                    &&& writes(e.target, storage, op.outputs@[0])
                    &&& spreads(e.params.input_shape@, input.shape@)
                    &&& spreads(e.params.output_shape@, output.shape@)
                    &&& e.params.input_offset == -zero(input)
                    &&& e.params.output_offset == zero(output)
                    &&& rescales(
                        (e.params.output_multiplier, e.params.output_shift),
                        scale(input),
                        scale(output),
                    )
                    &&& e.params.quantized_activation_min == -128
                    &&& e.params.quantized_activation_max == 127
                },
                _ => false,
            }
        }),
{
    let input = model.tensors@[op.inputs@[0] as int];
    let output = model.tensors@[op.outputs@[0] as int];
    lemma_spreads(input.shape@);
    lemma_spreads(output.shape@);
    accuracy::law_ratio_is_the_quotient(scale(input), scale(output));
    match op.options {
        Some(ParsedOptions::Mean { axis, .. }) => {
            operands::lemma_none_outside(axis@, -0x8000, 0x8000);
            assert forall|k: int| 0 <= k < axis@.len() implies #[trigger] e.params.axis@[k]
                == axis@[k] by {
                assert(-0x8000 <= axis@[k] < 0x8000);
            }
        },
        _ => {},
    }
}

/// There is a call of a mean exactly where its options list one to four axes
/// that are short words, input and output exist with up to four known dimensions
/// and with scales, and both lie where a call reads and writes.
pub proof fn law_sound_means_have_calls(
    model: ParsedModel,
    storage: Seq<Storage>,
    i: usize,
    op: ParsedOp,
)
    ensures
        generate::mean_failure(model, storage, i, op) is None <==> {
            let input = model.tensors@[op.inputs@[0] as int];
            let output = model.tensors@[op.outputs@[0] as int];
            &&& op.options matches Some(ParsedOptions::Mean { axis, .. }) && 1 <= axis@.len() <= 4
                && forall|k: int|
                0 <= k < axis@.len() ==> -0x8000 <= #[trigger] axis@[k] < 0x8000
            &&& has_two(model, op)
            &&& is_shape(input.shape@)
            &&& is_shape(output.shape@)
            &&& has_scale(input)
            &&& has_scale(output)
            &&& can_read(storage, op.inputs@[0])
            &&& can_write(storage, op.outputs@[0])
        },
{
    lemma_four_dimensional(model.tensors@[op.inputs@[0] as int].shape@);
    lemma_four_dimensional(model.tensors@[op.outputs@[0] as int].shape@);
    match op.options {
        Some(ParsedOptions::Mean { axis, .. }) => {
            operands::lemma_none_outside(axis@, -0x8000, 0x8000);
        },
        _ => {},
    }
}

/// The call of a reshape gives the shape in the options where that is known, and
/// the shape of the output otherwise.
pub proof fn law_reshape_calls_follow_the_operator(
    e: ReshapeEmission,
    model: ParsedModel,
    storage: Seq<Storage>,
    i: usize,
    op: ParsedOp,
)
    requires
        generate::reshape_failure(model, storage, i, op) is None,
        generate::is_reshape(e, model, storage, op),
    ensures
        ({
            let output = model.tensors@[op.outputs@[0] as int].shape@;
            let shape = match op.options {
                Some(ParsedOptions::Reshape { new_shape }) => if new_shape@.len() > 0
                    && crate::shape::all_positive(new_shape@) {
                    new_shape@
                } else {
                    output
                },
                _ => output,
            };
            &&& reads(e.source, storage, op.inputs@[0])
            &&& writes(e.target, storage, op.outputs@[0])
            &&& e.params.shape_count == shape.len()
            &&& shape.len() <= 4
            &&& forall|k: int|
                0 <= k < shape.len() ==> #[trigger] e.params.shape@[k] == shape[k] && shape[k] > 0
        }),
{
    let shape = generate::reshaped(model, op);
    operands::lemma_bad_dimension(shape);
    assert forall|k: int| 0 <= k < shape.len() implies #[trigger] e.params.shape@[k] == shape[k]
        && shape[k] > 0 by {
        assert(e.params.shape@[k] == shape[k]);
    }
}

/// There is a call of a reshape exactly where input and output are listed, the
/// output exists, the shape has up to four known dimensions, and input and
/// output lie where a call reads and writes.
pub proof fn law_sound_reshapes_have_calls(
    model: ParsedModel,
    storage: Seq<Storage>,
    i: usize,
    op: ParsedOp,
)
    ensures
        generate::reshape_failure(model, storage, i, op) is None <==> {
            let output = model.tensors@[op.outputs@[0] as int].shape@;
            let chosen = op.options matches Some(ParsedOptions::Reshape { new_shape })
                && new_shape@.len() > 0 && crate::shape::all_positive(new_shape@);
            &&& op.inputs@.len() >= 1 && op.outputs@.len() >= 1
            &&& op.outputs@[0] < model.tensors@.len()
            &&& if chosen {
                op.options->0->new_shape@.len() <= 4
            } else {
                is_shape(output)
            }
            &&& can_read(storage, op.inputs@[0])
            &&& can_write(storage, op.outputs@[0])
        },
{
    operands::lemma_bad_dimension(generate::reshaped(model, op));
}

/// The call of a pad has, of every dimension, the amounts in the words of the
/// second operand: the first word of a pair goes before, the second behind.
pub proof fn law_pad_calls_follow_the_operator(
    e: PadEmission,
    model: ParsedModel,
    storage: Seq<Storage>,
    i: usize,
    op: ParsedOp,
)
    requires
        generate::pad_failure(model, storage, i, op) is None,
        generate::is_pad(e, model, storage, op),
    ensures
        ({
            let input = model.tensors@[op.inputs@[0] as int].shape@;
            let output = model.tensors@[op.outputs@[0] as int].shape@;
            let bytes = model.data(model.tensors@[op.inputs@[1] as int])->0;
            &&& reads(e.source, storage, op.inputs@[0])
            &&& writes(e.target, storage, op.outputs@[0])
            &&& spreads(e.params.input_shape@, input)
            &&& spreads(e.params.output_shape@, output)
            &&& e.params.left_padding_count == input.len()
            &&& e.params.right_padding_count == input.len()
            &&& bytes.len() == 8 * input.len()
            &&& forall|d: int|
                0 <= d < input.len() ==> is_word(
                    #[trigger] e.params.left_padding@[d] as int,
                    bytes,
                    8 * d,
                ) && is_word(e.params.right_padding@[d] as int, bytes, 8 * d + 4)
            &&& forall|d: int|
                input.len() <= d < 4 ==> #[trigger] e.params.left_padding@[d] == 0
                    && e.params.right_padding@[d] == 0
        }),
{
    lemma_spreads(model.tensors@[op.inputs@[0] as int].shape@);
    lemma_spreads(model.tensors@[op.outputs@[0] as int].shape@);
}

/// There is a call of a pad exactly where its three tensors exist, the input has
/// one to four known dimensions, the output up to four, the second operand holds
/// two words per dimension, and input and output lie where a call reads and
/// writes.
pub proof fn law_sound_pads_have_calls(
    model: ParsedModel,
    storage: Seq<Storage>,
    i: usize,
    op: ParsedOp,
)
    ensures
        generate::pad_failure(model, storage, i, op) is None <==> {
            let input = model.tensors@[op.inputs@[0] as int].shape@;
            let output = model.tensors@[op.outputs@[0] as int].shape@;
            let amounts = model.tensors@[op.inputs@[1] as int];
            &&& has_three(model, op)
            &&& input.len() >= 1
            &&& is_shape(input)
            &&& is_shape(output)
            &&& model.data(amounts) is Some && model.data(amounts)->0.len() == 8 * input.len()
            &&& can_read(storage, op.inputs@[0])
            &&& can_write(storage, op.outputs@[0])
        },
{
    lemma_four_dimensional(model.tensors@[op.inputs@[0] as int].shape@);
    lemma_four_dimensional(model.tensors@[op.outputs@[0] as int].shape@);
}

/// The call of a transpose has the permutation in the words of the second
/// operand, every one of them an axis of the input.
pub proof fn law_transpose_calls_follow_the_operator(
    e: TransposeEmission,
    model: ParsedModel,
    storage: Seq<Storage>,
    i: usize,
    op: ParsedOp,
)
    requires
        generate::transpose_failure(model, storage, i, op) is None,
        generate::is_transpose(e, model, storage, op),
    ensures
        ({
            let input = model.tensors@[op.inputs@[0] as int].shape@;
            let bytes = model.data(model.tensors@[op.inputs@[1] as int])->0;
            &&& reads(e.source, storage, op.inputs@[0])
            &&& writes(e.target, storage, op.outputs@[0])
            &&& spreads(e.params.input_shape@, input)
            &&& 1 <= input.len() <= 4
            &&& e.params.perm_count == input.len()
            &&& bytes.len() == 4 * input.len()
            &&& forall|k: int|
                0 <= k < input.len() ==> 0 <= #[trigger] e.params.perm@[k] < input.len() && is_word(
                    e.params.perm@[k] as int,
                    bytes,
                    4 * k,
                )
            &&& forall|k: int| input.len() <= k < 8 ==> #[trigger] e.params.perm@[k] == 0
        }),
{
    let input = model.tensors@[op.inputs@[0] as int].shape@;
    let bytes = model.data(model.tensors@[op.inputs@[1] as int])->0;
    lemma_spreads(input);
    let words = crate::bytes::words(bytes);
    operands::lemma_none_outside(words, 0, input.len() as int);
    assert forall|k: int| 0 <= k < input.len() implies 0 <= #[trigger] e.params.perm@[k]
        < input.len() && is_word(e.params.perm@[k] as int, bytes, 4 * k) by {
        assert(e.params.perm@[k] == words[k]);
    }
}

/// There is a call of a transpose exactly where its three tensors exist, the
/// input has one to four known dimensions, the second operand holds one axis of
/// the input for each, and input and output lie where a call reads and writes.
pub proof fn law_sound_transposes_have_calls(
    model: ParsedModel,
    storage: Seq<Storage>,
    i: usize,
    op: ParsedOp,
)
    ensures
        generate::transpose_failure(model, storage, i, op) is None <==> {
            let input = model.tensors@[op.inputs@[0] as int].shape@;
            let axes = model.tensors@[op.inputs@[1] as int];
            &&& has_three(model, op)
            &&& input.len() >= 1
            &&& is_shape(input)
            &&& model.data(axes) is Some && model.data(axes)->0.len() == 4 * input.len()
            &&& forall|k: int|
                0 <= k < input.len() ==> 0 <= #[trigger] crate::bytes::words(
                    model.data(axes)->0,
                )[k] < input.len()
            &&& can_read(storage, op.inputs@[0])
            &&& can_write(storage, op.outputs@[0])
        },
{
    let input = model.tensors@[op.inputs@[0] as int].shape@;
    lemma_four_dimensional(input);
    let words = crate::bytes::words(model.data(model.tensors@[op.inputs@[1] as int])->0);
    operands::lemma_none_outside(words, 0, input.len() as int);
}

/// The call of a resize has the flags of its options and the shapes of input and
/// output.
pub proof fn law_resize_calls_follow_the_operator(
    e: ResizeEmission,
    model: ParsedModel,
    storage: Seq<Storage>,
    i: usize,
    op: ParsedOp,
)
    requires
        generate::resize_failure(model, storage, i, op) is None,
        generate::is_resize(e, model, storage, op),
    ensures
        match op.options {
            Some(ParsedOptions::ResizeNearest { align_corners, half_pixel_centers }) => {
                &&& align_corners <==> e.params.align_corners == 1
                &&& !align_corners <==> e.params.align_corners == 0
                &&& half_pixel_centers <==> e.params.half_pixel_centers == 1
                &&& !half_pixel_centers <==> e.params.half_pixel_centers == 0
                &&& reads(e.source, storage, op.inputs@[0])
                &&& writes(e.target, storage, op.outputs@[0])
                &&& spreads(e.params.input_shape@, model.tensors@[op.inputs@[0] as int].shape@)
                &&& spreads(e.params.output_shape@, model.tensors@[op.outputs@[0] as int].shape@)
            },
            _ => false,
        },
{
    lemma_spreads(model.tensors@[op.inputs@[0] as int].shape@);
    lemma_spreads(model.tensors@[op.outputs@[0] as int].shape@);
}

/// There is a call of a resize exactly where it has its options, input and
/// output exist with up to four known dimensions, and both lie where a call
/// reads and writes.
pub proof fn law_sound_resizes_have_calls(
    model: ParsedModel,
    storage: Seq<Storage>,
    i: usize,
    op: ParsedOp,
)
    ensures
        generate::resize_failure(model, storage, i, op) is None <==> {
            &&& op.options matches Some(ParsedOptions::ResizeNearest { .. })
            &&& has_two(model, op)
            &&& is_shape(model.tensors@[op.inputs@[0] as int].shape@)
            &&& is_shape(model.tensors@[op.outputs@[0] as int].shape@)
            &&& can_read(storage, op.inputs@[0])
            &&& can_write(storage, op.outputs@[0])
        },
{
    lemma_four_dimensional(model.tensors@[op.inputs@[0] as int].shape@);
    lemma_four_dimensional(model.tensors@[op.outputs@[0] as int].shape@);
}

/// Whether parameters of a weighted sum are those of its tensors: the inputs
/// lose their zero points and the output gets its own, every channel is brought
/// from its product of scales to the scale of the output, and the range is that
/// of the activation.
pub open spec fn weighs_with(
    offsets: (i32, i32, i32),
    multipliers: Seq<i32>,
    shifts: Seq<i32>,
    range: (i32, i32),
    model: ParsedModel,
    op: ParsedOp,
    channels: nat,
    act: i8,
) -> bool {
    let input = model.tensors@[op.inputs@[0] as int];
    let weights = model.tensors@[op.inputs@[1] as int];
    let output = model.tensors@[op.outputs@[0] as int];
    &&& offsets.0 == -zero(input)
    &&& offsets.1 == zero(weights)
    &&& offsets.2 == zero(output)
    &&& multipliers.len() == channels
    &&& shifts.len() == channels
    &&& forall|k: int|
        0 <= k < channels && 0 < channel_scale(weights, channels, k) < 0x7f80_0000
            ==> rescales_product(
            (#[trigger] multipliers[k], shifts[k]),
            scale(input),
            channel_scale(weights, channels, k),
            scale(output),
        )
    &&& accuracy::measurable(act, scale(output), zero(output)) ==> accuracy::clamps(
        act,
        scale(output),
        zero(output),
        range.0 as int,
        range.1 as int,
    )
}

/// The parameters that the kernel of a convolution gets are those of the
/// operator.
pub proof fn law_convolution_parameters_follow_the_operator(
    p: Conv2DParams,
    e: ConvEmission,
    model: ParsedModel,
    storage: Seq<Storage>,
    i: usize,
    op: ParsedOp,
)
    requires
        generate::conv2d_failure(model, storage, i, op) is None,
        generate::is_conv2d(e, model, storage, op),
        e.hands_over(p),
        has_words(model, op),
    ensures
        spreads(p.input_shape@, model.tensors@[op.inputs@[0] as int].shape@),
        spreads(p.filter_shape@, model.tensors@[op.inputs@[1] as int].shape@),
        spreads(p.output_shape@, model.tensors@[op.outputs@[0] as int].shape@),
        match op.options {
            Some(
                ParsedOptions::Conv2D {
                    padding,
                    stride_w,
                    stride_h,
                    dilation_w,
                    dilation_h,
                    fused_activation,
                },
            ) => {
                &&& p.stride_width == stride_w && p.stride_height == stride_h
                &&& p.dilation_width_factor == dilation_w && p.dilation_height_factor == dilation_h
                &&& padding == 0 ==> p.padding == Padding::Same
                &&& padding == 1 ==> p.padding == Padding::Valid
                &&& weighs_with(
                    (p.input_offset, p.weights_offset, p.output_offset),
                    p.output_multiplier_per_channel@,
                    p.output_shift_per_channel@,
                    (p.quantized_activation_min, p.quantized_activation_max),
                    model,
                    op,
                    p.filter_shape@[0] as nat,
                    fused_activation,
                )
            },
            _ => false,
        },
{
    law_convolution_calls_follow_the_operator(e, model, storage, i, op);
}

/// The parameters that the kernel of a depthwise convolution gets are those of
/// the operator.
pub proof fn law_depthwise_parameters_follow_the_operator(
    p: DepthwiseConv2DParams,
    e: DepthwiseEmission,
    model: ParsedModel,
    storage: Seq<Storage>,
    i: usize,
    op: ParsedOp,
)
    requires
        generate::depthwise_failure(model, storage, i, op) is None,
        generate::is_depthwise(e, model, storage, op),
        e.hands_over(p),
        has_words(model, op),
    ensures
        spreads(p.input_shape@, model.tensors@[op.inputs@[0] as int].shape@),
        spreads(p.filter_shape@, model.tensors@[op.inputs@[1] as int].shape@),
        spreads(p.output_shape@, model.tensors@[op.outputs@[0] as int].shape@),
        match op.options {
            Some(
                ParsedOptions::DepthwiseConv2D {
                    padding,
                    stride_w,
                    stride_h,
                    depth_multiplier,
                    dilation_w,
                    dilation_h,
                    fused_activation,
                },
            ) => {
                &&& p.stride_width == stride_w && p.stride_height == stride_h
                &&& p.dilation_width_factor == dilation_w && p.dilation_height_factor == dilation_h
                &&& p.depth_multiplier == depth_multiplier
                &&& padding == 0 ==> p.padding == Padding::Same
                &&& padding == 1 ==> p.padding == Padding::Valid
                &&& weighs_with(
                    (p.input_offset, p.weights_offset, p.output_offset),
                    p.output_multiplier_per_channel@,
                    p.output_shift_per_channel@,
                    (p.quantized_activation_min, p.quantized_activation_max),
                    model,
                    op,
                    p.filter_shape@[3] as nat,
                    fused_activation,
                )
            },
            _ => false,
        },
{
    law_depthwise_calls_follow_the_operator(e, model, storage, i, op);
}

/// The parameters that the kernel of a dense layer gets are those of the
/// operator.
pub proof fn law_dense_parameters_follow_the_operator(
    p: FullyConnectedParams,
    e: FullyConnectedEmission,
    model: ParsedModel,
    storage: Seq<Storage>,
    i: usize,
    op: ParsedOp,
)
    requires
        generate::fully_connected_failure(model, storage, i, op) is None,
        generate::is_fully_connected(e, model, storage, op),
        e.hands_over(p),
        has_words(model, op),
        p.output_dim >= 0,
    ensures
        p.input_dim == e.input_dim,
        match op.options {
            Some(ParsedOptions::FullyConnected { fused_activation, .. }) => weighs_with(
                (p.input_offset, p.weights_offset, p.output_offset),
                p.output_multiplier_per_channel@,
                p.output_shift_per_channel@,
                (p.quantized_activation_min, p.quantized_activation_max),
                model,
                op,
                p.output_dim as nat,
                fused_activation,
            ),
            _ => false,
        },
{
    law_dense_calls_follow_the_operator(e, model, storage, i, op);
}

/// The parameters that the kernel of a ReLU, ReLU6 or hard swish gets scale from
/// input to output and clamp as the function does. Those of a leaky ReLU have its
/// slope apart, and those of a PReLU the slopes of its constant.
pub proof fn law_activation_parameters_follow_the_operator(
    p: ActivationParams,
    e: ActivationEmission,
    model: ParsedModel,
    storage: Seq<Storage>,
    op: ParsedOp,
    act: i8,
)
    requires
        e.hands_over(p),
        has_two_words(model, op),
        quantized(model.tensors@[op.inputs@[0] as int]),
        quantized(model.tensors@[op.outputs@[0] as int]),
    ensures
        ({
            let input = model.tensors@[op.inputs@[0] as int];
            let output = model.tensors@[op.outputs@[0] as int];
            let relu = generate::is_activation(e, model, storage, op, ActivationMethod::Relu);
            let relu6 = generate::is_activation(e, model, storage, op, ActivationMethod::Relu6);
            let leaky = generate::is_leaky(e, model, storage, op);
            let prelu = generate::is_prelu(e, model, storage, op);
            &&& relu || relu6 || leaky || prelu ==> p.input_offset == zero(input)
                && p.output_offset == zero(output)
            &&& relu || relu6 ==> rescales(
                (p.output_multiplier, p.output_shift),
                scale(input),
                scale(output),
            )
            &&& relu && act == 1 || relu6 && act == 3 ==> (accuracy::measurable(
                act,
                scale(output),
                zero(output),
            ) ==> accuracy::clamps(
                act,
                scale(output),
                zero(output),
                p.quantized_activation_min as int,
                p.quantized_activation_max as int,
            ))
            &&& leaky ==> rescales(
                (p.output_multiplier_identity, p.output_shift_identity),
                scale(input),
                scale(output),
            )
            &&& leaky ==> (op.options matches Some(ParsedOptions::LeakyRelu { alpha }) && (0 < alpha
                < 0x7f80_0000 ==> rescales_product(
                (p.output_multiplier_alpha, p.output_shift_alpha),
                scale(input),
                alpha,
                scale(output),
            )))
            &&& prelu ==> rescales(
                (p.output_multiplier_1, p.output_shift_1),
                scale(input),
                scale(output),
            )
            &&& prelu && quantized(model.tensors@[op.inputs@[1] as int]) ==> rescales_product(
                (p.output_multiplier_2, p.output_shift_2),
                scale(input),
                scale(model.tensors@[op.inputs@[1] as int]),
                scale(output),
            ) && p.alpha_offset == zero(model.tensors@[op.inputs@[1] as int])
        }),
{
    let input = model.tensors@[op.inputs@[0] as int];
    let output = model.tensors@[op.outputs@[0] as int];
    accuracy::law_ratio_is_the_quotient(scale(input), scale(output));
    if accuracy::measurable(act, scale(output), zero(output)) {
        accuracy::law_bounds_are_those_of_the_activation(act, scale(output), zero(output) as i32);
    }
    match op.options {
        Some(ParsedOptions::LeakyRelu { alpha }) => {
            if 0 < alpha < 0x7f80_0000 {
                accuracy::law_product_ratio_is_the_quotient(scale(input), alpha, scale(output));
            }
        },
        _ => {},
    }
    if quantized(model.tensors@[op.inputs@[1] as int]) {
        accuracy::law_product_ratio_is_the_quotient(
            scale(input),
            scale(model.tensors@[op.inputs@[1] as int]),
            scale(output),
        );
    }
}

} // verus!
