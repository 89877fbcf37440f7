//! Operator parameter records: one per operator that a backend runs.
//!
//! Four-dimensional shapes are in NHWC order, `[batch, height, width,
//! channels]` with batch 1. Filter shapes are in OHWI order,
//! `[output channels, height, width, input channels]`. A quantized scale is a
//! pair of a Q0.31 multiplier and a shift: the real factor is
//! `multiplier / 2^31 * 2^shift`.

use vstd::prelude::*;

verus! {

/// How a spatial operator treats the border of its input.
#[derive(Clone, Copy, Debug, PartialEq, Eq, Structural)]
pub enum Padding {
    /// No padding: the output shrinks.
    Valid,
    /// Padding such that, at stride one, the output is as large as the input.
    Same,
}

/// An activation that an operator applies to its own result.
#[derive(Clone, Copy, Debug, PartialEq, Eq, Structural)]
pub enum FusedActivation {
    /// The identity.
    Identity,
    /// `max(0, x)`.
    Relu,
    /// `clamp(x, 0, 6)`.
    Relu6,
    /// `clamp(x, -1, 1)`.
    Relu1,
}

/// Scale and zero point of a quantize or dequantize operator.
#[derive(Clone, Copy, Debug)]
pub struct QuantParam {
    /// Multiplier of the reciprocal scale.
    pub quantize_multiplier: i32,
    /// Shift that belongs to `quantize_multiplier`.
    pub quantize_shift: i32,
    /// Multiplier of the scale.
    pub dequantize_multiplier: i32,
    /// Shift that belongs to `dequantize_multiplier`.
    pub dequantize_shift: i32,
    /// Zero point.
    pub zero_point: i32,
}

/// One multiplier and one shift per output channel.
#[derive(Clone, Copy, Debug)]
pub struct PerChannelQuantParam<'a> {
    /// Q0.31 multipliers.
    pub output_multiplier_per_channel: &'a [i32],
    /// Shifts, one per multiplier.
    pub output_shift_per_channel: &'a [i32],
}

/// Parameters of CONV_2D.
#[derive(Clone, Copy, Debug)]
pub struct Conv2DParams<'a> {
    /// NHWC.
    pub input_shape: [i32; 4],
    /// OHWI.
    pub filter_shape: [i32; 4],
    /// NHWC.
    pub output_shape: [i32; 4],
    pub padding: Padding,
    pub stride_width: i32,
    pub stride_height: i32,
    pub dilation_width_factor: i32,
    pub dilation_height_factor: i32,
    pub input_offset: i32,
    pub weights_offset: i32,
    pub output_offset: i32,
    pub output_multiplier_per_channel: &'a [i32],
    pub output_shift_per_channel: &'a [i32],
    pub quantized_activation_min: i32,
    pub quantized_activation_max: i32,
}

/// Parameters of DEPTHWISE_CONV_2D.
#[derive(Clone, Copy, Debug)]
pub struct DepthwiseConv2DParams<'a> {
    /// NHWC.
    pub input_shape: [i32; 4],
    /// `[1, height, width, input channels * depth multiplier]`.
    pub filter_shape: [i32; 4],
    /// NHWC.
    pub output_shape: [i32; 4],
    pub padding: Padding,
    pub stride_width: i32,
    pub stride_height: i32,
    pub dilation_width_factor: i32,
    pub dilation_height_factor: i32,
    /// Output channels per input channel.
    pub depth_multiplier: i32,
    pub input_offset: i32,
    pub weights_offset: i32,
    pub output_offset: i32,
    pub output_multiplier_per_channel: &'a [i32],
    pub output_shift_per_channel: &'a [i32],
    pub quantized_activation_min: i32,
    pub quantized_activation_max: i32,
}

/// Parameters of FULLY_CONNECTED.
#[derive(Clone, Copy, Debug)]
pub struct FullyConnectedParams<'a> {
    /// Accumulation depth.
    pub input_dim: i32,
    /// Number of output elements.
    pub output_dim: i32,
    pub input_offset: i32,
    pub weights_offset: i32,
    pub output_offset: i32,
    pub output_multiplier_per_channel: &'a [i32],
    pub output_shift_per_channel: &'a [i32],
    pub quantized_activation_min: i32,
    pub quantized_activation_max: i32,
}

/// Parameters of BATCH_MATMUL.
#[derive(Clone, Copy, Debug)]
pub struct MatMulParams {
    /// Rows of the output.
    pub m: i32,
    /// Columns of the output.
    pub n: i32,
    /// Inner dimension.
    pub k: i32,
    /// Whether the left matrix is transposed.
    pub adj_x: bool,
    /// Whether the right matrix is transposed.
    pub adj_y: bool,
    pub input_offset: i32,
    pub weights_offset: i32,
    pub output_offset: i32,
    pub output_multiplier: i32,
    pub output_shift: i32,
    pub quantized_activation_min: i32,
    pub quantized_activation_max: i32,
}

/// Parameters of AVERAGE_POOL_2D and MAX_POOL_2D.
#[derive(Clone, Copy, Debug)]
pub struct PoolParams {
    /// NHWC.
    pub input_shape: [i32; 4],
    /// NHWC.
    pub output_shape: [i32; 4],
    pub filter_width: i32,
    pub filter_height: i32,
    pub stride_width: i32,
    pub stride_height: i32,
    pub padding: Padding,
    pub activation: FusedActivation,
    pub quantized_activation_min: i32,
    pub quantized_activation_max: i32,
}

/// Parameters of SOFTMAX.
#[derive(Clone, Copy, Debug)]
pub struct SoftmaxParams {
    /// Number of independent rows.
    pub num_rows: i32,
    /// Elements per row.
    pub row_size: i32,
    /// Multiplier applied to a logit after the row maximum is subtracted.
    pub input_multiplier: i32,
    /// Left shift that belongs to `input_multiplier`.
    pub input_left_shift: i32,
    /// Differences below this bound contribute nothing.
    pub diff_min: i32,
    pub input_offset: i32,
    pub output_offset: i32,
    pub quantized_activation_min: i32,
    pub quantized_activation_max: i32,
}

/// Parameters of the standalone activations. Each operator reads some of them.
#[derive(Clone, Copy, Debug)]
pub struct ActivationParams<'a> {
    pub input_offset: i32,
    pub output_offset: i32,
    pub output_multiplier: i32,
    pub output_shift: i32,
    pub quantized_activation_min: i32,
    pub quantized_activation_max: i32,
    /// Sigmoid and tanh.
    pub input_multiplier: i32,
    /// Sigmoid and tanh.
    pub input_left_shift: i32,
    /// Sigmoid and tanh.
    pub input_range_radius: i32,
    /// Leaky ReLU, below zero.
    pub output_multiplier_alpha: i32,
    /// Leaky ReLU, below zero.
    pub output_shift_alpha: i32,
    /// Leaky ReLU, above zero.
    pub output_multiplier_identity: i32,
    /// Leaky ReLU, above zero.
    pub output_shift_identity: i32,
    /// PReLU: zero point of the slopes.
    pub alpha_offset: i32,
    /// PReLU: slopes.
    pub alpha_data: &'a [i8],
    /// PReLU, above zero.
    pub output_multiplier_1: i32,
    /// PReLU, above zero.
    pub output_shift_1: i32,
    /// PReLU, below zero.
    pub output_multiplier_2: i32,
    /// PReLU, below zero.
    pub output_shift_2: i32,
    /// Hard swish.
    pub reluish_multiplier_fixedpoint_int16: i16,
    /// Hard swish.
    pub reluish_multiplier_exponent: i32,
    /// Hard swish.
    pub output_multiplier_fixedpoint_int16: i16,
    /// Hard swish.
    pub output_multiplier_exponent: i32,
}

/// Parameters of ADD, MUL and SUB. Both inputs and the output have
/// `num_elements` elements: nothing is broadcast.
#[derive(Clone, Copy, Debug, PartialEq, Eq, Structural)]
pub struct ElementwiseParams {
    pub num_elements: i32,
    pub input1_offset: i32,
    pub input2_offset: i32,
    pub output_offset: i32,
    pub output_multiplier: i32,
    pub output_shift: i32,
    /// Left shift before the inputs are scaled (ADD and SUB).
    pub left_shift: i32,
    pub input1_multiplier: i32,
    pub input1_shift: i32,
    pub input2_multiplier: i32,
    pub input2_shift: i32,
    pub quantized_activation_min: i32,
    pub quantized_activation_max: i32,
}

/// Parameters of RESHAPE.
#[derive(Clone, Copy, Debug)]
pub struct ReshapeParams {
    /// Target shape.
    pub shape: [i32; 4],
    /// Number of dimensions that count in `shape`.
    pub shape_count: i8,
}

/// Parameters of TRANSPOSE.
#[derive(Clone, Copy, Debug)]
pub struct TransposeParams {
    /// NHWC.
    pub input_shape: [i32; 4],
    pub perm: [i32; 8],
    /// Number of entries that count in `perm`.
    pub perm_count: i8,
}

/// Parameters of CONCATENATION.
#[derive(Clone, Copy, Debug)]
pub struct ConcatParams {
    pub axis: i32,
    pub activation: FusedActivation,
    pub input_shape_a: [i32; 4],
    pub input_shape_b: [i32; 4],
    pub output_shape: [i32; 4],
}

/// Parameters of SPLIT.
#[derive(Clone, Copy, Debug)]
pub struct SplitParams {
    pub num_splits: i32,
    pub axis: i32,
    pub input_shape: [i32; 4],
    pub output_shape_a: [i32; 4],
    pub output_shape_b: [i32; 4],
}

/// Parameters of PAD.
#[derive(Clone, Copy, Debug)]
pub struct PadParams {
    pub input_shape: [i32; 4],
    pub output_shape: [i32; 4],
    /// Elements put before the data, per dimension.
    pub left_padding: [i32; 4],
    pub left_padding_count: i8,
    /// Elements put behind the data, per dimension.
    pub right_padding: [i32; 4],
    pub right_padding_count: i8,
}

/// Parameters of SLICE.
#[derive(Clone, Copy, Debug)]
pub struct SliceParams {
    pub input_shape: [i32; 4],
    pub begin: [i32; 4],
    pub size: [i32; 4],
}

/// Parameters of RESIZE_NEAREST_NEIGHBOR.
#[derive(Clone, Copy, Debug)]
pub struct ResizeNearestParams {
    pub input_shape: [i32; 4],
    pub output_shape: [i32; 4],
    /// Zero or one.
    pub align_corners: i32,
    /// Zero or one.
    pub half_pixel_centers: i32,
}

/// Parameters of UNIDIRECTIONAL_SEQUENCE_LSTM.
#[derive(Clone, Copy, Debug)]
pub struct LstmParams {
    pub activation: FusedActivation,
    /// Whether the first dimension is time.
    pub time_major: bool,
    pub num_units: i32,
    pub input_dim: i32,
    pub weights_zero_point: i32,
    pub accum_multiplier: i32,
    pub accum_shift: i32,
    pub state_integer_bits: i32,
}

/// Parameters of SVDF.
#[derive(Clone, Copy, Debug)]
pub struct SvdfParams {
    pub rank: i32,
    pub activation: FusedActivation,
    pub num_filters: i32,
}

/// Parameters of a gated recurrent unit.
#[derive(Clone, Copy, Debug)]
pub struct GruParams {
    pub num_units: i32,
    pub input_size: i32,
    pub gate_activation: FusedActivation,
    pub candidate_activation: FusedActivation,
}

/// Parameters of the reductions.
#[derive(Clone, Copy, Debug)]
pub struct ReduceParams {
    /// Whether a reduced dimension stays, with size one.
    pub keep_dims: bool,
    pub axis: [i16; 4],
    /// Number of entries that count in `axis`.
    pub axis_count: i8,
    /// NHWC.
    pub input_shape: [i32; 4],
    /// NHWC.
    pub output_shape: [i32; 4],
    /// Element type of the indices that ARG_MAX and ARG_MIN write.
    pub output_type: i32,
    pub input_offset: i32,
    pub output_offset: i32,
    pub output_multiplier: i32,
    pub output_shift: i32,
    pub quantized_activation_min: i32,
    pub quantized_activation_max: i32,
}

/// What one step of an elementwise chain computes.
#[derive(Clone, Copy, Debug, PartialEq, Eq, Structural)]
pub enum ElementwiseKind {
    Add,
    Mul,
    Sub,
    Relu,
    Relu6,
    HardSwish,
}

/// One step of an elementwise chain. Its first input is the running value.
#[derive(Clone, Copy, Debug)]
pub struct ElementwiseChainStep<'a> {
    pub kind: ElementwiseKind,
    /// Second input; absent for an activation.
    pub operand: Option<&'a [i8]>,
    pub input1_offset: i32,
    pub input2_offset: i32,
    pub output_offset: i32,
    pub output_multiplier: i32,
    pub output_shift: i32,
    pub left_shift: i32,
    pub input1_multiplier: i32,
    pub input1_shift: i32,
    pub input2_multiplier: i32,
    pub input2_shift: i32,
    pub quantized_activation_min: i32,
    pub quantized_activation_max: i32,
}

/// Parameters of a fused elementwise chain.
#[derive(Clone, Copy, Debug)]
pub struct ElementwiseChainParams<'a> {
    pub num_elements: i32,
    /// The steps, in order.
    pub steps: &'a [ElementwiseChainStep<'a>],
}

/// Which pooling operator a fused pool runs.
#[derive(Clone, Copy, Debug, PartialEq, Eq, Structural)]
pub enum PoolKind {
    Average,
    Max,
}

/// A MUL or SUB that a fused pool applies to its input.
#[derive(Clone, Copy, Debug)]
pub struct PoolInputFold<'a> {
    /// Operator code of MUL or SUB.
    pub builtin: i32,
    pub operand_data: &'a [i8],
    pub operand_zero_point: i64,
    pub input_zero_point: i64,
    pub output_zero_point: i64,
    /// Binary32 pattern of the real factor, or of the real constant.
    pub folded_scale: u32,
    pub left_shift: i32,
    pub output_multiplier: i32,
    pub output_shift: i32,
    pub input1_multiplier: i32,
    pub input1_shift: i32,
    pub input2_multiplier: i32,
    pub input2_shift: i32,
    pub num_elements: i32,
}

/// The activation at the end of a composed kernel.
#[derive(Clone, Copy, Debug, PartialEq, Eq, Structural)]
pub enum ComposedActivation {
    /// The identity.
    Identity,
    Relu,
    Relu6,
    HardSwish,
}

/// Parameters of the activation at the end of a composed kernel.
#[derive(Clone, Copy, Debug)]
pub struct ActivationEpilogueParams {
    pub kind: ComposedActivation,
    pub input_offset: i32,
    pub output_offset: i32,
    pub output_multiplier: i32,
    pub output_shift: i32,
    pub quantized_activation_min: i32,
    pub quantized_activation_max: i32,
}

/// Parameters of a pool with a folded input.
#[derive(Clone, Copy, Debug)]
pub struct FoldedPoolParams<'a> {
    pub pool: PoolParams,
    pub pool_kind: PoolKind,
    pub fold: Option<PoolInputFold<'a>>,
    pub activation: ActivationEpilogueParams,
}

/// The tensor that a fused convolution adds to its result.
#[derive(Clone, Copy, Debug)]
pub struct ResidualAddParams<'a> {
    pub residual_data: &'a [i8],
    pub add_params: ElementwiseParams,
}

/// Parameters of a convolution with a residual addition and an activation.
#[derive(Clone, Copy, Debug)]
pub struct FusedConvParams<'a> {
    pub conv: Conv2DParams<'a>,
    pub residual: Option<ResidualAddParams<'a>>,
    pub activation: ActivationEpilogueParams,
}

} // verus!
