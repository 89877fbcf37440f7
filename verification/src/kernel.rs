//! The interface between a compiled model and the backend that runs it.
//!
//! Tensors are flat slices of int8 elements in NHWC order with batch one.

use crate::op_params::{ActivationParams, ConcatParams, Conv2DParams, DepthwiseConv2DParams};
use crate::op_params::{ElementwiseChainParams, ElementwiseParams, FoldedPoolParams};
use crate::op_params::{FullyConnectedParams, FusedConvParams, GruParams, LstmParams, MatMulParams};
use crate::op_params::{PadParams, PoolParams, QuantParam, ReduceParams, ReshapeParams};
use crate::op_params::{ResizeNearestParams, SliceParams, SoftmaxParams, SplitParams, SvdfParams};
use crate::op_params::TransposeParams;
use vstd::prelude::*;

verus! {

/// Why a kernel did not run.
#[derive(Clone, Copy, Debug, PartialEq, Eq, Structural)]
pub enum KernelError {
    /// A slice does not have the length that the parameters ask for.
    ShapeMismatch,
    /// The scratch buffer is too small.
    ScratchTooSmall,
    /// The backend does not run this configuration.
    Unsupported,
}

/// What every backend implements: one method per operator. A method checks the
/// lengths of its slices and returns an error where one is wrong. How many
/// bytes of scratch an operator needs is asked beforehand, and is zero unless a
/// backend says otherwise.
pub trait KernelBackend {
    /// Two-dimensional convolution. `bias` has one entry per output channel,
    /// `weights` is in OHWI order, and `scratch` is at least as long as
    /// [`conv2d_scratch_size`](Self::conv2d_scratch_size) says.
    fn conv2d(
        &self,
        input: &[i8],
        weights: &[i8],
        bias: &[i32],
        params: &Conv2DParams,
        output: &mut [i8],
        scratch: &mut [u8],
    ) -> Result<(), KernelError>;

    /// Depthwise convolution: each input channel gives `depth_multiplier` output
    /// channels.
    fn depthwise_conv2d(
        &self,
        input: &[i8],
        weights: &[i8],
        bias: &[i32],
        params: &DepthwiseConv2DParams,
        output: &mut [i8],
        scratch: &mut [u8],
    ) -> Result<(), KernelError>;

    /// Dense layer: `weights` is row-major, one row per output element.
    fn fully_connected(
        &self,
        input: &[i8],
        weights: &[i8],
        bias: &[i32],
        params: &FullyConnectedParams,
        output: &mut [i8],
        scratch: &mut [u8],
    ) -> Result<(), KernelError>;

    /// Matrix product, requantized with one pair for the whole tensor.
    fn matmul(
        &self,
        input: &[i8],
        weights: &[i8],
        bias: &[i32],
        params: &MatMulParams,
        output: &mut [i8],
        scratch: &mut [u8],
    ) -> Result<(), KernelError>;

    /// Mean over a window, rounded and clamped.
    fn average_pool_2d(
        &self,
        input: &[i8],
        params: &PoolParams,
        output: &mut [i8],
    ) -> Result<(), KernelError>;

    /// Maximum over a window, clamped.
    fn max_pool_2d(
        &self,
        input: &[i8],
        params: &PoolParams,
        output: &mut [i8],
    ) -> Result<(), KernelError>;

    /// Softmax over each row; the zero point of the output is -128.
    fn softmax(
        &self,
        input: &[i8],
        params: &SoftmaxParams,
        output: &mut [i8],
        scratch: &mut [u8],
    ) -> Result<(), KernelError>;

    /// `max(0, x)`.
    fn relu(
        &self,
        input: &[i8],
        params: &ActivationParams,
        output: &mut [i8],
    ) -> Result<(), KernelError>;

    /// `clamp(x, 0, 6)`.
    fn relu6(
        &self,
        input: &[i8],
        params: &ActivationParams,
        output: &mut [i8],
    ) -> Result<(), KernelError>;

    /// `x * clamp(x + 3, 0, 6) / 6`.
    fn hard_swish(
        &self,
        input: &[i8],
        params: &ActivationParams,
        output: &mut [i8],
    ) -> Result<(), KernelError>;

    /// The logistic function.
    fn sigmoid(
        &self,
        input: &[i8],
        params: &ActivationParams,
        output: &mut [i8],
    ) -> Result<(), KernelError>;

    /// The hyperbolic tangent.
    fn tanh(
        &self,
        input: &[i8],
        params: &ActivationParams,
        output: &mut [i8],
    ) -> Result<(), KernelError>;

    /// The identity above zero, a constant slope below.
    fn leaky_relu(
        &self,
        input: &[i8],
        params: &ActivationParams,
        output: &mut [i8],
    ) -> Result<(), KernelError>;

    /// The identity above zero, one slope per channel below.
    fn prelu(
        &self,
        input: &[i8],
        params: &ActivationParams,
        output: &mut [i8],
    ) -> Result<(), KernelError>;

    /// Sum of two tensors of the same shape.
    fn add(
        &self,
        input1: &[i8],
        input2: &[i8],
        params: &ElementwiseParams,
        output: &mut [i8],
    ) -> Result<(), KernelError>;

    /// Product of two tensors of the same shape.
    fn mul(
        &self,
        input1: &[i8],
        input2: &[i8],
        params: &ElementwiseParams,
        output: &mut [i8],
    ) -> Result<(), KernelError>;

    /// Difference of two tensors of the same shape.
    fn sub(
        &self,
        input1: &[i8],
        input2: &[i8],
        params: &ElementwiseParams,
        output: &mut [i8],
    ) -> Result<(), KernelError>;

    /// Quantization.
    fn quantize(
        &self,
        input: &[i8],
        params: &QuantParam,
        output: &mut [i8],
    ) -> Result<(), KernelError>;

    /// Dequantization.
    fn dequantize(
        &self,
        input: &[i8],
        params: &QuantParam,
        output: &mut [i8],
    ) -> Result<(), KernelError>;

    /// The same elements under another shape.
    fn reshape(
        &self,
        input: &[i8],
        params: &ReshapeParams,
        output: &mut [i8],
    ) -> Result<(), KernelError>;

    /// The axes in another order.
    fn transpose(
        &self,
        input: &[i8],
        params: &TransposeParams,
        output: &mut [i8],
    ) -> Result<(), KernelError>;

    /// Two tensors, one behind the other along an axis.
    fn concat(
        &self,
        input_a: &[i8],
        input_b: &[i8],
        params: &ConcatParams,
        output: &mut [i8],
    ) -> Result<(), KernelError>;

    /// One tensor cut in two along an axis.
    fn split(
        &self,
        input: &[i8],
        params: &SplitParams,
        output_a: &mut [i8],
        output_b: &mut [i8],
    ) -> Result<(), KernelError>;

    /// A tensor with a border of zeros.
    fn pad(
        &self,
        input: &[i8],
        params: &PadParams,
        output: &mut [i8],
    ) -> Result<(), KernelError>;

    /// A box cut out of a tensor.
    fn slice(
        &self,
        input: &[i8],
        params: &SliceParams,
        output: &mut [i8],
    ) -> Result<(), KernelError>;

    /// Nearest-neighbour resampling.
    fn resize_nearest(
        &self,
        input: &[i8],
        params: &ResizeNearestParams,
        output: &mut [i8],
    ) -> Result<(), KernelError>;

    /// Long short-term memory over a sequence. Input weights have a row of
    /// `input_dim` per unit, recurrent weights a row of `num_units`.
    fn unidirectional_sequence_lstm(
        &self,
        input: &[i8],
        input_to_input_weights: &[i8],
        input_to_forget_weights: &[i8],
        input_to_cell_weights: &[i8],
        input_to_output_weights: &[i8],
        recurrent_to_input_weights: &[i8],
        recurrent_to_forget_weights: &[i8],
        recurrent_to_cell_weights: &[i8],
        recurrent_to_output_weights: &[i8],
        input_gate_bias: &[i32],
        forget_gate_bias: &[i32],
        cell_bias: &[i32],
        output_gate_bias: &[i32],
        params: &LstmParams,
        output: &mut [i8],
        cell_state: &mut [i16],
        hidden_state: &mut [i8],
        scratch: &mut [u8],
    ) -> Result<(), KernelError>;

    /// Singular value decomposition filter.
    fn svdf(
        &self,
        input: &[i8],
        weights_feature: &[i8],
        weights_time: &[i16],
        bias: &[i32],
        params: &SvdfParams,
        output: &mut [i8],
        hidden_state: &mut [i16],
        scratch: &mut [u8],
    ) -> Result<(), KernelError>;

    /// Gated recurrent unit. Each weight row holds the input part, then the
    /// recurrent part; `biases` holds reset, update and candidate.
    fn gru(
        &self,
        input: &[i8],
        reset_gate_weights: &[i8],
        update_gate_weights: &[i8],
        candidate_weights: &[i8],
        biases: &[i32],
        params: &GruParams,
        output: &mut [i8],
        hidden_state: &mut [i16],
        scratch: &mut [u8],
    ) -> Result<(), KernelError>;

    /// Mean along axes.
    fn mean(
        &self,
        input: &[i8],
        params: &ReduceParams,
        output: &mut [i8],
    ) -> Result<(), KernelError>;

    /// Sum along axes.
    fn sum(
        &self,
        input: &[i8],
        params: &ReduceParams,
        output: &mut [i8],
    ) -> Result<(), KernelError>;

    /// Maximum along axes.
    fn reduce_max(
        &self,
        input: &[i8],
        params: &ReduceParams,
        output: &mut [i8],
    ) -> Result<(), KernelError>;

    /// Minimum along axes.
    fn reduce_min(
        &self,
        input: &[i8],
        params: &ReduceParams,
        output: &mut [i8],
    ) -> Result<(), KernelError>;

    /// Index of the maximum along an axis.
    fn arg_max(
        &self,
        input: &[i8],
        params: &ReduceParams,
        output: &mut [i8],
    ) -> Result<(), KernelError>;

    /// Index of the minimum along an axis.
    fn arg_min(
        &self,
        input: &[i8],
        params: &ReduceParams,
        output: &mut [i8],
    ) -> Result<(), KernelError>;

    /// Normalization by the Euclidean norm.
    fn l2_normalization(
        &self,
        input: &[i8],
        params: &ReduceParams,
        output: &mut [i8],
    ) -> Result<(), KernelError>;

    /// Bytes of scratch that [`conv2d`](Self::conv2d) needs.
    fn conv2d_scratch_size(params: &Conv2DParams) -> (bytes: usize)
        default_ensures
            bytes == 0,
    {
        let _ = params;
        0
    }

    /// Bytes of scratch that [`depthwise_conv2d`](Self::depthwise_conv2d) needs.
    fn depthwise_conv2d_scratch_size(params: &DepthwiseConv2DParams) -> (bytes: usize)
        default_ensures
            bytes == 0,
    {
        let _ = params;
        0
    }

    /// Bytes of scratch that [`softmax`](Self::softmax) needs.
    fn softmax_scratch_size(params: &SoftmaxParams) -> (bytes: usize)
        default_ensures
            bytes == 0,
    {
        let _ = params;
        0
    }

    /// Bytes of scratch that [`unidirectional_sequence_lstm`](Self::unidirectional_sequence_lstm) needs.
    fn lstm_scratch_size(params: &LstmParams) -> (bytes: usize)
        default_ensures
            bytes == 0,
    {
        let _ = params;
        0
    }

    /// Bytes of scratch that [`svdf`](Self::svdf) needs.
    fn svdf_scratch_size(params: &SvdfParams) -> (bytes: usize)
        default_ensures
            bytes == 0,
    {
        let _ = params;
        0
    }

    /// Bytes of scratch that [`gru`](Self::gru) needs.
    fn gru_scratch_size(params: &GruParams) -> (bytes: usize)
        default_ensures
            bytes == 0,
    {
        let _ = params;
        0
    }
}

/// Composed kernels: several operators in one call. Each gives what its
/// operators give when they run one after the other, and the first error of
/// that sequence. `dst` carries the running value.
pub trait FusedKernelBackend: KernelBackend {
    /// [`conv2d`](KernelBackend::conv2d), then [`add`](KernelBackend::add) of the
    /// residual tensor, where there is one, then the activation.
    fn fused_conv2d(
        &mut self,
        src: &[i8],
        weight: &[i8],
        bias: &[i32],
        params: &FusedConvParams,
        dst: &mut [i8],
        scratch: &mut [u8],
    ) -> Result<(), KernelError>;

    /// The steps of a chain in order. The first reads `src`, each later one the
    /// result of the step before it.
    fn fused_elementwise_chain(
        &mut self,
        src: &[i8],
        params: &ElementwiseChainParams,
        dst: &mut [i8],
    ) -> Result<(), KernelError>;

    /// The folded [`mul`](KernelBackend::mul) or [`sub`](KernelBackend::sub), where
    /// there is one, into `scratch`, then the pool, then the activation.
    fn fused_pool_with_fold(
        &mut self,
        src: &[i8],
        params: &FoldedPoolParams,
        dst: &mut [i8],
        scratch: &mut [u8],
    ) -> Result<(), KernelError>;
}

} // verus!
