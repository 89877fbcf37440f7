//! A backend that runs nothing still implements every operator.

#![allow(dead_code, unused_variables)]

use hematite::kernel::{KernelBackend, KernelError};
use hematite::op_params::{
    ActivationParams, ConcatParams, Conv2DParams, DepthwiseConv2DParams, ElementwiseParams,
    FullyConnectedParams, FusedActivation, GruParams, LstmParams, MatMulParams, PadParams, PoolParams, QuantParam,
    ReduceParams, ReshapeParams, ResizeNearestParams, SliceParams, SoftmaxParams, SplitParams,
    SvdfParams, TransposeParams,
};

struct StubBackend;

impl KernelBackend for StubBackend {
    fn conv2d(
        &self,
        input: &[i8],
        weights: &[i8],
        bias: &[i32],
        _params: &Conv2DParams,
        output: &mut [i8],
        scratch: &mut [u8],
    ) -> Result<(), KernelError> {
        Err(KernelError::Unsupported)
    }

    fn depthwise_conv2d(
        &self,
        input: &[i8],
        weights: &[i8],
        bias: &[i32],
        _params: &DepthwiseConv2DParams,
        output: &mut [i8],
        scratch: &mut [u8],
    ) -> Result<(), KernelError> {
        Err(KernelError::Unsupported)
    }

    fn fully_connected(
        &self,
        input: &[i8],
        weights: &[i8],
        bias: &[i32],
        _params: &FullyConnectedParams,
        output: &mut [i8],
        scratch: &mut [u8],
    ) -> Result<(), KernelError> {
        Err(KernelError::Unsupported)
    }

    fn matmul(
        &self,
        input: &[i8],
        weights: &[i8],
        bias: &[i32],
        _params: &MatMulParams,
        output: &mut [i8],
        scratch: &mut [u8],
    ) -> Result<(), KernelError> {
        Err(KernelError::Unsupported)
    }

    fn average_pool_2d(
        &self,
        input: &[i8],
        _params: &PoolParams,
        output: &mut [i8],
    ) -> Result<(), KernelError> {
        Err(KernelError::Unsupported)
    }

    fn max_pool_2d(
        &self,
        input: &[i8],
        _params: &PoolParams,
        output: &mut [i8],
    ) -> Result<(), KernelError> {
        Err(KernelError::Unsupported)
    }

    fn softmax(
        &self,
        input: &[i8],
        _params: &SoftmaxParams,
        output: &mut [i8],
        scratch: &mut [u8],
    ) -> Result<(), KernelError> {
        Err(KernelError::Unsupported)
    }

    fn relu(
        &self,
        input: &[i8],
        _params: &ActivationParams,
        output: &mut [i8],
    ) -> Result<(), KernelError> {
        Err(KernelError::Unsupported)
    }

    fn relu6(
        &self,
        input: &[i8],
        _params: &ActivationParams,
        output: &mut [i8],
    ) -> Result<(), KernelError> {
        Err(KernelError::Unsupported)
    }

    fn hard_swish(
        &self,
        input: &[i8],
        _params: &ActivationParams,
        output: &mut [i8],
    ) -> Result<(), KernelError> {
        Err(KernelError::Unsupported)
    }

    fn sigmoid(
        &self,
        input: &[i8],
        _params: &ActivationParams,
        output: &mut [i8],
    ) -> Result<(), KernelError> {
        Err(KernelError::Unsupported)
    }

    fn tanh(
        &self,
        input: &[i8],
        _params: &ActivationParams,
        output: &mut [i8],
    ) -> Result<(), KernelError> {
        Err(KernelError::Unsupported)
    }

    fn leaky_relu(
        &self,
        input: &[i8],
        _params: &ActivationParams,
        output: &mut [i8],
    ) -> Result<(), KernelError> {
        Err(KernelError::Unsupported)
    }

    fn prelu(
        &self,
        input: &[i8],
        _params: &ActivationParams,
        output: &mut [i8],
    ) -> Result<(), KernelError> {
        Err(KernelError::Unsupported)
    }

    fn add(
        &self,
        input1: &[i8],
        input2: &[i8],
        _params: &ElementwiseParams,
        output: &mut [i8],
    ) -> Result<(), KernelError> {
        Err(KernelError::Unsupported)
    }

    fn mul(
        &self,
        input1: &[i8],
        input2: &[i8],
        _params: &ElementwiseParams,
        output: &mut [i8],
    ) -> Result<(), KernelError> {
        Err(KernelError::Unsupported)
    }

    fn sub(
        &self,
        input1: &[i8],
        input2: &[i8],
        _params: &ElementwiseParams,
        output: &mut [i8],
    ) -> Result<(), KernelError> {
        Err(KernelError::Unsupported)
    }

    fn quantize(
        &self,
        input: &[i8],
        _params: &QuantParam,
        output: &mut [i8],
    ) -> Result<(), KernelError> {
        Err(KernelError::Unsupported)
    }

    fn dequantize(
        &self,
        input: &[i8],
        _params: &QuantParam,
        output: &mut [i8],
    ) -> Result<(), KernelError> {
        Err(KernelError::Unsupported)
    }

    fn reshape(
        &self,
        input: &[i8],
        _params: &ReshapeParams,
        output: &mut [i8],
    ) -> Result<(), KernelError> {
        Err(KernelError::Unsupported)
    }

    fn transpose(
        &self,
        input: &[i8],
        _params: &TransposeParams,
        output: &mut [i8],
    ) -> Result<(), KernelError> {
        Err(KernelError::Unsupported)
    }

    fn concat(
        &self,
        input_a: &[i8],
        input_b: &[i8],
        _params: &ConcatParams,
        output: &mut [i8],
    ) -> Result<(), KernelError> {
        Err(KernelError::Unsupported)
    }

    fn split(
        &self,
        input: &[i8],
        _params: &SplitParams,
        output_a: &mut [i8],
        output_b: &mut [i8],
    ) -> Result<(), KernelError> {
        Err(KernelError::Unsupported)
    }

    fn pad(
        &self,
        input: &[i8],
        _params: &PadParams,
        output: &mut [i8],
    ) -> Result<(), KernelError> {
        Err(KernelError::Unsupported)
    }

    fn slice(
        &self,
        input: &[i8],
        _params: &SliceParams,
        output: &mut [i8],
    ) -> Result<(), KernelError> {
        Err(KernelError::Unsupported)
    }

    fn resize_nearest(
        &self,
        input: &[i8],
        _params: &ResizeNearestParams,
        output: &mut [i8],
    ) -> Result<(), KernelError> {
        Err(KernelError::Unsupported)
    }

    fn mean(
        &self,
        input: &[i8],
        _params: &ReduceParams,
        output: &mut [i8],
    ) -> Result<(), KernelError> {
        Err(KernelError::Unsupported)
    }

    fn sum(
        &self,
        input: &[i8],
        _params: &ReduceParams,
        output: &mut [i8],
    ) -> Result<(), KernelError> {
        Err(KernelError::Unsupported)
    }

    fn reduce_max(
        &self,
        input: &[i8],
        _params: &ReduceParams,
        output: &mut [i8],
    ) -> Result<(), KernelError> {
        Err(KernelError::Unsupported)
    }

    fn reduce_min(
        &self,
        input: &[i8],
        _params: &ReduceParams,
        output: &mut [i8],
    ) -> Result<(), KernelError> {
        Err(KernelError::Unsupported)
    }

    fn arg_max(
        &self,
        input: &[i8],
        _params: &ReduceParams,
        output: &mut [i8],
    ) -> Result<(), KernelError> {
        Err(KernelError::Unsupported)
    }

    fn arg_min(
        &self,
        input: &[i8],
        _params: &ReduceParams,
        output: &mut [i8],
    ) -> Result<(), KernelError> {
        Err(KernelError::Unsupported)
    }

    fn l2_normalization(
        &self,
        input: &[i8],
        _params: &ReduceParams,
        output: &mut [i8],
    ) -> Result<(), KernelError> {
        Err(KernelError::Unsupported)
    }

    fn unidirectional_sequence_lstm(
        &self,
        input: &[i8],
        input_to_input_weights: &[i8],
        input_to_forget_weights: &[i8],
        input_to_cell_weights: &[i8],
        input_to_output_weights: &[i8],
        recurrent_to_input_weights: &[i8],
        recurrent_to_forget_weights: &[i8],
        recurrent_to_cell_weights: &[i8],
        recurrent_to_output_weights: &[i8],
        input_gate_bias: &[i32],
        forget_gate_bias: &[i32],
        cell_bias: &[i32],
        output_gate_bias: &[i32],
        _params: &LstmParams,
        output: &mut [i8],
        cell_state: &mut [i16],
        hidden_state: &mut [i8],
        scratch: &mut [u8],
    ) -> Result<(), KernelError> {
        Err(KernelError::Unsupported)
    }

    fn svdf(
        &self,
        input: &[i8],
        weights_feature: &[i8],
        weights_time: &[i16],
        bias: &[i32],
        _params: &SvdfParams,
        output: &mut [i8],
        hidden_state: &mut [i16],
        scratch: &mut [u8],
    ) -> Result<(), KernelError> {
        Err(KernelError::Unsupported)
    }

    fn gru(
        &self,
        input: &[i8],
        reset_gate_weights: &[i8],
        update_gate_weights: &[i8],
        candidate_weights: &[i8],
        biases: &[i32],
        _params: &GruParams,
        output: &mut [i8],
        hidden_state: &mut [i16],
        scratch: &mut [u8],
    ) -> Result<(), KernelError> {
        Err(KernelError::Unsupported)
    }
}

/// The tier table defines exactly 36 ops in scope (T0–T4 + RESIZE + PRELU).
///
/// Scalar ops (SQUEEZE, EXPAND_DIMS, FLATTEN) are compile-time const
/// expansions with no trait method.  T5-deferred ops also have no method.
///
/// This constant lists every trait **method** name (not the scratch-size
/// fns).  If a method is added to or removed from `KernelBackend` without
/// updating this list, the runtime assertion below fails.
const EXPECTED_METHODS: &[&str] = &[
    // T0 — Core compute (4)
    "conv2d",
    "depthwise_conv2d",
    "fully_connected",
    "matmul",
    // T1 — Pooling + Softmax + Activations + Elementwise + Quant (17)
    "average_pool_2d",
    "max_pool_2d",
    "softmax",
    "relu",
    "relu6",
    "hard_swish",
    "sigmoid",
    "tanh",
    "leaky_relu",
    "prelu",
    "add",
    "mul",
    "sub",
    "quantize",
    "dequantize",

    // T2 — Data movement (7)
    "reshape",
    "transpose",
    "concat",
    "split",
    "pad",
    "slice",
    "resize_nearest",

    // T3 — Recurrent (3)
    "unidirectional_sequence_lstm",
    "svdf",
    "gru",

    // T4 — Reductions (7)
    "mean",
    "sum",
    "reduce_max",
    "reduce_min",
    "arg_max",
    "arg_min",
    "l2_normalization",
    // Total: 4 + 15 + 7 + 3 + 7 = 36
];

#[test]
fn op_method_count_matches_tier_table() {
    assert_eq!(
        EXPECTED_METHODS.len(),
        36,
        "Expected exactly 36 in-scope op methods in KernelBackend"
    );
}

#[test]
fn a_backend_needs_no_scratch_unless_it_says_so() {
    let params = SoftmaxParams {
        num_rows: 1,
        row_size: 16,
        input_multiplier: 1 << 30,
        input_left_shift: 25,
        diff_min: -128,
        input_offset: 0,
        output_offset: -128,
        quantized_activation_min: -128,
        quantized_activation_max: 127,
    };
    assert_eq!(StubBackend::softmax_scratch_size(&params), 0);
    let gru = GruParams {
        num_units: 8,
        input_size: 4,
        gate_activation: FusedActivation::Identity,
        candidate_activation: FusedActivation::Identity,
    };
    assert_eq!(StubBackend::gru_scratch_size(&gru), 0);
    let mut out = [0i8; 16];
    let mut scratch = [0u8; 0];
    assert_eq!(
        StubBackend.softmax(&[0i8; 16], &params, &mut out, &mut scratch),
        Err(KernelError::Unsupported)
    );
}
