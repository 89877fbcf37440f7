//! Fusion of hand-built graphs.

use hematite::fusion::{fuse, FusedActivation, FusedActivationKind};
use hematite::model::{
    ParsedModel, ParsedOp, ParsedOptions, ParsedTensor, PerChannelQuant, QuantInfo, TensorType, ADD,
    AVERAGE_POOL_2D, CONV_2D, DEPTHWISE_CONV_2D, FULLY_CONNECTED, HARD_SWISH, MUL, RELU, RELU6,
    SOFTMAX, SUB,
};
use hematite::op_params::ElementwiseKind;

const ACT_NONE: i8 = 0;
const ACT_RELU: i8 = 1;

/// Quantization of a tensor in a hand-built model.
struct BuildQuant {
    scale: f32,
    zp: i64,
    per_channel: Option<(Vec<f32>, Vec<i64>, i32)>,
}

impl BuildQuant {
    fn tensor(scale: f32, zp: i64) -> Self {
        BuildQuant { scale, zp, per_channel: None }
    }

    fn channel(scales: Vec<f32>, zps: Vec<i64>, dim: i32) -> Self {
        BuildQuant { scale: scales[0], zp: zps[0], per_channel: Some((scales, zps, dim)) }
    }

    fn info(self) -> QuantInfo {
        QuantInfo {
            scale: self.scale.to_bits(),
            zero_point: self.zp,
            per_channel: self.per_channel.map(|(scales, zero_points, quantized_dimension)| {
                PerChannelQuant {
                    scales: scales.iter().map(|s| s.to_bits()).collect(),
                    zero_points,
                    quantized_dimension,
                }
            }),
        }
    }
}

/// A tensor in a hand-built model.
struct BuildTensor {
    shape: Vec<i32>,
    name: &'static str,
    data: Vec<u8>,
    quant: Option<BuildQuant>,
}

impl BuildTensor {
    fn constant(shape: &[i32], name: &'static str, data: Vec<u8>) -> Self {
        BuildTensor { shape: shape.to_vec(), name, data, quant: None }
    }

    fn constant_quantized(
        shape: &[i32],
        name: &'static str,
        data: Vec<u8>,
        quant: BuildQuant,
    ) -> Self {
        BuildTensor { shape: shape.to_vec(), name, data, quant: Some(quant) }
    }

    fn quantized(shape: &[i32], name: &'static str, quant: BuildQuant) -> Self {
        BuildTensor { shape: shape.to_vec(), name, data: Vec::new(), quant: Some(quant) }
    }
}

/// A model of int8 tensors; a tensor without data shares the empty buffer.
fn build(
    tensors: Vec<BuildTensor>,
    ops: Vec<ParsedOp>,
    inputs: Vec<u32>,
    outputs: Vec<u32>,
) -> ParsedModel {
    let mut buffers: Vec<Vec<u8>> = vec![Vec::new()];
    let mut parsed = Vec::new();
    for t in tensors {
        let mut buffer_index = 0;
        if !t.data.is_empty() {
            buffer_index = buffers.len() as u32;
            buffers.push(t.data);
        }
        parsed.push(ParsedTensor {
            name: t.name.to_string(),
            shape: t.shape,
            tensor_type: TensorType::Int8,
            quant: t.quant.map(|q| q.info()),
            buffer_index,
        });
    }
    ParsedModel { subgraph_count: 1, tensors: parsed, ops, inputs, outputs, buffers }
}

/// Which options an operator carries.
#[derive(Clone, Copy)]
enum OptionsKind {
    Conv2d,
    Depthwise,
    Fc,
    Pool,
    Softmax,
}

/// An operator in a hand-built model.
struct BuildOp;

impl BuildOp {
    fn plain(code: i32, inputs: Vec<u32>, outputs: Vec<u32>) -> ParsedOp {
        ParsedOp {
            opcode_index: 0,
            builtin_code: code,
            inputs,
            outputs,
            options: None,
            custom_options: Vec::new(),
        }
    }

    fn fused(
        code: i32,
        inputs: Vec<u32>,
        outputs: Vec<u32>,
        kind: OptionsKind,
        fused_activation: i8,
    ) -> ParsedOp {
        let options = match kind {
            OptionsKind::Conv2d => ParsedOptions::Conv2D {
                padding: 0,
                stride_w: 1,
                stride_h: 1,
                dilation_w: 1,
                dilation_h: 1,
                fused_activation,
            },
            OptionsKind::Depthwise => ParsedOptions::DepthwiseConv2D {
                padding: 0,
                stride_w: 1,
                stride_h: 1,
                depth_multiplier: 1,
                dilation_w: 1,
                dilation_h: 1,
                fused_activation,
            },
            OptionsKind::Fc => ParsedOptions::FullyConnected {
                fused_activation,
                weights_format: 0,
                keep_num_dims: false,
            },
            OptionsKind::Pool => ParsedOptions::Pool2D {
                padding: 0,
                stride_w: 1,
                stride_h: 1,
                filter_w: 2,
                filter_h: 2,
                fused_activation,
            },
            OptionsKind::Softmax => ParsedOptions::Softmax { beta: 1.0f32.to_bits() },
        };
        let mut op = BuildOp::plain(code, inputs, outputs);
        op.options = Some(options);
        op
    }
}

// Hand-computed multiplier pairs for the requantize-fold
// assertions (independent of the implementation under test).
const QM_4_0: (i32, i32) = (1073741824, 3); // quantize_multiplier(4.0)
const QM_2_0: (i32, i32) = (1073741824, 2); // quantize_multiplier(2.0)
const QM_1_0: (i32, i32) = (1073741824, 1); // quantize_multiplier(1.0)
const QM_HALF: (i32, i32) = (1073741824, 0); // quantize_multiplier(0.5)

// ------------------------------------------------------------------
// Pattern (a) — conv-family + activation epilogue
// ------------------------------------------------------------------

/// A minimal conv→relu graph with quantized tensors.  The conv output
/// quant equals the activation output quant (quant identity) so the
/// standalone-activation absorption is exact and the tests exercise the
/// clamp-range computation; the mismatch cases use
/// [`conv_relu_model_quants`].
fn conv_relu_model(
    relu_code: i32,
    act_scale: f32,
    act_zp: i64,
) -> ParsedModel {
    conv_relu_model_quants(relu_code, act_scale, act_zp, act_scale, act_zp)
}

/// A conv→activation graph with INDEPENDENT conv-output and
/// activation-output quants (the scale/zero-point gate cases).
fn conv_relu_model_quants(
    relu_code: i32,
    conv_scale: f32,
    conv_zp: i64,
    act_scale: f32,
    act_zp: i64,
) -> ParsedModel {
    build(
        vec![
            BuildTensor::quantized(&[1, 4, 4, 8], "input", BuildQuant::tensor(1.0, 0)),
            BuildTensor::constant(&[16, 1, 1, 8], "conv/weights", vec![0u8; 16 * 8]),
            BuildTensor::constant(&[16], "conv/bias", vec![0u8; 16 * 4]),
            BuildTensor::quantized(
                &[1, 4, 4, 16],
                "conv/output",
                BuildQuant::tensor(conv_scale, conv_zp),
            ),
            BuildTensor::quantized(
                &[1, 4, 4, 16],
                "act/output",
                BuildQuant::tensor(act_scale, act_zp),
            ),
        ],
        vec![
            BuildOp::fused(CONV_2D, vec![0, 1, 2], vec![3], OptionsKind::Conv2d, ACT_NONE),
            BuildOp::plain(relu_code, vec![3], vec![4]),
        ],
        vec![0],
        vec![4]
    )
}

#[test]
fn fuse_conv_absorbs_following_relu() {
    let model = conv_relu_model(RELU, 1.0, 0);
    let schedule = fuse(&model);

    assert_eq!(schedule.total_ops, 2);
    assert_eq!(schedule.groups.len(), 1, "conv+relu must be one emitted call");
    assert_eq!(schedule.fused_op_count(), 1);

    let g = &schedule.groups[0];
    assert_eq!(g.anchor_op_index, 0);
    assert_eq!(g.anchor_builtin, CONV_2D);
    assert_eq!(g.absorbed_ops, vec![1]);
    assert_eq!(g.eliminated_tensors, vec![3]);
    assert_eq!(g.output_tensor, 4);

    let act = g.activation.expect("relu must fuse into the epilogue");
    assert_eq!(act.kind, FusedActivationKind::Relu);
    // CalculateActivationRangeQuantized(RELU, scale=1, zp=0) → [0, 127].
    assert_eq!((act.quantized_min, act.quantized_max), (0, 127));
    assert!(
        !g.requires_verification,
        "activation absorption is semantics-preserving"
    );
}

#[test]
fn fuse_conv_relu6_range_is_quantized_six() {
    let model = conv_relu_model(RELU6, 1.0, 0);
    let schedule = fuse(&model);
    let act = schedule.groups[0].activation.expect("relu6 must fuse");
    assert_eq!(act.kind, FusedActivationKind::Relu6);
    // RELU6 → [max(-128, zp), min(127, round(zp + 6/scale))] = [0, 6].
    assert_eq!((act.quantized_min, act.quantized_max), (0, 6));
}

#[test]
fn fuse_conv_hard_swish_is_full_range() {
    let model = conv_relu_model(HARD_SWISH, 1.0, 0);
    let schedule = fuse(&model);
    let act = schedule.groups[0].activation.expect("hard swish must fuse");
    assert_eq!(act.kind, FusedActivationKind::HardSwish);
    assert_eq!((act.quantized_min, act.quantized_max), (-128, 127));
}

#[test]
fn activation_range_honors_positive_zero_point() {
    let model = conv_relu_model(RELU, 1.0, 5);
    let schedule = fuse(&model);
    let act = schedule.groups[0].activation.expect("relu must fuse");
    // quantize(0.0) = zp + round(0/1) = 5 → [max(-128, 5), 127] = [5, 127].
    assert_eq!((act.quantized_min, act.quantized_max), (5, 127));
}

#[test]
fn scale_changing_activation_not_absorbed() {
    // conv output scale 0.25 vs activation output scale 1.0: the
    // standalone relu is a full requantize, so absorbing it as an
    // `activation_range` clamp would NOT be bit-exact.  The
    // scale-identity gate refuses → the relu stays a separate call.
    let model = conv_relu_model_quants(RELU, 0.25, 0, 1.0, 0);
    let schedule = fuse(&model);
    assert_eq!(
        schedule.groups.len(),
        2,
        "scale-changing relu must stay a separate call"
    );
    let conv = &schedule.groups[0];
    assert!(
        conv.activation.is_none(),
        "standalone relu must not be absorbed as a clamp"
    );
    assert!(conv.absorbed_ops.is_empty());
    assert!(conv.eliminated_tensors.is_empty());
    assert_eq!(conv.output_tensor, 3);
    assert_eq!(schedule.groups[1].anchor_op_index, 1, "relu keeps its own call");
    assert_eq!(schedule.fused_op_count(), 0);
}

#[test]
fn zero_point_only_difference_activation_not_absorbed() {
    // Equal scales (1.0), differing zero points (conv 0, relu 5): the
    // unfused relu computes `max(x, 0) + 5` while the fused clamp would
    // give `clamp(x, 5, 127)` — divergent, so absorption must be refused.
    let model = conv_relu_model_quants(RELU, 1.0, 0, 1.0, 5);
    let schedule = fuse(&model);
    assert_eq!(
        schedule.groups.len(),
        2,
        "zero-point-changing relu must stay a separate call"
    );
    let conv = &schedule.groups[0];
    assert!(conv.activation.is_none());
    assert!(conv.absorbed_ops.is_empty());
    assert_eq!(schedule.groups[1].anchor_op_index, 1);
    assert_eq!(schedule.fused_op_count(), 0);
}

#[test]
fn fuse_depthwise_and_fc_activations() {
    let model = build(
        vec![
            BuildTensor::quantized(&[1, 4, 4, 8], "input", BuildQuant::tensor(1.0, 0)),
            BuildTensor::constant(&[1, 3, 3, 16], "dw/weights", vec![0u8; 1 * 3 * 3 * 16]),
            BuildTensor::constant(&[16], "dw/bias", vec![0u8; 16 * 4]),
            BuildTensor::quantized(&[1, 2, 2, 16], "dw/output", BuildQuant::tensor(0.5, 0)),
            BuildTensor::quantized(&[1, 2, 2, 16], "act/output", BuildQuant::tensor(0.5, 0)),
        ],
        vec![
            BuildOp::fused(DEPTHWISE_CONV_2D, vec![0, 1, 2], vec![3], OptionsKind::Depthwise, ACT_NONE),
            BuildOp::plain(RELU, vec![3], vec![4]),
        ],
        vec![0],
        vec![4]
    );
    let schedule = fuse(&model);
    assert_eq!(schedule.groups.len(), 1);
    assert_eq!(schedule.groups[0].absorbed_ops, vec![1]);
    assert!(schedule.groups[0].activation.is_some());

    // FullyConnected → relu6.
    let model = build(
        vec![
            BuildTensor::quantized(&[1, 8], "input", BuildQuant::tensor(1.0, 0)),
            BuildTensor::constant(&[4, 8], "fc/weights", vec![0u8; 4 * 8]),
            BuildTensor::constant(&[4], "fc/bias", vec![0u8; 4 * 4]),
            BuildTensor::quantized(&[1, 4], "fc/output", BuildQuant::tensor(0.5, 0)),
            BuildTensor::quantized(&[1, 4], "act/output", BuildQuant::tensor(0.5, 0)),
        ],
        vec![
            BuildOp::fused(FULLY_CONNECTED, vec![0, 1, 2], vec![3], OptionsKind::Fc, ACT_NONE),
            BuildOp::plain(RELU6, vec![3], vec![4]),
        ],
        vec![0],
        vec![4]
    );
    let schedule = fuse(&model);
    assert_eq!(schedule.groups.len(), 1);
    assert!(matches!(
        schedule.groups[0].activation,
        Some(FusedActivation { kind: FusedActivationKind::Relu6, .. })
    ));
}

#[test]
fn explicit_fused_activation_field_preferred_over_standalone_relu() {
    // Conv carries fused_activation=RELU; a redundant standalone relu
    // follows.  The explicit field wins: the conv group records the
    // activation and the standalone relu is NOT absorbed.
    let model = build(
        vec![
            BuildTensor::quantized(&[1, 4, 4, 8], "input", BuildQuant::tensor(1.0, 0)),
            BuildTensor::constant(&[16, 1, 1, 8], "conv/weights", vec![0u8; 16 * 8]),
            BuildTensor::constant(&[16], "conv/bias", vec![0u8; 16 * 4]),
            BuildTensor::quantized(&[1, 4, 4, 16], "conv/output", BuildQuant::tensor(1.0, 0)),
            BuildTensor::quantized(&[1, 4, 4, 16], "relu/output", BuildQuant::tensor(1.0, 0)),
        ],
        vec![
            BuildOp::fused(CONV_2D, vec![0, 1, 2], vec![3], OptionsKind::Conv2d, ACT_RELU),
            BuildOp::plain(RELU, vec![3], vec![4]),
        ],
        vec![0],
        vec![4]
    );
    let schedule = fuse(&model);
    assert_eq!(schedule.groups.len(), 2, "standalone relu stays a separate call");
    let conv = &schedule.groups[0];
    assert!(conv.absorbed_ops.is_empty(), "no standalone activation absorbed");
    let act = conv.activation.expect("field activation recorded");
    assert_eq!(act.kind, FusedActivationKind::Relu);
    assert_eq!((act.quantized_min, act.quantized_max), (0, 127));
    // The standalone relu keeps its own group (anchor op 1).
    assert_eq!(schedule.groups[1].anchor_op_index, 1);
}

#[test]
fn unsupported_fused_field_codes_pass_through() {
    // fused_activation = TANH(4): not in {1, 3} → the pass never claims it.
    let model = build(
        vec![
            BuildTensor::quantized(&[1, 4, 4, 8], "input", BuildQuant::tensor(1.0, 0)),
            BuildTensor::constant(&[16, 1, 1, 8], "conv/weights", vec![0u8; 16 * 8]),
            BuildTensor::constant(&[16], "conv/bias", vec![0u8; 16 * 4]),
            BuildTensor::quantized(&[1, 4, 4, 16], "conv/output", BuildQuant::tensor(0.25, 0)),
        ],
        vec![BuildOp::fused(CONV_2D, vec![0, 1, 2], vec![3], OptionsKind::Conv2d, 4)],
        vec![0],
        vec![3]
    );
    let schedule = fuse(&model);
    assert_eq!(schedule.groups.len(), 1);
    assert!(schedule.groups[0].activation.is_none());
    assert!(schedule.groups[0].absorbed_ops.is_empty());
}

#[test]
fn abs_is_not_treated_as_activation() {
    // BuiltinOperator 101 = ABS in this schema era, NOT relu.  It must
    // never be absorbed as a fused activation.
    let model = build(
        vec![
            BuildTensor::quantized(&[1, 4, 4, 8], "input", BuildQuant::tensor(1.0, 0)),
            BuildTensor::constant(&[16, 1, 1, 8], "conv/weights", vec![0u8; 16 * 8]),
            BuildTensor::constant(&[16], "conv/bias", vec![0u8; 16 * 4]),
            BuildTensor::quantized(&[1, 4, 4, 16], "conv/output", BuildQuant::tensor(0.25, 0)),
            BuildTensor::quantized(&[1, 4, 4, 16], "abs/output", BuildQuant::tensor(0.25, 0)),
        ],
        vec![
            BuildOp::fused(CONV_2D, vec![0, 1, 2], vec![3], OptionsKind::Conv2d, ACT_NONE),
            BuildOp::plain(101, vec![3], vec![4]),
        ],
        vec![0],
        vec![4]
    );
    let schedule = fuse(&model);
    assert_eq!(schedule.groups.len(), 2, "ABS stays a separate call");
    assert!(schedule.groups[0].activation.is_none());
    assert!(schedule.groups[0].absorbed_ops.is_empty());
}

// ------------------------------------------------------------------
// Pattern (b) — elementwise chains
// ------------------------------------------------------------------

#[test]
fn fuse_elementwise_chain_add_relu_mul_hardswish() {
    let model = build(
        vec![
            BuildTensor::quantized(&[1, 4], "a", BuildQuant::tensor(1.0, 0)),
            BuildTensor::quantized(&[1, 4], "b", BuildQuant::tensor(1.0, 0)),
            BuildTensor::quantized(&[1, 4], "add/out", BuildQuant::tensor(1.0, 0)),
            BuildTensor::quantized(&[1, 4], "relu/out", BuildQuant::tensor(1.0, 0)),
            BuildTensor::constant(&[1], "mul/scale", vec![1, 1, 1, 1]),
            BuildTensor::quantized(&[1, 4], "mul/out", BuildQuant::tensor(0.5, 0)),
            BuildTensor::quantized(&[1, 4], "hs/out", BuildQuant::tensor(0.5, 0)),
        ],
        vec![
            BuildOp::plain(ADD, vec![0, 1], vec![2]),
            BuildOp::plain(RELU, vec![2], vec![3]),
            BuildOp::plain(MUL, vec![3, 4], vec![5]),
            BuildOp::plain(HARD_SWISH, vec![5], vec![6]),
        ],
        vec![0, 1],
        vec![6]
    );
    let schedule = fuse(&model);

    assert_eq!(schedule.total_ops, 4);
    assert_eq!(schedule.groups.len(), 1, "whole chain is one emitted call");
    assert_eq!(schedule.fused_op_count(), 3);

    let g = &schedule.groups[0];
    assert_eq!(g.anchor_op_index, 0);
    assert_eq!(g.anchor_builtin, ADD);
    assert_eq!(g.absorbed_ops, vec![1, 2, 3]);
    assert_eq!(g.eliminated_tensors, vec![2, 3, 5]);
    assert_eq!(g.output_tensor, 6);

    let chain = &g.elementwise_chain;
    assert_eq!(chain.len(), 3);
    assert_eq!(chain[0].kind, ElementwiseKind::Relu);
    assert_eq!(chain[0].operand_tensor, u32::MAX);
    assert_eq!(chain[1].kind, ElementwiseKind::Mul);
    assert_eq!(chain[1].operand_tensor, 4);
    assert!((f32::from_bits(chain[1].output_scale) - 0.5).abs() < 1e-6);
    assert_eq!(chain[2].kind, ElementwiseKind::HardSwish);
    assert_eq!(chain[2].operand_tensor, u32::MAX);
    assert!(
        !g.requires_verification,
        "elementwise chains are semantics-preserving"
    );
}

#[test]
fn two_step_chain_keeps_per_step_requantize_params() {
    // sub → mul → mul: two consecutive scale-changing muls (× ones@1.0,
    // 1.0 → 0.25 → 0.5).  Each chain step requantizes with NON-identity
    // scales and must carry its OWN output ratio — step 0 is
    // qm(1.0·1.0/0.25) = qm(4.0), step 1 is qm(0.25·1.0/0.5) = qm(0.5),
    // never collapsed into a single multiplier.
    let model = build(
        vec![
            BuildTensor::quantized(&[1, 4], "a", BuildQuant::tensor(1.0, 0)),
            BuildTensor::quantized(&[1, 4], "b", BuildQuant::tensor(0.5, 0)),
            BuildTensor::quantized(&[1, 4], "sub/out", BuildQuant::tensor(1.0, 0)),
            BuildTensor::constant_quantized(
                &[1],
                "ones",
                vec![1, 1, 1, 1],
                BuildQuant::tensor(1.0, 0),
            ),
            BuildTensor::quantized(&[1, 4], "mul1/out", BuildQuant::tensor(0.25, 0)),
            BuildTensor::quantized(&[1, 4], "mul2/out", BuildQuant::tensor(0.5, 0)),
        ],
        vec![
            BuildOp::plain(SUB, vec![0, 1], vec![2]),
            BuildOp::plain(MUL, vec![2, 3], vec![4]),
            BuildOp::plain(MUL, vec![4, 3], vec![5]),
        ],
        vec![0, 1],
        vec![5]
    );
    let schedule = fuse(&model);
    assert_eq!(schedule.groups.len(), 1, "three-op chain is one emitted call");
    let g = &schedule.groups[0];
    let chain = &g.elementwise_chain;
    assert_eq!(chain.len(), 2);

    // Step 0 (MUL): output ratio 1.0·1.0/0.25 = 4.0; offsets zero.
    let s0 = chain[0].requantize;
    assert_eq!(s0.left_shift, 0);
    assert_eq!((s0.output_multiplier, s0.output_shift), QM_4_0);
    assert_eq!(s0.input1_multiplier, 0);
    assert_eq!(s0.input2_multiplier, 0);
    assert_eq!(s0.input1_offset, 0);
    assert_eq!(s0.input2_offset, 0);
    assert_eq!(s0.output_offset, 0);

    // Step 1 (MUL): output ratio 0.25·1.0/0.5 = 0.5 — a DIFFERENT
    // multiplier than step 0, carried per step (never collapsed).
    let s1 = chain[1].requantize;
    assert_eq!(s1.left_shift, 0);
    assert_eq!((s1.output_multiplier, s1.output_shift), QM_HALF);
    assert_eq!(s1.input1_multiplier, 0);
    assert_eq!(s1.input2_multiplier, 0);
    assert_ne!(
        (s0.output_multiplier, s0.output_shift),
        (s1.output_multiplier, s1.output_shift),
        "steps must keep distinct requantize params (no collapsing)"
    );
    assert!(
        !g.requires_verification,
        "elementwise chains are semantics-preserving"
    );
}

#[test]
fn elementwise_chain_stops_at_multi_consumer() {
    // add→relu, then relu's output feeds TWO ops → the chain stops after
    // relu; the two consumers stay separate calls.
    let model = build(
        vec![
            BuildTensor::quantized(&[1, 4], "a", BuildQuant::tensor(1.0, 0)),
            BuildTensor::quantized(&[1, 4], "b", BuildQuant::tensor(1.0, 0)),
            BuildTensor::quantized(&[1, 4], "add/out", BuildQuant::tensor(1.0, 0)),
            BuildTensor::quantized(&[1, 4], "relu/out", BuildQuant::tensor(1.0, 0)),
            BuildTensor::constant(&[1], "mul/scale", vec![1, 1, 1, 1]),
            BuildTensor::quantized(&[1, 4], "mul/out", BuildQuant::tensor(0.5, 0)),
            BuildTensor::quantized(&[1, 4], "c", BuildQuant::tensor(1.0, 0)),
            BuildTensor::quantized(&[1, 4], "add2/out", BuildQuant::tensor(1.0, 0)),
        ],
        vec![
            BuildOp::plain(ADD, vec![0, 1], vec![2]),
            BuildOp::plain(RELU, vec![2], vec![3]),
            BuildOp::plain(MUL, vec![3, 4], vec![5]),
            BuildOp::plain(ADD, vec![3, 6], vec![7]),
        ],
        vec![0, 1, 6],
        vec![5, 7]
    );
    let schedule = fuse(&model);

    assert_eq!(schedule.total_ops, 4);
    assert_eq!(schedule.groups.len(), 3, "chain folds only add+relu");
    assert_eq!(schedule.fused_op_count(), 1);
    assert_eq!(schedule.groups[0].elementwise_chain.len(), 1);
    assert_eq!(schedule.groups[0].absorbed_ops, vec![1]);
    // The two consumers of relu's output remain standalone anchors.
    assert_eq!(schedule.groups[1].anchor_op_index, 2);
    assert_eq!(schedule.groups[2].anchor_op_index, 3);
}

#[test]
fn elementwise_chain_refuses_late_operand() {
    // add→mul where the mul's operand is produced AFTER the add anchor:
    // the fused loop would read a tensor that does not exist yet.
    let model = build(
        vec![
            BuildTensor::quantized(&[1, 4], "a", BuildQuant::tensor(1.0, 0)),
            BuildTensor::quantized(&[1, 4], "b", BuildQuant::tensor(1.0, 0)),
            BuildTensor::quantized(&[1, 4], "add/out", BuildQuant::tensor(1.0, 0)),
            BuildTensor::constant(&[16, 1, 1, 4], "conv/weights", vec![0u8; 16 * 4]),
            BuildTensor::constant(&[16], "conv/bias", vec![0u8; 16 * 4]),
            BuildTensor::quantized(&[1, 4, 4, 16], "conv/out", BuildQuant::tensor(0.5, 0)),
            BuildTensor::quantized(&[1, 4], "mul/out", BuildQuant::tensor(0.5, 0)),
        ],
        vec![
            BuildOp::plain(ADD, vec![0, 1], vec![2]),
            BuildOp::fused(CONV_2D, vec![0, 3, 4], vec![5], OptionsKind::Conv2d, ACT_NONE),
            BuildOp::plain(MUL, vec![2, 5], vec![6]),
        ],
        vec![0, 1],
        vec![6]
    );
    let schedule = fuse(&model);
    let add_group = &schedule.groups[0];
    assert_eq!(add_group.anchor_builtin, ADD);
    assert!(add_group.elementwise_chain.is_empty(), "late operand must block the chain");
    assert!(add_group.absorbed_ops.is_empty());
}

// ------------------------------------------------------------------
// Pattern (c) — residual-add groups
// ------------------------------------------------------------------

#[test]
fn fuse_residual_add_conv_relu() {
    // residual producer (conv, op0) runs before the conv (op1); the add
    // (op2) and relu (op3) fuse into op1's one-pass epilogue.
    let model = build(
        vec![
            BuildTensor::quantized(&[1, 4, 4, 8], "in0", BuildQuant::tensor(1.0, 0)),
            BuildTensor::constant(&[8, 1, 1, 8], "w0", vec![0u8; 8 * 8]),
            BuildTensor::constant(&[8], "b0", vec![0u8; 8 * 4]),
            BuildTensor::quantized(&[1, 4, 4, 8], "residual", BuildQuant::tensor(0.5, 0)),
            BuildTensor::quantized(&[1, 4, 4, 8], "in1", BuildQuant::tensor(1.0, 0)),
            BuildTensor::constant(&[16, 1, 1, 8], "w1", vec![0u8; 16 * 8]),
            BuildTensor::constant(&[16], "b1", vec![0u8; 16 * 4]),
            BuildTensor::quantized(&[1, 4, 4, 16], "conv/out", BuildQuant::tensor(0.5, 0)),
            BuildTensor::quantized(&[1, 4, 4, 16], "add/out", BuildQuant::tensor(0.5, 0)),
            BuildTensor::quantized(&[1, 4, 4, 16], "relu/out", BuildQuant::tensor(0.5, 0)),
        ],
        vec![
            BuildOp::fused(CONV_2D, vec![0, 1, 2], vec![3], OptionsKind::Conv2d, ACT_NONE),
            BuildOp::fused(CONV_2D, vec![4, 5, 6], vec![7], OptionsKind::Conv2d, ACT_NONE),
            BuildOp::plain(ADD, vec![7, 3], vec![8]),
            BuildOp::plain(RELU, vec![8], vec![9]),
        ],
        vec![0, 4],
        vec![9]
    );
    let schedule = fuse(&model);

    assert_eq!(schedule.total_ops, 4);
    // op0 (residual producer) stays a call; op1+add+relu fuse into one.
    assert_eq!(schedule.groups.len(), 2);
    assert_eq!(schedule.fused_op_count(), 2);

    let fused = &schedule.groups[1];
    assert_eq!(fused.anchor_op_index, 1);
    let ra = fused.residual_add.as_ref().expect("residual add must fuse");
    assert_eq!(ra.op_index, 2);
    assert_eq!(ra.residual_tensor, 3);
    assert!((f32::from_bits(ra.output_scale) - 0.5).abs() < 1e-6);
    assert_eq!(fused.absorbed_ops, vec![2, 3]);
    assert_eq!(fused.eliminated_tensors, vec![7, 8]);
    assert_eq!(fused.output_tensor, 9);
    let act = fused.activation.expect("trailing relu fuses");
    assert_eq!((act.quantized_min, act.quantized_max), (0, 127));
}

#[test]
fn residual_add_refused_when_residual_late_or_model_io() {
    // (a) Residual produced AFTER the conv → no fold for that conv.
    let m = build(
        vec![
            BuildTensor::quantized(&[1, 4, 4, 8], "in0", BuildQuant::tensor(1.0, 0)),
            BuildTensor::constant(&[8, 1, 1, 8], "w0", vec![0u8; 8 * 8]),
            BuildTensor::constant(&[8], "b0", vec![0u8; 8 * 4]),
            BuildTensor::quantized(&[1, 4, 4, 8], "conv0/out", BuildQuant::tensor(0.5, 0)),
            BuildTensor::quantized(&[1, 4, 4, 8], "in1", BuildQuant::tensor(1.0, 0)),
            BuildTensor::constant(&[8, 1, 1, 8], "w1", vec![0u8; 8 * 8]),
            BuildTensor::constant(&[8], "b1", vec![0u8; 8 * 4]),
            BuildTensor::quantized(&[1, 4, 4, 8], "residual", BuildQuant::tensor(0.5, 0)),
            BuildTensor::quantized(&[1, 4, 4, 8], "add/out", BuildQuant::tensor(0.5, 0)),
            BuildTensor::quantized(&[1, 4, 4, 8], "relu/out", BuildQuant::tensor(0.5, 0)),
        ],
        vec![
            BuildOp::fused(CONV_2D, vec![0, 1, 2], vec![3], OptionsKind::Conv2d, ACT_NONE),
            BuildOp::fused(CONV_2D, vec![4, 5, 6], vec![7], OptionsKind::Conv2d, ACT_NONE),
            BuildOp::plain(ADD, vec![3, 7], vec![8]),
            BuildOp::plain(RELU, vec![8], vec![9]),
        ],
        vec![0, 4],
        vec![9]
    );
    let schedule = fuse(&m);
    // conv0's residual candidate (t7) is produced at op1 ≥ op0 → refused.
    let conv0 = &schedule.groups[0];
    assert_eq!(conv0.anchor_op_index, 0);
    assert!(conv0.residual_add.is_none(), "late residual must not fuse");
    assert!(conv0.absorbed_ops.is_empty());

    // (b) Residual is a model input → refused.
    let m = build(
        vec![
            BuildTensor::quantized(&[1, 4, 4, 8], "residual_in", BuildQuant::tensor(1.0, 0)),
            BuildTensor::quantized(&[1, 4, 4, 8], "in1", BuildQuant::tensor(1.0, 0)),
            BuildTensor::constant(&[16, 1, 1, 8], "w1", vec![0u8; 16 * 8]),
            BuildTensor::constant(&[16], "b1", vec![0u8; 16 * 4]),
            BuildTensor::quantized(&[1, 4, 4, 16], "conv/out", BuildQuant::tensor(0.5, 0)),
            BuildTensor::quantized(&[1, 4, 4, 16], "add/out", BuildQuant::tensor(0.5, 0)),
        ],
        vec![
            BuildOp::fused(CONV_2D, vec![1, 2, 3], vec![4], OptionsKind::Conv2d, ACT_NONE),
            BuildOp::plain(ADD, vec![4, 0], vec![5]),
        ],
        vec![0, 1],
        vec![5]
    );
    let schedule = fuse(&m);
    assert!(schedule.groups[0].residual_add.is_none(), "model-input residual must not fuse");
}

// ------------------------------------------------------------------
// Pattern (d) — pool/softmax absorbs preceding mul/sub
// ------------------------------------------------------------------

#[test]
fn pool_absorbs_preceding_mul_scale() {
    let model = build(
        vec![
            BuildTensor::quantized(&[1, 4, 4, 8], "x", BuildQuant::tensor(1.0, 0)),
            BuildTensor::constant(&[1], "mul/scale", vec![1, 1, 1, 1]),
            BuildTensor::quantized(&[1, 4, 4, 8], "mul/out", BuildQuant::tensor(0.5, 0)),
            BuildTensor::quantized(&[1, 2, 2, 8], "pool/out", BuildQuant::tensor(0.5, 0)),
        ],
        vec![
            BuildOp::plain(MUL, vec![0, 1], vec![2]),
            BuildOp::fused(AVERAGE_POOL_2D, vec![2], vec![3], OptionsKind::Pool, ACT_NONE),
        ],
        vec![0],
        vec![3]
    );
    let schedule = fuse(&model);

    assert_eq!(schedule.total_ops, 2);
    assert_eq!(schedule.groups.len(), 1, "mul must not form its own call");
    assert_eq!(schedule.fused_op_count(), 1);

    let g = &schedule.groups[0];
    assert_eq!(g.anchor_op_index, 1);
    assert_eq!(g.anchor_builtin, AVERAGE_POOL_2D);
    let fold = g.input_fold.as_ref().expect("mul must fold into the pool");
    assert_eq!(fold.op_index, 0);
    assert_eq!(fold.builtin, MUL);
    assert_eq!(fold.folded_input_tensor, 0);
    assert_eq!(fold.operand_tensor, 1);
    // folded_scale = s_mul_out / s_in = 0.5 / 1.0.
    assert!((f32::from_bits(fold.folded_scale) - 0.5).abs() < 1e-6);
    assert_eq!(fold.input_zero_point, 0);
    assert_eq!(g.inputs[0], 0, "kernel reads the pre-mul tensor");
    assert_eq!(g.eliminated_tensors, vec![2]);
    assert!(
        g.requires_verification,
        "input folds are algebraically transformative groups"
    );
}

#[test]
fn softmax_absorbs_preceding_sub_constant() {
    // sub(x, q=10) with operand scale 0.1, zp 0 → the folded real-domain
    // constant is c = 0.1·(10 − 0) = 1.0, absorbed into the softmax's
    // input offset math.
    let model = build(
        vec![
            BuildTensor::quantized(&[1, 8], "x", BuildQuant::tensor(1.0, 0)),
            BuildTensor::constant_quantized(
                &[1],
                "sub/const",
                vec![10u8],
                BuildQuant::tensor(0.1, 0),
            ),
            BuildTensor::quantized(&[1, 8], "sub/out", BuildQuant::tensor(1.0, 0)),
            BuildTensor::quantized(&[1, 8], "softmax/out", BuildQuant::tensor(1.0, 0)),
        ],
        vec![
            BuildOp::plain(SUB, vec![0, 1], vec![2]),
            BuildOp::fused(SOFTMAX, vec![2], vec![3], OptionsKind::Softmax, 0),
        ],
        vec![0],
        vec![3]
    );
    let schedule = fuse(&model);
    assert_eq!(schedule.total_ops, 2);
    assert_eq!(schedule.groups.len(), 1, "sub must not form its own call");
    assert_eq!(schedule.fused_op_count(), 1);

    let g = &schedule.groups[0];
    let fold = g.input_fold.as_ref().expect("sub must fold into softmax");
    assert_eq!(fold.op_index, 0);
    assert_eq!(fold.builtin, SUB);
    assert_eq!(fold.folded_input_tensor, 0, "softmax reads the pre-sub tensor");
    assert_eq!(fold.operand_tensor, 1);
    assert!((f32::from_bits(fold.folded_scale) - 1.0).abs() < 1e-4, "constant = 0.1·10");
    assert_eq!(g.inputs[0], 0);
    assert_eq!(g.eliminated_tensors, vec![2]);
}

#[test]
fn mul_with_two_consumers_not_absorbed() {
    // mul feeds BOTH a pool and an add → HasOneUse fails → no fold; the
    // mul keeps its own call.
    let model = build(
        vec![
            BuildTensor::quantized(&[1, 4, 4, 8], "x", BuildQuant::tensor(1.0, 0)),
            BuildTensor::constant(&[1], "mul/scale", vec![1, 1, 1, 1]),
            BuildTensor::quantized(&[1, 4, 4, 8], "mul/out", BuildQuant::tensor(0.5, 0)),
            BuildTensor::quantized(&[1, 2, 2, 8], "pool/out", BuildQuant::tensor(0.5, 0)),
            BuildTensor::quantized(&[1, 4, 4, 8], "y", BuildQuant::tensor(1.0, 0)),
            BuildTensor::quantized(&[1, 4, 4, 8], "add/out", BuildQuant::tensor(1.0, 0)),
        ],
        vec![
            BuildOp::plain(MUL, vec![0, 1], vec![2]),
            BuildOp::fused(AVERAGE_POOL_2D, vec![2], vec![3], OptionsKind::Pool, ACT_NONE),
            BuildOp::plain(ADD, vec![2, 4], vec![5]),
        ],
        vec![0, 4],
        vec![3, 5]
    );
    let schedule = fuse(&model);
    assert_eq!(schedule.groups.len(), 3, "no op may be absorbed");
    assert!(schedule.groups[1].input_fold.is_none(), "pool must not fold a multi-use mul");
    assert!(schedule.groups[1].absorbed_ops.is_empty());
    assert_eq!(schedule.fused_op_count(), 0);
}

// ------------------------------------------------------------------
// Pattern (e) — requantize-scale constant folding
// ------------------------------------------------------------------

#[test]
fn fuse_conv_mul_requantize_single_multiply_shift() {
    // conv (per-channel w scales [0.5, 0.25], s_in 1.0) → mul by an
    // all-ones constant at scale 1.0 → mul output scale 0.25, EQUAL to
    // the conv output scale (identity — the mul's own
    // requantize multiplier is the identity, so the fold is exact).
    // Folded per-channel multipliers: qm(1·0.5/0.25)=qm(2.0),
    // qm(1·0.25/0.25)=qm(1.0).
    let model = build(
        vec![
            BuildTensor::quantized(&[1, 4, 4, 8], "input", BuildQuant::tensor(1.0, 0)),
            BuildTensor::constant_quantized(
                &[2, 1, 1, 8],
                "conv/weights",
                vec![0u8; 2 * 8],
                BuildQuant::channel(vec![0.5, 0.25], vec![0, 0], 0),
            ),
            BuildTensor::constant(&[2], "conv/bias", vec![0u8; 2 * 4]),
            BuildTensor::quantized(&[1, 4, 4, 2], "conv/out", BuildQuant::tensor(0.25, 0)),
            BuildTensor::constant_quantized(&[1], "ones", vec![1, 1, 1, 1], BuildQuant::tensor(1.0, 0)),
            BuildTensor::quantized(&[1, 4, 4, 2], "mul/out", BuildQuant::tensor(0.25, 0)),
        ],
        vec![
            BuildOp::fused(CONV_2D, vec![0, 1, 2], vec![3], OptionsKind::Conv2d, ACT_NONE),
            BuildOp::plain(MUL, vec![3, 4], vec![5]),
        ],
        vec![0],
        vec![5]
    );
    let schedule = fuse(&model);

    assert_eq!(schedule.total_ops, 2);
    assert_eq!(schedule.groups.len(), 1, "scale-mul must fold into the conv");
    assert_eq!(schedule.fused_op_count(), 1);

    let g = &schedule.groups[0];
    let fr = g.folded_requantize.as_ref().expect("requantize must fold");
    assert_eq!(fr.op_index, 1);
    assert!((f32::from_bits(fr.output_scale) - 0.25).abs() < 1e-6);
    assert_eq!(fr.output_zero_point, 0);
    assert_eq!(fr.multipliers, vec![QM_2_0, QM_1_0]);
    assert_eq!(g.absorbed_ops, vec![1]);
    assert_eq!(g.eliminated_tensors, vec![3]);
    assert_eq!(g.output_tensor, 5);
    assert!(
        g.requires_verification,
        "requantize folds are algebraically transformative groups"
    );
}

#[test]
fn requantize_fold_composes_with_activation_absorption() {
    // conv → scale-mul → relu: the mul folds AND the relu fuses.  The
    // mul output scale equals the conv output scale (identity), and
    // the relu output quant equals the mul output quant (quant identity)
    // so the activation absorption stays exact.
    let model = build(
        vec![
            BuildTensor::quantized(&[1, 4, 4, 8], "input", BuildQuant::tensor(1.0, 0)),
            BuildTensor::constant_quantized(
                &[2, 1, 1, 8],
                "conv/weights",
                vec![0u8; 2 * 8],
                BuildQuant::channel(vec![0.5, 0.25], vec![0, 0], 0),
            ),
            BuildTensor::constant(&[2], "conv/bias", vec![0u8; 2 * 4]),
            BuildTensor::quantized(&[1, 4, 4, 2], "conv/out", BuildQuant::tensor(0.25, 0)),
            BuildTensor::constant_quantized(&[1], "ones", vec![1, 1, 1, 1], BuildQuant::tensor(1.0, 0)),
            BuildTensor::quantized(&[1, 4, 4, 2], "mul/out", BuildQuant::tensor(0.25, 0)),
            BuildTensor::quantized(&[1, 4, 4, 2], "relu/out", BuildQuant::tensor(0.25, 0)),
        ],
        vec![
            BuildOp::fused(CONV_2D, vec![0, 1, 2], vec![3], OptionsKind::Conv2d, ACT_NONE),
            BuildOp::plain(MUL, vec![3, 4], vec![5]),
            BuildOp::plain(RELU, vec![5], vec![6]),
        ],
        vec![0],
        vec![6]
    );
    let schedule = fuse(&model);
    assert_eq!(schedule.groups.len(), 1);
    let g = &schedule.groups[0];
    assert!(g.folded_requantize.is_some());
    let act = g.activation.expect("relu must fuse after the fold");
    assert_eq!((act.quantized_min, act.quantized_max), (0, 127));
    assert_eq!(g.absorbed_ops, vec![1, 2]);
    assert_eq!(g.output_tensor, 6);
    assert!(g.requires_verification, "requantize fold changes rounding");
}

#[test]
fn requantize_fold_refused_when_conv_out_zp_nonzero() {
    // conv output zp = -1 → the mul input1_offset is non-zero → the fold
    // would not be a pure scale change; must not fire.
    let model = build(
        vec![
            BuildTensor::quantized(&[1, 4, 4, 8], "input", BuildQuant::tensor(1.0, 0)),
            BuildTensor::constant(&[2, 1, 1, 8], "conv/weights", vec![0u8; 2 * 8]),
            BuildTensor::constant(&[2], "conv/bias", vec![0u8; 2 * 4]),
            BuildTensor::quantized(&[1, 4, 4, 2], "conv/out", BuildQuant::tensor(0.25, -1)),
            BuildTensor::constant(&[1], "ones", vec![1, 1, 1, 1]),
            BuildTensor::quantized(&[1, 4, 4, 2], "mul/out", BuildQuant::tensor(0.125, 0)),
        ],
        vec![
            BuildOp::fused(CONV_2D, vec![0, 1, 2], vec![3], OptionsKind::Conv2d, ACT_NONE),
            BuildOp::plain(MUL, vec![3, 4], vec![5]),
        ],
        vec![0],
        vec![5]
    );
    let schedule = fuse(&model);
    assert!(schedule.groups[0].folded_requantize.is_none(), "non-zero zp must block the fold");
    assert_eq!(schedule.groups.len(), 2);
    assert_eq!(schedule.fused_op_count(), 0);
}

// ------------------------------------------------------------------
// Generic guards and structure
// ------------------------------------------------------------------

#[test]
fn no_fuse_when_conv_output_has_two_consumers() {
    let model = build(
        vec![
            BuildTensor::quantized(&[1, 4, 4, 8], "input", BuildQuant::tensor(1.0, 0)),
            BuildTensor::constant(&[16, 1, 1, 8], "conv/weights", vec![0u8; 16 * 8]),
            BuildTensor::constant(&[16], "conv/bias", vec![0u8; 16 * 4]),
            BuildTensor::quantized(&[1, 4, 4, 16], "conv/out", BuildQuant::tensor(0.25, 0)),
            BuildTensor::quantized(&[1, 4, 4, 16], "relu/out", BuildQuant::tensor(0.25, 0)),
            BuildTensor::constant(&[1], "mul/scale", vec![1, 1, 1, 1]),
            BuildTensor::quantized(&[1, 4, 4, 16], "mul/out", BuildQuant::tensor(0.25, 0)),
        ],
        vec![
            BuildOp::fused(CONV_2D, vec![0, 1, 2], vec![3], OptionsKind::Conv2d, ACT_NONE),
            BuildOp::plain(RELU, vec![3], vec![4]),
            BuildOp::plain(MUL, vec![3, 5], vec![6]),
        ],
        vec![0],
        vec![4, 6]
    );
    let schedule = fuse(&model);
    assert_eq!(schedule.groups.len(), 3, "no fusion across a two-consumer intermediate");
    assert!(schedule.groups[0].activation.is_none());
    assert!(schedule.groups[0].absorbed_ops.is_empty());
    assert_eq!(schedule.fused_op_count(), 0);
}

#[test]
fn no_fuse_when_intermediate_is_model_output() {
    let model = build(
        vec![
            BuildTensor::quantized(&[1, 4, 4, 8], "input", BuildQuant::tensor(1.0, 0)),
            BuildTensor::constant(&[16, 1, 1, 8], "conv/weights", vec![0u8; 16 * 8]),
            BuildTensor::constant(&[16], "conv/bias", vec![0u8; 16 * 4]),
            BuildTensor::quantized(&[1, 4, 4, 16], "conv/out", BuildQuant::tensor(0.25, 0)),
            BuildTensor::quantized(&[1, 4, 4, 16], "relu/out", BuildQuant::tensor(0.25, 0)),
        ],
        vec![
            BuildOp::fused(CONV_2D, vec![0, 1, 2], vec![3], OptionsKind::Conv2d, ACT_NONE),
            BuildOp::plain(RELU, vec![3], vec![4]),
        ],
        vec![0],
        vec![3, 4]
    );
    let schedule = fuse(&model);
    assert_eq!(schedule.groups.len(), 2, "model-output intermediate must not be eliminated");
    assert!(schedule.groups[0].absorbed_ops.is_empty());
    assert!(schedule.groups[0].activation.is_none());
    assert_eq!(schedule.fused_op_count(), 0);
}

#[test]
fn unsupported_structure_left_untouched() {
    // reshape → conv: neither op matches a fusion pattern; both stay.
    let model = build(
        vec![
            BuildTensor::quantized(&[1, 8, 8, 4], "input", BuildQuant::tensor(1.0, 0)),
            BuildTensor::quantized(&[1, 4, 16, 4], "reshaped", BuildQuant::tensor(1.0, 0)),
            BuildTensor::constant(&[16, 1, 1, 4], "conv/weights", vec![0u8; 16 * 4]),
            BuildTensor::constant(&[16], "conv/bias", vec![0u8; 16 * 4]),
            BuildTensor::quantized(&[1, 4, 16, 16], "conv/out", BuildQuant::tensor(0.25, 0)),
        ],
        vec![
            BuildOp::plain(22, vec![0], vec![1]), // RESHAPE
            BuildOp::fused(CONV_2D, vec![1, 2, 3], vec![4], OptionsKind::Conv2d, ACT_NONE),
        ],
        vec![0],
        vec![4]
    );
    let schedule = fuse(&model);
    assert_eq!(schedule.groups.len(), 2);
    assert_eq!(schedule.fused_op_count(), 0);
    assert!(schedule.groups[1].activation.is_none());
}

#[test]
fn empty_model_yields_empty_schedule() {
    let model = build(vec![], vec![], vec![], vec![]);
    let schedule = fuse(&model);
    assert_eq!(schedule.total_ops, 0);
    assert!(schedule.groups.is_empty());
    assert_eq!(schedule.emitted_op_count(), 0);
    assert_eq!(schedule.fused_op_count(), 0);
}
#[test]
fn every_operator_runs_once_and_in_order() {
    for code in [RELU, RELU6, HARD_SWISH, 101] {
        for scale in [1.0, 0.5] {
            let model = conv_relu_model(code, scale, 0);
            let schedule = fuse(&model);
            let mut ran = vec![0; model.ops.len()];
            for g in &schedule.groups {
                ran[g.anchor_op_index as usize] += 1;
                for &op in &g.absorbed_ops {
                    ran[op as usize] += 1;
                }
            }
            assert_eq!(ran, vec![1; model.ops.len()]);
            assert!(schedule.groups.windows(2).all(|w| w[0].anchor_op_index < w[1].anchor_op_index));
            assert_eq!(schedule.emitted_op_count() + schedule.fused_op_count(), model.ops.len());
        }
    }
}

/// A convolution, an addition of an earlier result, a chain and a folded pool.
fn mixed_model() -> ParsedModel {
    let q = |name| BuildTensor::quantized(&[1, 4, 4, 8], name, BuildQuant::tensor(1.0, 0));
    build(
        vec![
            q("input"),
            BuildTensor::constant(&[8, 1, 1, 8], "weights", vec![0u8; 64]),
            BuildTensor::constant(&[8], "bias", vec![0u8; 32]),
            q("first"),
            q("second"),
            q("sum"),
            q("product"),
            q("difference"),
            q("pooled"),
            BuildTensor::constant_quantized(&[1], "factor", vec![2], BuildQuant::tensor(1.0, 0)),
            q("product of pooled"),
            q("pooled again"),
        ],
        vec![
            BuildOp::fused(CONV_2D, vec![0, 1, 2], vec![3], OptionsKind::Conv2d, ACT_NONE),
            BuildOp::fused(CONV_2D, vec![3, 1, 2], vec![4], OptionsKind::Conv2d, ACT_NONE),
            BuildOp::plain(ADD, vec![4, 3], vec![5]),
            BuildOp::plain(MUL, vec![5, 3], vec![6]),
            BuildOp::plain(SUB, vec![6, 5], vec![7]),
            BuildOp::fused(AVERAGE_POOL_2D, vec![7], vec![8], OptionsKind::Pool, ACT_NONE),
            BuildOp::plain(MUL, vec![8, 9], vec![10]),
            BuildOp::fused(AVERAGE_POOL_2D, vec![10], vec![11], OptionsKind::Pool, ACT_NONE),
        ],
        vec![0],
        vec![11],
    )
}

#[test]
fn groups_read_what_exists() {
    let model = mixed_model();
    let schedule = fuse(&model);
    let mut exists = vec![0u32, 1, 2, 9];
    let mut residuals = 0;
    let mut steps = 0;
    let mut folds = 0;
    for g in &schedule.groups {
        let mut reads = g.inputs.clone();
        reads.extend(g.residual_add.iter().map(|r| r.residual_tensor));
        reads.extend(g.elementwise_chain.iter().map(|s| s.operand_tensor));
        reads.extend(g.input_fold.iter().map(|f| f.operand_tensor));
        assert!(reads.iter().all(|t| *t == u32::MAX || exists.contains(t)), "{g:?}");
        exists.push(g.output_tensor);
        residuals += g.residual_add.iter().count();
        steps += g.elementwise_chain.len();
        folds += g.input_fold.iter().count();
    }
    assert_eq!((residuals, steps, folds), (1, 1, 1));
}

#[test]
fn only_a_factor_of_scale_one_folds_into_a_convolution() {
    let folds = |scale: f32| {
        let model = build(
            vec![
                BuildTensor::quantized(&[1, 4, 4, 8], "input", BuildQuant::tensor(1.0, 0)),
                BuildTensor::constant_quantized(
                    &[2, 1, 1, 8],
                    "weights",
                    vec![0u8; 16],
                    BuildQuant::tensor(0.5, 0),
                ),
                BuildTensor::constant(&[2], "bias", vec![0u8; 8]),
                BuildTensor::quantized(&[1, 4, 4, 2], "conv/out", BuildQuant::tensor(0.25, 0)),
                BuildTensor::constant_quantized(&[1], "ones", vec![1], BuildQuant::tensor(scale, 0)),
                BuildTensor::quantized(&[1, 4, 4, 2], "mul/out", BuildQuant::tensor(0.25, 0)),
            ],
            vec![
                BuildOp::fused(CONV_2D, vec![0, 1, 2], vec![3], OptionsKind::Conv2d, ACT_NONE),
                BuildOp::plain(MUL, vec![3, 4], vec![5]),
            ],
            vec![0],
            vec![5],
        );
        fuse(&model).groups[0].folded_requantize.is_some()
    };
    assert!(folds(1.0));
    assert!(folds(1.0 + 9.0e-7));
    for scale in [f32::NAN, -f32::NAN, 0.5, 1.0 + 1.1e-6, 1.0 - 1.1e-6, f32::INFINITY] {
        assert!(!folds(scale), "{scale}");
    }
}
