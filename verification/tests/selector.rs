//! Which kernel computes a group.

use hematite::fusion::{
    fuse, AbsorbedElementwise, FusedGroup, InputFold, ResidualAdd, StepRequantize,
};
use hematite::model::{
    ParsedModel, ParsedOp, ParsedOptions, ParsedTensor, PerChannelQuant, QuantInfo, TensorType, ADD,
    AVERAGE_POOL_2D, CONV_2D, FULLY_CONNECTED, MAX_POOL_2D, MUL, RELU, RESHAPE,
};
use hematite::op_params::ElementwiseKind;
use hematite::selector::{
    has_composed_candidate, input_staging_decision, select_kernel, ComposedKind, GroupSelection,
    Selection, SimdEst,
};

/// Quantization of a tensor in a hand-built model.
struct BuildQuant {
    scale: f32,
    zp: i64,
    per_channel: Option<(Vec<f32>, Vec<i64>, i32)>,
}

impl BuildQuant {
    fn tensor(scale: f32, zp: i64) -> Self {
        BuildQuant { scale, zp, per_channel: None }
    }

    fn info(self) -> QuantInfo {
        QuantInfo {
            scale: self.scale.to_bits(),
            zero_point: self.zp,
            per_channel: self.per_channel.map(|(scales, zero_points, quantized_dimension)| {
                PerChannelQuant {
                    scales: scales.iter().map(|s| s.to_bits()).collect(),
                    zero_points,
                    quantized_dimension,
                }
            }),
        }
    }
}

/// A tensor in a hand-built model.
struct BuildTensor {
    shape: Vec<i32>,
    name: &'static str,
    data: Vec<u8>,
    quant: Option<BuildQuant>,
}

impl BuildTensor {
    fn constant(shape: &[i32], name: &'static str, data: Vec<u8>) -> Self {
        BuildTensor { shape: shape.to_vec(), name, data, quant: None }
    }

    fn constant_quantized(
        shape: &[i32],
        name: &'static str,
        data: Vec<u8>,
        quant: BuildQuant,
    ) -> Self {
        BuildTensor { shape: shape.to_vec(), name, data, quant: Some(quant) }
    }

    fn quantized(shape: &[i32], name: &'static str, quant: BuildQuant) -> Self {
        BuildTensor { shape: shape.to_vec(), name, data: Vec::new(), quant: Some(quant) }
    }
}

/// A model of int8 tensors; a tensor without data shares the empty buffer.
fn build(
    tensors: Vec<BuildTensor>,
    ops: Vec<ParsedOp>,
    inputs: Vec<u32>,
    outputs: Vec<u32>,
) -> ParsedModel {
    let mut buffers: Vec<Vec<u8>> = vec![Vec::new()];
    let mut parsed = Vec::new();
    for t in tensors {
        let mut buffer_index = 0;
        if !t.data.is_empty() {
            buffer_index = buffers.len() as u32;
            buffers.push(t.data);
        }
        parsed.push(ParsedTensor {
            name: t.name.to_string(),
            shape: t.shape,
            tensor_type: TensorType::Int8,
            quant: t.quant.map(|q| q.info()),
            buffer_index,
        });
    }
    ParsedModel { subgraph_count: 1, tensors: parsed, ops, inputs, outputs, buffers }
}

fn op(code: i32, inputs: Vec<u32>, outputs: Vec<u32>, options: Option<ParsedOptions>) -> ParsedOp {
    ParsedOp {
        opcode_index: 0,
        builtin_code: code,
        inputs,
        outputs,
        options,
        custom_options: Vec::new(),
    }
}

fn conv_options(stride: i32) -> Option<ParsedOptions> {
    Some(ParsedOptions::Conv2D {
        padding: 0,
        stride_w: stride,
        stride_h: stride,
        dilation_w: 1,
        dilation_h: 1,
        fused_activation: 0,
    })
}

fn pool_options() -> Option<ParsedOptions> {
    Some(ParsedOptions::Pool2D {
        padding: 0,
        stride_w: 2,
        stride_h: 2,
        filter_w: 2,
        filter_h: 2,
        fused_activation: 0,
    })
}

/// One dense layer with one weight.
fn sine() -> ParsedModel {
    build(
        vec![
            BuildTensor::quantized(&[1], "input", BuildQuant::tensor(0.1, 0)),
            BuildTensor::constant_quantized(
                &[1, 1],
                "fc/weights",
                vec![51],
                BuildQuant::tensor(1.0 / 128.0, 0),
            ),
            BuildTensor::constant(&[1], "fc/bias", (-3i32).to_le_bytes().to_vec()),
            BuildTensor::quantized(&[1], "output", BuildQuant::tensor(0.1, 0)),
        ],
        vec![op(
            FULLY_CONNECTED,
            vec![0, 1, 2],
            vec![3],
            Some(ParsedOptions::FullyConnected {
                fused_activation: 0,
                weights_format: 0,
                keep_num_dims: false,
            }),
        )],
        vec![0],
        vec![3],
    )
}

/// A 96x96x3 image with the zero point -128, a 3x3 convolution, a 1x1
/// convolution and an average pool.
fn image() -> ParsedModel {
    build(
        vec![
            BuildTensor::quantized(&[1, 96, 96, 3], "input", BuildQuant::tensor(0.5, -128)),
            BuildTensor::constant_quantized(
                &[16, 3, 3, 3],
                "conv0/weights",
                vec![1; 16 * 27],
                BuildQuant::tensor(0.25, 0),
            ),
            BuildTensor::constant(&[16], "conv0/bias", vec![0; 64]),
            BuildTensor::quantized(&[1, 48, 48, 16], "conv0/out", BuildQuant::tensor(0.5, -128)),
            BuildTensor::constant_quantized(
                &[16, 1, 1, 16],
                "conv1/weights",
                vec![1; 256],
                BuildQuant::tensor(0.25, 0),
            ),
            BuildTensor::constant(&[16], "conv1/bias", vec![0; 64]),
            BuildTensor::quantized(&[1, 48, 48, 16], "conv1/out", BuildQuant::tensor(0.5, -128)),
            BuildTensor::quantized(&[1, 24, 24, 16], "pool/out", BuildQuant::tensor(0.5, -128)),
        ],
        vec![
            op(CONV_2D, vec![0, 1, 2], vec![3], conv_options(2)),
            op(CONV_2D, vec![3, 4, 5], vec![6], conv_options(1)),
            op(AVERAGE_POOL_2D, vec![6], vec![7], pool_options()),
        ],
        vec![0],
        vec![7],
    )
}

/// A product with a ReLU, then a max pool: a fold that changes rounding.
fn folded_pool() -> ParsedModel {
    build(
        vec![
            BuildTensor::quantized(&[1, 8, 4, 16], "x", BuildQuant::tensor(1.0, 0)),
            BuildTensor::constant_quantized(
                &[1, 8, 4, 16],
                "factor",
                vec![1; 512],
                BuildQuant::tensor(0.5, 0),
            ),
            BuildTensor::quantized(&[1, 8, 4, 16], "mul/out", BuildQuant::tensor(0.5, 0)),
            BuildTensor::quantized(&[1, 4, 2, 16], "pool/out", BuildQuant::tensor(0.5, 0)),
        ],
        vec![
            op(MUL, vec![0, 1], vec![2], Some(ParsedOptions::Mul { fused_activation: 1 })),
            op(MAX_POOL_2D, vec![2], vec![3], pool_options()),
        ],
        vec![0],
        vec![3],
    )
}

fn group(model: &ParsedModel, k: usize) -> FusedGroup {
    fuse(model).groups.swap_remove(k)
}

fn zero_requantize() -> StepRequantize {
    StepRequantize {
        left_shift: 0,
        input1_multiplier: 0,
        input1_shift: 0,
        input2_multiplier: 0,
        input2_shift: 0,
        output_multiplier: 0,
        output_shift: 0,
        input1_offset: 0,
        input2_offset: 0,
        output_offset: 0,
    }
}

fn dummy_residual_add() -> ResidualAdd {
    ResidualAdd {
        op_index: 0,
        residual_tensor: 0,
        output_scale: 1.0f32.to_bits(),
        output_zero_point: 0,
        requantize: zero_requantize(),
    }
}

fn dummy_chain_step() -> AbsorbedElementwise {
    AbsorbedElementwise {
        op_index: 0,
        kind: ElementwiseKind::Add,
        operand_tensor: 0,
        output_scale: 1.0f32.to_bits(),
        output_zero_point: 0,
        requantize: zero_requantize(),
    }
}

fn dummy_input_fold(builtin: i32) -> InputFold {
    InputFold {
        op_index: 0,
        builtin,
        folded_input_tensor: 0,
        operand_tensor: 0,
        folded_scale: 1.0f32.to_bits(),
        input_zero_point: 0,
    }
}

#[test]
fn priority_order_picks_conv_family_over_chain_and_fold() {
    let model = image();
    let mut group = group(&model, 1);
    assert_eq!(group.anchor_builtin, 3, "a CONV_2D anchor");
    group.residual_add = Some(dummy_residual_add());
    group.elementwise_chain = vec![dummy_chain_step()];
    group.input_fold = Some(dummy_input_fold(18));

    let sel = select_kernel(&model, &group);
    assert_eq!(
        sel.kernel,
        GroupSelection::Composed(ComposedKind::Conv),
        "conv-family must win over chain/fold: {sel:?}"
    );
    assert_eq!(sel.simd, SimdEst::Simd, "composed tiers are Simd by construction");
}

#[test]
fn t2_group_resolves_per_op() {
    let model = sine();
    let mut group = group(&model, 0);
    group.residual_add = Some(dummy_residual_add());
    group.requires_verification = true;

    let sel = select_kernel(&model, &group);
    assert_eq!(sel.kernel, GroupSelection::PerOp, "T2 group must stay per-op");
    assert!(sel.reason.contains("T2"), "reason must name the T2 tier: {}", sel.reason);
    assert!(sel.reason.contains("W5"), "reason must point at W5: {}", sel.reason);
}

#[test]
fn ineligible_conv_candidate_falls_to_per_op() {
    let model = sine();
    let mut group = group(&model, 0);
    group.anchor_builtin = 3; // CONV_2D
    group.residual_add = Some(dummy_residual_add());

    let sel = select_kernel(&model, &group);
    assert_eq!(sel.kernel, GroupSelection::PerOp, "ineligible conv must not compose");
    assert_eq!(sel.simd, SimdEst::Scalar);
    assert!(sel.reason.contains("mirror-ineligible"), "reason: {}", sel.reason);
}

#[test]
fn eligible_pool_with_inexact_fold_falls_to_per_op() {
    let model = image();
    let mut group = group(&model, 2);
    assert_eq!(group.anchor_builtin, 1, "an average-pool anchor");
    group.input_fold = Some(dummy_input_fold(18)); // MUL fold

    let sel = select_kernel(&model, &group);
    assert_eq!(sel.kernel, GroupSelection::PerOp, "inexact fold must not compose");
    assert!(sel.reason.contains("fold_simd_exact"), "reason: {}", sel.reason);
}

#[test]
fn eligible_ordinary_group_stays_per_op_with_recorded_estimate() {
    let model = image();
    let group = group(&model, 2);
    assert_eq!(group.anchor_builtin, 1, "an average-pool anchor");
    assert!(group.input_fold.is_none(), "no folds");

    let sel = select_kernel(&model, &group);
    assert_eq!(sel.kernel, GroupSelection::PerOp, "no composed pattern → per-op");
    assert_eq!(sel.simd, SimdEst::Simd, "the pool itself is SIMD-eligible");
    assert!(sel.reason.contains("simd_eligible_pool"), "reason: {}", sel.reason);
}

#[test]
fn staging_decision_matches_first_kernel_eligibility() {
    let model = sine();
    let d = input_staging_decision(&model, &group(&model, 0));
    assert!(d.stage, "sine first FC is SIMD-eligible: {d:?}");
    assert_eq!(d.bytes, 1, "sine input region is 1 byte");
    assert_eq!(d.first_anchor, 0);
    assert!(d.reason.contains("16B-aligned"), "reason: {}", d.reason);
    assert!(d.reason.contains("copy ≈ 1 B ≈ 1 cycles"), "reason: {}", d.reason);

    let model = image();
    let d = input_staging_decision(&model, &group(&model, 0));
    assert!(!d.stage, "the first conv3x3 is scalar: {d:?}");
    assert_eq!(d.bytes, 96 * 96 * 3, "the input region is 96x96x3");
    assert!(d.reason.contains("does not benefit"), "reason: {}", d.reason);
}

/// The group as it is selected once its results are known to be equal.
fn forced_selection(model: &ParsedModel, mut group: FusedGroup) -> Selection {
    group.requires_verification = false;
    select_kernel(model, &group)
}

#[test]
fn fixture_t2_group_structure_pin() {
    let model = folded_pool();
    let schedule = fuse(&model);
    assert_eq!(schedule.groups.len(), 1, "exactly ONE group");
    let group = &schedule.groups[0];

    assert_eq!(group.anchor_builtin, 17, "anchor is MAX_POOL_2D");
    assert_eq!(group.absorbed_ops, vec![0], "absorbs the MUL");
    assert_eq!(group.eliminated_tensors, vec![2], "eliminates MUL output");
    assert!(group.requires_verification, "input-fold groups are T2");

    let fold = group.input_fold.as_ref().expect("the group carries the input fold");
    assert_eq!(fold.builtin, 18, "fold is MUL");
    assert!((f32::from_bits(fold.folded_scale) - 0.5).abs() < 1e-6, "folded_scale = 0.5");

    let default_sel = select_kernel(&model, group);
    assert_eq!(default_sel.kernel, GroupSelection::PerOp, "per-op by default");
    assert!(default_sel.reason.contains("T2 group"), "reason: {}", default_sel.reason);

    let forced_sel = forced_selection(&model, fuse(&model).groups.swap_remove(0));
    assert_eq!(
        forced_sel.kernel,
        GroupSelection::Composed(ComposedKind::PoolFold),
        "forced view must select fused_pool_with_fold"
    );
    assert_eq!(forced_sel.simd, SimdEst::Simd, "the composed path is SIMD-eligible");

    let mul_op = &model.ops[0];
    assert_eq!(mul_op.builtin_code, 18);
    match &mul_op.options {
        Some(ParsedOptions::Mul { fused_activation }) => {
            assert_eq!(*fused_activation, 1, "the MUL must carry fused RELU");
        }
        other => panic!("expected Mul options, got {other:?}"),
    }
}

#[test]
fn a_chain_with_identity_quantization_is_composed() {
    // The sum of two tensors of scale one is not the identity pair, so the chain stays per-op;
    // a chain of a product of scale one and a ReLU is.
    let model = build(
        vec![
            BuildTensor::quantized(&[1, 4, 4, 16], "a", BuildQuant::tensor(1.0, 0)),
            BuildTensor::constant_quantized(
                &[1, 4, 4, 16],
                "b",
                vec![1; 256],
                BuildQuant::tensor(1.0, 0),
            ),
            BuildTensor::quantized(&[1, 4, 4, 16], "mul/out", BuildQuant::tensor(1.0, 0)),
            BuildTensor::quantized(&[1, 4, 4, 16], "relu/out", BuildQuant::tensor(1.0, 0)),
        ],
        vec![op(MUL, vec![0, 1], vec![2], None), op(RELU, vec![2], vec![3], None)],
        vec![0],
        vec![3],
    );
    let schedule = fuse(&model);
    assert_eq!(schedule.groups.len(), 1);
    assert!(has_composed_candidate(&schedule.groups[0]));
    let sel = select_kernel(&model, &schedule.groups[0]);
    assert_eq!(sel.kernel, GroupSelection::Composed(ComposedKind::Chain), "{sel:?}");
    assert_eq!(sel.simd, SimdEst::Simd);
    assert_eq!(sel.simd.label(), "SIMD");

    let model = build(
        vec![
            BuildTensor::quantized(&[1, 4], "a", BuildQuant::tensor(1.0, 0)),
            BuildTensor::quantized(&[1, 4], "b", BuildQuant::tensor(1.0, 0)),
            BuildTensor::quantized(&[1, 4], "add/out", BuildQuant::tensor(1.0, 0)),
            BuildTensor::quantized(&[1, 4], "relu/out", BuildQuant::tensor(1.0, 0)),
        ],
        vec![op(ADD, vec![0, 1], vec![2], None), op(RELU, vec![2], vec![3], None)],
        vec![0, 1],
        vec![3],
    );
    let schedule = fuse(&model);
    let sel = select_kernel(&model, &schedule.groups[0]);
    assert_eq!(sel.kernel, GroupSelection::PerOp);
    assert_eq!(sel.simd, SimdEst::Scalar);
    assert!(sel.reason.contains("chain composed mirror-ineligible"), "{}", sel.reason);
}

#[test]
fn data_movement_has_no_vector_kernel() {
    let model = build(
        vec![
            BuildTensor::quantized(&[1, 4], "a", BuildQuant::tensor(1.0, 0)),
            BuildTensor::quantized(&[4, 1], "b", BuildQuant::tensor(1.0, 0)),
        ],
        vec![op(RESHAPE, vec![0], vec![1], None)],
        vec![0],
        vec![1],
    );
    let sel = select_kernel(&model, &group(&model, 0));
    assert_eq!(sel.kernel, GroupSelection::PerOp);
    assert!(sel.reason.contains("no composed SIMD kernel"), "{}", sel.reason);
}
