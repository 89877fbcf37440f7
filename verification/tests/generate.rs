//! Emitted programs of hand-built graphs.

use hematite::arena::ArenaPlan;
use hematite::emit_error::{EmitError, OperandName, OperatorName, OptionsName};
use hematite::generate::{emit_fully_connected, ActivationMethod, ElementwiseMethod};
use hematite::int8::quantize_multiplier;
use hematite::model::{
    ParsedModel, ParsedOp, ParsedOptions, ParsedTensor, PerChannelQuant, QuantInfo, TensorType, ADD,
    AVERAGE_POOL_2D, CONV_2D, DEPTHWISE_CONV_2D, FULLY_CONNECTED, HARD_SWISH, LEAKY_RELU,
    MAX_POOL_2D, MEAN, MUL, NO_TENSOR, PAD, PRELU, RELU, RELU6, RESHAPE, RESIZE_NEAREST_NEIGHBOR,
    SOFTMAX, SUB, TRANSPOSE,
};
use hematite::op_params::{FusedActivation, Padding, PoolKind};
use hematite::operands::{fused_activation_enum, Source, Storage, Target};
use hematite::program::{
    arena_request, check_fits, emit_model, Intermediate, ModelEmission, OpEmission,
};

/// Quantization of a tensor in a hand-built model.
struct BuildQuant {
    scale: f32,
    zp: i64,
    per_channel: Option<(Vec<f32>, Vec<i64>, i32)>,
}

impl BuildQuant {
    fn tensor(scale: f32, zp: i64) -> Self {
        BuildQuant { scale, zp, per_channel: None }
    }

    fn channel(scales: Vec<f32>, zps: Vec<i64>, dim: i32) -> Self {
        BuildQuant { scale: scales[0], zp: zps[0], per_channel: Some((scales, zps, dim)) }
    }

    fn info(self) -> QuantInfo {
        QuantInfo {
            scale: self.scale.to_bits(),
            zero_point: self.zp,
            per_channel: self.per_channel.map(|(scales, zero_points, quantized_dimension)| {
                PerChannelQuant {
                    scales: scales.iter().map(|s| s.to_bits()).collect(),
                    zero_points,
                    quantized_dimension,
                }
            }),
        }
    }
}

/// A tensor in a hand-built model.
struct BuildTensor {
    shape: Vec<i32>,
    name: &'static str,
    data: Vec<u8>,
    quant: Option<BuildQuant>,
}

impl BuildTensor {
    fn constant(shape: &[i32], name: &'static str, data: Vec<u8>) -> Self {
        BuildTensor { shape: shape.to_vec(), name, data, quant: None }
    }

    fn constant_quantized(
        shape: &[i32],
        name: &'static str,
        data: Vec<u8>,
        quant: BuildQuant,
    ) -> Self {
        BuildTensor { shape: shape.to_vec(), name, data, quant: Some(quant) }
    }

    fn quantized(shape: &[i32], name: &'static str, quant: BuildQuant) -> Self {
        BuildTensor { shape: shape.to_vec(), name, data: Vec::new(), quant: Some(quant) }
    }
}

/// A model of int8 tensors; a tensor without data shares the empty buffer.
fn build(
    tensors: Vec<BuildTensor>,
    ops: Vec<ParsedOp>,
    inputs: Vec<u32>,
    outputs: Vec<u32>,
) -> ParsedModel {
    let mut buffers: Vec<Vec<u8>> = vec![Vec::new()];
    let mut parsed = Vec::new();
    for t in tensors {
        let mut buffer_index = 0;
        if !t.data.is_empty() {
            buffer_index = buffers.len() as u32;
            buffers.push(t.data);
        }
        parsed.push(ParsedTensor {
            name: t.name.to_string(),
            shape: t.shape,
            tensor_type: TensorType::Int8,
            quant: t.quant.map(|q| q.info()),
            buffer_index,
        });
    }
    ParsedModel { subgraph_count: 1, tensors: parsed, ops, inputs, outputs, buffers }
}

fn op(code: i32, inputs: Vec<u32>, outputs: Vec<u32>, options: Option<ParsedOptions>) -> ParsedOp {
    ParsedOp {
        opcode_index: 0,
        builtin_code: code,
        inputs,
        outputs,
        options,
        custom_options: Vec::new(),
    }
}

fn qm(x: f64) -> (i32, i32) {
    quantize_multiplier(x.to_bits())
}

fn emit(model: &ParsedModel) -> Result<ModelEmission, EmitError> {
    emit_model(model, None)
}

fn words(list: &[i32]) -> Vec<u8> {
    list.iter().flat_map(|w| w.to_le_bytes()).collect()
}

/// One dense layer with one weight.
fn sine() -> ParsedModel {
    build(
        vec![
            BuildTensor::quantized(&[1], "input", BuildQuant::tensor(0.1, 0)),
            BuildTensor::constant_quantized(
                &[1, 1],
                "fc/weights",
                vec![51],
                BuildQuant::tensor(1.0 / 128.0, 0),
            ),
            BuildTensor::constant(&[1], "fc/bias", words(&[-3])),
            BuildTensor::quantized(&[1], "output", BuildQuant::tensor(0.1, 0)),
        ],
        vec![op(FULLY_CONNECTED, vec![0, 1, 2], vec![3], dense_options(0, false))],
        vec![0],
        vec![3],
    )
}

fn dense_options(fused_activation: i8, keep_num_dims: bool) -> Option<ParsedOptions> {
    Some(ParsedOptions::FullyConnected { fused_activation, weights_format: 0, keep_num_dims })
}

fn conv_options(padding: i8, fused_activation: i8) -> Option<ParsedOptions> {
    Some(ParsedOptions::Conv2D {
        padding,
        stride_w: 2,
        stride_h: 3,
        dilation_w: 1,
        dilation_h: 4,
        fused_activation,
    })
}

/// Two int8 tensors of one element and one operator without options.
fn minimal(code: i32) -> ParsedModel {
    build(
        vec![
            BuildTensor::quantized(&[1], "", BuildQuant::tensor(1.0, 0)),
            BuildTensor::quantized(&[1], "", BuildQuant::tensor(1.0, 0)),
        ],
        vec![op(code, vec![0], vec![1], None)],
        vec![0],
        vec![1],
    )
}

/// One operator from tensor 0 to tensor 1, with constants behind them.
fn single(
    input: BuildTensor,
    output: BuildTensor,
    constants: Vec<BuildTensor>,
    code: i32,
    options: Option<ParsedOptions>,
) -> ParsedModel {
    let mut inputs = vec![0];
    inputs.extend(2..2 + constants.len() as u32);
    let mut tensors = vec![input, output];
    tensors.extend(constants);
    build(tensors, vec![op(code, inputs, vec![1], options)], vec![0], vec![1])
}

fn quantized(shape: &[i32], scale: f32, zp: i64) -> BuildTensor {
    BuildTensor::quantized(shape, "t", BuildQuant::tensor(scale, zp))
}

const WHOLE: fn(usize) -> (Source, Target) =
    |n| (Source::Input { start: 0, len: n }, Target::Output { start: 0, len: n });

#[test]
fn sine_model_emits_fc_call_sequence() {
    let program = emit(&sine()).expect("sine emits");

    // I/O sized from tensor shapes (input [1], output [1]).
    assert_eq!(program.input_len, 1);
    assert_eq!(program.output_len, 1);

    // No kernel needs scratch, and nothing is intermediate.
    assert_eq!(program.scratch_len, 0);
    assert_eq!(program.arena_len, 0);
    assert!(program.tensors.is_empty());

    assert_eq!(program.ops.len(), 1);
    match &program.ops[0] {
        OpEmission::FullyConnected(fc) => {
            assert_eq!(fc.weights, vec![51], "weight const wrong");
            assert_eq!(fc.bias, vec![-3], "bias const wrong");
            let params = fc.params();
            assert_eq!(params.input_dim, 1);
            assert_eq!(params.output_dim, 1);
            // 0.1 * 0.0078125 / 0.1 = 1/128 is the pair (2^30, -6).
            assert_eq!(params.output_multiplier_per_channel, &[1073741824]);
            assert_eq!(params.output_shift_per_channel, &[-6]);
            assert_eq!(fc.source, Source::Input { start: 0, len: 1 });
            assert_eq!(fc.target, Target::Output { start: 0, len: 1 });
        }
        other => panic!("expected a dense layer, got {other:?}"),
    }
}

#[test]
fn unsupported_op_reports_t5_gate() {
    let model = minimal(200);
    let err = emit(&model).expect_err("unsupported op must error").message(&model);
    assert!(err.contains("builtin_code=200"), "error must name the op: {err}");
    assert!(err.contains("T5"), "error must point at the T5 gate: {err}");
    assert!(
        err.ends_with("(see local-notes/plans/hematite-nn.md, T5: extended op support)"),
        "{err}"
    );
}

#[test]
fn malformed_op_input_errors_not_panics() {
    let model = minimal(9);
    let err = emit(&model).expect_err("malformed FC must error").message(&model);
    assert!(err.contains("op 0"), "expected per-op error: {err}");
    assert_eq!(err, "op 0: expected FullyConnected options");
}

#[test]
fn standalone_relu_emits_activation_params() {
    let program = emit(&minimal(19)).expect("relu emits");
    match &program.ops[0] {
        OpEmission::Activation(a) => {
            assert_eq!(a.method, ActivationMethod::Relu);
            let params = a.params();
            assert_eq!(params.quantized_activation_min, 0, "relu clamps at output zp");
            assert_eq!(params.quantized_activation_max, 127);
            assert_eq!((params.output_multiplier, params.output_shift), (1 << 30, 1));
            assert!(params.alpha_data.is_empty());
        }
        other => panic!("expected an activation, got {other:?}"),
    }
}

#[test]
fn a_convolution_is_emitted_with_all_its_parameters() {
    let model = build(
        vec![
            BuildTensor::quantized(&[1, 6, 4, 2], "x", BuildQuant::tensor(0.5, 3)),
            BuildTensor::constant_quantized(
                &[2, 1, 2, 2],
                "w",
                vec![1, 2, 3, 4, 255, 128, 127, 0],
                BuildQuant::channel(vec![0.25, 0.1], vec![0, 0], 0),
            ),
            BuildTensor::constant(&[2], "b", words(&[7, -8])),
            BuildTensor::quantized(&[2, 2, 2], "y", BuildQuant::tensor(0.2, -4)),
        ],
        vec![op(CONV_2D, vec![0, 1, 2], vec![3], conv_options(1, 3))],
        vec![0],
        vec![3],
    );
    let program = emit(&model).unwrap();
    let OpEmission::Conv2D(conv) = &program.ops[0] else { panic!("{:?}", program.ops[0]) };
    assert_eq!(conv.weights, vec![1, 2, 3, 4, -1, -128, 127, 0]);
    assert_eq!(conv.bias, vec![7, -8]);
    let p = conv.params();
    assert_eq!(p.input_shape, [1, 6, 4, 2]);
    assert_eq!(p.filter_shape, [2, 1, 2, 2]);
    assert_eq!(p.output_shape, [1, 2, 2, 2]);
    assert_eq!(p.padding, Padding::Valid);
    assert_eq!((p.stride_width, p.stride_height), (2, 3));
    assert_eq!((p.dilation_width_factor, p.dilation_height_factor), (1, 4));
    assert_eq!((p.input_offset, p.weights_offset, p.output_offset), (-3, 0, -4));
    let f = f64::from;
    let first = qm(f(0.5f32) * f(0.25f32) / f(0.2f32));
    let second = qm(f(0.5f32) * f(0.1f32) / f(0.2f32));
    assert_eq!(p.output_multiplier_per_channel, &[first.0, second.0]);
    assert_eq!(p.output_shift_per_channel, &[first.1, second.1]);
    // Six is thirty steps of 0.2 above the zero point.
    assert_eq!((p.quantized_activation_min, p.quantized_activation_max), (-4, 26));
}

#[test]
fn a_depthwise_convolution_counts_its_channels_last() {
    let model = build(
        vec![
            BuildTensor::quantized(&[1, 2, 2, 2], "x", BuildQuant::tensor(1.0, 0)),
            BuildTensor::constant_quantized(
                &[1, 1, 1, 4],
                "w",
                vec![1, 2, 3, 4],
                BuildQuant::tensor(0.5, 0),
            ),
            BuildTensor::quantized(&[1, 2, 2, 4], "y", BuildQuant::tensor(0.5, 0)),
        ],
        vec![op(
            DEPTHWISE_CONV_2D,
            vec![0, 1],
            vec![2],
            Some(ParsedOptions::DepthwiseConv2D {
                padding: 0,
                stride_w: 1,
                stride_h: 1,
                depth_multiplier: 2,
                dilation_w: 1,
                dilation_h: 1,
                fused_activation: 1,
            }),
        )],
        vec![0],
        vec![2],
    );
    let program = emit(&model).unwrap();
    let OpEmission::DepthwiseConv2D(e) = &program.ops[0] else { panic!("{:?}", program.ops[0]) };
    let p = e.params();
    assert_eq!(p.depth_multiplier, 2);
    assert_eq!(p.padding, Padding::Same);
    assert_eq!(e.conv.bias, vec![0, 0, 0, 0], "no bias is a bias of zeros");
    // One scale for all channels: 1 * 0.5 / 0.5.
    assert_eq!(p.output_multiplier_per_channel, &[1 << 30; 4]);
    assert_eq!(p.output_shift_per_channel, &[1; 4]);
    assert_eq!((p.quantized_activation_min, p.quantized_activation_max), (0, 127));
}

#[test]
fn a_dense_layer_flattens_its_input_or_keeps_its_dimensions() {
    for (keep, shape, weights, out, dims) in [
        (false, vec![2, 3, 2], vec![4, 6], vec![2, 4], (6, 4)),
        (true, vec![2, 3, 2], vec![4, 2], vec![2, 3, 4], (2, 4)),
        (false, vec![5], vec![3, 5], vec![3], (5, 3)),
    ] {
        let count: i32 = weights.iter().product();
        let model = single(
            quantized(&shape, 1.0, 0),
            quantized(&out, 1.0, 0),
            vec![BuildTensor::constant_quantized(
                &weights,
                "w",
                vec![1; count as usize],
                BuildQuant::tensor(1.0, 0),
            )],
            FULLY_CONNECTED,
            dense_options(0, keep),
        );
        let program = emit(&model).unwrap();
        let OpEmission::FullyConnected(e) = &program.ops[0] else { panic!() };
        assert_eq!((e.input_dim, e.output_dim), dims);
        assert_eq!(e.bias.len(), dims.1 as usize);
    }
}

#[test]
fn dense_layers_report_what_does_not_divide() {
    let dense = |input: &[i32], output: &[i32], keep: bool| {
        let model = single(
            quantized(input, 1.0, 0),
            quantized(output, 1.0, 0),
            vec![BuildTensor::constant_quantized(&[1], "w", vec![1], BuildQuant::tensor(1.0, 0))],
            FULLY_CONNECTED,
            dense_options(0, keep),
        );
        emit(&model).unwrap_err()
    };
    assert_eq!(dense(&[2, 3], &[3], false), EmitError::BatchSize { batches: 2, length: 3 });
    assert_eq!(dense(&[], &[3], true), EmitError::EmptyShape);
}

#[test]
fn pools_keep_their_windows_and_activations() {
    for (code, kind) in [(AVERAGE_POOL_2D, PoolKind::Average), (MAX_POOL_2D, PoolKind::Max)] {
        let model = single(
            quantized(&[1, 4, 4, 2], 1.0, 0),
            quantized(&[1, 2, 2, 2], 0.5, 2),
            vec![],
            code,
            Some(ParsedOptions::Pool2D {
                padding: 1,
                stride_w: 1,
                stride_h: 2,
                filter_w: 3,
                filter_h: 2,
                fused_activation: 2,
            }),
        );
        let program = emit(&model).unwrap();
        let OpEmission::Pool(e) = &program.ops[0] else { panic!() };
        assert_eq!(e.kind, kind);
        // A clamp to one counts as no activation, and the range is that of a byte.
        assert_eq!(e.params.activation, FusedActivation::Identity);
        assert_eq!((e.params.filter_width, e.params.filter_height), (3, 2));
        assert_eq!((e.params.stride_width, e.params.stride_height), (1, 2));
        assert_eq!(
            (e.params.quantized_activation_min, e.params.quantized_activation_max),
            (-128, 127)
        );
    }
}

#[test]
fn a_softmax_scales_its_logits() {
    let with_beta = |beta: Option<f32>| {
        single(
            quantized(&[2, 3], 0.25, -5),
            quantized(&[2, 3], 1.0 / 256.0, -128),
            vec![],
            SOFTMAX,
            beta.map(|b| ParsedOptions::Softmax { beta: b.to_bits() }),
        )
    };
    for beta in [None, Some(1.0), Some(1.0 + 9.0e-7), Some(1.0 - 9.0e-7)] {
        let program = emit(&with_beta(beta)).unwrap();
        let OpEmission::Softmax(e) = &program.ops[0] else { panic!() };
        let p = &e.params;
        let (m, s) = qm(0.25);
        assert_eq!((p.num_rows, p.row_size), (2, 3));
        assert_eq!((p.input_multiplier, p.input_left_shift), (m, 25 + s));
        assert_eq!((p.diff_min, p.input_offset, p.output_offset), (-128, -5, -128));
        assert_eq!((p.quantized_activation_min, p.quantized_activation_max), (-128, 127));
    }
    for beta in [0.5, 1.0 + 1.1e-6, 1.0 - 1.1e-6, f32::NAN] {
        let model = with_beta(Some(beta));
        let err = emit(&model).unwrap_err();
        assert_eq!(err, EmitError::SoftmaxOptions { op: 0 });
        assert_eq!(
            err.message(&model),
            "op 0: softmax beta != 1.0 is not supported (T4.1 dispatch scope)"
        );
    }
}

#[test]
fn beta_is_one_exactly_where_it_is_within_a_millionth() {
    for bits in 0x3f7f_ffd0u32..0x3f80_0030 {
        let beta = f32::from_bits(bits);
        let model = single(
            quantized(&[1, 2], 1.0, 0),
            quantized(&[1, 2], 1.0, 0),
            vec![],
            SOFTMAX,
            Some(ParsedOptions::Softmax { beta: bits }),
        );
        assert_eq!(emit(&model).is_ok(), (beta - 1.0).abs() < 1e-6, "{beta:e}");
    }
}

#[test]
fn activations_requantize() {
    for (code, method, range) in [
        (RELU, ActivationMethod::Relu, (-10, 127)),
        (RELU6, ActivationMethod::Relu6, (-10, 14)),
        (HARD_SWISH, ActivationMethod::HardSwish, (-128, 127)),
    ] {
        let model =
            single(quantized(&[4], 0.5, 1), quantized(&[2, 2], 0.25, -10), vec![], code, None);
        let program = emit(&model).unwrap();
        let OpEmission::Activation(e) = &program.ops[0] else { panic!() };
        assert_eq!(e.method, method);
        let p = e.params();
        assert_eq!((p.input_offset, p.output_offset), (1, -10));
        assert_eq!((p.output_multiplier, p.output_shift), qm(2.0));
        assert_eq!((p.quantized_activation_min, p.quantized_activation_max), range);
    }
    let model = single(quantized(&[4], 0.5, 1), quantized(&[3], 0.25, 0), vec![], RELU, None);
    assert_eq!(emit(&model).unwrap_err(), EmitError::ActivationCount { op: 0 });
}

#[test]
fn leaky_and_parametric_slopes_have_pairs_of_their_own() {
    let model = single(
        quantized(&[4], 0.5, 1),
        quantized(&[4], 0.25, 2),
        vec![],
        LEAKY_RELU,
        Some(ParsedOptions::LeakyRelu { alpha: 0.3f32.to_bits() }),
    );
    let program = emit(&model).unwrap();
    let OpEmission::Activation(e) = &program.ops[0] else { panic!() };
    assert_eq!(e.method, ActivationMethod::LeakyRelu);
    let p = e.params();
    assert_eq!((p.output_multiplier_identity, p.output_shift_identity), qm(2.0));
    assert_eq!(
        (p.output_multiplier_alpha, p.output_shift_alpha),
        qm(0.5 * f64::from(0.3f32) / 0.25)
    );
    assert_eq!((p.output_multiplier, p.output_multiplier_1, p.output_multiplier_2), (0, 0, 0));

    let model = single(
        quantized(&[4], 0.5, 1),
        quantized(&[4], 0.25, 2),
        vec![BuildTensor::constant_quantized(
            &[2],
            "alpha",
            vec![200, 7],
            BuildQuant::tensor(0.125, 6),
        )],
        PRELU,
        None,
    );
    let program = emit(&model).unwrap();
    let OpEmission::Activation(e) = &program.ops[0] else { panic!() };
    assert_eq!(e.method, ActivationMethod::Prelu);
    let p = e.params();
    assert_eq!((p.output_multiplier_1, p.output_shift_1), qm(2.0));
    assert_eq!((p.output_multiplier_2, p.output_shift_2), qm(0.25));
    assert_eq!(p.alpha_offset, 6);
    assert_eq!(p.alpha_data, &[-56, 7]);
}

#[test]
fn sums_and_products_are_scaled_differently() {
    for (code, method) in [
        (ADD, ElementwiseMethod::Add),
        (SUB, ElementwiseMethod::Sub),
        (MUL, ElementwiseMethod::Mul),
    ] {
        let model = build(
            vec![
                quantized(&[2, 2], 0.5, 3),
                quantized(&[4], 0.25, -2),
                quantized(&[4, 1], 0.75, 1),
            ],
            vec![op(
                code,
                vec![0, 1],
                vec![2],
                Some(ParsedOptions::Add { fused_activation: 1, pot_scale_int16: false }),
            )],
            vec![0, 1],
            vec![2],
        );
        let program = emit(&model).unwrap();
        assert_eq!((program.input_len, program.output_len), (8, 4));
        let OpEmission::Elementwise(e) = &program.ops[0] else { panic!() };
        assert_eq!(e.method, method);
        assert_eq!(e.source1, Source::Input { start: 0, len: 4 });
        assert_eq!(e.source2, Source::Input { start: 4, len: 4 });
        let p = &e.params;
        assert_eq!(p.num_elements, 4);
        assert_eq!((p.input1_offset, p.input2_offset, p.output_offset), (-3, 2, 1));
        assert_eq!((p.quantized_activation_min, p.quantized_activation_max), (1, 127));
        if method == ElementwiseMethod::Mul {
            assert_eq!((p.output_multiplier, p.output_shift), qm(0.5 * 0.25 / 0.75));
            assert_eq!((p.left_shift, p.input1_multiplier, p.input2_multiplier), (0, 0, 0));
        } else {
            assert_eq!(p.left_shift, 20);
            assert_eq!((p.input1_multiplier, p.input1_shift), qm(0.5));
            assert_eq!((p.input2_multiplier, p.input2_shift), qm(0.25));
            assert_eq!(
                (p.output_multiplier, p.output_shift),
                qm(1.0 / (f64::from(1 << 20) * 0.75))
            );
        }
    }
}

#[test]
fn a_mean_keeps_its_axes() {
    let mean = |axis: Vec<i32>| {
        single(
            quantized(&[1, 4, 4, 2], 0.5, 3),
            quantized(&[1, 2], 0.25, -1),
            vec![],
            MEAN,
            Some(ParsedOptions::Mean { axis, keep_dims: true }),
        )
    };
    let program = emit(&mean(vec![1, -2])).unwrap();
    let OpEmission::Mean(e) = &program.ops[0] else { panic!() };
    let p = &e.params;
    assert_eq!((p.axis, p.axis_count), ([1, -2, 0, 0], 2));
    assert_eq!((p.input_offset, p.output_offset), (-3, -1));
    assert_eq!((p.output_multiplier, p.output_shift), qm(2.0));
    assert_eq!(p.output_shape, [1, 1, 1, 2]);
    assert!(p.keep_dims);
    assert_eq!(p.output_type, 0);

    assert_eq!(emit(&mean(vec![])).unwrap_err(), EmitError::AxisCount { op: 0, count: 0 });
    assert_eq!(
        emit(&mean(vec![0, 1, 2, 3, 4])).unwrap_err(),
        EmitError::AxisCount { op: 0, count: 5 }
    );
    let model = mean(vec![1, 40_000]);
    let err = emit(&model).unwrap_err();
    assert_eq!(err, EmitError::Axis { op: 0, axis: 40_000 });
    assert_eq!(err.message(&model), "op 0: mean axis 40000 out of i16 range");
}

#[test]
fn a_reshape_takes_its_target_or_the_shape_of_its_output() {
    for (new_shape, want, count) in [
        (Some(vec![4, 2]), [4, 2, 0, 0], 2),
        (Some(vec![-1, 2]), [2, 2, 2, 0], 3),
        (Some(vec![]), [2, 2, 2, 0], 3),
        (None, [2, 2, 2, 0], 3),
    ] {
        let model = single(
            quantized(&[8], 1.0, 0),
            quantized(&[2, 2, 2], 1.0, 0),
            vec![],
            RESHAPE,
            new_shape.map(|new_shape| ParsedOptions::Reshape { new_shape }),
        );
        let program = emit(&model).unwrap();
        let OpEmission::Reshape(e) = &program.ops[0] else { panic!() };
        assert_eq!((e.params.shape, e.params.shape_count), (want, count));
        assert_eq!((e.source, e.target), WHOLE(8));
    }
    let model = single(
        quantized(&[1], 1.0, 0),
        quantized(&[1], 1.0, 0),
        vec![],
        RESHAPE,
        Some(ParsedOptions::Reshape { new_shape: vec![1, 1, 1, 1, 1] }),
    );
    assert_eq!(emit(&model).unwrap_err(), EmitError::ReshapeRank { op: 0, rank: 5 });
}

#[test]
fn a_pad_reads_its_amounts() {
    let pad = |amounts: Vec<u8>| {
        single(
            quantized(&[2, 3], 1.0, 0),
            quantized(&[3, 8], 1.0, 0),
            vec![BuildTensor::constant(&[2, 2], "paddings", amounts)],
            PAD,
            None,
        )
    };
    let program = emit(&pad(words(&[0, 1, 2, -3]))).unwrap();
    let OpEmission::Pad(e) = &program.ops[0] else { panic!() };
    assert_eq!(e.params.left_padding, [0, 2, 0, 0]);
    assert_eq!(e.params.right_padding, [1, -3, 0, 0]);
    assert_eq!((e.params.left_padding_count, e.params.right_padding_count), (2, 2));
    assert_eq!(e.params.input_shape, [1, 1, 2, 3]);

    let model = pad(words(&[0, 1, 2]));
    let err = emit(&model).unwrap_err();
    assert_eq!(err, EmitError::PadLength { op: 0, tensor: 2, bytes: 12, expected: 16 });
    assert_eq!(
        err.message(&model),
        "op 0: padding tensor 'paddings' buffer length 12 != rank*2*4 = 16"
    );
    assert_eq!(emit(&pad(vec![])).unwrap_err(), EmitError::PadData { op: 0, tensor: 2 });
}

#[test]
fn a_transpose_reads_its_permutation() {
    let transpose = |shape: &[i32], permutation: Vec<u8>| {
        single(
            quantized(shape, 1.0, 0),
            quantized(&[24], 1.0, 0),
            vec![BuildTensor::constant(&[3], "perm", permutation)],
            TRANSPOSE,
            None,
        )
    };
    let program = emit(&transpose(&[2, 3, 4], words(&[2, 0, 1]))).unwrap();
    let OpEmission::Transpose(e) = &program.ops[0] else { panic!() };
    assert_eq!(e.params.perm, [2, 0, 1, 0, 0, 0, 0, 0]);
    assert_eq!(e.params.perm_count, 3);
    assert_eq!(e.params.input_shape, [1, 2, 3, 4]);

    assert_eq!(
        emit(&transpose(&[2, 3, 4], words(&[2, 0]))).unwrap_err(),
        EmitError::PermutationLength { op: 0, tensor: 2, bytes: 8, expected: 12 }
    );
    for entry in [-1, 3] {
        assert_eq!(
            emit(&transpose(&[2, 3, 4], words(&[0, entry, 1]))).unwrap_err(),
            EmitError::PermutationEntry { op: 0, entry, rank: 3 }
        );
    }
    assert_eq!(
        emit(&transpose(&[2, 3, 4], vec![])).unwrap_err(),
        EmitError::PermutationData { op: 0, tensor: 2 }
    );
    assert_eq!(
        emit(&transpose(&[1, 1, 2, 3, 4], words(&[0]))).unwrap_err(),
        EmitError::TransposeRank { op: 0, rank: 5 }
    );
}

#[test]
fn a_resize_keeps_its_flags() {
    let model = single(
        quantized(&[1, 2, 2, 1], 1.0, 0),
        quantized(&[1, 4, 4, 1], 1.0, 0),
        vec![],
        RESIZE_NEAREST_NEIGHBOR,
        Some(ParsedOptions::ResizeNearest { align_corners: true, half_pixel_centers: false }),
    );
    let program = emit(&model).unwrap();
    let OpEmission::Resize(e) = &program.ops[0] else { panic!() };
    assert_eq!((e.params.align_corners, e.params.half_pixel_centers), (1, 0));
    assert_eq!(e.params.output_shape, [1, 4, 4, 1]);
}

/// Three activations in a row, with two tensors between them.
fn row() -> ParsedModel {
    build(
        vec![
            quantized(&[5], 1.0, 0),
            quantized(&[5], 1.0, 0),
            quantized(&[5, 4], 1.0, 0),
            quantized(&[5], 1.0, 0),
        ],
        vec![
            op(RELU, vec![0], vec![1], None),
            op(RELU, vec![1], vec![3], None),
            op(RELU, vec![0], vec![1], None),
        ],
        vec![0],
        vec![3],
    )
}

#[test]
fn without_a_plan_tensors_lie_behind_each_other() {
    let program = emit(&row()).unwrap();
    assert_eq!(
        program.tensors,
        vec![
            Intermediate { index: 1, len: 5, offset: 0 },
            Intermediate { index: 2, len: 20, offset: 16 },
        ]
    );
    assert_eq!(program.arena_len, 48);
    let OpEmission::Activation(e) = &program.ops[1] else { panic!() };
    assert_eq!(e.source, Source::Tensor { idx: 1 });
    assert_eq!(e.target, Target::Output { start: 0, len: 5 });
}

#[test]
fn a_plan_with_a_place_for_every_tensor_is_followed() {
    let model = row();
    let plan = ArenaPlan {
        offsets: vec![None, Some(32), Some(0), None],
        peak_arena_bytes: 64,
    };
    let program = emit_model(&model, Some(&plan)).unwrap();
    assert_eq!(program.arena_len, 64);
    assert_eq!(
        program.tensors,
        vec![
            Intermediate { index: 1, len: 5, offset: 32 },
            Intermediate { index: 2, len: 20, offset: 0 },
        ]
    );
    // A plan that leaves one out is not.
    let plan = ArenaPlan { offsets: vec![None, Some(32), None, None], peak_arena_bytes: 64 };
    assert_eq!(emit_model(&model, Some(&plan)).unwrap().arena_len, 48);
    let plan = ArenaPlan { offsets: vec![None, Some(32)], peak_arena_bytes: 64 };
    assert_eq!(emit_model(&model, Some(&plan)).unwrap().arena_len, 48);
}

#[test]
fn the_planner_is_asked_without_a_limit() {
    let request = arena_request(&row()).unwrap();
    assert_eq!(request.max_internal, usize::MAX / 4);
    assert_eq!(request.psram_budget, None);
    assert_eq!(request.sizes, vec![5, 5, 20, 5]);
    assert_eq!(request.schedule.len(), 3);
}

#[test]
fn an_output_that_is_also_an_input_is_an_output() {
    let model = build(
        vec![quantized(&[2], 1.0, 0), quantized(&[2], 1.0, 0)],
        vec![op(RELU, vec![0], vec![1], None)],
        vec![0, 1],
        vec![1],
    );
    let program = emit(&model).unwrap();
    assert_eq!((program.input_len, program.output_len), (4, 2));
    let OpEmission::Activation(e) = &program.ops[0] else { panic!() };
    assert_eq!(e.target, Target::Output { start: 0, len: 2 });
}

#[test]
fn malformed_models_are_refused_in_order() {
    let mut model = minimal(RELU);
    model.subgraph_count = 2;
    let err = emit(&model).unwrap_err();
    assert_eq!(err, EmitError::Subgraphs { count: 2 });
    assert_eq!(
        err.message(&model),
        "model has 2 subgraphs; only single-subgraph models are supported"
    );

    let mut model = minimal(RELU);
    model.tensors.clear();
    assert_eq!(emit(&model).unwrap_err(), EmitError::NoTensors);
    assert_eq!(EmitError::NoTensors.message(&model), "model subgraph[0] has no tensors");

    let mut model = minimal(RELU);
    model.inputs.clear();
    assert_eq!(emit(&model).unwrap_err(), EmitError::NoInputs);

    let mut model = minimal(RELU);
    model.outputs.clear();
    assert_eq!(emit(&model).unwrap_err(), EmitError::NoOutputs);

    let mut model = minimal(RELU);
    model.outputs[0] = 7;
    let err = emit(&model).unwrap_err();
    assert_eq!(err, EmitError::IndexOutOfRange { tensor: 7 });
    assert_eq!(err.message(&model), "tensor index 7 out of range");

    let mut model = minimal(RELU);
    model.tensors[0].name = "image".to_string();
    model.tensors[0].tensor_type = TensorType::Float32;
    let err = emit(&model).unwrap_err();
    assert_eq!(err, EmitError::NotInt8 { tensor: 0 });
    assert_eq!(
        err.message(&model),
        "model I/O tensor 'image' is Float32, not INT8 (T4.1 typed I/O bridge requires int8)"
    );

    let mut model = minimal(RELU);
    model.tensors[1].shape = vec![3, -1, 0];
    let err = emit(&model).unwrap_err();
    assert_eq!(err, EmitError::Dimension { dim: -1 });
    assert_eq!(
        err.message(&model),
        "dynamic or non-positive shape dimension -1 is not supported (T4.1 static shapes)"
    );

    // An intermediate tensor of unknown size is found last.
    let mut model = row();
    model.tensors[2].shape = vec![0];
    assert_eq!(emit(&model).unwrap_err(), EmitError::Dimension { dim: 0 });
    model.ops[2].builtin_code = 200;
    assert_eq!(emit(&model).unwrap_err(), EmitError::Unsupported { code: 200 });
}

#[test]
fn operators_report_missing_operands_and_quantization() {
    let mut model = minimal(RELU);
    model.ops[0].inputs.clear();
    let err = emit(&model).unwrap_err();
    assert_eq!(
        err,
        EmitError::Missing { operator: OperatorName::Activation, operand: OperandName::Input }
    );
    assert_eq!(err.message(&model), "activation missing input tensor");

    let mut model = sine();
    model.ops[0].inputs.truncate(1);
    let err = emit(&model).unwrap_err();
    assert_eq!(err.message(&model), "fully_connected missing weights tensor");

    let mut model = minimal(RELU);
    model.tensors[1].name = "y".to_string();
    model.tensors[1].quant = None;
    let err = emit(&model).unwrap_err();
    assert_eq!(err, EmitError::NoQuantization { tensor: 1 });
    assert_eq!(err.message(&model), "tensor y has no quantization");

    for scale in [0.0f32, -1.0, f32::NAN, f32::INFINITY] {
        let mut model = minimal(RELU);
        model.tensors[0].quant.as_mut().unwrap().scale = scale.to_bits();
        assert_eq!(emit(&model).unwrap_err(), EmitError::InvalidScale { tensor: 0 });
    }

    let mut model = sine();
    model.tensors[1].quant = None;
    assert_eq!(emit(&model).unwrap_err(), EmitError::NoChannelQuantization);

    let mut model = sine();
    model.tensors[1].quant.as_mut().unwrap().per_channel =
        BuildQuant::channel(vec![0.5, 0.25], vec![0, 0], 0).info().per_channel;
    let err = emit(&model).unwrap_err();
    assert_eq!(err, EmitError::ChannelCount { scales: 2, channels: 1 });
    assert_eq!(
        err.message(&model),
        "per-channel scales length 2 != expected output channels 1"
    );
}

#[test]
fn constants_are_checked() {
    let mut model = sine();
    model.tensors[1].buffer_index = 0;
    let err = emit(&model).unwrap_err();
    assert_eq!(err, EmitError::WeightData { tensor: 1 });
    assert_eq!(
        err.message(&model),
        "weight tensor 'fc/weights' has no buffer data; constant weights are required in T4.1"
    );

    let mut model = sine();
    model.buffers[1] = vec![1, 2];
    assert_eq!(
        emit(&model).unwrap_err(),
        EmitError::WeightLength { tensor: 1, bytes: 2, size: 1 }
    );

    let mut model = sine();
    model.buffers[2] = vec![1, 2];
    let err = emit(&model).unwrap_err();
    assert_eq!(err, EmitError::BiasLength { tensor: 2, bytes: 2, expected: 4 });
    assert_eq!(err.message(&model), "bias tensor 'fc/bias' buffer length 2 != expected 4");

    let mut model = sine();
    model.ops[0].inputs[2] = 9;
    assert_eq!(emit(&model).unwrap_err(), EmitError::BiasIndex { tensor: 9 });

    let mut model = sine();
    model.ops[0].inputs[2] = NO_TENSOR;
    let program = emit(&model).unwrap();
    let OpEmission::FullyConnected(e) = &program.ops[0] else { panic!() };
    assert_eq!(e.bias, vec![0]);
}

#[test]
fn only_computed_tensors_are_read_and_written() {
    let mut model = minimal(RELU);
    model.tensors.push(ParsedTensor {
        name: "c".to_string(),
        shape: vec![1],
        tensor_type: TensorType::Int8,
        quant: Some(BuildQuant::tensor(1.0, 0).info()),
        buffer_index: 1,
    });
    model.buffers.push(vec![5]);
    model.ops[0].inputs[0] = 2;
    let err = emit(&model).unwrap_err();
    assert_eq!(err, EmitError::ConstantSource { tensor: 2 });
    assert!(err.message(&model).contains("tensor 2 is a constant (buffer-backed)"));

    let mut model = minimal(RELU);
    model.ops[0].inputs[0] = 1;
    let err = emit(&model).unwrap_err();
    assert_eq!(err, EmitError::OutputSource { tensor: 1 });
    assert_eq!(err.message(&model), "tensor 1 is a model output used as an op input");

    let mut model = minimal(RELU);
    model.ops[0].outputs[0] = 0;
    let err = emit(&model).unwrap_err();
    assert_eq!(err, EmitError::Target { tensor: 0 });
    assert_eq!(
        err.message(&model),
        "tensor 0 cannot be an op output (model input or const)"
    );
}

#[test]
fn shapes_and_options_are_checked() {
    let pool = |shape: &[i32], padding: i8| {
        single(
            quantized(shape, 1.0, 0),
            quantized(&[1], 1.0, 0),
            vec![],
            AVERAGE_POOL_2D,
            Some(ParsedOptions::Pool2D {
                padding,
                stride_w: 1,
                stride_h: 1,
                filter_w: 1,
                filter_h: 1,
                fused_activation: 0,
            }),
        )
    };
    assert_eq!(emit(&pool(&[1, 1, 1, 1, 2], 0)).unwrap_err(), EmitError::Rank { rank: 5 });
    let model = pool(&[1], 2);
    let err = emit(&model).unwrap_err();
    assert_eq!(err, EmitError::UnknownPadding { value: 2 });
    assert_eq!(err.message(&model), "unknown padding value 2 (expected 0=SAME, 1=VALID)");

    for (code, options, name) in [
        (CONV_2D, OptionsName::Conv2D, "Conv2D"),
        (DEPTHWISE_CONV_2D, OptionsName::DepthwiseConv2D, "DepthwiseConv2D"),
        (MAX_POOL_2D, OptionsName::Pool2D, "Pool2D"),
        (LEAKY_RELU, OptionsName::LeakyRelu, "LeakyRelu"),
        (MEAN, OptionsName::Mean, "Mean"),
        (RESIZE_NEAREST_NEIGHBOR, OptionsName::ResizeNearest, "ResizeNearest"),
    ] {
        let model = minimal(code);
        let err = emit(&model).unwrap_err();
        assert_eq!(err, EmitError::Options { op: 0, options });
        assert_eq!(err.message(&model), format!("op 0: expected {name} options"));
    }

    let mut model = minimal(PRELU);
    model.ops[0].options = Some(ParsedOptions::Custom(vec![]));
    assert_eq!(emit(&model).unwrap_err(), EmitError::PreluOptions { op: 0 });
    let mut model = minimal(ADD);
    model.ops[0].options = Some(ParsedOptions::Prelu);
    assert_eq!(emit(&model).unwrap_err(), EmitError::ElementwiseOptions { op: 0 });

    let model = build(
        vec![quantized(&[2], 1.0, 0), quantized(&[3], 1.0, 0), quantized(&[2], 1.0, 0)],
        vec![op(ADD, vec![0, 1], vec![2], None)],
        vec![0, 1],
        vec![2],
    );
    assert_eq!(emit(&model).unwrap_err(), EmitError::ElementwiseCount { op: 0 });

    // An operand with an unknown dimension that no caller sees.
    let mut model = row();
    model.tensors[1].shape = vec![-7];
    model.ops[0] = op(
        RESIZE_NEAREST_NEIGHBOR,
        vec![0],
        vec![1],
        Some(ParsedOptions::ResizeNearest { align_corners: false, half_pixel_centers: false }),
    );
    let err = emit(&model).unwrap_err();
    assert_eq!(err, EmitError::ShapeDimension { dim: -7 });
    assert_eq!(
        err.message(&model),
        "dynamic or non-positive shape dimension -7 is not supported"
    );

    let mut model = row();
    model.tensors[1].shape = vec![0];
    model.ops[0] = op(RESHAPE, vec![0], vec![1], None);
    assert_eq!(emit(&model).unwrap_err(), EmitError::ReshapeDimension { op: 0, dim: 0 });

    let model = single(
        quantized(&[], 1.0, 0),
        quantized(&[1], 1.0, 0),
        vec![BuildTensor::constant(&[1], "p", words(&[1, 1]))],
        PAD,
        None,
    );
    assert_eq!(emit(&model).unwrap_err(), EmitError::PadRank { op: 0, rank: 0 });
}

#[test]
fn ordinary_models_fit() {
    assert!(check_fits(&sine(), None));
    assert!(check_fits(&row(), None));
    let plan = ArenaPlan { offsets: vec![None, Some(32), Some(0), None], peak_arena_bytes: 64 };
    assert!(check_fits(&row(), Some(&plan)));
}

#[test]
fn a_tensor_with_too_many_elements_does_not_fit() {
    let mut model = minimal(RELU);
    model.tensors[0].shape = vec![i32::MAX, i32::MAX, i32::MAX];
    assert!(!check_fits(&model, None));
}

#[test]
fn a_tensor_that_nothing_counts_may_be_of_any_size() {
    let mut model = sine();
    // The bias is measured by its bytes.
    model.tensors[2].shape = vec![i32::MAX, i32::MAX, i32::MAX];
    assert!(check_fits(&model, None));
    let program = emit(&model).unwrap();
    let OpEmission::FullyConnected(e) = &program.ops[0] else { panic!() };
    assert_eq!(e.bias, vec![-3]);
    model.tensors[1].shape = vec![i32::MAX, i32::MAX, i32::MAX];
    assert!(!check_fits(&model, None));
    let mut model = row();
    model.tensors[1].shape = vec![i32::MAX, i32::MAX, i32::MAX];
    assert!(!check_fits(&model, None));
}

#[test]
fn inputs_that_are_too_long_together_do_not_fit() {
    let mut model = minimal(RELU);
    model.tensors[0].shape = vec![1 << 30, 1 << 30, 4];
    assert!(check_fits(&model, None));
    model.inputs = vec![0, 0, 0, 0];
    assert!(!check_fits(&model, None));
}

#[test]
fn emitted_lengths_are_those_of_the_constants() {
    let program = emit(&sine()).unwrap();
    let OpEmission::FullyConnected(e) = &program.ops[0] else { panic!() };
    assert_eq!(e.weights, vec![51]);
    assert_eq!(e.output_dim, 1);
    assert_eq!(e.bias, vec![-3]);
    assert_eq!(e.quant.multipliers.len(), 1);
    assert_eq!(e.quant.shifts.len(), 1);
}

#[test]
fn fused_activations_of_codes() {
    assert_eq!(fused_activation_enum(1), FusedActivation::Relu);
    assert_eq!(fused_activation_enum(3), FusedActivation::Relu6);
    for code in [-1, 0, 2, 4, 5] {
        assert_eq!(fused_activation_enum(code), FusedActivation::Identity);
    }
}

#[test]
fn a_dense_layer_goes_by_its_options() {
    let mut model = sine();
    model.ops[0].builtin_code = CONV_2D;
    let storage = vec![
        Storage::Input { start: 0, len: 1 },
        Storage::Const,
        Storage::Const,
        Storage::Output { start: 0, len: 1 },
    ];
    let call = emit_fully_connected(&model, &storage, 0, &model.ops[0]).unwrap();
    assert_eq!(call.source, Source::Input { start: 0, len: 1 });
    assert_eq!(call.weights, vec![51]);
    assert_eq!(call.bias, vec![-3]);
    assert_eq!((call.input_dim, call.output_dim), (1, 1));
    model.ops[0].options = None;
    assert!(emit_fully_connected(&model, &storage, 0, &model.ops[0]).is_err());
}
