//! The host decides as the device does which kernels run on the vector unit.

use hematite::eligibility::{
    accx_eligible_1x1, accx_eligible_1x1_padded, accx_eligible_3x3, chain_simd_eligible,
    conv1x1_dispatch_eligible, conv3x3_dispatch_eligible, depthwise_dispatch_eligible,
    fc_dispatch_eligible, fused_pool_fold_simd_eligible, hard_swish_simd_eligible_params,
    pool_area_inv, pool_round_recip,
    relu6_simd_eligible_params, relu_simd_eligible_params, simd_eligible_add_sub,
    simd_eligible_add_sub_widened, simd_eligible_mul, simd_eligible_mul_widened,
    simd_eligible_pool, softmax_row_simd_eligible,
};
use hematite::op_params::{
    ActivationEpilogueParams, ActivationParams, ComposedActivation, Conv2DParams,
    DepthwiseConv2DParams, ElementwiseChainParams, ElementwiseChainStep, ElementwiseKind,
    ElementwiseParams, FoldedPoolParams, FullyConnectedParams, FusedActivation, Padding,
    PoolInputFold, PoolKind, PoolParams, SoftmaxParams,
};

// The gates, as the kernels on the device state them.

fn device_accx_eligible_1x1(input_c: usize, out_c: usize) -> bool {
    input_c >= 16 && input_c % 16 == 0 && out_c >= 1
}

fn device_accx_eligible_1x1_padded(input_c: usize, out_c: usize) -> bool {
    input_c >= 1 && out_c >= 1
}

fn device_accx_eligible_3x3(input_c: usize, out_c: usize) -> bool {
    input_c >= 1 && out_c >= 1
}

fn device_accx_eligible_depthwise_dm(
    input_c: usize,
    out_c: usize,
    depth_multiplier: i32,
) -> bool {
    let dm = depth_multiplier.max(1) as usize;
    input_c >= 1 && out_c >= 1 && out_c == input_c * dm
}

fn device_conv1x1_dispatch_eligible(
    input_c: usize,
    out_c: usize,
    stride_h: i32,
    stride_w: i32,
    dil_h: i32,
    dil_w: i32,
    in_h: usize,
    in_w: usize,
    out_h: usize,
    out_w: usize,
) -> bool {
    stride_h == 1
        && stride_w == 1
        && dil_h == 1
        && dil_w == 1
        && in_h == out_h
        && in_w == out_w
        && device_accx_eligible_1x1_padded(input_c, out_c)
}

fn device_conv3x3_dispatch_eligible(
    input_c: usize,
    out_c: usize,
    filter_h: i32,
    filter_w: i32,
    dil_h: i32,
    dil_w: i32,
    input_offset: i32,
) -> bool {
    if dil_h != 1
        || dil_w != 1
        || filter_h != 3
        || filter_w != 3
        || !device_accx_eligible_3x3(input_c, out_c)
    {
        return false;
    }
    if input_offset != 0 && input_offset.abs() > 127 {
        return false;
    }
    true
}

fn device_depthwise_dispatch_eligible(
    input_c: usize,
    out_c: usize,
    depth_multiplier: i32,
    filter_h: i32,
    filter_w: i32,
    dil_h: i32,
    dil_w: i32,
    input_offset: i32,
) -> bool {
    if dil_h != 1
        || dil_w != 1
        || filter_h < 1
        || filter_w < 1
        || !device_accx_eligible_depthwise_dm(input_c, out_c, depth_multiplier)
    {
        return false;
    }
    if input_offset != 0 && (input_offset < -127 || input_offset > 128) {
        return false;
    }
    true
}

fn device_round_recip(area: i32, shift: i32) -> i32 {
    let num = 1i64 << shift;
    ((num + area as i64 / 2) / area as i64) as i32
}

fn device_pool_area_inv(area: i32) -> Option<(i32, [i8; 16])> {
    let mut shift = 8;
    let mut inv = device_round_recip(area, shift);
    while inv > 127 && shift < 24 {
        shift += 1;
        inv = device_round_recip(area, shift);
    }
    if !(1..=127).contains(&inv) {
        return None;
    }
    Some((shift, [inv as i8; 16]))
}

fn device_simd_eligible_pool(params: &PoolParams) -> bool {
    let input_h = params.input_shape[1];
    let input_w = params.input_shape[2];
    let channels = params.input_shape[3];
    let filter_h = params.filter_height;
    let filter_w = params.filter_width;
    let out_h = params.output_shape[1];
    let out_w = params.output_shape[2];

    let pad_total_h = (out_h - 1) * params.stride_height + filter_h - input_h;
    let pad_total_w = (out_w - 1) * params.stride_width + filter_w - input_w;

    if filter_h < 1
        || filter_w < 1
        || params.stride_height < 1
        || params.stride_width < 1
        || pad_total_h > 0
        || pad_total_w > 0
        || channels <= 0
        || channels % 16 != 0
    {
        return false;
    }
    device_pool_area_inv(filter_h * filter_w).is_some()
}

fn device_simd_eligible_add_sub(params: &ElementwiseParams) -> bool {
    let identity = |m: i32, s: i32| m == 1 << 30 && s == 1;
    params.input1_offset == 0
        && params.input2_offset == 0
        && params.output_offset == 0
        && params.quantized_activation_min == i8::MIN as i32
        && params.quantized_activation_max == i8::MAX as i32
        && params.left_shift <= 0
        && identity(params.input1_multiplier, params.input1_shift)
        && identity(params.input2_multiplier, params.input2_shift)
        && identity(params.output_multiplier, params.output_shift)
}

fn device_simd_eligible_mul(params: &ElementwiseParams) -> Option<i32> {
    if params.input1_offset == 0
        && params.input2_offset == 0
        && params.output_offset == 0
        && params.quantized_activation_min == i8::MIN as i32
        && params.quantized_activation_max == i8::MAX as i32
        && params.output_multiplier == 1 << 30
        && params.output_shift <= 1
    {
        Some(1 - params.output_shift)
    } else {
        None
    }
}

fn device_simd_eligible_add_sub_widened(_params: &ElementwiseParams) -> bool {
    true
}

fn device_simd_eligible_mul_widened(_params: &ElementwiseParams) -> bool {
    true
}

fn device_relu_simd_eligible_params(params: &ActivationParams<'_>) -> bool {
    params.input_offset == 0
        && params.output_offset == 0
        && params.output_multiplier == 1 << 30
        && params.output_shift == 1
}

fn device_relu6_simd_eligible_params(_params: &ActivationParams<'_>) -> bool {
    true
}

fn device_hard_swish_simd_eligible_params(_params: &ActivationParams<'_>) -> bool {
    true
}

fn device_softmax_row_simd_eligible(row_size: i32) -> bool {
    row_size >= 16
}

fn device_step_elementwise_params(
    step: &ElementwiseChainStep<'_>,
    num_elements: i32,
) -> ElementwiseParams {
    ElementwiseParams {
        num_elements,
        input1_offset: step.input1_offset,
        input2_offset: step.input2_offset,
        output_offset: step.output_offset,
        output_multiplier: step.output_multiplier,
        output_shift: step.output_shift,
        left_shift: step.left_shift,
        input1_multiplier: step.input1_multiplier,
        input1_shift: step.input1_shift,
        input2_multiplier: step.input2_multiplier,
        input2_shift: step.input2_shift,
        quantized_activation_min: step.quantized_activation_min,
        quantized_activation_max: step.quantized_activation_max,
    }
}

fn device_step_activation_params<'a>(step: &ElementwiseChainStep<'_>) -> ActivationParams<'a> {
    ActivationParams {
        input_offset: step.input1_offset,
        output_offset: step.output_offset,
        output_multiplier: step.output_multiplier,
        output_shift: step.output_shift,
        quantized_activation_min: step.quantized_activation_min,
        quantized_activation_max: step.quantized_activation_max,
        input_multiplier: 0,
        input_left_shift: 0,
        input_range_radius: 0,
        output_multiplier_alpha: 0,
        output_shift_alpha: 0,
        output_multiplier_identity: 0,
        output_shift_identity: 0,
        alpha_offset: 0,
        alpha_data: &[],
        output_multiplier_1: 0,
        output_shift_1: 0,
        output_multiplier_2: 0,
        output_shift_2: 0,
        reluish_multiplier_fixedpoint_int16: 0,
        reluish_multiplier_exponent: 0,
        output_multiplier_fixedpoint_int16: 0,
        output_multiplier_exponent: 0,
    }
}

fn device_chain_simd_eligible(params: &ElementwiseChainParams<'_>) -> bool {
    if params.steps.is_empty() {
        return false;
    }
    params.steps.iter().all(|step| match step.kind {
        ElementwiseKind::Add | ElementwiseKind::Sub => {
            step.operand.is_some()
                && device_simd_eligible_add_sub(&device_step_elementwise_params(
                    step,
                    params.num_elements,
                ))
        }
        ElementwiseKind::Mul => {
            step.operand.is_some()
                && device_simd_eligible_mul(&device_step_elementwise_params(
                    step,
                    params.num_elements,
                ))
                .is_some()
        }
        ElementwiseKind::Relu => device_relu_simd_eligible_params(&device_step_activation_params(step)),
        ElementwiseKind::Relu6 | ElementwiseKind::HardSwish => false,
    })
}

fn device_fold_elementwise_params(fold: &PoolInputFold<'_>) -> ElementwiseParams {
    ElementwiseParams {
        num_elements: fold.num_elements,
        input1_offset: -(fold.input_zero_point as i32),
        input2_offset: -(fold.operand_zero_point as i32),
        output_offset: fold.output_zero_point as i32,
        output_multiplier: fold.output_multiplier,
        output_shift: fold.output_shift,
        left_shift: fold.left_shift,
        input1_multiplier: fold.input1_multiplier,
        input1_shift: fold.input1_shift,
        input2_multiplier: fold.input2_multiplier,
        input2_shift: fold.input2_shift,
        quantized_activation_min: i8::MIN as i32,
        quantized_activation_max: i8::MAX as i32,
    }
}

fn device_fold_simd_exact(fold: &PoolInputFold<'_>) -> bool {
    let ep = device_fold_elementwise_params(fold);
    match fold.builtin {
        18 /* MUL */ => device_simd_eligible_mul(&ep).is_some(),
        41 /* SUB */ => device_simd_eligible_add_sub(&ep),
        _ => false,
    }
}

fn device_fused_pool_fold_simd_eligible(params: &FoldedPoolParams<'_>) -> bool {
    if !device_simd_eligible_pool(&params.pool) {
        return false;
    }
    match &params.fold {
        None => true,
        Some(fold) => device_fold_simd_exact(fold),
    }
}

fn tflite_out_dim(in_dim: i32, filter: i32, stride: i32, padding: Padding) -> i32 {
    match padding {
        Padding::Same => (in_dim + stride - 1) / stride,
        Padding::Valid => {
            if in_dim >= filter {
                (in_dim - filter) / stride + 1
            } else {
                0
            }
        }
    }
}

fn conv_params(
    fh: i32,
    fw: i32,
    in_c: i32,
    out_c: i32,
    in_h: i32,
    in_w: i32,
    out_h: i32,
    out_w: i32,
    stride: i32,
    padding: Padding,
    offset: i32,
) -> Conv2DParams<'static> {
    Conv2DParams {
        input_shape: [1, in_h, in_w, in_c],
        filter_shape: [out_c, fh, fw, in_c],
        output_shape: [1, out_h, out_w, out_c],
        padding,
        stride_width: stride,
        stride_height: stride,
        dilation_width_factor: 1,
        dilation_height_factor: 1,
        input_offset: offset,
        weights_offset: 0,
        output_offset: 0,
        output_multiplier_per_channel: &[],
        output_shift_per_channel: &[],
        quantized_activation_min: -128,
        quantized_activation_max: 127,
    }
}

fn depthwise_params(
    dm: i32,
    in_c: i32,
    fh: i32,
    fw: i32,
    in_h: i32,
    in_w: i32,
    stride: i32,
    padding: Padding,
    offset: i32,
) -> DepthwiseConv2DParams<'static> {
    let out_c = in_c * dm;
    DepthwiseConv2DParams {
        input_shape: [1, in_h, in_w, in_c],
        filter_shape: [1, fh, fw, out_c],
        output_shape: [
            1,
            tflite_out_dim(in_h, fh, stride, padding),
            tflite_out_dim(in_w, fw, stride, padding),
            out_c,
        ],
        padding,
        stride_width: stride,
        stride_height: stride,
        dilation_width_factor: 1,
        dilation_height_factor: 1,
        depth_multiplier: dm,
        input_offset: offset,
        weights_offset: 0,
        output_offset: 0,
        output_multiplier_per_channel: &[],
        output_shift_per_channel: &[],
        quantized_activation_min: -128,
        quantized_activation_max: 127,
    }
}

fn fc_params(input_dim: i32, output_dim: i32, input_offset: i32) -> FullyConnectedParams<'static> {
    FullyConnectedParams {
        input_dim,
        output_dim,
        input_offset,
        weights_offset: 0,
        output_offset: 0,
        output_multiplier_per_channel: &[],
        output_shift_per_channel: &[],
        quantized_activation_min: -128,
        quantized_activation_max: 127,
    }
}

fn pool_params(
    _kind: &str,
    fh: i32,
    fw: i32,
    stride: i32,
    in_h: i32,
    in_w: i32,
    ch: i32,
    padding: Padding,
) -> PoolParams {
    let out_h = tflite_out_dim(in_h, fh, stride, padding);
    let out_w = tflite_out_dim(in_w, fw, stride, padding);
    PoolParams {
        input_shape: [1, in_h, in_w, ch],
        output_shape: [1, out_h, out_w, ch],
        filter_width: fw,
        filter_height: fh,
        stride_width: stride,
        stride_height: stride,
        padding,
        activation: FusedActivation::Identity,
        quantized_activation_min: i8::MIN as i32,
        quantized_activation_max: i8::MAX as i32,
    }
}

fn elementwise_base(num_elements: i32) -> ElementwiseParams {
    ElementwiseParams {
        num_elements,
        input1_offset: 0,
        input2_offset: 0,
        output_offset: 0,
        output_multiplier: 1 << 30,
        output_shift: 1,
        left_shift: 0,
        input1_multiplier: 1 << 30,
        input1_shift: 1,
        input2_multiplier: 1 << 30,
        input2_shift: 1,
        quantized_activation_min: i8::MIN as i32,
        quantized_activation_max: i8::MAX as i32,
    }
}

fn relu_base() -> ActivationParams<'static> {
    ActivationParams {
        input_offset: 0,
        output_offset: 0,
        output_multiplier: 1 << 30,
        output_shift: 1,
        quantized_activation_min: i8::MIN as i32,
        quantized_activation_max: i8::MAX as i32,
        input_multiplier: 0,
        input_left_shift: 0,
        input_range_radius: 0,
        output_multiplier_alpha: 0,
        output_shift_alpha: 0,
        output_multiplier_identity: 0,
        output_shift_identity: 0,
        alpha_offset: 0,
        alpha_data: &[],
        output_multiplier_1: 0,
        output_shift_1: 0,
        output_multiplier_2: 0,
        output_shift_2: 0,
        reluish_multiplier_fixedpoint_int16: 0,
        reluish_multiplier_exponent: 0,
        output_multiplier_fixedpoint_int16: 0,
        output_multiplier_exponent: 0,
    }
}

/// Identity-quant-affine chain step (Add/Sub/Mul with an operand).
fn identity_step(kind: ElementwiseKind, operand: bool) -> ElementwiseChainStep<'static> {
    ElementwiseChainStep {
        kind,
        operand: if operand { Some(&[]) } else { None },
        input1_offset: 0,
        input2_offset: 0,
        output_offset: 0,
        output_multiplier: 1 << 30,
        output_shift: if kind == ElementwiseKind::Mul { 0 } else { 1 },
        left_shift: 0,
        input1_multiplier: 1 << 30,
        input1_shift: 1,
        input2_multiplier: 1 << 30,
        input2_shift: 1,
        quantized_activation_min: i8::MIN as i32,
        quantized_activation_max: i8::MAX as i32,
    }
}

fn relu_step() -> ElementwiseChainStep<'static> {
    ElementwiseChainStep {
        kind: ElementwiseKind::Relu,
        operand: None,
        input1_offset: 0,
        input2_offset: 0,
        output_offset: 0,
        output_multiplier: 1 << 30,
        output_shift: 1,
        left_shift: 0,
        input1_multiplier: 0,
        input1_shift: 0,
        input2_multiplier: 0,
        input2_shift: 0,
        quantized_activation_min: i8::MIN as i32,
        quantized_activation_max: i8::MAX as i32,
    }
}

fn pool_fold(
    builtin: i32,
    input_zp: i64,
    operand_zp: i64,
    output_zp: i64,
    om: i32,
    os: i32,
    left_shift: i32,
) -> PoolInputFold<'static> {
    PoolInputFold {
        builtin,
        operand_data: &[],
        operand_zero_point: operand_zp,
        input_zero_point: input_zp,
        output_zero_point: output_zp,
        folded_scale: 1.0f32.to_bits(),
        left_shift,
        output_multiplier: om,
        output_shift: os,
        input1_multiplier: 1 << 30,
        input1_shift: 1,
        input2_multiplier: 1 << 30,
        input2_shift: 1,
        num_elements: 256,
    }
}

fn folded_pool_params(
    pool: PoolParams,
    fold: Option<PoolInputFold<'static>>,
) -> FoldedPoolParams<'static> {
    FoldedPoolParams {
        pool,
        pool_kind: PoolKind::Average,
        fold,
        activation: ActivationEpilogueParams {
            kind: ComposedActivation::Identity,
            input_offset: 0,
            output_offset: 0,
            output_multiplier: 1 << 30,
            output_shift: 1,
            quantized_activation_min: i8::MIN as i32,
            quantized_activation_max: i8::MAX as i32,
        },
    }
}

fn check_conv(p: &Conv2DParams<'_>, checked: &mut usize, label: &str) {
    let in_c = p.input_shape[3].max(0) as usize;
    let out_c = p.output_shape[3].max(0) as usize;
    let (in_h, in_w, out_h, out_w) = (
        p.input_shape[1].max(0) as usize,
        p.input_shape[2].max(0) as usize,
        p.output_shape[1].max(0) as usize,
        p.output_shape[2].max(0) as usize,
    );
    let (fh, fw) = (p.filter_shape[1], p.filter_shape[2]);

    // Raw accx gates.
    let pairs = [
        ("accx_eligible_1x1", accx_eligible_1x1(in_c, out_c), device_accx_eligible_1x1(in_c, out_c)),
        ("accx_eligible_1x1_padded", accx_eligible_1x1_padded(in_c, out_c), device_accx_eligible_1x1_padded(in_c, out_c)),
        ("accx_eligible_3x3", accx_eligible_3x3(in_c, out_c), device_accx_eligible_3x3(in_c, out_c)),
    ];
    for (name, host, oracle) in pairs {
        assert_eq!(host, oracle, "conv {label}: {name} host {host} != device {oracle}");
    }

    // The dispatch is by filter: one kernel for 1x1, another for the rest.
    let (host, oracle) = if fh == 1 && fw == 1 {
        (
            conv1x1_dispatch_eligible(
                in_c, out_c, p.stride_height, p.stride_width,
                p.dilation_height_factor, p.dilation_width_factor,
                in_h, in_w, out_h, out_w,
            ),
            device_conv1x1_dispatch_eligible(
                in_c, out_c, p.stride_height, p.stride_width,
                p.dilation_height_factor, p.dilation_width_factor,
                in_h, in_w, out_h, out_w,
            ),
        )
    } else {
        (
            conv3x3_dispatch_eligible(
                in_c, out_c, fh, fw,
                p.dilation_height_factor, p.dilation_width_factor, p.input_offset,
            ),
            device_conv3x3_dispatch_eligible(
                in_c, out_c, fh, fw,
                p.dilation_height_factor, p.dilation_width_factor, p.input_offset,
            ),
        )
    };
    assert_eq!(
        host, oracle,
        "conv {label}: dispatch host {host} != device {oracle} (in_c={in_c} out_c={out_c} f={fh}x{fw} off={})",
        p.input_offset
    );
    *checked += 1;
}

fn check_depthwise(p: &DepthwiseConv2DParams<'_>, checked: &mut usize, label: &str) {
    let in_c = p.input_shape[3].max(0) as usize;
    let out_c = p.output_shape[3].max(0) as usize;
    let (fh, fw) = (p.filter_shape[1], p.filter_shape[2]);
    let host = depthwise_dispatch_eligible(
        in_c, out_c, p.depth_multiplier, fh, fw,
        p.dilation_height_factor, p.dilation_width_factor, p.input_offset,
    );
    let oracle = device_depthwise_dispatch_eligible(
        in_c, out_c, p.depth_multiplier, fh, fw,
        p.dilation_height_factor, p.dilation_width_factor, p.input_offset,
    );
    assert_eq!(
        host, oracle,
        "depthwise {label}: host {host} != device {oracle} (in_c={in_c} out_c={out_c} dm={} f={fh}x{fw} off={})",
        p.depth_multiplier, p.input_offset
    );
    *checked += 1;
}

fn check_fc(p: &FullyConnectedParams<'_>, checked: &mut usize, label: &str) {
    let idim = p.input_dim.max(0) as usize;
    let odim = p.output_dim.max(0) as usize;
    let host = fc_dispatch_eligible(idim, odim);
    let oracle = device_accx_eligible_1x1_padded(idim, odim);
    assert_eq!(
        host, oracle,
        "fc {label}: host {host} != device {oracle} (in={idim} out={odim} off={})",
        p.input_offset
    );
    *checked += 1;
}

fn check_pool(p: &PoolParams, checked: &mut usize, label: &str) {
    let host = simd_eligible_pool(p);
    let oracle = device_simd_eligible_pool(p);
    assert_eq!(
        host, oracle,
        "pool {label}: host {host} != device {oracle} (in={:?} out={:?} f={}x{} s={}/{})",
        p.input_shape, p.output_shape, p.filter_height, p.filter_width,
        p.stride_height, p.stride_width
    );
    *checked += 1;
}

fn check_activation(p: &ActivationParams<'_>, checked: &mut usize, label: &str) {
    let host = relu_simd_eligible_params(p);
    let oracle = device_relu_simd_eligible_params(p);
    assert_eq!(host, oracle, "relu {label}: host {host} != device {oracle}");
    // relu6 / hard_swish gates (always true) must agree too.
    assert_eq!(
        relu6_simd_eligible_params(p),
        device_relu6_simd_eligible_params(p),
        "relu6 {label}: widened gate mismatch"
    );
    assert_eq!(
        hard_swish_simd_eligible_params(p),
        device_hard_swish_simd_eligible_params(p),
        "hard_swish {label}: widened gate mismatch"
    );
    *checked += 1;
}

fn check_elementwise(p: &ElementwiseParams, checked: &mut usize, label: &str) {
    // Both gates are asserted for every row — the corpus rows include
    // identity AND non-identity contracts.
    let m = simd_eligible_add_sub(p);
    let o = device_simd_eligible_add_sub(p);
    assert_eq!(m, o, "add_sub {label}: host {m} != device {o} (off {}/{}/{} ls {} om {} os {})",
        p.input1_offset, p.input2_offset, p.output_offset, p.left_shift,
        p.output_multiplier, p.output_shift);
    let m = simd_eligible_mul(p);
    let o = device_simd_eligible_mul(p);
    assert_eq!(m, o, "mul {label}: host {m:?} != device {o:?}");
    assert_eq!(
        simd_eligible_add_sub_widened(p),
        device_simd_eligible_add_sub_widened(p),
        "add_sub_widened {label}: mismatch"
    );
    assert_eq!(
        simd_eligible_mul_widened(p),
        device_simd_eligible_mul_widened(p),
        "mul_widened {label}: mismatch"
    );
    *checked += 1;
}

fn check_softmax(p: &SoftmaxParams, checked: &mut usize, label: &str) {
    let host = softmax_row_simd_eligible(p.row_size);
    let oracle = device_softmax_row_simd_eligible(p.row_size);
    assert_eq!(
        host, oracle,
        "softmax {label}: host {host} != device {oracle} (row_size {})",
        p.row_size
    );
    *checked += 1;
}

fn check_chain(p: &ElementwiseChainParams<'_>, checked: &mut usize, label: &str) {
    let host = chain_simd_eligible(p);
    let oracle = device_chain_simd_eligible(p);
    assert_eq!(
        host, oracle,
        "chain {label}: host {host} != device {oracle} ({} steps)",
        p.steps.len()
    );
    *checked += 1;
}

fn check_fused_pool(p: &FoldedPoolParams<'_>, checked: &mut usize, label: &str) {
    let host = fused_pool_fold_simd_eligible(p);
    let oracle = device_fused_pool_fold_simd_eligible(p);
    assert_eq!(
        host, oracle,
        "pool-fold {label}: host {host} != device {oracle} (fold {:?})",
        p.fold.as_ref().map(|f| f.builtin)
    );
    *checked += 1;
}

#[test]
fn parity_widened_grids() {
    let mut checked = 0usize;

    // conv1x1: out_c × spatial × in_c × stride × offset — the padded
    // small in_c family (1/3/8/15/17), the %16 no-pad family, stride 1
    // (eligible when in==out) and stride 2 (ineligible).
    for &out_c in &[1, 16, 64] {
        for &spatial in &[1, 14, 56] {
            for &in_c in &[1, 3, 8, 15, 16, 17, 32, 64, 128] {
                for &stride in &[1, 2] {
                    for &offset in &[0, 5, 128] {
                        let out_h = tflite_out_dim(spatial, 1, stride, Padding::Same);
                        let p = conv_params(1, 1, in_c, out_c, spatial, spatial, out_h, out_h, stride, Padding::Same, offset);
                        check_conv(&p, &mut checked, "grid-conv1x1");
                    }
                }
            }
        }
    }

    // conv3x3: in_c × out_c × hw × pad × stride × offset — offsets 127
    // (eligible) and 128 (rejected by the fold bound).
    for &in_c in &[3, 16, 32, 64] {
        for &out_c in &[16, 32, 64] {
            for &hw in &[8, 16, 32] {
                for &padding in &[Padding::Valid, Padding::Same] {
                    for &stride in &[1, 2] {
                        for &offset in &[0, 5, 127, 128] {
                            let out_h = tflite_out_dim(hw, 3, stride, padding);
                            let p = conv_params(3, 3, in_c, out_c, hw, hw, out_h, out_h, stride, padding, offset);
                            check_conv(&p, &mut checked, "grid-conv3x3");
                        }
                    }
                }
            }
        }
    }

    // depthwise: dm 1/2/8 × in_c × filter (3x3 + 10x8 anytap) × spatial ×
    // stride × offset — offsets 128 (accepted) and 129 (rejected).
    for &dm in &[1, 2, 8] {
        for &in_c in &[1, 3, 8, 16, 32] {
            for &(fh, fw) in &[(3, 3), (10, 8)] {
                for &spatial in &[12, 49] {
                    for &stride in &[1, 2] {
                        for &offset in &[0, 3, 128, 129] {
                            let p = depthwise_params(dm, in_c, fh, fw, spatial, spatial, stride, Padding::Same, offset);
                            check_depthwise(&p, &mut checked, "grid-depthwise");
                        }
                    }
                }
            }
        }
    }

    // fc: input_dim × output_dim × offset (pad16 small shapes + %16).
    for &input_dim in &[1, 3, 8, 15, 16, 17, 32, 640] {
        for &output_dim in &[1, 16, 128] {
            for &offset in &[0, 5, 128] {
                let p = fc_params(input_dim, output_dim, offset);
                check_fc(&p, &mut checked, "grid-fc");
            }
        }
    }

    // pool: kind × filter (incl. 1x1/2x1 whose reciprocal cannot fit an
    // i8 lane) × stride × pad × ch × hw — the SAME rows where
    // pad_total > 0 / partial windows appear must say false.
    for &kind in &["avg", "max"] {
        for &(fh, fw) in &[(2, 2), (3, 3), (5, 5), (1, 1), (2, 1)] {
            for &stride in &[1, 2] {
                for &padding in &[Padding::Valid, Padding::Same] {
                    for &ch in &[8, 16, 32] {
                        for &hw in &[8, 16] {
                            let p = pool_params(kind, fh, fw, stride, hw, hw, ch, padding);
                            check_pool(&p, &mut checked, "grid-pool");
                        }
                    }
                }
            }
        }
    }

    // elementwise: identity + non-identity offsets/multipliers/shifts/
    // left_shift/clamp mutations — both gates on every variant.
    let mutations: Vec<(&str, fn(&mut ElementwiseParams))> = vec![
        ("identity", |_| {}),
        ("in1_off", |p| p.input1_offset = 5),
        ("in2_off", |p| p.input2_offset = -3),
        ("out_off", |p| p.output_offset = 3),
        ("left_shift_20", |p| p.left_shift = 20),
        ("in1_mult", |p| p.input1_multiplier = 1 << 29),
        ("out_mult", |p| p.output_multiplier = 1 << 29),
        ("out_shift_2", |p| p.output_shift = 2),
        ("out_shift_0", |p| p.output_shift = 0),
        ("relu_clamp", |p| {
            p.quantized_activation_min = 0;
            p.quantized_activation_max = 127;
        }),
    ];
    for (name, mutate) in mutations {
        let mut p = elementwise_base(256);
        mutate(&mut p);
        check_elementwise(&p, &mut checked, &format!("grid-ew-{name}"));
    }

    // relu: identity + each identity-field mutated.
    let relu_cases: Vec<(&str, fn(&mut ActivationParams<'static>))> = vec![
        ("identity", |_| {}),
        ("in_off", |p| p.input_offset = 1),
        ("out_off", |p| p.output_offset = 1),
        ("out_mult", |p| p.output_multiplier = 1 << 29),
        ("out_shift", |p| p.output_shift = 2),
        ("all_off", |p| {
            p.input_offset = 128;
            p.output_offset = -128;
            p.output_multiplier = 1 << 30;
            p.output_shift = 1;
        }),
    ];
    for (name, mutate) in relu_cases {
        let mut p = relu_base();
        mutate(&mut p);
        check_activation(&p, &mut checked, &format!("grid-relu-{name}"));
    }

    // softmax: row sizes across the 16 boundary.
    for &row_size in &[1, 4, 8, 15, 16, 17, 32, 1960] {
        let p = SoftmaxParams {
            num_rows: 1,
            row_size,
            input_multiplier: 0,
            input_left_shift: 0,
            diff_min: 0,
            input_offset: 0,
            output_offset: -128,
            quantized_activation_min: -128,
            quantized_activation_max: 127,
        };
        check_softmax(&p, &mut checked, "grid-softmax");
    }

    // fused chains: identity / mixed / ineligible step mixes.
    let chains: Vec<(&str, Vec<ElementwiseChainStep<'static>>)> = vec![
        ("identity-add", vec![identity_step(ElementwiseKind::Add, true)]),
        (
            "identity-add-relu",
            vec![identity_step(ElementwiseKind::Add, true), relu_step()],
        ),
        (
            "identity-add-mul-relu",
            vec![
                identity_step(ElementwiseKind::Add, true),
                identity_step(ElementwiseKind::Mul, true),
                relu_step(),
            ],
        ),
        ("identity-sub", vec![identity_step(ElementwiseKind::Sub, true)]),
        (
            "identity-mul-shift1",
            vec![{
                let mut s = identity_step(ElementwiseKind::Mul, true);
                s.output_shift = 1;
                s
            }],
        ),
        (
            "mul-shift2",
            vec![{
                let mut s = identity_step(ElementwiseKind::Mul, true);
                s.output_shift = 2;
                s
            }],
        ),
        ("relu6-step", vec![{
            let mut s = relu_step();
            s.kind = ElementwiseKind::Relu6;
            s
        }]),
        ("hard-swish-step", vec![{
            let mut s = relu_step();
            s.kind = ElementwiseKind::HardSwish;
            s
        }]),
        (
            "non-identity-add",
            vec![{
                let mut s = identity_step(ElementwiseKind::Add, true);
                s.input1_offset = 5;
                s
            }],
        ),
        (
            "non-identity-relu",
            vec![{
                let mut s = relu_step();
                s.input1_offset = 3;
                s
            }],
        ),
        ("operand-less-add", vec![identity_step(ElementwiseKind::Add, false)]),
        ("empty", vec![]),
        (
            "add-left-shift-20",
            vec![{
                let mut s = identity_step(ElementwiseKind::Add, true);
                s.left_shift = 20;
                s
            }],
        ),
        (
            "non-identity-mul",
            vec![{
                let mut s = identity_step(ElementwiseKind::Mul, true);
                s.output_multiplier = 1 << 29;
                s
            }],
        ),
    ];
    for (name, steps) in chains {
        let p = ElementwiseChainParams {
            num_elements: 256,
            steps: &steps,
        };
        check_chain(&p, &mut checked, &format!("grid-chain-{name}"));
    }

    // fused pool-fold: eligible/ineligible pools × fold presence/kind.
    let pools: Vec<(&str, PoolParams)> = vec![
        // 2×2/stride-2 SAME on even input → pad_total == 0 → eligible.
        ("even-2x2-s2", pool_params("avg", 2, 2, 2, 8, 8, 16, Padding::Same)),
        // 3×3 VALID → pad_total == 0, area 9 → eligible.
        ("valid-3x3", pool_params("avg", 3, 3, 1, 8, 8, 16, Padding::Valid)),
        // 2×2/stride-1 SAME → pad_total 1 → ineligible.
        ("asym-2x2-s1", pool_params("max", 2, 2, 1, 8, 8, 16, Padding::Same)),
        // channels % 16 != 0 → ineligible.
        ("c8-pool", pool_params("avg", 2, 2, 2, 8, 8, 8, Padding::Valid)),
    ];
    let folds: Vec<(&str, Option<PoolInputFold<'static>>)> = vec![
        ("no-fold", None),
        ("mul-identity", Some(pool_fold(18, 0, 0, 0, 1 << 30, 0, 0))),
        ("mul-nonidentity", Some(pool_fold(18, 0, 0, 0, 1 << 29, 0, 0))),
        ("sub-identity", Some(pool_fold(41, 0, 0, 0, 1 << 30, 1, 0))),
        ("sub-nonidentity", Some(pool_fold(41, 5, 0, 0, 1 << 30, 1, 0))),
        ("builtin-other", Some(pool_fold(0, 0, 0, 0, 1 << 30, 1, 0))),
    ];
    for (pname, pool) in &pools {
        for (fname, fold) in &folds {
            let p = folded_pool_params(pool.clone(), fold.clone());
            check_fused_pool(&p, &mut checked, &format!("grid-poolfold-{pname}-{fname}"));
        }
    }

    assert!(
        checked >= 1800,
        "widened eligibility grid did not expand ({checked} shapes)"
    );
}

#[test]
fn pool_mirror_matches_s3_gate_expectations() {
    let base = |fh: i32, fw: i32, sh: i32, sw: i32, ih: i32, iw: i32, c: i32| {
        let (oh, ow) = ((ih - fh) / sh + 1, (iw - fw) / sw + 1);
        PoolParams {
            input_shape: [1, ih, iw, c],
            output_shape: [1, oh, ow, c],
            filter_width: fw,
            filter_height: fh,
            stride_width: sw,
            stride_height: sh,
            padding: Padding::Valid,
            activation: FusedActivation::Identity,
            quantized_activation_min: i8::MIN as i32,
            quantized_activation_max: i8::MAX as i32,
        }
    };
    let expect = |p: &PoolParams, want: bool, what: &str| {
        assert_eq!(
            simd_eligible_pool(p),
            want,
            "{what}: host must say {want}"
        );
    };
    expect(&base(2, 2, 2, 2, 32, 32, 16), true, "legacy 2x2 s2 p0");
    expect(&base(3, 3, 1, 1, 8, 8, 16), true, "3x3 s1 p0");
    expect(&base(5, 5, 1, 1, 8, 8, 16), true, "5x5 s1 p0");
    expect(&base(3, 3, 2, 2, 8, 8, 16), true, "3x3 s2 p0");
    expect(&base(2, 2, 2, 2, 32, 32, 8), false, "C%16");
    expect(&base(1, 1, 1, 1, 8, 8, 16), false, "1x1 (reciprocal)");
    expect(&base(2, 1, 1, 1, 8, 8, 16), false, "2x1 (reciprocal)");
    let mut same = base(3, 3, 1, 1, 8, 8, 16);
    same.output_shape = [1, 8, 8, 16];
    same.padding = Padding::Same;
    expect(&same, false, "3x3 SAME pad>0");
    let mut same_even = base(2, 2, 2, 2, 8, 8, 16);
    same_even.output_shape = [1, 4, 4, 16];
    same_even.padding = Padding::Same;
    expect(&same_even, true, "2x2 s2 SAME even (pad_total 0)");
    let mut asym = base(2, 2, 1, 1, 8, 8, 16);
    asym.output_shape = [1, 8, 8, 16];
    asym.padding = Padding::Same;
    expect(&asym, false, "asymmetric SAME partial windows");
}

#[test]
fn reciprocals_of_areas_match_the_device() {
    let areas = [i32::MIN, -1 << 20, -513, -512, -511, -3, -2, -1, 1, 2, 3, 511, 512, 513, i32::MAX];
    for area in areas {
        assert_eq!(pool_area_inv(area), device_pool_area_inv(area), "{area}");
        for shift in [0, 1, 8, 24, 31, 32, 45, 62] {
            assert_eq!(
                pool_round_recip(area, shift),
                device_round_recip(area, shift),
                "{area} {shift}"
            );
        }
    }
    assert_eq!(pool_area_inv(-3), None);
    assert_eq!(pool_area_inv(9), Some((8, [28; 16])));
    assert_eq!(pool_round_recip(-3, 8), -85);
}
