//! Which kernels can run on the vector unit.
//!
//! Each gate is what the vector kernel of an operator demands of shapes and
//! fixed-point parameters. Pointer alignment and scratch size are checked where
//! the kernel runs.

use crate::model::{MUL, SUB};
use crate::op_params::{ActivationParams, ElementwiseChainParams, ElementwiseChainStep};
use crate::op_params::{ElementwiseKind, ElementwiseParams, FoldedPoolParams};
use crate::op_params::{PoolInputFold, PoolParams};
use crate::requant::{negate, to_word};
use vstd::prelude::*;

verus! {

/// The multiplier of the factor one, with the shift one.
pub const IDENTITY_MULTIPLIER: i32 = 0x4000_0000;

/// Whether a pointwise layer fits without padding its channels.
pub fn accx_eligible_1x1(input_c: usize, out_c: usize) -> (r: bool)
    ensures
        r == (input_c >= 16 && input_c % 16 == 0 && out_c >= 1),
{
    input_c >= 16 && input_c % 16 == 0 && out_c >= 1
}

/// Whether a pointwise layer fits with its channels padded in scratch.
pub fn accx_eligible_1x1_padded(input_c: usize, out_c: usize) -> (r: bool)
    ensures
        r == (input_c >= 1 && out_c >= 1),
{
    input_c >= 1 && out_c >= 1
}

/// Whether a 3x3 layer fits.
pub fn accx_eligible_3x3(input_c: usize, out_c: usize) -> (r: bool)
    ensures
        r == (input_c >= 1 && out_c >= 1),
{
    input_c >= 1 && out_c >= 1
}

/// The output channels per input channel, at least one.
pub open spec fn fan_out(depth_multiplier: i32) -> int {
    if depth_multiplier < 1 {
        1
    } else {
        depth_multiplier as int
    }
}

/// Whether a depthwise layer fits: its channels must be the input channels
/// times the depth multiplier.
pub fn accx_eligible_depthwise_dm(input_c: usize, out_c: usize, depth_multiplier: i32) -> (r: bool)
    ensures
        r == (input_c >= 1 && out_c >= 1 && out_c == input_c * fan_out(depth_multiplier)),
{
    let dm: u128 = if depth_multiplier < 1 { 1 } else { depth_multiplier as u128 };
    assert(0 <= input_c * dm <= 0xffff_ffff_ffff_ffff * 0x7fff_ffff) by (nonlinear_arith)
        requires
            0 <= input_c <= 0xffff_ffff_ffff_ffff,
            0 <= dm <= 0x7fff_ffff,
    ;
    input_c >= 1 && out_c >= 1 && out_c as u128 == input_c as u128 * dm
}

/// What the pointwise convolution kernel demands.
pub open spec fn conv1x1_fits(
    input_c: int,
    out_c: int,
    stride_h: int,
    stride_w: int,
    dil_h: int,
    dil_w: int,
    in_h: int,
    in_w: int,
    out_h: int,
    out_w: int,
) -> bool {
    &&& stride_h == 1 && stride_w == 1
    &&& dil_h == 1 && dil_w == 1
    &&& in_h == out_h && in_w == out_w
    &&& input_c >= 1 && out_c >= 1
}

/// Whether the pointwise convolution kernel runs: stride and dilation one, and
/// input and output of one size.
pub fn conv1x1_dispatch_eligible(
    input_c: usize,
    out_c: usize,
    stride_h: i32,
    stride_w: i32,
    dil_h: i32,
    dil_w: i32,
    in_h: usize,
    in_w: usize,
    out_h: usize,
    out_w: usize,
) -> (r: bool)
    ensures
        r == conv1x1_fits(
            input_c as int,
            out_c as int,
            stride_h as int,
            stride_w as int,
            dil_h as int,
            dil_w as int,
            in_h as int,
            in_w as int,
            out_h as int,
            out_w as int,
        ),
{
    stride_h == 1 && stride_w == 1 && dil_h == 1 && dil_w == 1 && in_h == out_h && in_w == out_w
        && accx_eligible_1x1_padded(input_c, out_c)
}

/// What the 3x3 convolution kernel demands. The fill of its padding must fit in
/// a byte.
pub open spec fn conv3x3_fits(
    input_c: int,
    out_c: int,
    filter_h: int,
    filter_w: int,
    dil_h: int,
    dil_w: int,
    input_offset: int,
) -> bool {
    &&& dil_h == 1 && dil_w == 1
    &&& filter_h == 3 && filter_w == 3
    &&& input_c >= 1 && out_c >= 1
    &&& -127 <= input_offset <= 127
}

/// Whether the 3x3 convolution kernel runs.
pub fn conv3x3_dispatch_eligible(
    input_c: usize,
    out_c: usize,
    filter_h: i32,
    filter_w: i32,
    dil_h: i32,
    dil_w: i32,
    input_offset: i32,
) -> (r: bool)
    ensures
        r == conv3x3_fits(
            input_c as int,
            out_c as int,
            filter_h as int,
            filter_w as int,
            dil_h as int,
            dil_w as int,
            input_offset as int,
        ),
{
    if dil_h != 1 || dil_w != 1 || filter_h != 3 || filter_w != 3 || !accx_eligible_3x3(
        input_c,
        out_c,
    ) {
        return false;
    }
    -127 <= input_offset && input_offset <= 127
}

/// What the depthwise kernel demands.
pub open spec fn depthwise_fits(
    input_c: int,
    out_c: int,
    depth_multiplier: i32,
    filter_h: int,
    filter_w: int,
    dil_h: int,
    dil_w: int,
    input_offset: int,
) -> bool {
    &&& dil_h == 1 && dil_w == 1
    &&& filter_h >= 1 && filter_w >= 1
    &&& input_c >= 1 && out_c >= 1 && out_c == input_c * fan_out(depth_multiplier)
    &&& -127 <= input_offset <= 128
}

/// Whether the depthwise kernel runs.
pub fn depthwise_dispatch_eligible(
    input_c: usize,
    out_c: usize,
    depth_multiplier: i32,
    filter_h: i32,
    filter_w: i32,
    dil_h: i32,
    dil_w: i32,
    input_offset: i32,
) -> (r: bool)
    ensures
        r == depthwise_fits(
            input_c as int,
            out_c as int,
            depth_multiplier,
            filter_h as int,
            filter_w as int,
            dil_h as int,
            dil_w as int,
            input_offset as int,
        ),
{
    if dil_h != 1 || dil_w != 1 || filter_h < 1 || filter_w < 1 || !accx_eligible_depthwise_dm(
        input_c,
        out_c,
        depth_multiplier,
    ) {
        return false;
    }
    -127 <= input_offset && input_offset <= 128
}

/// Whether the fully connected kernel runs. The input offset does not matter.
pub fn fc_dispatch_eligible(input_dim: usize, output_dim: usize) -> (r: bool)
    ensures
        r == (input_dim >= 1 && output_dim >= 1),
{
    accx_eligible_1x1_padded(input_dim, output_dim)
}

/// `p / area` for a positive `p`: half the area is added first, and every
/// division rounds towards zero. For a positive area that is the nearest
/// integer, a half going up.
pub open spec fn rounded_quotient(p: int, area: int) -> int {
    let size = -area;
    if area > 0 {
        (p + area / 2) / area
    } else if p >= size / 2 {
        -((p - size / 2) / size)
    } else {
        0
    }
}

/// The low word of `2^shift / area`, rounded.
pub fn pool_round_recip(area: i32, shift: i32) -> (r: i32)
    requires
        area != 0,
        0 <= shift <= 62,
    ensures
        r == rounded_quotient(
            vstd::arithmetic::power2::pow2(shift as nat) as int,
            area as int,
        ) as i32,
{
    let s: u32 = shift as u32;
    proof {
        lemma_shift_is_power(s);
    }
    let num: i64 = 1i64 << s;
    if area > 0 {
        let sum: i64 = num + area as i64 / 2;
        (sum / area as i64) as i32
    } else {
        let size: i64 = -(area as i64);
        let rest: i64 = num - size / 2;
        if rest < 0 {
            return 0;
        }
        let q: i64 = rest / size;
        assert(0 <= q <= rest) by (nonlinear_arith)
            requires
                q == rest / size,
                rest >= 0,
                size >= 1,
        ;
        (-q) as i32
    }
}

proof fn lemma_shift_is_power(s: u32)
    requires
        s <= 62,
    ensures
        (1i64 << s) == vstd::arithmetic::power2::pow2(s as nat),
        1 <= (1i64 << s) <= 0x4000_0000_0000_0000,
        s <= 24 ==> (1i64 << s) <= 0x100_0000,
{
    vstd::arithmetic::power2::lemma2_to64();
    let u = s as u64;
    assert((1i64 << s) == (1u64 << u) && 1 <= (1i64 << s) <= 0x4000_0000_0000_0000 && (s <= 24
        ==> (1i64 << s) <= 0x100_0000)) by (bit_vector)
        requires
            s <= 62,
            u == s as u64,
    ;
    vstd::bits::lemma_u64_pow2_no_overflow(u as nat);
    vstd::bits::lemma_u64_shl_is_mul(1, u);
}

proof fn lemma_quotient_is_small(p: int, area: int)
    requires
        1 <= p <= 0x100_0000,
        area != 0,
    ensures
        -0x100_0000 <= rounded_quotient(p, area) <= 0x100_0001,
        area < 0 ==> rounded_quotient(p, area) <= 0,
{
    let size = if area > 0 {
        area
    } else {
        -area
    };
    let n = if area > 0 {
        p + area / 2
    } else {
        p - size / 2
    };
    if n >= 0 {
        vstd::arithmetic::div_mod::lemma_fundamental_div_mod(n, size);
        assert(0 <= n / size <= 0x100_0001 && (n <= 0x100_0000 ==> n / size <= 0x100_0000))
            by (nonlinear_arith)
            requires
                0 <= n <= 0x100_0000 + size / 2,
                1 <= size,
                n == size * (n / size) + n % size,
                0 <= n % size < size,
                0 <= size / 2 <= size,
        ;
    }
}

/// The reciprocal of a window area as a shift and sixteen equal lanes. It fits
/// in a byte for the areas from 3 to 512.
pub fn pool_area_inv(area: i32) -> (r: Option<(i32, [i8; 16])>)
    requires
        area != 0,
    ensures
        r is Some <==> 3 <= area <= 512,
        r matches Some((shift, lanes)) ==> shift == 8 && forall|k: int|
            0 <= k < 16 ==> #[trigger] lanes@[k] == (256 + area / 2) / (area as int),
{
    let mut shift: i32 = 8;
    let mut inv: i32 = pool_round_recip(area, shift);
    proof {
        vstd::arithmetic::power2::lemma2_to64();
        lemma_quotient_is_small(256, area as int);
        if area > 0 {
            lemma_area_inv(area as int, 256);
        }
    }
    while inv > 127 && shift < 24
        invariant
            8 <= shift <= 24,
            area != 0,
            area < 0 ==> inv <= 0,
            0 < area < 3 ==> inv > 127,
            area >= 3 ==> shift == 8 && inv <= 127,
            area >= 3 ==> inv == (256 + area / 2) / (area as int),
        decreases 24 - shift,
    {
        shift = shift + 1;
        inv = pool_round_recip(area, shift);
        proof {
            let p = vstd::arithmetic::power2::pow2(shift as nat);
            vstd::arithmetic::power2::lemma2_to64();
            vstd::arithmetic::power2::lemma_pow2_strictly_increases(8, shift as nat);
            lemma_shift_is_power(shift as u32);
            lemma_quotient_is_small(p as int, area as int);
            lemma_area_inv(area as int, p as int);
        }
    }
    if inv < 1 || inv > 127 {
        return None;
    }
    let lane: i8 = inv as i8;
    Some((shift, [lane; 16]))
}

/// How the rounded reciprocal of an area behaves.
proof fn lemma_area_inv(area: int, p: int)
    requires
        area >= 1,
        p >= 256,
    ensures
        area < 3 ==> (p + area / 2) / area > 127,
        area >= 3 ==> (256 + area / 2) / area <= 127,
        3 <= area <= 512 ==> (256 + area / 2) / area >= 1,
        area > 512 ==> (256 + area / 2) / area == 0,
{
    if area >= 3 {
        let q = (256 + area / 2) / area;
        vstd::arithmetic::div_mod::lemma_fundamental_div_mod(256 + area / 2, area);
        assert(q <= 127 && (area <= 512 ==> q >= 1) && (area > 512 ==> q == 0)) by (nonlinear_arith)
            requires
                area >= 3,
                256 + area / 2 == area * q + (256 + area / 2) % area,
                0 <= (256 + area / 2) % area < area,
        ;
    } else if area == 1 {
        assert((p + 1int / 2) / 1 == p);
    } else {
        assert((p + 2int / 2) / 2 > 127);
    }
}

/// What the vector pool demands: no padding, no partial window, channels in
/// whole vectors, and a window area whose reciprocal fits.
pub open spec fn window_fits(
    in_h: int,
    in_w: int,
    channels: int,
    out_h: int,
    out_w: int,
    filter_h: int,
    filter_w: int,
    stride_h: int,
    stride_w: int,
) -> bool {
    &&& filter_h >= 1 && filter_w >= 1
    &&& stride_h >= 1 && stride_w >= 1
    &&& (out_h - 1) * stride_h + filter_h <= in_h
    &&& (out_w - 1) * stride_w + filter_w <= in_w
    &&& channels > 0 && channels % 16 == 0
    &&& 3 <= filter_h * filter_w <= 512
}

/// [`window_fits`] of the parameters of a pool.
pub open spec fn pool_fits(params: PoolParams) -> bool {
    window_fits(
        params.input_shape@[1] as int,
        params.input_shape@[2] as int,
        params.input_shape@[3] as int,
        params.output_shape@[1] as int,
        params.output_shape@[2] as int,
        params.filter_height as int,
        params.filter_width as int,
        params.stride_height as int,
        params.stride_width as int,
    )
}

fn window_end(out: i32, stride: i32, filter: i32) -> (r: i128)
    ensures
        r == (out - 1) * stride + filter,
{
    assert(-0x1_0000_0000 * 0x8000_0000 <= (out - 1) * stride <= 0x1_0000_0000 * 0x8000_0000)
        by (nonlinear_arith)
        requires
            -0x8000_0000 <= out <= 0x7fff_ffff,
            -0x8000_0000 <= stride <= 0x7fff_ffff,
    ;
    (out as i128 - 1) * (stride as i128) + filter as i128
}

/// Whether the vector pool runs.
pub fn simd_eligible_pool(params: &PoolParams) -> (r: bool)
    ensures
        r == pool_fits(*params),
{
    let input_h: i32 = params.input_shape[1];
    let input_w: i32 = params.input_shape[2];
    let channels: i32 = params.input_shape[3];
    let filter_h: i32 = params.filter_height;
    let filter_w: i32 = params.filter_width;
    let end_h: i128 = window_end(params.output_shape[1], params.stride_height, filter_h);
    let end_w: i128 = window_end(params.output_shape[2], params.stride_width, filter_w);
    if filter_h < 1 || filter_w < 1 || params.stride_height < 1 || params.stride_width < 1 || end_h
        > input_h as i128 || end_w > input_w as i128 || channels <= 0 || channels % 16 != 0 {
        return false;
    }
    assert(1 <= filter_h * filter_w <= 0x7fff_ffff * 0x7fff_ffff && (filter_h > 512 || filter_w > 512
        ==> filter_h * filter_w > 512)) by (nonlinear_arith)
        requires
            1 <= filter_h <= 0x7fff_ffff,
            1 <= filter_w <= 0x7fff_ffff,
    ;
    let area: i64 = filter_h as i64 * filter_w as i64;
    if area > 0x7fff_ffff {
        return false;
    }
    pool_area_inv(area as i32).is_some()
}

/// Whether a pair is that of the factor one.
pub open spec fn is_identity(multiplier: int, shift: int) -> bool {
    multiplier == IDENTITY_MULTIPLIER && shift == 1
}

/// Whether an elementwise operator has zero points of zero and no activation.
pub open spec fn is_raw(params: ElementwiseParams) -> bool {
    &&& params.input1_offset == 0 && params.input2_offset == 0 && params.output_offset == 0
    &&& params.quantized_activation_min == -128 && params.quantized_activation_max == 127
}

/// What the vector addition demands: it adds bytes and scales nothing.
pub open spec fn add_fits(params: ElementwiseParams) -> bool {
    &&& is_raw(params)
    &&& params.left_shift <= 0
    &&& is_identity(params.input1_multiplier as int, params.input1_shift as int)
    &&& is_identity(params.input2_multiplier as int, params.input2_shift as int)
    &&& is_identity(params.output_multiplier as int, params.output_shift as int)
}

/// What the vector multiplication demands: its scale is a power of two, not
/// above one.
pub open spec fn mul_fits(params: ElementwiseParams) -> bool {
    &&& is_raw(params)
    &&& params.output_multiplier == IDENTITY_MULTIPLIER
    &&& params.output_shift <= 1
}

/// Whether the vector addition or subtraction is exact.
pub fn simd_eligible_add_sub(params: &ElementwiseParams) -> (r: bool)
    ensures
        r == add_fits(*params),
{
    params.input1_offset == 0 && params.input2_offset == 0 && params.output_offset == 0
        && params.quantized_activation_min == -128 && params.quantized_activation_max == 127
        && params.left_shift <= 0 && params.input1_multiplier == IDENTITY_MULTIPLIER
        && params.input1_shift == 1 && params.input2_multiplier == IDENTITY_MULTIPLIER
        && params.input2_shift == 1 && params.output_multiplier == IDENTITY_MULTIPLIER
        && params.output_shift == 1
}

/// Whether the vector multiplication is exact.
fn mul_is_exact(params: &ElementwiseParams) -> (r: bool)
    ensures
        r == mul_fits(*params),
{
    params.input1_offset == 0 && params.input2_offset == 0 && params.output_offset == 0
        && params.quantized_activation_min == -128 && params.quantized_activation_max == 127
        && params.output_multiplier == IDENTITY_MULTIPLIER && params.output_shift <= 1
}

/// The right shift of the vector multiplication, where it is exact.
pub fn simd_eligible_mul(params: &ElementwiseParams) -> (r: Option<i32>)
    requires
        mul_fits(*params) ==> params.output_shift > i32::MIN + 1,
    ensures
        r == if mul_fits(*params) {
            Some((1 - params.output_shift) as i32)
        } else {
            None
        },
{
    if mul_is_exact(params) {
        Some(1 - params.output_shift)
    } else {
        None
    }
}

/// Whether the lane-wise addition runs: it computes the scalar arithmetic for
/// all parameters.
pub fn simd_eligible_add_sub_widened(_params: &ElementwiseParams) -> (r: bool)
    ensures
        r,
{
    true
}

/// Whether the lane-wise multiplication runs: it computes the scalar arithmetic
/// for all parameters.
pub fn simd_eligible_mul_widened(_params: &ElementwiseParams) -> (r: bool)
    ensures
        r,
{
    true
}

/// What the vector ReLU demands: it scales nothing.
pub open spec fn relu_fits(params: ActivationParams) -> bool {
    &&& params.input_offset == 0 && params.output_offset == 0
    &&& is_identity(params.output_multiplier as int, params.output_shift as int)
}

/// Whether the vector ReLU is exact.
pub fn relu_simd_eligible_params(params: &ActivationParams) -> (r: bool)
    ensures
        r == relu_fits(*params),
{
    params.input_offset == 0 && params.output_offset == 0 && params.output_multiplier
        == IDENTITY_MULTIPLIER && params.output_shift == 1
}

/// Whether the lane-wise ReLU6 runs: it does for all parameters.
pub fn relu6_simd_eligible_params(_params: &ActivationParams) -> (r: bool)
    ensures
        r,
{
    true
}

/// Whether the lane-wise hard swish runs: it does for all parameters.
pub fn hard_swish_simd_eligible_params(_params: &ActivationParams) -> (r: bool)
    ensures
        r,
{
    true
}

/// Whether the vector softmax runs: a row fills at least one vector.
pub fn softmax_row_simd_eligible(row_size: i32) -> (r: bool)
    ensures
        r == (row_size >= 16),
{
    row_size >= 16
}

/// The parameters of a step as those of an elementwise operator.
pub open spec fn step_params(step: ElementwiseChainStep, num_elements: i32) -> ElementwiseParams {
    ElementwiseParams {
        num_elements,
        input1_offset: step.input1_offset,
        input2_offset: step.input2_offset,
        output_offset: step.output_offset,
        output_multiplier: step.output_multiplier,
        output_shift: step.output_shift,
        left_shift: step.left_shift,
        input1_multiplier: step.input1_multiplier,
        input1_shift: step.input1_shift,
        input2_multiplier: step.input2_multiplier,
        input2_shift: step.input2_shift,
        quantized_activation_min: step.quantized_activation_min,
        quantized_activation_max: step.quantized_activation_max,
    }
}

/// The parameters of a step as those of an elementwise operator.
pub fn chain_step_elementwise_view(step: &ElementwiseChainStep, num_elements: i32) -> (r:
    ElementwiseParams)
    ensures
        r == step_params(*step, num_elements),
{
    ElementwiseParams {
        num_elements,
        input1_offset: step.input1_offset,
        input2_offset: step.input2_offset,
        output_offset: step.output_offset,
        output_multiplier: step.output_multiplier,
        output_shift: step.output_shift,
        left_shift: step.left_shift,
        input1_multiplier: step.input1_multiplier,
        input1_shift: step.input1_shift,
        input2_multiplier: step.input2_multiplier,
        input2_shift: step.input2_shift,
        quantized_activation_min: step.quantized_activation_min,
        quantized_activation_max: step.quantized_activation_max,
    }
}

/// The parameters of a step as those of an activation; what no chain step uses
/// is zero.
pub fn chain_step_activation_view<'a>(step: &ElementwiseChainStep<'a>) -> (r: ActivationParams<'a>)
    ensures
        r.input_offset == step.input1_offset,
        r.output_offset == step.output_offset,
        r.output_multiplier == step.output_multiplier,
        r.output_shift == step.output_shift,
        r.quantized_activation_min == step.quantized_activation_min,
        r.quantized_activation_max == step.quantized_activation_max,
        r.input_multiplier == 0 && r.input_left_shift == 0 && r.input_range_radius == 0,
        r.output_multiplier_alpha == 0 && r.output_shift_alpha == 0,
        r.output_multiplier_identity == 0 && r.output_shift_identity == 0,
        r.alpha_offset == 0 && r.alpha_data@.len() == 0,
        r.output_multiplier_1 == 0 && r.output_shift_1 == 0,
        r.output_multiplier_2 == 0 && r.output_shift_2 == 0,
        r.reluish_multiplier_fixedpoint_int16 == 0 && r.reluish_multiplier_exponent == 0,
        r.output_multiplier_fixedpoint_int16 == 0 && r.output_multiplier_exponent == 0,
{
    ActivationParams {
        input_offset: step.input1_offset,
        output_offset: step.output_offset,
        output_multiplier: step.output_multiplier,
        output_shift: step.output_shift,
        quantized_activation_min: step.quantized_activation_min,
        quantized_activation_max: step.quantized_activation_max,
        input_multiplier: 0,
        input_left_shift: 0,
        input_range_radius: 0,
        output_multiplier_alpha: 0,
        output_shift_alpha: 0,
        output_multiplier_identity: 0,
        output_shift_identity: 0,
        alpha_offset: 0,
        alpha_data: &[],
        output_multiplier_1: 0,
        output_shift_1: 0,
        output_multiplier_2: 0,
        output_shift_2: 0,
        reluish_multiplier_fixedpoint_int16: 0,
        reluish_multiplier_exponent: 0,
        output_multiplier_fixedpoint_int16: 0,
        output_multiplier_exponent: 0,
    }
}

/// What the vector chain looks at in a step.
pub struct StepView {
    pub kind: ElementwiseKind,
    pub has_operand: bool,
    pub params: ElementwiseParams,
}

/// What the vector chain looks at in a step.
pub open spec fn step_view(step: ElementwiseChainStep, num_elements: i32) -> StepView {
    StepView {
        kind: step.kind,
        has_operand: step.operand is Some,
        params: step_params(step, num_elements),
    }
}

/// What the vector chain demands of a step: operand and exactness of an
/// elementwise step, exactness of a ReLU; it knows no other activation.
pub open spec fn view_fits(v: StepView) -> bool {
    match v.kind {
        ElementwiseKind::Add | ElementwiseKind::Sub => v.has_operand && add_fits(v.params),
        ElementwiseKind::Mul => v.has_operand && mul_fits(v.params),
        ElementwiseKind::Relu => v.params.input1_offset == 0 && v.params.output_offset == 0
            && is_identity(v.params.output_multiplier as int, v.params.output_shift as int),
        ElementwiseKind::Relu6 | ElementwiseKind::HardSwish => false,
    }
}

/// [`view_fits`] of a step.
pub open spec fn step_fits(step: ElementwiseChainStep, num_elements: i32) -> bool {
    view_fits(step_view(step, num_elements))
}

/// What the vector chain demands: at least one step, and every step fits.
pub open spec fn chain_fits(steps: Seq<ElementwiseChainStep>, num_elements: i32) -> bool {
    &&& steps.len() > 0
    &&& forall|k: int| 0 <= k < steps.len() ==> step_fits(#[trigger] steps[k], num_elements)
}

fn step_is_exact(step: &ElementwiseChainStep, num_elements: i32) -> (r: bool)
    ensures
        r == step_fits(*step, num_elements),
{
    match step.kind {
        ElementwiseKind::Add | ElementwiseKind::Sub => {
            step.operand.is_some() && simd_eligible_add_sub(
                &chain_step_elementwise_view(step, num_elements),
            )
        },
        ElementwiseKind::Mul => {
            step.operand.is_some() && mul_is_exact(&chain_step_elementwise_view(step, num_elements))
        },
        ElementwiseKind::Relu => relu_simd_eligible_params(&chain_step_activation_view(step)),
        ElementwiseKind::Relu6 | ElementwiseKind::HardSwish => false,
    }
}

/// Whether the vector chain runs.
pub fn chain_simd_eligible(params: &ElementwiseChainParams) -> (r: bool)
    ensures
        r == chain_fits(params.steps@, params.num_elements),
{
    let mut k: usize = 0;
    while k < params.steps.len()
        invariant
            k <= params.steps@.len(),
            forall|j: int|
                0 <= j < k ==> step_fits(#[trigger] params.steps@[j], params.num_elements),
        decreases params.steps@.len() - k,
    {
        if !step_is_exact(&params.steps[k], params.num_elements) {
            assert(!step_fits(params.steps@[k as int], params.num_elements));
            return false;
        }
        k = k + 1;
    }
    params.steps.len() > 0
}

/// The parameters of a fold as those of an elementwise operator.
pub open spec fn fold_params(fold: PoolInputFold) -> ElementwiseParams {
    ElementwiseParams {
        num_elements: fold.num_elements,
        input1_offset: crate::requant::negated(crate::requant::low_word(fold.input_zero_point)),
        input2_offset: crate::requant::negated(crate::requant::low_word(fold.operand_zero_point)),
        output_offset: crate::requant::low_word(fold.output_zero_point),
        output_multiplier: fold.output_multiplier,
        output_shift: fold.output_shift,
        left_shift: fold.left_shift,
        input1_multiplier: fold.input1_multiplier,
        input1_shift: fold.input1_shift,
        input2_multiplier: fold.input2_multiplier,
        input2_shift: fold.input2_shift,
        quantized_activation_min: -128i32,
        quantized_activation_max: 127,
    }
}

/// What a fused pool demands of its fold: a multiplication or subtraction that
/// is exact on the vector unit.
pub open spec fn fold_fits(builtin: i32, params: ElementwiseParams) -> bool {
    (builtin == MUL && mul_fits(params)) || (builtin == SUB && add_fits(params))
}

/// The parameters of a fold as those of an elementwise operator.
pub fn fold_elementwise_view(fold: &PoolInputFold) -> (r: ElementwiseParams)
    ensures
        r == fold_params(*fold),
{
    ElementwiseParams {
        num_elements: fold.num_elements,
        input1_offset: negate(to_word(fold.input_zero_point)),
        input2_offset: negate(to_word(fold.operand_zero_point)),
        output_offset: to_word(fold.output_zero_point),
        output_multiplier: fold.output_multiplier,
        output_shift: fold.output_shift,
        left_shift: fold.left_shift,
        input1_multiplier: fold.input1_multiplier,
        input1_shift: fold.input1_shift,
        input2_multiplier: fold.input2_multiplier,
        input2_shift: fold.input2_shift,
        quantized_activation_min: -128,
        quantized_activation_max: 127,
    }
}

/// Whether a folded operator is exact on the vector unit.
pub fn fold_is_exact(builtin: i32, params: &ElementwiseParams) -> (r: bool)
    ensures
        r == fold_fits(builtin, *params),
{
    if builtin == MUL {
        mul_is_exact(params)
    } else if builtin == SUB {
        simd_eligible_add_sub(params)
    } else {
        false
    }
}

/// Whether the fold of a fused pool is exact on the vector unit.
pub fn fold_simd_exact(fold: &PoolInputFold) -> (r: bool)
    ensures
        r == fold_fits(fold.builtin, fold_params(*fold)),
{
    fold_is_exact(fold.builtin, &fold_elementwise_view(fold))
}

/// Whether the fused pool runs: the pool fits, and so does its fold where it
/// has one.
pub fn fused_pool_fold_simd_eligible(params: &FoldedPoolParams) -> (r: bool)
    ensures
        r == (pool_fits(params.pool) && (params.fold matches Some(fold) ==> fold_fits(
            fold.builtin,
            fold_params(fold),
        ))),
{
    if !simd_eligible_pool(&params.pool) {
        return false;
    }
    match &params.fold {
        None => true,
        Some(fold) => fold_simd_exact(fold),
    }
}

/// What fits the vector addition fits the vector multiplication.
pub proof fn law_exact_add_is_exact_mul(params: ElementwiseParams)
    requires
        add_fits(params),
    ensures
        mul_fits(params),
{
}

/// A chain whose steps are a prefix of a fitting chain, and not none, fits.
pub proof fn law_prefix_of_fitting_chain_fits(
    steps: Seq<ElementwiseChainStep>,
    num_elements: i32,
    k: int,
)
    requires
        chain_fits(steps, num_elements),
        0 < k <= steps.len(),
    ensures
        chain_fits(steps.take(k), num_elements),
{
    assert forall|j: int| 0 <= j < k implies step_fits(#[trigger] steps.take(k)[j], num_elements) by {
        assert(steps.take(k)[j] == steps[j]);
    }
}

} // verus!
