//! Operator fusion: groups of operators that one kernel call computes.
//!
//! Five patterns are recognised. A convolution absorbs an activation behind
//! it; a convolution absorbs an addition of an earlier tensor; a convolution
//! absorbs a multiplication that only changes the scale; an elementwise
//! operator absorbs the elementwise operators behind it; a pool or softmax
//! absorbs the multiplication or subtraction in front of it.
//!
//! A tensor between two fused operators has exactly one use and is neither
//! input nor output of the model, and nothing that a group reads is produced
//! behind its anchor.

use crate::model::{contains_index, copy_indices, ParsedModel, ParsedOp, ParsedOptions};
use crate::model::{ADD, AVERAGE_POOL_2D, CONV_2D, DEPTHWISE_CONV_2D, FULLY_CONNECTED};
use crate::model::{HARD_SWISH, MAX_POOL_2D, MUL, NO_TENSOR, RELU, RELU6, SOFTMAX, SUB};
use crate::ieee::{decode32, divide32, divide64, integer_of, multiply, numbers_equal};
use crate::ieee::{round_integer, Number};
use crate::int8::quantize_multiplier;
use crate::op_params::ElementwiseKind;
use crate::requant::{add_input_pair, add_output_pair, negate, product_ratio_pair, ratio_pair};
use crate::requant::{six_in_steps, to_wide, to_word, ADD_LEFT_SHIFT, UNIT_SCALE};
use vstd::prelude::*;

verus! {

/// How often a list of tensor indices names `t`.
pub open spec fn occurrences(list: Seq<u32>, t: u32) -> nat
    decreases list.len(),
{
    if list.len() == 0 {
        0
    } else {
        occurrences(list.drop_last(), t) + (if list.last() == t {
            1nat
        } else {
            0
        })
    }
}

/// How often operators read the tensor `t`.
pub open spec fn uses(ops: Seq<ParsedOp>, t: u32) -> nat
    decreases ops.len(),
{
    if ops.len() == 0 {
        0
    } else {
        uses(ops.drop_last(), t) + occurrences(ops.last().inputs@, t)
    }
}

/// Whether exactly one operator reads `t`, once, and no caller sees it.
pub open spec fn one_use(model: ParsedModel, t: u32) -> bool {
    &&& t != NO_TENSOR
    &&& t < model.tensors@.len()
    &&& uses(model.ops@, t) == 1
    &&& !model.is_model_input(t)
    &&& !model.is_model_output(t)
}

/// The first operator, from index `i` on, that reads `t`.
pub open spec fn reader_from(ops: Seq<ParsedOp>, t: u32, i: nat) -> Option<nat>
    decreases ops.len() - i,
{
    if i >= ops.len() {
        None
    } else if ops[i as int].inputs@.contains(t) {
        Some(i)
    } else {
        reader_from(ops, t, i + 1)
    }
}

/// The first operator, from index `i` on, that writes `t`.
pub open spec fn writer_from(ops: Seq<ParsedOp>, t: u32, i: nat) -> Option<nat>
    decreases ops.len() - i,
{
    if i >= ops.len() {
        None
    } else if ops[i as int].outputs@.contains(t) {
        Some(i)
    } else {
        writer_from(ops, t, i + 1)
    }
}

/// The operator that alone reads `t`.
pub open spec fn sole_reader(model: ParsedModel, t: u32) -> Option<nat> {
    if one_use(model, t) {
        reader_from(model.ops@, t, 0)
    } else {
        None
    }
}

/// The operator that writes `t`.
pub open spec fn writer(model: ParsedModel, t: u32) -> Option<nat> {
    writer_from(model.ops@, t, 0)
}

/// Whether `t` exists when the operator at `op_index` runs.
pub open spec fn exists_before(model: ParsedModel, t: u32, op_index: int) -> bool {
    ||| model.is_constant(t as int)
    ||| model.is_model_input(t)
    ||| writer(model, t) matches Some(p) && p < op_index
}

/// The scale of a tensor.
pub open spec fn scale(model: ParsedModel, t: u32) -> Option<u32> {
    match model.tensor(t as int) {
        Some(tensor) => match tensor.quant {
            Some(q) => Some(q.scale),
            None => None,
        },
        None => None,
    }
}

/// The zero point of a tensor.
pub open spec fn zero_point(model: ParsedModel, t: u32) -> Option<i64> {
    match model.tensor(t as int) {
        Some(tensor) => match tensor.quant {
            Some(q) => Some(q.zero_point),
            None => None,
        },
        None => None,
    }
}

/// Which activation a group applies to its result.
#[derive(Clone, Copy, Debug, PartialEq, Eq, Structural)]
pub enum FusedActivationKind {
    Relu,
    Relu6,
    HardSwish,
}

/// An absorbed activation with the range that it clamps to.
#[derive(Clone, Copy, Debug, PartialEq, Eq, Structural)]
pub struct FusedActivation {
    pub kind: FusedActivationKind,
    pub quantized_min: i32,
    pub quantized_max: i32,
}

/// Fixed-point parameters of one absorbed step. An addition or subtraction
/// scales both inputs and the sum; a multiplication or activation scales its
/// result only.
#[derive(Clone, Copy, Debug, PartialEq, Eq, Structural)]
pub struct StepRequantize {
    pub left_shift: i32,
    pub input1_multiplier: i32,
    pub input1_shift: i32,
    pub input2_multiplier: i32,
    pub input2_shift: i32,
    pub output_multiplier: i32,
    pub output_shift: i32,
    /// Minus the zero point of the running tensor; for an activation, plus it.
    pub input1_offset: i32,
    /// Minus the zero point of the operand; zero for an activation.
    pub input2_offset: i32,
    pub output_offset: i32,
}

/// One operator absorbed into an elementwise chain.
#[derive(Clone, Copy, Debug, PartialEq, Eq, Structural)]
pub struct AbsorbedElementwise {
    pub op_index: usize,
    pub kind: ElementwiseKind,
    /// The input that is not the running tensor, or [`NO_TENSOR`].
    pub operand_tensor: u32,
    pub output_scale: u32,
    pub output_zero_point: i64,
    pub requantize: StepRequantize,
}

/// An addition absorbed into a convolution.
#[derive(Clone, Copy, Debug, PartialEq, Eq, Structural)]
pub struct ResidualAdd {
    pub op_index: usize,
    pub residual_tensor: u32,
    pub output_scale: u32,
    pub output_zero_point: i64,
    pub requantize: StepRequantize,
}

/// A multiplication or subtraction absorbed into the input of a pool or
/// softmax.
#[derive(Clone, Copy, Debug, PartialEq, Eq, Structural)]
pub struct InputFold {
    pub op_index: usize,
    /// MUL or SUB.
    pub builtin: i32,
    /// The tensor that the group reads instead.
    pub folded_input_tensor: u32,
    pub operand_tensor: u32,
    /// MUL: output scale over input scale. SUB: the real constant that is
    /// subtracted.
    pub folded_scale: u32,
    pub input_zero_point: i64,
}

/// A scale change absorbed into the requantization of a convolution.
#[derive(Debug)]
pub struct FoldedRequantize {
    pub op_index: usize,
    pub output_scale: u32,
    pub output_zero_point: i64,
    /// One pair per output channel.
    pub multipliers: Vec<(i32, i32)>,
}

/// One kernel call: an anchor operator with everything absorbed into it.
#[derive(Debug)]
pub struct FusedGroup {
    pub anchor_op_index: usize,
    pub anchor_builtin: i32,
    /// What the kernel reads.
    pub inputs: Vec<u32>,
    /// What the kernel writes.
    pub output_tensor: u32,
    /// Indices of the absorbed operators.
    pub absorbed_ops: Vec<usize>,
    /// Tensors that no longer exist.
    pub eliminated_tensors: Vec<u32>,
    pub activation: Option<FusedActivation>,
    pub elementwise_chain: Vec<AbsorbedElementwise>,
    pub residual_add: Option<ResidualAdd>,
    pub input_fold: Option<InputFold>,
    pub folded_requantize: Option<FoldedRequantize>,
    /// Whether the group changes rounding, so that it may stand in for its
    /// operators only where a comparison has shown equal results.
    pub requires_verification: bool,
}

/// The groups of a model, in the order of their anchors.
#[derive(Debug)]
pub struct FusedSchedule {
    pub groups: Vec<FusedGroup>,
    /// Number of operators of the model.
    pub total_ops: usize,
}

/// A scale change, as a mathematical value.
#[verifier::ext_equal]
pub struct RequantizeView {
    pub op_index: int,
    pub output_scale: u32,
    pub output_zero_point: i64,
    pub multipliers: Seq<(i32, i32)>,
}

/// A group, as a mathematical value.
#[verifier::ext_equal]
pub struct GroupView {
    pub anchor: int,
    pub builtin: i32,
    pub inputs: Seq<u32>,
    pub output: u32,
    pub absorbed: Seq<int>,
    pub eliminated: Seq<u32>,
    pub activation: Option<FusedActivation>,
    pub chain: Seq<AbsorbedElementwise>,
    pub residual: Option<ResidualAdd>,
    pub fold: Option<InputFold>,
    pub requantize: Option<RequantizeView>,
    pub requires_verification: bool,
}

impl View for FoldedRequantize {
    type V = RequantizeView;

    open spec fn view(&self) -> RequantizeView {
        RequantizeView {
            op_index: self.op_index as int,
            output_scale: self.output_scale,
            output_zero_point: self.output_zero_point,
            multipliers: self.multipliers@,
        }
    }
}

impl View for FusedGroup {
    type V = GroupView;

    open spec fn view(&self) -> GroupView {
        GroupView {
            anchor: self.anchor_op_index as int,
            builtin: self.anchor_builtin,
            inputs: self.inputs@,
            output: self.output_tensor,
            absorbed: self.absorbed_ops@.map_values(|i: usize| i as int),
            eliminated: self.eliminated_tensors@,
            activation: self.activation,
            chain: self.elementwise_chain@,
            residual: self.residual_add,
            fold: self.input_fold,
            requantize: match self.folded_requantize {
                Some(r) => Some(r@),
                None => None,
            },
            requires_verification: self.requires_verification,
        }
    }
}

/// Counts, for every tensor, how often operators read it.
pub fn consumer_counts(model: &ParsedModel) -> (counts: Vec<u32>)
    ensures
        counts@.len() == model.tensors@.len(),
        forall|t: u32|
            #![trigger counts@[t as int]]
            t < counts@.len() && t != NO_TENSOR ==> counts@[t as int] == if uses(model.ops@, t)
                > u32::MAX {
                u32::MAX as int
            } else {
                uses(model.ops@, t) as int
            },
{
    let n: usize = model.tensors.len();
    let mut counts: Vec<u32> = Vec::new();
    let mut k: usize = 0;
    while k < n
        invariant
            k <= n,
            counts@.len() == k,
            forall|j: int| 0 <= j < k ==> counts@[j] == 0,
        decreases n - k,
    {
        counts.push(0);
        k = k + 1;
    }
    let mut i: usize = 0;
    while i < model.ops.len()
        invariant
            n == model.tensors@.len(),
            counts@.len() == n,
            i <= model.ops@.len(),
            forall|t: u32|
                #![trigger counts@[t as int]]
                t < n && t != NO_TENSOR ==> counts@[t as int] == if uses(
                    model.ops@.take(i as int),
                    t,
                ) > u32::MAX {
                    u32::MAX as int
                } else {
                    uses(model.ops@.take(i as int), t) as int
                },
        decreases model.ops@.len() - i,
    {
        let op = &model.ops[i];
        let mut j: usize = 0;
        assert(op.inputs@.take(0) =~= Seq::<u32>::empty());
        while j < op.inputs.len()
            invariant
                n == model.tensors@.len(),
                counts@.len() == n,
                i < model.ops@.len(),
                *op == model.ops@[i as int],
                j <= op.inputs@.len(),
                forall|t: u32|
                    #![trigger counts@[t as int]]
                    t < n && t != NO_TENSOR ==> counts@[t as int] == if uses(
                        model.ops@.take(i as int),
                        t,
                    ) + occurrences(op.inputs@.take(j as int), t) > u32::MAX {
                        u32::MAX as int
                    } else {
                        (uses(model.ops@.take(i as int), t) + occurrences(
                            op.inputs@.take(j as int),
                            t,
                        )) as int
                    },
            decreases op.inputs@.len() - j,
        {
            let t: u32 = op.inputs[j];
            if t != NO_TENSOR && (t as usize) < counts.len() {
                let c: u32 = counts[t as usize];
                counts.set(t as usize, c.saturating_add(1));
            }
            j = j + 1;
            assert(op.inputs@.take(j as int).drop_last() =~= op.inputs@.take(j - 1));
            assert(op.inputs@.take(j as int).last() == t);
        }
        i = i + 1;
        assert(op.inputs@.take(op.inputs@.len() as int) =~= op.inputs@);
        assert(model.ops@.take(i as int).drop_last() =~= model.ops@.take(i - 1));
        assert(model.ops@.take(i as int).last() == *op);
    }
    assert(model.ops@.take(model.ops@.len() as int) =~= model.ops@);
    counts
}


/// The value of an optional scale, one where it is absent.
pub open spec fn scale_or_unit(model: ParsedModel, t: u32) -> u32 {
    match scale(model, t) {
        Some(s) => s,
        None => UNIT_SCALE,
    }
}

/// The value of an optional zero point, zero where it is absent.
pub open spec fn zero_point_or_zero(model: ParsedModel, t: u32) -> i64 {
    match zero_point(model, t) {
        Some(z) => z,
        None => 0,
    }
}

/// Whether a step is an activation.
pub open spec fn is_activation(kind: ElementwiseKind) -> bool {
    kind == ElementwiseKind::Relu || kind == ElementwiseKind::Relu6 || kind
        == ElementwiseKind::HardSwish
}

/// The fixed-point parameters of a step from `in1` and `in2` to `out`.
pub open spec fn step_parameters(
    model: ParsedModel,
    in1: u32,
    in2: u32,
    out: u32,
    kind: ElementwiseKind,
) -> StepRequantize {
    let s1 = scale_or_unit(model, in1);
    let s2 = scale_or_unit(model, in2);
    let so = scale_or_unit(model, out);
    let z1 = crate::requant::low_word(zero_point_or_zero(model, in1));
    let z2 = crate::requant::low_word(zero_point_or_zero(model, in2));
    let zo = crate::requant::low_word(zero_point_or_zero(model, out));
    if kind == ElementwiseKind::Add || kind == ElementwiseKind::Sub {
        let a = crate::requant::add_input(s1, s1, s2);
        let b = crate::requant::add_input(s2, s1, s2);
        let c = crate::requant::add_output(s1, s2, so);
        StepRequantize {
            left_shift: ADD_LEFT_SHIFT,
            input1_multiplier: a.0,
            input1_shift: a.1,
            input2_multiplier: b.0,
            input2_shift: b.1,
            output_multiplier: c.0,
            output_shift: c.1,
            input1_offset: crate::requant::negated(z1),
            input2_offset: crate::requant::negated(z2),
            output_offset: zo,
        }
    } else {
        let c = if kind == ElementwiseKind::Mul {
            crate::requant::product_ratio(s1, s2, so)
        } else {
            crate::requant::ratio(s1, so)
        };
        StepRequantize {
            left_shift: 0,
            input1_multiplier: 0,
            input1_shift: 0,
            input2_multiplier: 0,
            input2_shift: 0,
            output_multiplier: c.0,
            output_shift: c.1,
            input1_offset: if is_activation(kind) {
                z1
            } else {
                crate::requant::negated(z1)
            },
            input2_offset: if is_activation(kind) {
                0
            } else {
                crate::requant::negated(z2)
            },
            output_offset: zo,
        }
    }
}

/// The range that an activation clamps to, from the quantization of its output.
pub open spec fn clamp_range(
    kind: FusedActivationKind,
    scale: Option<u32>,
    zero_point: Option<i64>,
) -> (int, int) {
    let s = match scale {
        Some(s) => s,
        None => 0,
    };
    if crate::ieee::is_positive(s) && kind != FusedActivationKind::HardSwish {
        let z = crate::requant::wide_zero_point(
            match zero_point {
                Some(z) => z,
                None => 0,
            },
        );
        let low = crate::int8::clamp_int(z, i32::MIN as int, i32::MAX as int);
        let high = crate::int8::clamp_int(
            z + crate::requant::six(s),
            i32::MIN as int,
            i32::MAX as int,
        );
        (
            if low < -128 {
                -128
            } else {
                low
            },
            if kind == FusedActivationKind::Relu6 && high < 127 {
                high
            } else {
                127
            },
        )
    } else {
        (-128, 127)
    }
}

/// The range that an activation clamps to, from the quantization of its output.
pub fn activation_range(
    kind: FusedActivationKind,
    scale: Option<u32>,
    zero_point: Option<i64>,
) -> (r: (i32, i32))
    ensures
        (r.0 as int, r.1 as int) == clamp_range(kind, scale, zero_point),
{
    let s: u32 = match scale {
        Some(s) => if 0 < s && s <= 0x7f80_0000 {
            s
        } else {
            return (-128, 127);
        },
        None => return (-128, 127),
    };
    if kind == FusedActivationKind::HardSwish {
        return (-128, 127);
    }
    let z: i128 = to_wide(
        match zero_point {
            Some(z) => z,
            None => 0,
        },
    );
    let low: i32 = if z < -128 {
        -128
    } else if z > i32::MAX as i128 {
        i32::MAX
    } else {
        z as i32
    };
    if kind == FusedActivationKind::Relu {
        return (low, 127);
    }
    let sum: i128 = z + six_in_steps(s);
    let high: i32 = if sum > 127 {
        127
    } else if sum < i32::MIN as i128 {
        i32::MIN
    } else {
        sum as i32
    };
    (low, high)
}

/// What the fusion of one model works on.
pub struct Ctx<'a> {
    pub model: &'a ParsedModel,
    /// How often each tensor is read.
    pub consumers: Vec<u32>,
    /// Operators that a pool or softmax absorbs.
    pub fold_targets: Vec<bool>,
    /// Operators that some group has absorbed.
    pub consumed: Vec<bool>,
}

impl<'a> Ctx<'a> {
    /// Whether the use counts are those of the model.
    pub open spec fn counted(&self) -> bool {
        &&& self.consumers@.len() == self.model.tensors@.len()
        &&& forall|t: u32|
            #![trigger self.consumers@[t as int]]
            t < self.consumers@.len() && t != NO_TENSOR ==> self.consumers@[t as int] == if uses(
                self.model.ops@,
                t,
            ) > u32::MAX {
                u32::MAX as int
            } else {
                uses(self.model.ops@, t) as int
            }
    }

    /// Whether exactly one operator reads `t`, once, and no caller sees it.
    pub fn has_one_use(&self, t: u32) -> (r: bool)
        requires
            self.counted(),
        ensures
            r == one_use(*self.model, t),
    {
        if t == NO_TENSOR {
            return false;
        }
        let i: usize = t as usize;
        if i >= self.consumers.len() || self.consumers[i] != 1 {
            return false;
        }
        !contains_index(&self.model.inputs, t) && !contains_index(&self.model.outputs, t)
    }

    /// The operator that alone reads `t`.
    pub fn next_consumer(&self, t: u32) -> (r: Option<usize>)
        requires
            self.counted(),
        ensures
            match r {
                Some(i) => sole_reader(*self.model, t) == Some(i as nat) && i
                    < self.model.ops@.len(),
                None => sole_reader(*self.model, t) is None,
            },
    {
        if !self.has_one_use(t) {
            return None;
        }
        let mut i: usize = 0;
        while i < self.model.ops.len()
            invariant
                i <= self.model.ops@.len(),
                reader_from(self.model.ops@, t, 0) == reader_from(self.model.ops@, t, i as nat),
                one_use(*self.model, t),
            decreases self.model.ops@.len() - i,
        {
            if contains_index(&self.model.ops[i].inputs, t) {
                return Some(i);
            }
            i = i + 1;
        }
        None
    }

    /// The operator that writes `t`.
    pub fn producer(&self, t: u32) -> (r: Option<usize>)
        ensures
            match r {
                Some(i) => writer(*self.model, t) == Some(i as nat) && i < self.model.ops@.len(),
                None => writer(*self.model, t) is None,
            },
    {
        let mut i: usize = 0;
        while i < self.model.ops.len()
            invariant
                i <= self.model.ops@.len(),
                writer_from(self.model.ops@, t, 0) == writer_from(self.model.ops@, t, i as nat),
            decreases self.model.ops@.len() - i,
        {
            if contains_index(&self.model.ops[i].outputs, t) {
                return Some(i);
            }
            i = i + 1;
        }
        None
    }

    /// Whether `t` holds constant data.
    pub fn is_constant(&self, t: u32) -> (r: bool)
        ensures
            r == self.model.is_constant(t as int),
    {
        match self.model.tensor_by_index(t as usize) {
            Some(tensor) => self.model.buffer_data(tensor).is_some(),
            None => false,
        }
    }

    /// Whether `t` exists when the operator at `op_index` runs.
    pub fn available_before(&self, t: u32, op_index: usize) -> (r: bool)
        ensures
            r == exists_before(*self.model, t, op_index as int),
    {
        if self.is_constant(t) || contains_index(&self.model.inputs, t) {
            return true;
        }
        match self.producer(t) {
            Some(p) => p < op_index,
            None => false,
        }
    }

    /// The scale of a tensor.
    pub fn scale_of(&self, t: u32) -> (r: Option<u32>)
        ensures
            r == scale(*self.model, t),
    {
        match self.model.tensor_by_index(t as usize) {
            Some(tensor) => match &tensor.quant {
                Some(q) => Some(q.scale),
                None => None,
            },
            None => None,
        }
    }

    /// The zero point of a tensor.
    pub fn zp_of(&self, t: u32) -> (r: Option<i64>)
        ensures
            r == zero_point(*self.model, t),
    {
        match self.model.tensor_by_index(t as usize) {
            Some(tensor) => match &tensor.quant {
                Some(q) => Some(q.zero_point),
                None => None,
            },
            None => None,
        }
    }

    fn scale_or_one(&self, t: u32) -> (r: u32)
        ensures
            r == scale_or_unit(*self.model, t),
    {
        match self.scale_of(t) {
            Some(s) => s,
            None => UNIT_SCALE,
        }
    }

    fn zp_or_zero(&self, t: u32) -> (r: i64)
        ensures
            r == zero_point_or_zero(*self.model, t),
    {
        match self.zp_of(t) {
            Some(z) => z,
            None => 0,
        }
    }
}

impl StepRequantize {
    /// The fixed-point parameters of a step from `in1` and `in2` to `out`.
    pub fn elementwise(ctx: &Ctx, in1: u32, in2: u32, out: u32, kind: ElementwiseKind) -> (r: Self)
        ensures
            r == step_parameters(*ctx.model, in1, in2, out, kind),
    {
        let s1: u32 = ctx.scale_or_one(in1);
        let s2: u32 = ctx.scale_or_one(in2);
        let so: u32 = ctx.scale_or_one(out);
        let z1: i32 = to_word(ctx.zp_or_zero(in1));
        let z2: i32 = to_word(ctx.zp_or_zero(in2));
        let zo: i32 = to_word(ctx.zp_or_zero(out));
        match kind {
            ElementwiseKind::Add | ElementwiseKind::Sub => {
                let (a, b): (i32, i32) = add_input_pair(s1, s1, s2);
                let (c, d): (i32, i32) = add_input_pair(s2, s1, s2);
                let (e, f): (i32, i32) = add_output_pair(s1, s2, so);
                StepRequantize {
                    left_shift: ADD_LEFT_SHIFT,
                    input1_multiplier: a,
                    input1_shift: b,
                    input2_multiplier: c,
                    input2_shift: d,
                    output_multiplier: e,
                    output_shift: f,
                    input1_offset: negate(z1),
                    input2_offset: negate(z2),
                    output_offset: zo,
                }
            },
            ElementwiseKind::Mul => {
                let (e, f): (i32, i32) = product_ratio_pair(s1, s2, so);
                StepRequantize {
                    left_shift: 0,
                    input1_multiplier: 0,
                    input1_shift: 0,
                    input2_multiplier: 0,
                    input2_shift: 0,
                    output_multiplier: e,
                    output_shift: f,
                    input1_offset: negate(z1),
                    input2_offset: negate(z2),
                    output_offset: zo,
                }
            },
            ElementwiseKind::Relu | ElementwiseKind::Relu6 | ElementwiseKind::HardSwish => {
                let (e, f): (i32, i32) = ratio_pair(s1, so);
                StepRequantize {
                    left_shift: 0,
                    input1_multiplier: 0,
                    input1_shift: 0,
                    input2_multiplier: 0,
                    input2_shift: 0,
                    output_multiplier: e,
                    output_shift: f,
                    input1_offset: z1,
                    input2_offset: 0,
                    output_offset: zo,
                }
            },
        }
    }
}

/// The real constant `scale * (q - zero_point)`, in binary32 arithmetic.
pub open spec fn real_constant(scale: u32, q: int, zero_point: i64) -> u32 {
    let z = crate::ieee::integer_value(crate::ieee::rounded_integer(zero_point as int, 24));
    crate::ieee::quotient32(
        crate::ieee::product(
            crate::ieee::denoted32(scale),
            crate::ieee::rounded_integer(q - z, 24),
        ),
        crate::ieee::one(),
    )
}

/// Whether an operator is a pool or softmax.
pub open spec fn pools_or_softmax(code: i32) -> bool {
    code == AVERAGE_POOL_2D || code == MAX_POOL_2D || code == SOFTMAX
}

/// The fold of a multiplication or subtraction whose result only a pool or
/// softmax reads.
pub open spec fn input_fold(model: ParsedModel, i: int) -> Option<InputFold> {
    let op = model.ops@[i];
    let operand = if op.inputs@.len() > 1 {
        op.inputs@[1]
    } else {
        NO_TENSOR
    };
    let feeds_pool = match sole_reader(model, op.output()) {
        Some(c) => pools_or_softmax(model.ops@[c as int].builtin_code),
        None => false,
    };
    let factor = match (scale(model, op.output()), scale(model, op.input())) {
        (Some(so), Some(si)) => if crate::ieee::equal_numbers(si, 0) {
            None
        } else {
            Some(
                crate::ieee::quotient32(
                    crate::ieee::denoted32(so),
                    crate::ieee::denoted32(si),
                ),
            )
        },
        _ => None,
    };
    let constant = match (model.tensor(operand as int), scale(model, operand)) {
        (Some(tensor), Some(s)) => match model.data(tensor) {
            Some(bytes) => Some(
                real_constant(s, crate::bytes::signed_byte(bytes[0]), zero_point_or_zero(model, operand)),
            ),
            None => None,
        },
        _ => None,
    };
    let folded = if op.builtin_code == MUL {
        factor
    } else if op.builtin_code == SUB {
        constant
    } else {
        None
    };
    if folded is Some && feeds_pool && op.input() != NO_TENSOR {
        Some(
            InputFold {
                op_index: i as usize,
                builtin: op.builtin_code,
                folded_input_tensor: op.input(),
                operand_tensor: operand,
                folded_scale: folded->0,
                input_zero_point: zero_point_or_zero(model, op.input()),
            },
        )
    } else {
        None
    }
}

fn to_real_constant(scale: u32, byte: u8, zero_point: i64) -> (r: u32)
    ensures
        r == real_constant(scale, crate::bytes::signed_byte(byte), zero_point),
{
    proof {
        vstd::arithmetic::power2::lemma2_to64();
        vstd::arithmetic::power2::lemma2_to64_rest();
    }
    let q: i128 = if byte < 128 { byte as i128 } else { byte as i128 - 256 };
    let z: i128 = integer_of(round_integer(zero_point as i128, 24));
    let one = Number::Finite { negative: false, mantissa: 1, exponent: 0 };
    divide32(multiply(decode32(scale), round_integer(q - z, 24)), one)
}

/// The fold of a multiplication or subtraction whose result only a pool or
/// softmax reads.
pub fn try_input_fold(ctx: &Ctx, op_index: usize) -> (r: Option<InputFold>)
    requires
        ctx.counted(),
        op_index < ctx.model.ops@.len(),
    ensures
        r == input_fold(*ctx.model, op_index as int),
{
    let op = &ctx.model.ops[op_index];
    if op.builtin_code != MUL && op.builtin_code != SUB {
        return None;
    }
    let out: u32 = op.first_output();
    let consumer: usize = match ctx.next_consumer(out) {
        Some(c) => c,
        None => return None,
    };
    if !is_pool_or_softmax(ctx.model.ops[consumer].builtin_code) {
        return None;
    }
    let in_t: u32 = op.first_input();
    let operand: u32 = if op.inputs.len() > 1 { op.inputs[1] } else { NO_TENSOR };
    if in_t == NO_TENSOR {
        return None;
    }
    let folded_scale: u32 = if op.builtin_code == MUL {
        match (ctx.scale_of(out), ctx.scale_of(in_t)) {
            (Some(so), Some(si)) => {
                if numbers_equal(si, 0) {
                    return None;
                }
                divide32(decode32(so), decode32(si))
            },
            _ => return None,
        }
    } else {
        let tensor = match ctx.model.tensor_by_index(operand as usize) {
            Some(tensor) => tensor,
            None => return None,
        };
        let data = match ctx.model.buffer_data(tensor) {
            Some(data) => data,
            None => return None,
        };
        match ctx.scale_of(operand) {
            Some(s) => to_real_constant(s, data[0], ctx.zp_or_zero(operand)),
            None => return None,
        }
    };
    Some(
        InputFold {
            op_index,
            builtin: op.builtin_code,
            folded_input_tensor: in_t,
            operand_tensor: operand,
            folded_scale,
            input_zero_point: ctx.zp_or_zero(in_t),
        },
    )
}

/// Whether an operator is a pool or softmax.
pub fn is_pool_or_softmax(code: i32) -> (r: bool)
    ensures
        r == pools_or_softmax(code),
{
    code == AVERAGE_POOL_2D || code == MAX_POOL_2D || code == SOFTMAX
}

/// The activation that an operator of its own computes.
pub open spec fn standalone_activation(code: i32) -> Option<FusedActivationKind> {
    if code == RELU {
        Some(FusedActivationKind::Relu)
    } else if code == RELU6 {
        Some(FusedActivationKind::Relu6)
    } else if code == HARD_SWISH {
        Some(FusedActivationKind::HardSwish)
    } else {
        None
    }
}

/// The activation code in the options of an operator.
pub open spec fn activation_code(options: Option<ParsedOptions>) -> Option<i8> {
    match options {
        Some(o) => match o {
            ParsedOptions::Conv2D { fused_activation, .. } => Some(fused_activation),
            ParsedOptions::DepthwiseConv2D { fused_activation, .. } => Some(fused_activation),
            ParsedOptions::FullyConnected { fused_activation, .. } => Some(fused_activation),
            ParsedOptions::Pool2D { fused_activation, .. } => Some(fused_activation),
            ParsedOptions::Add { fused_activation, .. } => Some(fused_activation),
            ParsedOptions::Sub { fused_activation, .. } => Some(fused_activation),
            ParsedOptions::Mul { fused_activation } => Some(fused_activation),
            _ => None,
        },
        None => None,
    }
}

/// The activation in the options of an operator, where it is ReLU or ReLU6.
pub open spec fn option_activation(op: ParsedOp) -> Option<FusedActivationKind> {
    match activation_code(op.options) {
        Some(1) => Some(FusedActivationKind::Relu),
        Some(3) => Some(FusedActivationKind::Relu6),
        _ => None,
    }
}

/// Whether two tensors are quantized alike: equal scales and zero points.
pub open spec fn same_quantization(model: ParsedModel, a: u32, b: u32) -> bool {
    match (scale(model, a), zero_point(model, a), scale(model, b), zero_point(model, b)) {
        (Some(sa), Some(za), Some(sb), Some(zb)) => crate::ieee::equal_numbers(sa, sb) && za == zb,
        _ => false,
    }
}

/// An activation with the range that belongs to its output.
pub open spec fn epilogue(model: ParsedModel, kind: FusedActivationKind, out: u32) -> FusedActivation {
    let (low, high) = clamp_range(kind, scale(model, out), zero_point(model, out));
    FusedActivation { kind, quantized_min: low as i32, quantized_max: high as i32 }
}

/// The activation that an operator of its own computes. No other operator code
/// is an activation.
pub fn activation_kind(code: i32) -> (r: Option<FusedActivationKind>)
    ensures
        r == standalone_activation(code),
{
    if code == RELU {
        Some(FusedActivationKind::Relu)
    } else if code == RELU6 {
        Some(FusedActivationKind::Relu6)
    } else if code == HARD_SWISH {
        Some(FusedActivationKind::HardSwish)
    } else {
        None
    }
}

/// The activation code in the options of an operator.
pub fn fused_activation_field(options: &Option<ParsedOptions>) -> (r: Option<i8>)
    ensures
        r == activation_code(*options),
{
    match options {
        Some(o) => match o {
            ParsedOptions::Conv2D { fused_activation, .. } => Some(*fused_activation),
            ParsedOptions::DepthwiseConv2D { fused_activation, .. } => Some(*fused_activation),
            ParsedOptions::FullyConnected { fused_activation, .. } => Some(*fused_activation),
            ParsedOptions::Pool2D { fused_activation, .. } => Some(*fused_activation),
            ParsedOptions::Add { fused_activation, .. } => Some(*fused_activation),
            ParsedOptions::Sub { fused_activation, .. } => Some(*fused_activation),
            ParsedOptions::Mul { fused_activation } => Some(*fused_activation),
            _ => None,
        },
        None => None,
    }
}

/// The activation in the options of an operator, where it is ReLU or ReLU6.
pub fn field_activation(op: &ParsedOp) -> (r: Option<FusedActivationKind>)
    ensures
        r == option_activation(*op),
{
    match fused_activation_field(&op.options) {
        Some(code) => if code == 1 {
            Some(FusedActivationKind::Relu)
        } else if code == 3 {
            Some(FusedActivationKind::Relu6)
        } else {
            None
        },
        None => None,
    }
}

/// Whether two tensors are quantized alike: equal scales and zero points. Any
/// difference makes an operator between them round.
pub fn quant_identity(ctx: &Ctx, a: u32, b: u32) -> (r: bool)
    ensures
        r == same_quantization(*ctx.model, a, b),
{
    match (ctx.scale_of(a), ctx.zp_of(a), ctx.scale_of(b), ctx.zp_of(b)) {
        (Some(sa), Some(za), Some(sb), Some(zb)) => numbers_equal(sa, sb) && za == zb,
        _ => false,
    }
}

/// An activation with the range that belongs to its output.
pub fn activation_from(ctx: &Ctx, kind: FusedActivationKind, out_tensor: u32) -> (r: FusedActivation)
    ensures
        r == epilogue(*ctx.model, kind, out_tensor),
{
    let (min, max): (i32, i32) = activation_range(
        kind,
        ctx.scale_of(out_tensor),
        ctx.zp_of(out_tensor),
    );
    FusedActivation { kind, quantized_min: min, quantized_max: max }
}

/// The group of an operator that absorbs nothing.
pub open spec fn anchor_group(model: ParsedModel, i: int) -> GroupView {
    let op = model.ops@[i];
    GroupView {
        anchor: i,
        builtin: op.builtin_code,
        inputs: op.inputs@,
        output: op.output(),
        absorbed: Seq::empty(),
        eliminated: Seq::empty(),
        activation: None,
        chain: Seq::empty(),
        residual: None,
        fold: None,
        requantize: None,
        requires_verification: false,
    }
}

impl FusedGroup {
    /// The group of an operator that absorbs nothing.
    pub fn anchor(op_index: usize, op: &ParsedOp) -> (g: Self)
        ensures
            g@ == (GroupView {
                anchor: op_index as int,
                builtin: op.builtin_code,
                inputs: op.inputs@,
                output: op.output(),
                absorbed: Seq::empty(),
                eliminated: Seq::empty(),
                activation: None,
                chain: Seq::empty(),
                residual: None,
                fold: None,
                requantize: None,
                requires_verification: false,
            }),
            g.inputs@ == op.inputs@,
    {
        let g = FusedGroup {
            anchor_op_index: op_index,
            anchor_builtin: op.builtin_code,
            inputs: copy_indices(&op.inputs),
            output_tensor: op.first_output(),
            absorbed_ops: Vec::new(),
            eliminated_tensors: Vec::new(),
            activation: None,
            elementwise_chain: Vec::new(),
            residual_add: None,
            input_fold: None,
            folded_requantize: None,
            requires_verification: false,
        };
        assert(g@.absorbed =~= Seq::empty());
        g
    }

    /// Takes an operator behind the group into it.
    fn absorb(&mut self, op_index: usize, output: u32)
        ensures
            final(self)@ == (GroupView {
                absorbed: old(self)@.absorbed.push(op_index as int),
                eliminated: old(self)@.eliminated.push(old(self)@.output),
                output,
                ..old(self)@
            }),
    {
        let ghost before = self@;
        self.absorbed_ops.push(op_index);
        self.eliminated_tensors.push(self.output_tensor);
        self.output_tensor = output;
        assert(self@.absorbed =~= before.absorbed.push(op_index as int));
    }
}

/// The activation behind a tensor that can be absorbed: the operator, its
/// output, and the range.
pub open spec fn absorbable_activation(model: ParsedModel, t: u32) -> Option<
    (int, u32, FusedActivation),
> {
    match sole_reader(model, t) {
        Some(a) => match standalone_activation(model.ops@[a as int].builtin_code) {
            Some(kind) => {
                let out = model.ops@[a as int].output();
                if same_quantization(model, out, t) {
                    Some((a as int, out, epilogue(model, kind, out)))
                } else {
                    None
                }
            },
            None => None,
        },
        None => None,
    }
}

/// A group that has absorbed the activation behind it, where there is one.
pub open spec fn with_activation(model: ParsedModel, g: GroupView) -> GroupView {
    match absorbable_activation(model, g.output) {
        Some((a, out, activation)) => GroupView {
            activation: Some(activation),
            absorbed: g.absorbed.push(a),
            eliminated: g.eliminated.push(g.output),
            output: out,
            ..g
        },
        None => g,
    }
}

/// Absorbs the activation behind a group. Its own operator would requantize,
/// so a clamp stands for it only where input and output are quantized alike.
fn absorb_activation(ctx: &Ctx, g: &mut FusedGroup)
    requires
        ctx.counted(),
    ensures
        final(g)@ == with_activation(*ctx.model, old(g)@),
{
    let out: u32 = g.output_tensor;
    match ctx.next_consumer(out) {
        Some(a) => {
            let op = &ctx.model.ops[a];
            match activation_kind(op.builtin_code) {
                Some(kind) => {
                    let act_out: u32 = op.first_output();
                    if quant_identity(ctx, act_out, out) {
                        g.activation = Some(activation_from(ctx, kind, act_out));
                        g.absorb(a, act_out);
                    }
                },
                None => {},
            }
        },
        None => {},
    }
}

/// The first index in a list, from position `i` on, that is not `t`.
pub open spec fn other_from(list: Seq<u32>, t: u32, i: nat) -> Option<u32>
    decreases list.len() - i,
{
    if i >= list.len() {
        None
    } else if list[i as int] != t {
        Some(list[i as int])
    } else {
        other_from(list, t, i + 1)
    }
}

fn first_other(list: &Vec<u32>, t: u32) -> (r: Option<u32>)
    ensures
        r == other_from(list@, t, 0),
{
    let mut i: usize = 0;
    while i < list.len()
        invariant
            i <= list@.len(),
            other_from(list@, t, 0) == other_from(list@, t, i as nat),
        decreases list@.len() - i,
    {
        if list[i] != t {
            return Some(list[i]);
        }
        i = i + 1;
    }
    None
}

/// The tensor that the addition at `add` adds to the result `t` of the
/// convolution at `conv`, where that tensor is computed before the convolution.
pub open spec fn residual_source(model: ParsedModel, conv: int, t: u32, add: int) -> Option<u32> {
    match other_from(model.ops@[add].inputs@, t, 0) {
        Some(r) => if !model.is_model_input(r) && !model.is_model_output(r) && !model.is_constant(
            r as int,
        ) && (writer(model, r) matches Some(p) && p < conv) {
            Some(r)
        } else {
            None
        },
        None => None,
    }
}

/// A group that has absorbed an addition of `residual`.
pub open spec fn with_residual(model: ParsedModel, g: GroupView, add: int, residual: u32) -> GroupView {
    let out = model.ops@[add].output();
    GroupView {
        residual: Some(
            ResidualAdd {
                op_index: add as usize,
                residual_tensor: residual,
                output_scale: scale_or_unit(model, out),
                output_zero_point: zero_point_or_zero(model, out),
                requantize: step_parameters(model, g.output, residual, out, ElementwiseKind::Add),
            },
        ),
        absorbed: g.absorbed.push(add),
        eliminated: g.eliminated.push(g.output),
        output: out,
        ..g
    }
}

/// Absorbs the addition at `add_idx` into the convolution of the group, and the
/// activation behind it. Returns whether it did.
pub fn try_fuse_residual(ctx: &Ctx, conv_idx: usize, add_idx: usize, g: &mut FusedGroup) -> (r: bool)
    requires
        ctx.counted(),
        add_idx < ctx.model.ops@.len(),
    ensures
        match residual_source(*ctx.model, conv_idx as int, old(g)@.output, add_idx as int) {
            Some(residual) => r && final(g)@ == with_activation(
                *ctx.model,
                with_residual(*ctx.model, old(g)@, add_idx as int, residual),
            ),
            None => !r && final(g)@ == old(g)@,
        },
{
    let conv_out: u32 = g.output_tensor;
    let add_op = &ctx.model.ops[add_idx];
    let add_out: u32 = add_op.first_output();
    let residual: u32 = match first_other(&add_op.inputs, conv_out) {
        Some(r) => r,
        None => return false,
    };
    if contains_index(&ctx.model.inputs, residual) || contains_index(&ctx.model.outputs, residual) {
        return false;
    }
    if ctx.is_constant(residual) {
        return false;
    }
    match ctx.producer(residual) {
        Some(p) => if p >= conv_idx {
            return false;
        },
        None => return false,
    }
    let requantize = StepRequantize::elementwise(
        ctx,
        conv_out,
        residual,
        add_out,
        ElementwiseKind::Add,
    );
    g.residual_add = Some(
        ResidualAdd {
            op_index: add_idx,
            residual_tensor: residual,
            output_scale: ctx.scale_or_one(add_out),
            output_zero_point: ctx.zp_or_zero(add_out),
            requantize,
        },
    );
    g.absorb(add_idx, add_out);
    absorb_activation(ctx, g);
    true
}

/// Whether a scale is one, up to a millionth.
pub open spec fn nearly_one(s: u32) -> bool {
    0x3f7f_fff0 <= s <= 0x3f80_0008
}

/// The scales of the channels of a weight tensor, or its only scale.
pub open spec fn channel_scales(model: ParsedModel, t: u32) -> Option<Seq<u32>> {
    match model.tensor(t as int) {
        Some(tensor) => match tensor.quant {
            Some(q) => match q.per_channel {
                Some(pc) => Some(pc.scales@),
                None => Some(seq![q.scale]),
            },
            None => None,
        },
        None => None,
    }
}

/// The pair of `first * second / output`, each step in binary32.
pub open spec fn short_product_ratio(first: u32, second: u32, output: u32) -> (i32, i32) {
    let p = crate::ieee::quotient32(
        crate::ieee::product(crate::ieee::denoted32(first), crate::ieee::denoted32(second)),
        crate::ieee::one(),
    );
    let q = crate::ieee::quotient32(crate::ieee::denoted32(p), crate::ieee::denoted32(output));
    crate::int8::fixed_pair(
        crate::ieee::quotient64(crate::ieee::denoted32(q), crate::ieee::one()),
    )
}

/// Whether every byte is one.
pub open spec fn all_ones(bytes: Seq<u8>) -> bool {
    forall|k: int| 0 <= k < bytes.len() ==> bytes[k] == 1
}

/// The multiplication at `mul`, as a requantization of the convolution at
/// `conv`: it multiplies by a constant one, its first input has the zero point
/// zero, and input and output have the same scale.
pub open spec fn scale_fold(model: ParsedModel, conv: int, mul: int) -> Option<RequantizeView> {
    let m = model.ops@[mul];
    let c = model.ops@[conv];
    let input = m.inputs@[0];
    let operand = m.inputs@[1];
    let by_one = m.inputs@.len() >= 2 && zero_point(model, input) == Some(0i64) && zero_point(
        model,
        operand,
    ) == Some(0i64) && (scale(model, operand) matches Some(s) && nearly_one(s)) && (match model.tensor(
        operand as int,
    ) {
        Some(tensor) => model.data(tensor) matches Some(bytes) && all_ones(bytes),
        None => false,
    });
    if m.builtin_code == MUL && by_one && c.inputs@.len() >= 2 {
        match (
            scale(model, input),
            scale(model, m.output()),
            scale(model, c.inputs@[0]),
            channel_scales(model, c.inputs@[1]),
        ) {
            (Some(s_conv), Some(s_out), Some(s_in), Some(weights)) => if crate::ieee::equal_numbers(
                s_conv,
                s_out,
            ) {
                Some(
                    RequantizeView {
                        op_index: mul,
                        output_scale: s_out,
                        output_zero_point: zero_point_or_zero(model, m.output()),
                        multipliers: weights.map_values(
                            |w: u32| short_product_ratio(s_in, w, s_out),
                        ),
                    },
                )
            } else {
                None
            },
            _ => None,
        }
    } else {
        None
    }
}

fn short_product_ratio_pair(first: u32, second: u32, output: u32) -> (r: (i32, i32))
    ensures
        r == short_product_ratio(first, second, output),
{
    let one = Number::Finite { negative: false, mantissa: 1, exponent: 0 };
    let p: u32 = divide32(multiply(decode32(first), decode32(second)), one);
    let q: u32 = divide32(decode32(p), decode32(output));
    quantize_multiplier(divide64(decode32(q), one))
}

fn only_ones(bytes: &Vec<u8>) -> (r: bool)
    ensures
        r == all_ones(bytes@),
{
    let mut i: usize = 0;
    while i < bytes.len()
        invariant
            i <= bytes@.len(),
            forall|k: int| 0 <= k < i ==> bytes@[k] == 1,
        decreases bytes@.len() - i,
    {
        if bytes[i] != 1 {
            return false;
        }
        i = i + 1;
    }
    true
}

fn pairs_of(scales: &Vec<u32>, s_in: u32, s_out: u32) -> (r: Vec<(i32, i32)>)
    ensures
        r@ == scales@.map_values(|w: u32| short_product_ratio(s_in, w, s_out)),
{
    let mut r: Vec<(i32, i32)> = Vec::new();
    let mut i: usize = 0;
    while i < scales.len()
        invariant
            i <= scales@.len(),
            r@.len() == i,
            forall|k: int|
                0 <= k < i ==> #[trigger] r@[k] == short_product_ratio(s_in, scales@[k], s_out),
        decreases scales@.len() - i,
    {
        r.push(short_product_ratio_pair(s_in, scales[i], s_out));
        i = i + 1;
    }
    assert(r@ =~= scales@.map_values(|w: u32| short_product_ratio(s_in, w, s_out)));
    r
}

impl<'a> Ctx<'a> {
    /// The scales of the channels of a weight tensor, or its only scale.
    pub fn weight_scales(&self, weight: u32) -> (r: Option<Vec<u32>>)
        ensures
            match r {
                Some(v) => channel_scales(*self.model, weight) == Some(v@),
                None => channel_scales(*self.model, weight) is None,
            },
    {
        match self.model.tensor_by_index(weight as usize) {
            Some(tensor) => match &tensor.quant {
                Some(q) => match &q.per_channel {
                    Some(pc) => Some(copy_indices(&pc.scales)),
                    None => {
                        let mut v: Vec<u32> = Vec::new();
                        v.push(q.scale);
                        assert(v@ =~= seq![q.scale]);
                        Some(v)
                    },
                },
                None => None,
            },
            None => None,
        }
    }
}

/// The multiplication at `mul_idx`, as a requantization of the convolution at
/// `conv_idx`.
pub fn try_fold_requantize(ctx: &Ctx, conv_idx: usize, mul_idx: usize) -> (r: Option<FoldedRequantize>)
    requires
        conv_idx < ctx.model.ops@.len(),
        mul_idx < ctx.model.ops@.len(),
    ensures
        match r {
            Some(f) => scale_fold(*ctx.model, conv_idx as int, mul_idx as int) == Some(f@),
            None => scale_fold(*ctx.model, conv_idx as int, mul_idx as int) is None,
        },
{
    let mul = &ctx.model.ops[mul_idx];
    if mul.builtin_code != MUL || mul.inputs.len() < 2 {
        return None;
    }
    let conv_out: u32 = mul.inputs[0];
    let operand: u32 = mul.inputs[1];
    match ctx.zp_of(conv_out) {
        Some(z) => if z != 0 {
            return None;
        },
        None => return None,
    }
    match (ctx.zp_of(operand), ctx.scale_of(operand)) {
        (Some(z), Some(s)) => {
            if z != 0 || s < 0x3f7f_fff0 || s > 0x3f80_0008 {
                return None;
            }
        },
        _ => return None,
    }
    let data = match ctx.model.tensor_by_index(operand as usize) {
        Some(tensor) => match ctx.model.buffer_data(tensor) {
            Some(data) => data,
            None => return None,
        },
        None => return None,
    };
    if !only_ones(data) {
        return None;
    }
    let mul_out: u32 = mul.first_output();
    let s_out: u32 = match (ctx.scale_of(mul_out), ctx.scale_of(conv_out)) {
        (Some(a), Some(b)) => if numbers_equal(b, a) {
            a
        } else {
            return None;
        },
        _ => return None,
    };
    let conv = &ctx.model.ops[conv_idx];
    if conv.inputs.len() < 2 {
        return None;
    }
    match (ctx.scale_of(conv.inputs[0]), ctx.weight_scales(conv.inputs[1])) {
        (Some(s_in), Some(weights)) => Some(
            FoldedRequantize {
                op_index: mul_idx,
                output_scale: s_out,
                output_zero_point: ctx.zp_or_zero(mul_out),
                multipliers: pairs_of(&weights, s_in, s_out),
            },
        ),
        _ => None,
    }
}

/// The group that has absorbed the scale change at `mul`.
pub open spec fn with_requantize(
    model: ParsedModel,
    g: GroupView,
    mul: int,
    r: RequantizeView,
) -> GroupView {
    GroupView {
        requantize: Some(r),
        absorbed: g.absorbed.push(mul),
        eliminated: g.eliminated.push(g.output),
        output: model.ops@[mul].output(),
        ..g
    }
}

/// The group of a convolution without an addition behind it: its own
/// activation, or a scale change and an activation behind it.
pub open spec fn plain_conv_group(model: ParsedModel, i: int) -> GroupView {
    let g = anchor_group(model, i);
    match option_activation(model.ops@[i]) {
        Some(kind) => GroupView { activation: Some(epilogue(model, kind, g.output)), ..g },
        None => match sole_reader(model, g.output) {
            Some(mul) => match scale_fold(model, i, mul as int) {
                Some(r) => {
                    let h = with_requantize(model, g, mul as int, r);
                    match option_activation(model.ops@[mul as int]) {
                        Some(kind) => GroupView {
                            activation: Some(epilogue(model, kind, h.output)),
                            ..h
                        },
                        None => with_activation(model, h),
                    }
                },
                None => with_activation(model, g),
            },
            None => with_activation(model, g),
        },
    }
}

/// The addition behind a convolution, with the tensor that it adds.
pub open spec fn residual_add(model: ParsedModel, i: int) -> Option<(int, u32)> {
    let t = model.ops@[i].output();
    match sole_reader(model, t) {
        Some(add) => if model.ops@[add as int].builtin_code == ADD {
            match residual_source(model, i, t, add as int) {
                Some(r) => Some((add as int, r)),
                None => None,
            }
        } else {
            None
        },
        None => None,
    }
}

/// The group of a convolution.
#[verifier::opaque]
pub open spec fn conv_group(model: ParsedModel, i: int) -> GroupView {
    match residual_add(model, i) {
        Some((add, r)) => with_activation(
            model,
            with_residual(model, anchor_group(model, i), add, r),
        ),
        None => plain_conv_group(model, i),
    }
}

/// The group of a convolution.
pub fn try_fuse_conv(ctx: &Ctx, op_index: usize) -> (g: FusedGroup)
    requires
        ctx.counted(),
        op_index < ctx.model.ops@.len(),
    ensures
        g@ == conv_group(*ctx.model, op_index as int),
{
    proof {
        reveal(conv_group);
    }
    let op = &ctx.model.ops[op_index];
    let out0: u32 = op.first_output();
    let mut g = FusedGroup::anchor(op_index, op);
    let next: Option<usize> = ctx.next_consumer(out0);
    match next {
        Some(add_idx) => {
            if ctx.model.ops[add_idx].builtin_code == ADD && try_fuse_residual(
                ctx,
                op_index,
                add_idx,
                &mut g,
            ) {
                return g;
            }
        },
        None => {},
    }
    match field_activation(op) {
        Some(kind) => {
            g.activation = Some(activation_from(ctx, kind, out0));
            return g;
        },
        None => {},
    }
    match next {
        Some(mul_idx) => {
            match try_fold_requantize(ctx, op_index, mul_idx) {
                Some(folded) => {
                    let mul_op = &ctx.model.ops[mul_idx];
                    let mul_out: u32 = mul_op.first_output();
                    g.folded_requantize = Some(folded);
                    g.absorb(mul_idx, mul_out);
                    match field_activation(mul_op) {
                        Some(kind) => {
                            g.activation = Some(activation_from(ctx, kind, mul_out));
                            return g;
                        },
                        None => {},
                    }
                },
                None => {},
            }
        },
        None => {},
    }
    absorb_activation(ctx, &mut g);
    g
}

/// What an operator computes as a step of a chain.
pub open spec fn step_kind(code: i32) -> Option<ElementwiseKind> {
    if code == ADD {
        Some(ElementwiseKind::Add)
    } else if code == MUL {
        Some(ElementwiseKind::Mul)
    } else if code == SUB {
        Some(ElementwiseKind::Sub)
    } else if code == RELU {
        Some(ElementwiseKind::Relu)
    } else if code == RELU6 {
        Some(ElementwiseKind::Relu6)
    } else if code == HARD_SWISH {
        Some(ElementwiseKind::HardSwish)
    } else {
        None
    }
}

/// What an operator computes as a step of a chain.
pub fn chain_kind(code: i32) -> (r: Option<ElementwiseKind>)
    ensures
        r == step_kind(code),
{
    if code == ADD {
        Some(ElementwiseKind::Add)
    } else if code == MUL {
        Some(ElementwiseKind::Mul)
    } else if code == SUB {
        Some(ElementwiseKind::Sub)
    } else if code == RELU {
        Some(ElementwiseKind::Relu)
    } else if code == RELU6 {
        Some(ElementwiseKind::Relu6)
    } else if code == HARD_SWISH {
        Some(ElementwiseKind::HardSwish)
    } else {
        None
    }
}

/// Whether all inputs but the running one exist when the anchor runs.
pub open spec fn operands_exist(model: ParsedModel, inputs: Seq<u32>, running: u32, anchor: int) -> bool {
    forall|k: int|
        0 <= k < inputs.len() ==> inputs[k] == running || #[trigger] exists_before(
            model,
            inputs[k],
            anchor,
        )
}

/// The step that the chain of `anchor` takes from the tensor `running`.
pub open spec fn chain_step(model: ParsedModel, anchor: int, running: u32) -> Option<
    AbsorbedElementwise,
> {
    match sole_reader(model, running) {
        Some(n) => {
            let op = model.ops@[n as int];
            let out = op.output();
            let operand = match other_from(op.inputs@, running, 0) {
                Some(t) => t,
                None => NO_TENSOR,
            };
            match step_kind(op.builtin_code) {
                Some(kind) => if operands_exist(model, op.inputs@, running, anchor) {
                    Some(
                        AbsorbedElementwise {
                            op_index: n as usize,
                            kind,
                            operand_tensor: operand,
                            output_scale: scale_or_unit(model, out),
                            output_zero_point: zero_point_or_zero(model, out),
                            requantize: step_parameters(model, running, operand, out, kind),
                        },
                    )
                } else {
                    None
                },
                None => None,
            }
        },
        None => None,
    }
}

/// The steps, at most `limit`, that the chain of `anchor` takes from the tensor
/// `running`.
pub open spec fn chain(model: ParsedModel, anchor: int, running: u32, limit: nat) -> Seq<
    AbsorbedElementwise,
>
    decreases limit,
{
    if limit == 0 {
        Seq::empty()
    } else {
        match chain_step(model, anchor, running) {
            Some(step) => seq![step] + chain(
                model,
                anchor,
                model.ops@[step.op_index as int].output(),
                (limit - 1) as nat,
            ),
            None => Seq::empty(),
        }
    }
}

/// The tensor that the running value is in before step `k`.
pub open spec fn running_tensor(
    model: ParsedModel,
    first: u32,
    steps: Seq<AbsorbedElementwise>,
    k: int,
) -> u32 {
    if k <= 0 {
        first
    } else {
        model.ops@[steps[k - 1].op_index as int].output()
    }
}

/// A group that has absorbed the steps of a chain.
pub open spec fn with_chain(model: ParsedModel, g: GroupView, steps: Seq<AbsorbedElementwise>) -> GroupView {
    GroupView {
        chain: steps,
        absorbed: steps.map_values(|s: AbsorbedElementwise| s.op_index as int),
        eliminated: Seq::new(steps.len(), |k: int| running_tensor(model, g.output, steps, k)),
        output: running_tensor(model, g.output, steps, steps.len() as int),
        ..g
    }
}

/// The group of an elementwise operator. No operator occurs in a chain twice,
/// so a chain is no longer than the model.
#[verifier::opaque]
pub open spec fn chain_group(model: ParsedModel, i: int) -> GroupView {
    let g = anchor_group(model, i);
    with_chain(model, g, chain(model, i, g.output, model.ops@.len()))
}

fn operands_available(ctx: &Ctx, inputs: &Vec<u32>, running: u32, anchor: usize) -> (r: bool)
    ensures
        r == operands_exist(*ctx.model, inputs@, running, anchor as int),
{
    let mut k: usize = 0;
    while k < inputs.len()
        invariant
            k <= inputs@.len(),
            forall|j: int|
                0 <= j < k ==> inputs@[j] == running || #[trigger] exists_before(
                    *ctx.model,
                    inputs@[j],
                    anchor as int,
                ),
        decreases inputs@.len() - k,
    {
        let t: u32 = inputs[k];
        if t != running && !ctx.available_before(t, anchor) {
            assert(!exists_before(*ctx.model, inputs@[k as int], anchor as int));
            return false;
        }
        k = k + 1;
    }
    true
}

fn next_step(ctx: &Ctx, anchor: usize, running: u32) -> (r: Option<AbsorbedElementwise>)
    requires
        ctx.counted(),
    ensures
        r == chain_step(*ctx.model, anchor as int, running),
        r matches Some(step) ==> step.op_index < ctx.model.ops@.len(),
{
    let next_idx: usize = match ctx.next_consumer(running) {
        Some(n) => n,
        None => return None,
    };
    let next = &ctx.model.ops[next_idx];
    let kind: ElementwiseKind = match chain_kind(next.builtin_code) {
        Some(kind) => kind,
        None => return None,
    };
    if !operands_available(ctx, &next.inputs, running, anchor) {
        return None;
    }
    let operand: u32 = match first_other(&next.inputs, running) {
        Some(t) => t,
        None => NO_TENSOR,
    };
    let out: u32 = next.first_output();
    Some(
        AbsorbedElementwise {
            op_index: next_idx,
            kind,
            operand_tensor: operand,
            output_scale: ctx.scale_or_one(out),
            output_zero_point: ctx.zp_or_zero(out),
            requantize: StepRequantize::elementwise(ctx, running, operand, out, kind),
        },
    )
}

/// The group of an elementwise operator: the steps behind it run in one loop,
/// and everything that a step reads besides the running value exists when the
/// anchor runs.
pub fn try_fuse_elementwise_chain(ctx: &Ctx, op_index: usize) -> (g: FusedGroup)
    requires
        ctx.counted(),
        op_index < ctx.model.ops@.len(),
    ensures
        g@ == chain_group(*ctx.model, op_index as int),
{
    proof {
        reveal(chain_group);
    }
    let op = &ctx.model.ops[op_index];
    let mut g = FusedGroup::anchor(op_index, op);
    let ghost first = g.output_tensor;
    let ghost base = g@;
    let ghost whole = chain(*ctx.model, op_index as int, first, ctx.model.ops@.len());
    let mut left: usize = ctx.model.ops.len();
    proof {
        assert(g.elementwise_chain@ + whole =~= whole);
        assert(g@ =~= with_chain(*ctx.model, base, g.elementwise_chain@));
    }
    while left > 0
        invariant_except_break
            g.elementwise_chain@ + chain(*ctx.model, op_index as int, g.output_tensor, left as nat)
                == whole,
        invariant
            ctx.counted(),
            g@ == with_chain(*ctx.model, base, g.elementwise_chain@),
            first == base.output,
        ensures
            g.elementwise_chain@ == whole,
        decreases left,
    {
        let ghost steps = g.elementwise_chain@;
        let ghost before = g@;
        let ghost running = g.output_tensor;
        match next_step(ctx, op_index, g.output_tensor) {
            Some(step) => {
                let out: u32 = ctx.model.ops[step.op_index].first_output();
                g.elementwise_chain.push(step);
                g.absorb(step.op_index, out);
                left = left - 1;
                proof {
                    let rest = chain(*ctx.model, op_index as int, out, left as nat);
                    assert(g.elementwise_chain@ == steps.push(step));
                    assert(steps + (seq![step] + rest) =~= steps.push(step) + rest);
                    let goal = with_chain(*ctx.model, base, steps.push(step));
                    assert(g@.absorbed =~= goal.absorbed);
                    assert(g@.eliminated =~= goal.eliminated) by {
                        assert forall|k: int| 0 <= k < steps.len() implies running_tensor(
                            *ctx.model,
                            first,
                            steps.push(step),
                            k,
                        ) == running_tensor(*ctx.model, first, steps, k) by {}
                    }
                    assert(g@ =~= goal);
                }
            },
            None => {
                assert(steps + Seq::<AbsorbedElementwise>::empty() =~= steps);
                break;
            },
        }
    }
    proof {
        assert(g.elementwise_chain@ =~= whole);
    }
    g
}

/// The group of a pool or softmax: it reads the tensor in front of the
/// multiplication or subtraction that it folds, unless another group has
/// absorbed that one.
#[verifier::opaque]
pub open spec fn pool_group(model: ParsedModel, consumed: Set<int>, i: int) -> GroupView {
    let g = anchor_group(model, i);
    let t = model.ops@[i].input();
    match writer(model, t) {
        Some(p) => match input_fold(model, p as int) {
            Some(f) => if !consumed.contains(p as int) && g.inputs.len() > 0 {
                GroupView {
                    inputs: g.inputs.update(0, f.folded_input_tensor),
                    fold: Some(f),
                    absorbed: seq![p as int],
                    eliminated: seq![t],
                    ..g
                }
            } else {
                g
            },
            None => g,
        },
        None => g,
    }
}

/// The group of a pool or softmax.
pub fn try_fuse_input_fold(ctx: &Ctx, op_index: usize) -> (g: FusedGroup)
    requires
        ctx.counted(),
        op_index < ctx.model.ops@.len(),
        ctx.consumed@.len() == ctx.model.ops@.len(),
    ensures
        g@ == pool_group(
            *ctx.model,
            Set::new(|j: int| 0 <= j < ctx.consumed@.len() && ctx.consumed@[j]),
            op_index as int,
        ),
{
    proof {
        reveal(pool_group);
    }
    let op = &ctx.model.ops[op_index];
    let mut g = FusedGroup::anchor(op_index, op);
    let ghost base = g@;
    let input0: u32 = op.first_input();
    let prod: usize = match ctx.producer(input0) {
        Some(p) => p,
        None => return g,
    };
    if ctx.consumed[prod] {
        return g;
    }
    match try_input_fold(ctx, prod) {
        Some(fold) => {
            if g.inputs.len() > 0 {
                g.inputs.set(0, fold.folded_input_tensor);
                g.input_fold = Some(fold);
                g.absorbed_ops.push(prod);
                g.eliminated_tensors.push(input0);
                assert(g@.absorbed =~= seq![prod as int]);
                assert(g@.eliminated =~= seq![input0]);
            }
        },
        None => {},
    }
    g
}

/// Whether an operator is a convolution in the wide sense.
pub open spec fn convolves(code: i32) -> bool {
    code == CONV_2D || code == DEPTHWISE_CONV_2D || code == FULLY_CONNECTED
}

/// Whether an operator can be the anchor of a chain.
pub open spec fn starts_chain(code: i32) -> bool {
    code == ADD || code == MUL || code == SUB
}

/// Whether an operator is a convolution in the wide sense.
pub fn is_conv_family(code: i32) -> (r: bool)
    ensures
        r == convolves(code),
{
    code == CONV_2D || code == DEPTHWISE_CONV_2D || code == FULLY_CONNECTED
}

/// Whether an operator can be the anchor of a chain.
pub fn is_elementwise(code: i32) -> (r: bool)
    ensures
        r == starts_chain(code),
{
    code == ADD || code == MUL || code == SUB
}

/// The group of the operator at `i`, where the operators in `consumed` belong
/// to other groups. It needs verification where it changes rounding.
pub open spec fn group_of(model: ParsedModel, consumed: Set<int>, i: int) -> GroupView {
    let code = model.ops@[i].builtin_code;
    let g = if convolves(code) {
        conv_group(model, i)
    } else if starts_chain(code) {
        chain_group(model, i)
    } else if pools_or_softmax(code) {
        pool_group(model, consumed, i)
    } else {
        anchor_group(model, i)
    };
    GroupView { requires_verification: g.fold is Some || g.requantize is Some, ..g }
}

/// The operators that groups have absorbed.
pub open spec fn absorbed_by(groups: Seq<GroupView>) -> Set<int> {
    Set::new(|j: int| exists|k: int| 0 <= k < groups.len() && #[trigger] groups[k].absorbed.contains(j))
}

/// The groups of the first `n` operators: one for each operator that no earlier
/// group has absorbed and that no pool or softmax folds.
pub open spec fn groups_upto(model: ParsedModel, n: nat) -> Seq<GroupView>
    decreases n,
{
    if n == 0 {
        Seq::empty()
    } else {
        let before = groups_upto(model, (n - 1) as nat);
        let i = n - 1;
        if absorbed_by(before).contains(i) || input_fold(model, i) is Some {
            before
        } else {
            before.push(group_of(model, absorbed_by(before), i))
        }
    }
}

/// The groups of a model.
pub open spec fn fused_groups(model: ParsedModel) -> Seq<GroupView> {
    groups_upto(model, model.ops@.len())
}

/// Whether all indices are those of operators.
pub open spec fn indices_below(list: Seq<int>, n: int) -> bool {
    forall|k: int| 0 <= k < list.len() ==> 0 <= #[trigger] list[k] < n
}

impl View for FusedSchedule {
    type V = Seq<GroupView>;

    open spec fn view(&self) -> Seq<GroupView> {
        self.groups@.map_values(|g: FusedGroup| g@)
    }
}

impl FusedSchedule {
    /// How many operators the groups have absorbed.
    pub fn fused_op_count(&self) -> (r: usize)
        requires
            crate::schedule::absorbed_count(self@) <= usize::MAX,
        ensures
            r == crate::schedule::absorbed_count(self@),
    {
        let mut sum: usize = 0;
        let mut k: usize = 0;
        assert(self@.take(0) =~= Seq::empty());
        while k < self.groups.len()
            invariant
                k <= self.groups@.len(),
                self@.len() == self.groups@.len(),
                sum == crate::schedule::absorbed_count(self@.take(k as int)),
                crate::schedule::absorbed_count(self@) <= usize::MAX,
            decreases self.groups@.len() - k,
        {
            proof {
                let next = self@.take(k + 1);
                assert(next.drop_last() =~= self@.take(k as int));
                assert(next.last() == self.groups@[k as int]@);
                crate::schedule::lemma_absorbed_count_grows(self@, k + 1);
            }
            sum = sum + self.groups[k].absorbed_ops.len();
            k = k + 1;
        }
        assert(self@.take(self@.len() as int) =~= self@);
        sum
    }

    /// How many kernel calls the schedule makes.
    pub fn emitted_op_count(&self) -> (r: usize)
        ensures
            r == self@.len(),
    {
        self.groups.len()
    }
}

fn falses(n: usize) -> (r: Vec<bool>)
    ensures
        r@.len() == n,
        forall|j: int| 0 <= j < n ==> r@[j] == false,
{
    let mut r: Vec<bool> = Vec::new();
    let mut k: usize = 0;
    while k < n
        invariant
            k <= n,
            r@.len() == k,
            forall|j: int| 0 <= j < k ==> r@[j] == false,
        decreases n - k,
    {
        r.push(false);
        k = k + 1;
    }
    r
}

/// A reader that was found is an operator.
pub proof fn lemma_reader_in_range(ops: Seq<ParsedOp>, t: u32, i: nat)
    ensures
        reader_from(ops, t, i) matches Some(n) ==> i <= n < ops.len() && ops[n as int].inputs@.contains(
            t,
        ),
    decreases ops.len() - i,
{
    if i < ops.len() && !ops[i as int].inputs@.contains(t) {
        lemma_reader_in_range(ops, t, i + 1);
    }
}

/// A writer that was found is an operator.
pub proof fn lemma_writer_in_range(ops: Seq<ParsedOp>, t: u32, i: nat)
    ensures
        writer_from(ops, t, i) matches Some(n) ==> i <= n < ops.len() && ops[n as int].outputs@.contains(
            t,
        ),
    decreases ops.len() - i,
{
    if i < ops.len() && !ops[i as int].outputs@.contains(t) {
        lemma_writer_in_range(ops, t, i + 1);
    }
}

/// The steps of a chain are operators.
proof fn lemma_chain_in_range(model: ParsedModel, anchor: int, running: u32, limit: nat)
    requires
        model.ops@.len() <= usize::MAX,
    ensures
        forall|k: int|
            0 <= k < chain(model, anchor, running, limit).len() ==> (#[trigger] chain(
                model,
                anchor,
                running,
                limit,
            )[k]).op_index < model.ops@.len(),
    decreases limit,
{
    if limit > 0 {
        lemma_reader_in_range(model.ops@, running, 0);
        match chain_step(model, anchor, running) {
            Some(step) => {
                lemma_chain_in_range(
                    model,
                    anchor,
                    model.ops@[step.op_index as int].output(),
                    (limit - 1) as nat,
                );
            },
            None => {},
        }
    }
}

/// What follows a tensor is an operator.
proof fn lemma_activation_in_range(model: ParsedModel, g: GroupView)
    requires
        indices_below(g.absorbed, model.ops@.len() as int),
    ensures
        indices_below(with_activation(model, g).absorbed, model.ops@.len() as int),
{
    lemma_reader_in_range(model.ops@, g.output, 0);
}

proof fn lemma_conv_in_range(model: ParsedModel, i: int)
    ensures
        indices_below(conv_group(model, i).absorbed, model.ops@.len() as int),
{
    reveal(conv_group);
    let g = anchor_group(model, i);
    lemma_reader_in_range(model.ops@, g.output, 0);
    lemma_activation_in_range(model, g);
    match residual_add(model, i) {
        Some((add, r)) => {
            lemma_activation_in_range(model, with_residual(model, g, add, r));
        },
        None => match sole_reader(model, g.output) {
            Some(mul) => match scale_fold(model, i, mul as int) {
                Some(r) => {
                    lemma_activation_in_range(model, with_requantize(model, g, mul as int, r));
                },
                None => {},
            },
            None => {},
        },
    }
}

proof fn lemma_chain_group_in_range(model: ParsedModel, i: int)
    ensures
        indices_below(chain_group(model, i).absorbed, model.ops@.len() as int),
{
    reveal(chain_group);
    let first = model.ops@[i].output();
    assert(model.ops@.len() == model.ops.len());
    lemma_chain_in_range(model, i, first, model.ops@.len());
    let steps = chain(model, i, first, model.ops@.len());
    let absorbed = chain_group(model, i).absorbed;
    assert forall|k: int| 0 <= k < absorbed.len() implies 0 <= #[trigger] absorbed[k] < model.ops@.len() by {
        assert(steps[k].op_index < model.ops@.len());
    }
}

proof fn lemma_pool_in_range(model: ParsedModel, consumed: Set<int>, i: int)
    ensures
        indices_below(pool_group(model, consumed, i).absorbed, model.ops@.len() as int),
{
    reveal(pool_group);
    lemma_writer_in_range(model.ops@, model.ops@[i].input(), 0);
}

/// What a group absorbs are operators.
pub proof fn lemma_absorbed_in_range(model: ParsedModel, consumed: Set<int>, i: int)
    ensures
        indices_below(group_of(model, consumed, i).absorbed, model.ops@.len() as int),
{
    lemma_conv_in_range(model, i);
    lemma_chain_group_in_range(model, i);
    lemma_pool_in_range(model, consumed, i);
}

/// Sets the marks of the operators in a list.
fn mark(marks: &mut Vec<bool>, list: &Vec<usize>)
    requires
        forall|k: int| 0 <= k < list@.len() ==> #[trigger] list@[k] < old(marks)@.len(),
    ensures
        final(marks)@.len() == old(marks)@.len(),
        forall|j: int|
            0 <= j < old(marks)@.len() ==> #[trigger] final(marks)@[j] == (old(marks)@[j]
                || list@.contains(j as usize)),
{
    let ghost before = marks@;
    let n: usize = marks.len();
    let mut a: usize = 0;
    while a < list.len()
        invariant
            a <= list@.len(),
            marks@.len() == before.len(),
            before.len() == n,
            forall|k: int| 0 <= k < list@.len() ==> #[trigger] list@[k] < marks@.len(),
            forall|j: int|
                0 <= j < before.len() ==> #[trigger] marks@[j] == (before[j] || list@.take(
                    a as int,
                ).contains(j as usize)),
        decreases list@.len() - a,
    {
        let index: usize = list[a];
        let ghost seen = list@.take(a as int);
        marks.set(index, true);
        a = a + 1;
        proof {
            let now = list@.take(a as int);
            assert(now =~= seen.push(index));
            assert forall|j: int| 0 <= j < before.len() implies #[trigger] marks@[j] == (before[j]
                || now.contains(j as usize)) by {
                if seen.contains(j as usize) {
                    let k = choose|k: int| 0 <= k < seen.len() && seen[k] == j as usize;
                    assert(now[k] == j as usize);
                }
                if j == index {
                    assert(now[a - 1] == j as usize);
                }
                if now.contains(j as usize) && j != index {
                    let k = choose|k: int| 0 <= k < now.len() && now[k] == j as usize;
                    assert(seen[k] == j as usize);
                }
            }
        }
    }
    assert(list@.take(list@.len() as int) =~= list@);
}

/// One more group absorbs what it absorbs.
pub proof fn lemma_absorbed_by_push(groups: Seq<GroupView>, g: GroupView, j: int)
    ensures
        absorbed_by(groups.push(g)).contains(j) == (absorbed_by(groups).contains(j)
            || g.absorbed.contains(j)),
{
    let after = groups.push(g);
    if absorbed_by(groups).contains(j) {
        let m = choose|m: int| 0 <= m < groups.len() && #[trigger] groups[m].absorbed.contains(j);
        assert(after[m].absorbed.contains(j));
    }
    if g.absorbed.contains(j) {
        assert(after[groups.len() as int].absorbed.contains(j));
    }
    if absorbed_by(after).contains(j) {
        let m = choose|m: int| 0 <= m < after.len() && #[trigger] after[m].absorbed.contains(j);
        if m < groups.len() {
            assert(groups[m].absorbed.contains(j));
        }
    }
}

/// A list and its view hold the same indices.
proof fn lemma_index_views(list: Seq<usize>, j: int)
    requires
        0 <= j <= usize::MAX,
    ensures
        list.contains(j as usize) == list.map_values(|i: usize| i as int).contains(j),
{
    let view = list.map_values(|i: usize| i as int);
    if list.contains(j as usize) {
        let k = choose|k: int| 0 <= k < list.len() && list[k] == j as usize;
        assert(view[k] == j);
    }
    if view.contains(j) {
        let k = choose|k: int| 0 <= k < view.len() && view[k] == j;
        assert(list[k] == j as usize);
    }
}

/// The group of an operator.
fn fuse_one(ctx: &Ctx, i: usize) -> (group: FusedGroup)
    requires
        ctx.counted(),
        i < ctx.model.ops@.len(),
        ctx.consumed@.len() == ctx.model.ops@.len(),
    ensures
        group@ == group_of(
            *ctx.model,
            Set::new(|j: int| 0 <= j < ctx.consumed@.len() && ctx.consumed@[j]),
            i as int,
        ),
        forall|k: int|
            0 <= k < group.absorbed_ops@.len() ==> #[trigger] group.absorbed_ops@[k]
                < ctx.model.ops@.len(),
{
    let ghost consumed = Set::new(|j: int| 0 <= j < ctx.consumed@.len() && ctx.consumed@[j]);
    let code: i32 = ctx.model.ops[i].builtin_code;
    let mut group = if is_conv_family(code) {
        try_fuse_conv(ctx, i)
    } else if is_elementwise(code) {
        try_fuse_elementwise_chain(ctx, i)
    } else if is_pool_or_softmax(code) {
        try_fuse_input_fold(ctx, i)
    } else {
        FusedGroup::anchor(i, &ctx.model.ops[i])
    };
    group.requires_verification = group.input_fold.is_some() || group.folded_requantize.is_some();
    proof {
        assert(group@ =~= group_of(*ctx.model, consumed, i as int));
        lemma_absorbed_in_range(*ctx.model, consumed, i as int);
        assert forall|k: int| 0 <= k < group.absorbed_ops@.len() implies #[trigger] group.absorbed_ops@[k]
            < ctx.model.ops@.len() by {
            assert(group@.absorbed[k] == group.absorbed_ops@[k]);
        }
    }
    group
}

/// The fused groups of a model, in the order of their anchors.
pub fn fuse(model: &ParsedModel) -> (r: FusedSchedule)
    ensures
        r@ == fused_groups(*model),
        r.total_ops == model.ops@.len(),
{
    let n: usize = model.ops.len();
    let mut ctx = Ctx {
        model,
        consumers: consumer_counts(model),
        fold_targets: Vec::new(),
        consumed: falses(n),
    };
    let mut k: usize = 0;
    while k < n
        invariant
            k <= n,
            n == model.ops@.len(),
            ctx.counted(),
            ctx.model == model,
            ctx.consumed@.len() == n,
            forall|j: int| 0 <= j < n ==> ctx.consumed@[j] == false,
            ctx.fold_targets@.len() == k,
            forall|j: int|
                0 <= j < k ==> ctx.fold_targets@[j] == (#[trigger] input_fold(*model, j) is Some),
        decreases n - k,
    {
        let target: bool = try_input_fold(&ctx, k).is_some();
        ctx.fold_targets.push(target);
        k = k + 1;
    }
    let mut groups: Vec<FusedGroup> = Vec::new();
    let mut i: usize = 0;
    assert(groups@.map_values(|g: FusedGroup| g@) =~= Seq::empty());
    while i < n
        invariant
            i <= n,
            n == model.ops@.len(),
            ctx.counted(),
            ctx.model == model,
            ctx.consumed@.len() == n,
            ctx.fold_targets@.len() == n,
            forall|j: int|
                0 <= j < n ==> ctx.fold_targets@[j] == (#[trigger] input_fold(*model, j) is Some),
            groups@.map_values(|g: FusedGroup| g@) == groups_upto(*model, i as nat),
            forall|j: int|
                0 <= j < n ==> ctx.consumed@[j] == #[trigger] absorbed_by(
                    groups_upto(*model, i as nat),
                ).contains(j),
            forall|j: int| #[trigger]
                absorbed_by(groups_upto(*model, i as nat)).contains(j) ==> 0 <= j < n,
        decreases n - i,
    {
        let ghost before = groups_upto(*model, i as nat);
        proof {
            assert(input_fold(*model, i as int) is Some == ctx.fold_targets@[i as int]);
            assert(absorbed_by(before).contains(i as int) == ctx.consumed@[i as int]);
            assert(groups_upto(*model, (i + 1) as nat) == if ctx.consumed@[i as int]
                || ctx.fold_targets@[i as int] {
                before
            } else {
                before.push(group_of(*model, absorbed_by(before), i as int))
            });
        }
        if !ctx.consumed[i] && !ctx.fold_targets[i] {
            let group = fuse_one(&ctx, i);
            proof {
                assert(Set::new(|j: int| 0 <= j < ctx.consumed@.len() && ctx.consumed@[j])
                    =~= absorbed_by(before));
            }
            let ghost view = group@;
            mark(&mut ctx.consumed, &group.absorbed_ops);
            proof {
                let after = groups_upto(*model, (i + 1) as nat);
                assert(after == before.push(view));
                assert forall|j: int| 0 <= j < n implies ctx.consumed@[j] == #[trigger] absorbed_by(
                    after,
                ).contains(j) by {
                    lemma_absorbed_by_push(before, view, j);
                    lemma_index_views(group.absorbed_ops@, j);
                }
                assert forall|j: int| #[trigger] absorbed_by(after).contains(j) implies 0 <= j < n by {
                    lemma_absorbed_by_push(before, view, j);
                    if view.absorbed.contains(j) {
                        let k = choose|k: int| 0 <= k < view.absorbed.len() && view.absorbed[k] == j;
                        assert(group.absorbed_ops@[k] == j);
                    }
                }
            }
            groups.push(group);
            assert(groups@.map_values(|g: FusedGroup| g@) =~= before.push(view));
        }
        i = i + 1;
    }
    FusedSchedule { groups, total_ops: n }
}

} // verus!
