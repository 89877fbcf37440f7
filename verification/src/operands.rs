//! What an emitted call says of the tensors of an operator: where they lie,
//! their shapes, their quantization and their constant data. Each function
//! stands beside a specification of when it fails and of what it gives.

use crate::bytes::{read_signed, read_words};
use crate::emit_error::{EmitError, OperandName, OperatorName};
use crate::model::{ParsedModel, ParsedTensor, QuantInfo, TensorType, NO_TENSOR};
use crate::op_params::{FusedActivation, Padding};
use crate::requant::{act_range, negate, product_ratio_pair, to_word};
use crate::shape::flat_prod;
use vstd::prelude::*;

verus! {

/// Where the data of a tensor lies in the emitted code.
#[derive(Clone, Copy, Debug, PartialEq, Eq, Structural)]
pub enum Storage {
    /// A range of the input array.
    Input { start: usize, len: usize },
    /// A range of the output array.
    Output { start: usize, len: usize },
    /// A constant.
    Const,
    /// A tensor of its own.
    Tensor { idx: usize },
}

/// What an emitted call reads.
#[derive(Clone, Copy, Debug, PartialEq, Eq, Structural)]
pub enum Source {
    /// A range of the input array.
    Input { start: usize, len: usize },
    /// An intermediate tensor.
    Tensor { idx: usize },
}

/// What an emitted call writes.
#[derive(Clone, Copy, Debug, PartialEq, Eq, Structural)]
pub enum Target {
    /// A range of the output array.
    Output { start: usize, len: usize },
    /// An intermediate tensor.
    Tensor { idx: usize },
}

/// The first failure of two.
pub open spec fn either(a: Option<EmitError>, b: Option<EmitError>) -> Option<EmitError> {
    match a {
        Some(e) => Some(e),
        None => b,
    }
}

/// The failure of a check.
pub open spec fn unless(holds: bool, e: EmitError) -> Option<EmitError> {
    if holds {
        None
    } else {
        Some(e)
    }
}

/// Fails where an operand is not listed.
pub open spec fn listed(
    list: Seq<u32>,
    k: int,
    operator: OperatorName,
    operand: OperandName,
) -> Option<EmitError> {
    unless(k < list.len(), EmitError::Missing { operator, operand })
}

/// An operand that may be absent.
pub open spec fn optional(list: Seq<u32>, k: int) -> u32 {
    if k < list.len() {
        list[k]
    } else {
        NO_TENSOR
    }
}

/// Fails where a tensor does not exist.
pub open spec fn known(model: ParsedModel, t: u32) -> Option<EmitError> {
    unless(t < model.tensors@.len(), EmitError::IndexOutOfRange { tensor: t })
}

/// The operand at a position of a list.
pub fn required_operand(
    list: &Vec<u32>,
    k: usize,
    operator: OperatorName,
    operand: OperandName,
) -> (r: Result<u32, EmitError>)
    ensures
        match r {
            Ok(t) => listed(list@, k as int, operator, operand) is None && t == list@[k as int],
            Err(e) => listed(list@, k as int, operator, operand) == Some(e),
        },
{
    if k < list.len() {
        Ok(list[k])
    } else {
        Err(EmitError::Missing { operator, operand })
    }
}

/// An operand that may be absent.
pub fn optional_operand(list: &Vec<u32>, k: usize) -> (r: u32)
    ensures
        r == optional(list@, k as int),
{
    if k < list.len() {
        list[k]
    } else {
        NO_TENSOR
    }
}

/// The tensor at an index.
pub fn tensor_at(model: &ParsedModel, t: u32) -> (r: Result<&ParsedTensor, EmitError>)
    ensures
        match r {
            Ok(tensor) => known(*model, t) is None && *tensor == model.tensors@[t as int],
            Err(e) => known(*model, t) == Some(e),
        },
{
    match model.tensor_by_index(t as usize) {
        Some(tensor) => Ok(tensor),
        None => Err(EmitError::IndexOutOfRange { tensor: t }),
    }
}

/// Fails where a tensor cannot be read.
pub open spec fn readable(storage: Seq<Storage>, t: u32) -> Option<EmitError> {
    if t >= storage.len() {
        Some(EmitError::IndexOutOfRange { tensor: t })
    } else {
        match storage[t as int] {
            Storage::Input { .. } | Storage::Tensor { .. } => None,
            Storage::Const => Some(EmitError::ConstantSource { tensor: t }),
            Storage::Output { .. } => Some(EmitError::OutputSource { tensor: t }),
        }
    }
}

/// What reads a tensor.
pub open spec fn source_of(storage: Seq<Storage>, t: u32) -> Source {
    match storage[t as int] {
        Storage::Input { start, len } => Source::Input { start, len },
        Storage::Tensor { idx } => Source::Tensor { idx },
        _ => arbitrary(),
    }
}

/// Fails where a tensor cannot be written.
pub open spec fn writable(storage: Seq<Storage>, t: u32) -> Option<EmitError> {
    if t >= storage.len() {
        Some(EmitError::IndexOutOfRange { tensor: t })
    } else {
        match storage[t as int] {
            Storage::Output { .. } | Storage::Tensor { .. } => None,
            _ => Some(EmitError::Target { tensor: t }),
        }
    }
}

/// What writes a tensor.
pub open spec fn target_of(storage: Seq<Storage>, t: u32) -> Target {
    match storage[t as int] {
        Storage::Output { start, len } => Target::Output { start, len },
        Storage::Tensor { idx } => Target::Tensor { idx },
        _ => arbitrary(),
    }
}

/// What reads a tensor.
pub fn src_expr(storage: &Vec<Storage>, t: u32) -> (r: Result<Source, EmitError>)
    ensures
        match r {
            Ok(source) => readable(storage@, t) is None && source == source_of(storage@, t),
            Err(e) => readable(storage@, t) == Some(e),
        },
{
    if t as usize >= storage.len() {
        return Err(EmitError::IndexOutOfRange { tensor: t });
    }
    match storage[t as usize] {
        Storage::Input { start, len } => Ok(Source::Input { start, len }),
        Storage::Tensor { idx } => Ok(Source::Tensor { idx }),
        Storage::Const => Err(EmitError::ConstantSource { tensor: t }),
        Storage::Output { .. } => Err(EmitError::OutputSource { tensor: t }),
    }
}

/// What writes a tensor.
pub fn dst_expr(storage: &Vec<Storage>, t: u32) -> (r: Result<Target, EmitError>)
    ensures
        match r {
            Ok(target) => writable(storage@, t) is None && target == target_of(storage@, t),
            Err(e) => writable(storage@, t) == Some(e),
        },
{
    if t as usize >= storage.len() {
        return Err(EmitError::IndexOutOfRange { tensor: t });
    }
    match storage[t as usize] {
        Storage::Output { start, len } => Ok(Target::Output { start, len }),
        Storage::Tensor { idx } => Ok(Target::Tensor { idx }),
        _ => Err(EmitError::Target { tensor: t }),
    }
}

/// The first entry below `low`, or at `high` and above.
pub open spec fn first_outside(list: Seq<i32>, low: int, high: int) -> Option<i32>
    decreases list.len(),
{
    if list.len() == 0 {
        None
    } else {
        match first_outside(list.drop_last(), low, high) {
            Some(d) => Some(d),
            None => if low <= list.last() < high {
                None
            } else {
                Some(list.last())
            },
        }
    }
}

/// The first dimension that is unknown or empty.
pub open spec fn bad_dimension(shape: Seq<i32>) -> Option<i32> {
    first_outside(shape, 1, 0x8000_0000)
}

/// Without an entry outside, all are inside.
pub proof fn lemma_none_outside(list: Seq<i32>, low: int, high: int)
    ensures
        first_outside(list, low, high) is None <==> forall|k: int|
            0 <= k < list.len() ==> low <= #[trigger] list[k] < high,
    decreases list.len(),
{
    if list.len() > 0 {
        let rest = list.drop_last();
        lemma_none_outside(rest, low, high);
        if forall|k: int| 0 <= k < list.len() ==> low <= #[trigger] list[k] < high {
            assert forall|k: int| 0 <= k < rest.len() implies low <= #[trigger] rest[k] < high by {
                assert(low <= list[k] < high);
            }
            assert(low <= list[list.len() - 1] < high);
        }
        if first_outside(list, low, high) is None {
            assert forall|k: int| 0 <= k < list.len() implies low <= #[trigger] list[k] < high by {
                if k < rest.len() {
                    assert(low <= rest[k] < high);
                }
            }
        }
    }
}

/// An entry outside among the first is the first of all.
proof fn lemma_first_outside_stays(list: Seq<i32>, low: int, high: int, n: int)
    requires
        0 <= n <= list.len(),
    ensures
        first_outside(list.take(n), low, high) is Some ==> first_outside(list, low, high)
            == first_outside(list.take(n), low, high),
    decreases list.len() - n,
{
    if n == list.len() {
        assert(list.take(n) =~= list);
    } else {
        assert(list.take(n + 1).drop_last() =~= list.take(n));
        lemma_first_outside_stays(list, low, high, n + 1);
    }
}

/// The first entry below `low`, or at `high` and above.
pub fn find_outside(list: &Vec<i32>, low: i64, high: i64) -> (r: Option<i32>)
    ensures
        r == first_outside(list@, low as int, high as int),
        r is None <==> forall|k: int| 0 <= k < list@.len() ==> low <= #[trigger] list@[k] < high,
{
    let mut k: usize = 0;
    proof {
        lemma_none_outside(list@, low as int, high as int);
    }
    while k < list.len()
        invariant
            k <= list@.len(),
            first_outside(list@.take(k as int), low as int, high as int) is None,
        decreases list@.len() - k,
    {
        proof {
            assert(list@.take(k + 1).drop_last() =~= list@.take(k as int));
            lemma_first_outside_stays(list@, low as int, high as int, k + 1);
            lemma_none_outside(list@, low as int, high as int);
        }
        if (list[k] as i64) < low || list[k] as i64 >= high {
            return Some(list[k]);
        }
        k = k + 1;
    }
    proof {
        assert(list@.take(list@.len() as int) =~= list@);
    }
    None
}

/// A shape without a bad dimension is all positive.
pub proof fn lemma_bad_dimension(shape: Seq<i32>)
    ensures
        bad_dimension(shape) is None <==> crate::shape::all_positive(shape),
{
    lemma_none_outside(shape, 1, 0x8000_0000);
    if crate::shape::all_positive(shape) {
        assert forall|k: int| 0 <= k < shape.len() implies 1 <= #[trigger] shape[k]
            < 0x8000_0000 by {
            assert(shape[k] > 0);
        }
    }
}

/// The first dimension that is unknown or empty.
fn find_bad_dimension(shape: &Vec<i32>) -> (r: Option<i32>)
    ensures
        r == bad_dimension(shape@),
        r is None <==> crate::shape::all_positive(shape@),
{
    proof {
        lemma_bad_dimension(shape@);
    }
    find_outside(shape, 1, 0x8000_0000)
}

/// Fails where a dimension is unknown or empty.
pub open spec fn countable(shape: Seq<i32>) -> Option<EmitError> {
    match bad_dimension(shape) {
        Some(dim) => Some(EmitError::Dimension { dim }),
        None => None,
    }
}

/// Whether the element count of a shape fits into the numbers that hold it.
pub open spec fn count_fits(shape: Seq<i32>) -> bool {
    crate::shape::all_positive(shape) ==> {
        &&& crate::shape::product_of(shape) <= usize::MAX
        &&& crate::shape::product_of(shape) <= i64::MAX
    }
}

/// Whether the element count of a tensor fits.
pub open spec fn tensor_fits(model: ParsedModel, t: int) -> bool {
    match model.tensor(t) {
        Some(tensor) => count_fits(tensor.shape@),
        None => true,
    }
}

/// Whether the element counts of the listed tensors fit.
pub open spec fn listed_fit(model: ParsedModel, list: Seq<u32>) -> bool {
    forall|k: int| 0 <= k < list.len() ==> tensor_fits(model, #[trigger] list[k] as int)
}

/// Whether the element count of an operand fits, where it is listed.
pub open spec fn operand_fits(model: ParsedModel, list: Seq<u32>, k: int) -> bool {
    k < list.len() ==> tensor_fits(model, list[k] as int)
}

/// Whether the element count of an operand fits, where it is a constant.
pub open spec fn weights_fit(model: ParsedModel, list: Seq<u32>, k: int) -> bool {
    k < list.len() && model.is_constant(list[k] as int) ==> tensor_fits(model, list[k] as int)
}

/// The first dimensions have no more elements than all.
proof fn lemma_prefix_is_no_larger(shape: Seq<i32>, n: int)
    requires
        0 <= n <= shape.len(),
        crate::shape::all_positive(shape),
    ensures
        1 <= crate::shape::product_of(shape.take(n)) <= crate::shape::product_of(shape),
    decreases shape.len(),
{
    if n == shape.len() {
        assert(shape.take(n) =~= shape);
        crate::shape::lemma_product_positive(shape);
    } else {
        let rest = shape.drop_last();
        assert forall|k: int| 0 <= k < rest.len() implies #[trigger] rest[k] > 0 by {
            assert(shape[k] > 0);
        }
        lemma_prefix_is_no_larger(rest, n);
        assert(rest.take(n) =~= shape.take(n));
        let p = crate::shape::product_of(rest);
        let d = shape[shape.len() - 1] as int;
        assert(p * d >= p) by (nonlinear_arith)
            requires
                p >= 1,
                d >= 1,
        ;
    }
}

/// Whether the element count of a shape fits into the numbers that hold it.
pub fn check_count(shape: &Vec<i32>) -> (r: bool)
    ensures
        r == count_fits(shape@),
{
    if find_bad_dimension(shape).is_some() {
        return true;
    }
    let mut count: u128 = 1;
    let mut k: usize = 0;
    assert(shape@.take(0) =~= Seq::empty());
    while k < shape.len()
        invariant
            k <= shape@.len(),
            crate::shape::all_positive(shape@),
            count == crate::shape::product_of(shape@.take(k as int)),
            count <= usize::MAX,
            count <= i64::MAX,
        decreases shape@.len() - k,
    {
        let d: i32 = shape[k];
        proof {
            assert(shape@.take(k + 1).drop_last() =~= shape@.take(k as int));
            lemma_prefix_is_no_larger(shape@, k + 1);
            assert(count * d <= 0x7fff_ffff_ffff_ffff * 0x7fff_ffff) by (nonlinear_arith)
                requires
                    0 <= count <= 0x7fff_ffff_ffff_ffff,
                    0 <= d <= 0x7fff_ffff,
            ;
        }
        count = count * (d as u128);
        if count > usize::MAX as u128 || count > i64::MAX as u128 {
            return false;
        }
        k = k + 1;
    }
    assert(shape@.take(shape@.len() as int) =~= shape@);
    true
}

/// Whether the element count of a tensor fits.
pub fn check_tensor(model: &ParsedModel, t: usize) -> (r: bool)
    ensures
        r == tensor_fits(*model, t as int),
{
    match model.tensor_by_index(t) {
        Some(tensor) => check_count(&tensor.shape),
        None => true,
    }
}

/// Whether the element counts of the listed tensors fit.
pub fn check_listed(model: &ParsedModel, list: &Vec<u32>) -> (r: bool)
    ensures
        r == listed_fit(*model, list@),
{
    let mut k: usize = 0;
    while k < list.len()
        invariant
            k <= list@.len(),
            forall|j: int| 0 <= j < k ==> tensor_fits(*model, #[trigger] list@[j] as int),
        decreases list@.len() - k,
    {
        if !check_tensor(model, list[k] as usize) {
            assert(!tensor_fits(*model, list@[k as int] as int));
            return false;
        }
        k = k + 1;
    }
    true
}

/// Whether the element count of an operand fits, where it is listed.
pub fn check_operand(model: &ParsedModel, list: &Vec<u32>, k: usize) -> (r: bool)
    ensures
        r == operand_fits(*model, list@, k as int),
{
    k >= list.len() || check_tensor(model, list[k] as usize)
}

/// Whether the element count of an operand fits, where it is a constant.
pub fn check_weights(model: &ParsedModel, list: &Vec<u32>, k: usize) -> (r: bool)
    ensures
        r == weights_fit(*model, list@, k as int),
{
    if k >= list.len() {
        return true;
    }
    match model.tensor_by_index(list[k] as usize) {
        Some(tensor) => model.buffer_data(tensor).is_none() || check_count(&tensor.shape),
        None => true,
    }
}

/// The number of elements of a tensor.
pub fn flat_len(shape: &Vec<i32>) -> (r: Result<usize, EmitError>)
    requires
        count_fits(shape@),
    ensures
        match r {
            Ok(n) => {
                &&& countable(shape@) is None
                &&& crate::shape::all_positive(shape@)
                &&& n == crate::shape::product_of(shape@)
            },
            Err(e) => countable(shape@) == Some(e),
        },
{
    match find_bad_dimension(shape) {
        Some(dim) => Err(EmitError::Dimension { dim }),
        None => Ok(flat_prod(shape)),
    }
}

/// Fails where a shape is not one of up to four known dimensions.
pub open spec fn four_dimensional(shape: Seq<i32>) -> Option<EmitError> {
    if shape.len() > 4 {
        Some(EmitError::Rank { rank: shape.len() as usize })
    } else {
        match bad_dimension(shape) {
            Some(dim) => Some(EmitError::ShapeDimension { dim }),
            None => None,
        }
    }
}

/// A shape with ones in front, up to four dimensions.
pub open spec fn widened(shape: Seq<i32>) -> Seq<i32> {
    Seq::new(
        4,
        |k: int|
            if k < 4 - shape.len() {
                1
            } else {
                shape[k - (4 - shape.len())]
            },
    )
}

/// The dimension at a position of a shape with ones in front.
fn widened_at(shape: &Vec<i32>, k: usize) -> (r: i32)
    requires
        shape@.len() <= 4,
        k < 4,
    ensures
        r == widened(shape@)[k as int],
{
    let front: usize = 4 - shape.len();
    if k < front {
        1
    } else {
        shape[k - front]
    }
}

/// A shape with ones in front, up to four dimensions.
pub fn shape4(shape: &Vec<i32>) -> (r: Result<[i32; 4], EmitError>)
    ensures
        match r {
            Ok(dims) => {
                &&& four_dimensional(shape@) is None
                &&& dims@ == widened(shape@)
                &&& forall|k: int| 0 <= k < 4 ==> #[trigger] dims@[k] > 0
                &&& crate::shape::all_positive(shape@)
            },
            Err(e) => four_dimensional(shape@) == Some(e),
        },
{
    if shape.len() > 4 {
        return Err(EmitError::Rank { rank: shape.len() });
    }
    match find_bad_dimension(shape) {
        Some(dim) => Err(EmitError::ShapeDimension { dim }),
        None => {
            let dims: [i32; 4] = [
                widened_at(shape, 0),
                widened_at(shape, 1),
                widened_at(shape, 2),
                widened_at(shape, 3),
            ];
            assert(dims@ =~= widened(shape@));
            Ok(dims)
        },
    }
}

/// Fails where a tensor has no positive finite scale.
pub open spec fn scaled(model: ParsedModel, t: u32) -> Option<EmitError> {
    match model.tensors@[t as int].quant {
        Some(q) => unless(
            crate::ieee::is_valid_scale(q.scale),
            EmitError::InvalidScale { tensor: t },
        ),
        None => Some(EmitError::NoQuantization { tensor: t }),
    }
}

/// The scale of a quantized tensor.
pub open spec fn scale_of(tensor: ParsedTensor) -> u32 {
    tensor.quant->0.scale
}

/// The zero point of a quantized tensor.
pub open spec fn zero_point_of(tensor: ParsedTensor) -> i32 {
    crate::requant::low_word(tensor.quant->0.zero_point)
}

/// Fails where a tensor is not quantized.
pub open spec fn quantized(model: ParsedModel, t: u32) -> Option<EmitError> {
    unless(model.tensors@[t as int].quant is Some, EmitError::NoQuantization { tensor: t })
}

/// The scale of a tensor.
pub fn tensor_scale(model: &ParsedModel, t: u32) -> (r: Result<u32, EmitError>)
    requires
        t < model.tensors@.len(),
    ensures
        match r {
            Ok(scale) => scaled(*model, t) is None && scale == scale_of(model.tensors@[t as int]),
            Err(e) => scaled(*model, t) == Some(e),
        },
{
    match &model.tensors[t as usize].quant {
        Some(q) => {
            if q.scale > 0 && q.scale < 0x7f80_0000 {
                Ok(q.scale)
            } else {
                Err(EmitError::InvalidScale { tensor: t })
            }
        },
        None => Err(EmitError::NoQuantization { tensor: t }),
    }
}

/// The zero point of a tensor.
pub fn tensor_zp(model: &ParsedModel, t: u32) -> (r: Result<i32, EmitError>)
    requires
        t < model.tensors@.len(),
    ensures
        match r {
            Ok(zp) => quantized(*model, t) is None && zp == zero_point_of(model.tensors@[t as int]),
            Err(e) => quantized(*model, t) == Some(e),
        },
{
    match &model.tensors[t as usize].quant {
        Some(q) => Ok(to_word(q.zero_point)),
        None => Err(EmitError::NoQuantization { tensor: t }),
    }
}

/// Scale and zero point of a tensor.
pub fn tensor_quant(model: &ParsedModel, t: u32) -> (r: Result<(u32, i32), EmitError>)
    requires
        t < model.tensors@.len(),
    ensures
        match r {
            Ok(q) => {
                let tensor = model.tensors@[t as int];
                &&& scaled(*model, t) is None
                &&& q == (scale_of(tensor), zero_point_of(tensor))
            },
            Err(e) => scaled(*model, t) == Some(e),
        },
{
    let scale: u32 = tensor_scale(model, t)?;
    let zp: i32 = tensor_zp(model, t)?;
    Ok((scale, zp))
}

/// Fails where there is not one scale per channel.
pub open spec fn channel_scaled(quant: Option<QuantInfo>, channels: nat) -> Option<EmitError> {
    match quant {
        None => Some(EmitError::NoChannelQuantization),
        Some(q) => match q.per_channel {
            None => None,
            Some(pc) => unless(
                pc.scales@.len() == channels || pc.scales@.len() == 1,
                EmitError::ChannelCount {
                    scales: pc.scales@.len() as usize,
                    channels: channels as usize,
                },
            ),
        },
    }
}

/// The scale of a channel: its own, or the one for all.
pub open spec fn channel_scale(quant: QuantInfo, channels: nat, k: int) -> u32 {
    match quant.per_channel {
        None => quant.scale,
        Some(pc) => if pc.scales@.len() == channels {
            pc.scales@[k]
        } else {
            pc.scales@[0]
        },
    }
}

/// The scale of every channel.
pub fn channel_scales(quant: &Option<QuantInfo>, n: usize) -> (r: Result<Vec<u32>, EmitError>)
    ensures
        match r {
            Ok(scales) => {
                &&& channel_scaled(*quant, n as nat) is None
                &&& scales@ == Seq::new(n as nat, |k: int| channel_scale(quant->0, n as nat, k))
            },
            Err(e) => channel_scaled(*quant, n as nat) == Some(e),
        },
{
    match quant {
        None => Err(EmitError::NoChannelQuantization),
        Some(q) => {
            match &q.per_channel {
                Some(pc) => {
                    if pc.scales.len() != n && pc.scales.len() != 1 {
                        return Err(
                            EmitError::ChannelCount { scales: pc.scales.len(), channels: n },
                        );
                    }
                },
                None => {},
            }
            let mut scales: Vec<u32> = Vec::new();
            let mut k: usize = 0;
            while k < n
                invariant
                    k <= n,
                    scales@.len() == k,
                    match q.per_channel {
                        Some(pc) => pc.scales@.len() == n || pc.scales@.len() == 1,
                        None => true,
                    },
                    forall|j: int|
                        0 <= j < k ==> #[trigger] scales@[j] == channel_scale(*q, n as nat, j),
                decreases n - k,
            {
                let scale: u32 = match &q.per_channel {
                    Some(pc) => if pc.scales.len() == n {
                        pc.scales[k]
                    } else {
                        pc.scales[0]
                    },
                    None => q.scale,
                };
                scales.push(scale);
                k = k + 1;
            }
            assert(scales@ =~= Seq::new(
                n as nat,
                |k: int| channel_scale(quant->0, n as nat, k),
            ));
            Ok(scales)
        },
    }
}

/// The quantization of a convolution or a dense layer.
#[derive(Debug)]
pub struct ConvQuant {
    pub input_offset: i32,
    pub weights_offset: i32,
    pub output_offset: i32,
    pub multipliers: Vec<i32>,
    pub shifts: Vec<i32>,
    pub act_min: i32,
    pub act_max: i32,
}

/// Fails where a convolution is not quantized throughout.
pub open spec fn conv_quantized(
    model: ParsedModel,
    input: u32,
    weights: u32,
    output: u32,
    channels: nat,
) -> Option<EmitError> {
    either(
        scaled(model, input),
        either(
            scaled(model, output),
            channel_scaled(model.tensors@[weights as int].quant, channels),
        ),
    )
}

/// The pair of a channel: input scale times weight scale over output scale.
pub open spec fn channel_pair(
    input: ParsedTensor,
    weights: ParsedTensor,
    output: ParsedTensor,
    channels: nat,
    k: int,
) -> (i32, i32) {
    crate::requant::product_ratio(
        scale_of(input),
        channel_scale(weights.quant->0, channels, k),
        scale_of(output),
    )
}

/// Whether a quantization is that of a convolution with an activation.
pub open spec fn is_conv_quant(
    q: ConvQuant,
    input: ParsedTensor,
    weights: ParsedTensor,
    output: ParsedTensor,
    channels: nat,
    act: i8,
) -> bool {
    &&& q.input_offset == crate::requant::negated(zero_point_of(input))
    &&& q.weights_offset == zero_point_of(weights)
    &&& q.output_offset == zero_point_of(output)
    &&& q.multipliers@ == Seq::new(
        channels,
        |k: int| channel_pair(input, weights, output, channels, k).0,
    )
    &&& q.shifts@ == Seq::new(
        channels,
        |k: int| channel_pair(input, weights, output, channels, k).1,
    )
    &&& (q.act_min, q.act_max) == crate::requant::bounds(
        act,
        scale_of(output),
        zero_point_of(output),
    )
}

/// The quantization of a convolution or a dense layer.
pub fn conv_quant(
    model: &ParsedModel,
    input: u32,
    weights: u32,
    output: u32,
    out_channels: usize,
    fused_activation: i8,
) -> (r: Result<ConvQuant, EmitError>)
    requires
        input < model.tensors@.len(),
        weights < model.tensors@.len(),
        output < model.tensors@.len(),
    ensures
        match r {
            Ok(q) => {
                &&& conv_quantized(*model, input, weights, output, out_channels as nat) is None
                &&& is_conv_quant(
                    q,
                    model.tensors@[input as int],
                    model.tensors@[weights as int],
                    model.tensors@[output as int],
                    out_channels as nat,
                    fused_activation,
                )
            },
            Err(e) => conv_quantized(*model, input, weights, output, out_channels as nat) == Some(e),
        },
{
    let (in_scale, in_zp): (u32, i32) = tensor_quant(model, input)?;
    let (out_scale, out_zp): (u32, i32) = tensor_quant(model, output)?;
    let w_quant = &model.tensors[weights as usize].quant;
    let scales: Vec<u32> = channel_scales(w_quant, out_channels)?;
    let weights_offset: i32 = match w_quant {
        Some(q) => to_word(q.zero_point),
        None => 0,
    };
    let ghost i = model.tensors@[input as int];
    let ghost w = model.tensors@[weights as int];
    let ghost o = model.tensors@[output as int];
    let ghost n = out_channels as nat;
    let mut multipliers: Vec<i32> = Vec::new();
    let mut shifts: Vec<i32> = Vec::new();
    let mut k: usize = 0;
    while k < out_channels
        invariant
            k <= out_channels,
            n == out_channels,
            scales@ == Seq::new(n, |j: int| channel_scale(w.quant->0, n, j)),
            in_scale == scale_of(i),
            out_scale == scale_of(o),
            multipliers@.len() == k,
            shifts@.len() == k,
            forall|j: int|
                0 <= j < k ==> #[trigger] multipliers@[j] == channel_pair(i, w, o, n, j).0,
            forall|j: int| 0 <= j < k ==> #[trigger] shifts@[j] == channel_pair(i, w, o, n, j).1,
        decreases out_channels - k,
    {
        let (m, s): (i32, i32) = product_ratio_pair(in_scale, scales[k], out_scale);
        multipliers.push(m);
        shifts.push(s);
        k = k + 1;
    }
    assert(multipliers@ =~= Seq::new(n, |k: int| channel_pair(i, w, o, n, k).0));
    assert(shifts@ =~= Seq::new(n, |k: int| channel_pair(i, w, o, n, k).1));
    let (act_min, act_max): (i32, i32) = act_range(fused_activation, out_scale, out_zp);
    Ok(
        ConvQuant {
            input_offset: negate(in_zp),
            weights_offset,
            output_offset: out_zp,
            multipliers,
            shifts,
            act_min,
            act_max,
        },
    )
}

/// Fails where a padding code has no meaning.
pub open spec fn padded(padding: i8) -> Option<EmitError> {
    unless(padding == 0 || padding == 1, EmitError::UnknownPadding { value: padding })
}

/// What a padding code means.
pub open spec fn padding_of(padding: i8) -> Padding {
    if padding == 0 {
        Padding::Same
    } else {
        Padding::Valid
    }
}

/// What a padding code means.
pub fn padding_enum(padding: i8) -> (r: Result<Padding, EmitError>)
    ensures
        match r {
            Ok(p) => padded(padding) is None && p == padding_of(padding),
            Err(e) => padded(padding) == Some(e),
        },
{
    if padding == 0 {
        Ok(Padding::Same)
    } else if padding == 1 {
        Ok(Padding::Valid)
    } else {
        Err(EmitError::UnknownPadding { value: padding })
    }
}

/// What an activation code means to a pool. Codes other than those of ReLU and
/// ReLU6 mean no activation, as they do to the range.
pub open spec fn activation_of(act: i8) -> FusedActivation {
    if act == 1 {
        FusedActivation::Relu
    } else if act == 3 {
        FusedActivation::Relu6
    } else {
        FusedActivation::Identity
    }
}

/// What an activation code means to a pool. Codes other than those of ReLU and
/// ReLU6 mean no activation, as they do to the range.
pub fn fused_activation_enum(act: i8) -> (r: FusedActivation)
    ensures
        r == activation_of(act),
{
    if act == 1 {
        FusedActivation::Relu
    } else if act == 3 {
        FusedActivation::Relu6
    } else {
        FusedActivation::Identity
    }
}

/// Fails where a tensor is not int8.
pub open spec fn int8(model: ParsedModel, t: u32) -> Option<EmitError> {
    unless(
        model.tensors@[t as int].tensor_type == TensorType::Int8,
        EmitError::NotInt8 { tensor: t },
    )
}

/// Fails where a model input or output is not int8.
pub fn check_int8(model: &ParsedModel, t: u32) -> (r: Result<(), EmitError>)
    requires
        t < model.tensors@.len(),
    ensures
        match r {
            Ok(_) => int8(*model, t) is None,
            Err(e) => int8(*model, t) == Some(e),
        },
{
    if model.tensors[t as usize].tensor_type == TensorType::Int8 {
        Ok(())
    } else {
        Err(EmitError::NotInt8 { tensor: t })
    }
}

/// Fails where a tensor does not hold one constant byte per element.
pub open spec fn weighted(model: ParsedModel, t: u32) -> Option<EmitError> {
    match model.tensor(t as int) {
        None => Some(EmitError::WeightIndex { tensor: t }),
        Some(tensor) => match model.data(tensor) {
            None => Some(EmitError::WeightData { tensor: t }),
            Some(bytes) => either(
                countable(tensor.shape@),
                unless(
                    bytes.len() == crate::shape::product_of(tensor.shape@),
                    EmitError::WeightLength {
                        tensor: t,
                        bytes: bytes.len() as usize,
                        size: crate::shape::product_of(tensor.shape@) as usize,
                    },
                ),
            ),
        },
    }
}

/// The constant bytes of a tensor.
pub open spec fn weights_of(model: ParsedModel, t: u32) -> Seq<i8> {
    crate::bytes::signed_bytes(model.data(model.tensors@[t as int])->0)
}

/// The constant bytes of a weight tensor.
pub fn weight_const(model: &ParsedModel, t: u32) -> (r: Result<Vec<i8>, EmitError>)
    requires
        model.is_constant(t as int) ==> tensor_fits(*model, t as int),
    ensures
        match r {
            Ok(weights) => weighted(*model, t) is None && weights@ == weights_of(*model, t),
            Err(e) => weighted(*model, t) == Some(e),
        },
{
    let tensor = match model.tensor_by_index(t as usize) {
        Some(tensor) => tensor,
        None => return Err(EmitError::WeightIndex { tensor: t }),
    };
    let bytes = match model.buffer_data(tensor) {
        Some(bytes) => bytes,
        None => return Err(EmitError::WeightData { tensor: t }),
    };
    let size: usize = flat_len(&tensor.shape)?;
    if bytes.len() != size {
        return Err(EmitError::WeightLength { tensor: t, bytes: bytes.len(), size });
    }
    Ok(read_signed(bytes))
}

/// Fails where a bias does not hold one word per channel.
pub open spec fn biased(model: ParsedModel, t: u32, channels: nat) -> Option<EmitError> {
    if t == NO_TENSOR {
        None
    } else {
        match model.tensor(t as int) {
            None => Some(EmitError::BiasIndex { tensor: t }),
            Some(tensor) => match model.data(tensor) {
                None => None,
                Some(bytes) => unless(
                    bytes.len() == 4 * channels,
                    EmitError::BiasLength {
                        tensor: t,
                        bytes: bytes.len() as usize,
                        expected: (4 * channels) as u64,
                    },
                ),
            },
        }
    }
}

/// The bias of every channel; zero where there is none.
pub open spec fn bias_of(model: ParsedModel, t: u32, channels: nat) -> Seq<i32> {
    if t != NO_TENSOR && model.is_constant(t as int) {
        crate::bytes::words(model.data(model.tensors@[t as int])->0)
    } else {
        Seq::new(channels, |k: int| 0i32)
    }
}

fn zeros(n: usize) -> (r: Vec<i32>)
    ensures
        r@ == Seq::new(n as nat, |k: int| 0i32),
{
    let mut r: Vec<i32> = Vec::new();
    let mut k: usize = 0;
    while k < n
        invariant
            k <= n,
            r@.len() == k,
            forall|j: int| 0 <= j < k ==> #[trigger] r@[j] == 0,
        decreases n - k,
    {
        r.push(0);
        k = k + 1;
    }
    assert(r@ =~= Seq::new(n as nat, |k: int| 0i32));
    r
}

/// The bias of every channel; zero where there is none.
pub fn bias_const(model: &ParsedModel, t: u32, expected_len: usize) -> (r: Result<
    Vec<i32>,
    EmitError,
>)
    requires
        4 * expected_len <= u64::MAX,
    ensures
        match r {
            Ok(bias) => {
                &&& biased(*model, t, expected_len as nat) is None
                &&& bias@ == bias_of(*model, t, expected_len as nat)
                &&& bias@.len() == expected_len
            },
            Err(e) => biased(*model, t, expected_len as nat) == Some(e),
        },
{
    if t == NO_TENSOR {
        return Ok(zeros(expected_len));
    }
    let tensor = match model.tensor_by_index(t as usize) {
        Some(tensor) => tensor,
        None => return Err(EmitError::BiasIndex { tensor: t }),
    };
    match model.buffer_data(tensor) {
        Some(bytes) => {
            let expected: u64 = 4 * (expected_len as u64);
            if bytes.len() as u64 != expected {
                return Err(EmitError::BiasLength { tensor: t, bytes: bytes.len(), expected });
            }
            Ok(read_words(bytes))
        },
        None => Ok(zeros(expected_len)),
    }
}

} // verus!
