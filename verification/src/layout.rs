//! Channel layouts of tensors, and weight permutations at compile time.
//!
//! The vector unit reads sixteen channels at once. A four-dimensional
//! activation is stored with its channels padded to a multiple of that where
//! the padding adds at most a third. A transposition or relabelling of constant
//! weights in front of a convolution is done at compile time.

use crate::bytes::{read_word, read_words};
use crate::model::{contains_index, ParsedModel, ParsedOp, ParsedOptions, ParsedTensor};
use crate::model::{CONV_2D, DEPTHWISE_CONV_2D, FULLY_CONNECTED, RESHAPE};
use vstd::prelude::*;

verus! {

/// Channels that the vector unit reads at once.
pub const SIMD_LANES: u32 = 16;

/// Padding adds at most one channel to this many.
pub const MAX_PAD_OVERHEAD: u32 = 3;

/// Second operator code of a transposition of weights, beside
/// [`crate::model::TRANSPOSE`].
pub const TRANSPOSE: i32 = 15;

/// How the channels of a tensor are stored.
#[derive(Clone, Copy, Debug, PartialEq, Eq, Structural)]
pub enum ChannelLayout {
    /// As they are.
    Nhwc,
    /// Padded to a multiple of [`SIMD_LANES`].
    NhwcPad16,
}

/// The layout of one tensor.
#[derive(Clone, Copy, Debug, PartialEq, Eq, Structural)]
pub struct TensorLayout {
    pub tensor_index: u32,
    pub layout: ChannelLayout,
    pub channels: u32,
    /// Channels that are allocated.
    pub effective_channels: u32,
}

/// A place where unpadded data becomes padded data.
#[derive(Clone, Copy, Debug)]
pub struct RepadNode {
    pub tensor_index: u32,
    pub target_channels: u32,
    pub note: &'static str,
}

/// A transposition or relabelling of weights that is done at compile time.
#[derive(Debug)]
pub struct TransposeFold {
    /// The operator that no longer runs.
    pub op_index: u32,
    pub weight_index: u32,
    /// Input axis of each output axis; empty where nothing moves.
    pub permutation: Vec<usize>,
    pub weight_shape: Vec<i32>,
    pub note: &'static str,
}

/// The layouts of a model.
#[derive(Debug)]
pub struct LayoutPlan {
    /// One per tensor.
    pub layouts: Vec<TensorLayout>,
    pub repads: Vec<RepadNode>,
    pub folds: Vec<TransposeFold>,
}

/// The least multiple of sixteen that is not below `channels`.
pub open spec fn padded(channels: int) -> int {
    (channels + 15) / 16 * 16
}

/// Whether channels are padded: they fill whole vectors already, or there are
/// at least sixteen and padding adds at most a third.
pub open spec fn pads(channels: int) -> bool {
    channels > 0 && (channels % 16 == 0 || (channels >= 16 && 3 * (padded(channels) - channels)
        <= channels))
}

/// The least multiple of sixteen that is not below `channels`.
pub fn padded_channels(channels: u32) -> (r: u32)
    requires
        channels <= 0xffff_fff0,
    ensures
        r == padded(channels as int),
{
    (channels / SIMD_LANES + (if channels % SIMD_LANES == 0 { 0 } else { 1 })) * SIMD_LANES
}

/// Whether channels are padded.
pub fn layout_pad_decision(channels: u32) -> (r: ChannelLayout)
    requires
        channels <= 0xffff_fff0,
    ensures
        r == if pads(channels as int) {
            ChannelLayout::NhwcPad16
        } else {
            ChannelLayout::Nhwc
        },
{
    if channels == 0 {
        return ChannelLayout::Nhwc;
    }
    let delta: u32 = padded_channels(channels) - channels;
    if delta == 0 {
        ChannelLayout::NhwcPad16
    } else if channels >= SIMD_LANES && MAX_PAD_OVERHEAD * delta <= channels {
        ChannelLayout::NhwcPad16
    } else {
        ChannelLayout::Nhwc
    }
}

/// The channels of a tensor: its last dimension, or zero.
pub fn channels_of(tensor: &ParsedTensor) -> (r: u32)
    ensures
        r == crate::shape::channel_count(tensor.shape@),
        r <= i32::MAX,
{
    let n: usize = tensor.shape.len();
    if n > 0 && tensor.shape[n - 1] > 0 {
        tensor.shape[n - 1] as u32
    } else {
        0
    }
}

/// The rank of the weights of an operator that has weights.
pub open spec fn weight_rank(op_code: i32) -> Option<usize> {
    if op_code == CONV_2D || op_code == DEPTHWISE_CONV_2D {
        Some(4)
    } else if op_code == FULLY_CONNECTED {
        Some(2)
    } else {
        None
    }
}

/// The rank of the weights of an operator that has weights.
pub fn weight_rank_for(op_code: i32) -> (r: Option<usize>)
    ensures
        r == weight_rank(op_code),
{
    if op_code == CONV_2D || op_code == DEPTHWISE_CONV_2D {
        Some(4)
    } else if op_code == FULLY_CONNECTED {
        Some(2)
    } else {
        None
    }
}

/// Whether an operator reads `t` as its weights.
pub open spec fn reads_weights(op: ParsedOp, t: u32) -> bool {
    weight_rank(op.builtin_code) is Some && op.inputs@.len() > 1 && op.inputs@[1] == t
}

/// Whether some operator reads `t` as its weights.
pub open spec fn is_weight(ops: Seq<ParsedOp>, t: u32) -> bool {
    exists|k: int| 0 <= k < ops.len() && reads_weights(#[trigger] ops[k], t)
}

fn consumed_as_weight(model: &ParsedModel, t: u32) -> (r: bool)
    ensures
        r == is_weight(model.ops@, t),
{
    let mut k: usize = 0;
    while k < model.ops.len()
        invariant
            k <= model.ops@.len(),
            forall|j: int| 0 <= j < k ==> !reads_weights(#[trigger] model.ops@[j], t),
        decreases model.ops@.len() - k,
    {
        let op = &model.ops[k];
        if weight_rank_for(op.builtin_code).is_some() && op.inputs.len() > 1 && op.inputs[1] == t {
            assert(reads_weights(model.ops@[k as int], t));
            return true;
        }
        k = k + 1;
    }
    false
}

/// The layout of the tensor at an index. Only four-dimensional activations are
/// padded: neither constants, nor weights, nor outputs of the model.
pub open spec fn layout_of(model: ParsedModel, i: int) -> TensorLayout {
    let tensor = model.tensors@[i];
    let channels = crate::shape::channel_count(tensor.shape@);
    let activation = model.data(tensor) is None && !model.is_model_output(i as u32) && !is_weight(
        model.ops@,
        i as u32,
    ) && tensor.shape@.len() == 4;
    if activation && pads(channels) {
        TensorLayout {
            tensor_index: i as u32,
            layout: ChannelLayout::NhwcPad16,
            channels: channels as u32,
            effective_channels: padded(channels) as u32,
        }
    } else {
        TensorLayout {
            tensor_index: i as u32,
            layout: ChannelLayout::Nhwc,
            channels: channels as u32,
            effective_channels: channels as u32,
        }
    }
}

/// Whether the caller hands in less than the padded tensor at an index holds.
pub open spec fn needs_repad(model: ParsedModel, i: int) -> bool {
    let l = layout_of(model, i);
    l.layout == ChannelLayout::NhwcPad16 && l.effective_channels > l.channels
        && model.is_model_input(i as u32)
}

/// The tensors, of the first `n`, that are padded when the caller hands them in.
pub open spec fn repadded(model: ParsedModel, n: nat) -> Seq<int>
    decreases n,
{
    if n == 0 {
        Seq::empty()
    } else {
        let before = repadded(model, (n - 1) as nat);
        if needs_repad(model, n - 1) {
            before.push(n - 1)
        } else {
            before
        }
    }
}

/// Whether a node stands for the padding of the input at an index.
pub open spec fn is_repad_of(model: ParsedModel, node: RepadNode, i: int) -> bool {
    &&& node.tensor_index == i
    &&& node.target_channels == layout_of(model, i).effective_channels
    &&& node.note@ == "graph input produced unpadded; consumer reads pad16"@
}

/// A fold, as a mathematical value.
#[verifier::ext_equal]
pub struct FoldView {
    pub op_index: int,
    pub weight_index: u32,
    pub permutation: Seq<int>,
    pub weight_shape: Seq<i32>,
    pub note: Seq<char>,
}

impl View for TransposeFold {
    type V = FoldView;

    open spec fn view(&self) -> FoldView {
        FoldView {
            op_index: self.op_index as int,
            weight_index: self.weight_index,
            permutation: self.permutation@.map_values(|a: usize| a as int),
            weight_shape: self.weight_shape@,
            note: self.note@,
        }
    }
}

/// Whether a list names every axis below its length once.
pub open spec fn is_permutation(list: Seq<int>) -> bool {
    &&& forall|k: int| 0 <= k < list.len() ==> 0 <= #[trigger] list[k] < list.len()
    &&& list.no_duplicates()
}

/// The words in a list of bytes, as axes.
pub open spec fn axes(bytes: Seq<u8>) -> Seq<int> {
    Seq::new(bytes.len() / 4, |k: int| crate::bytes::word_at(bytes, 4 * k))
}

/// The permutation of `rank` axes in constant data.
pub open spec fn stored_permutation(bytes: Seq<u8>, rank: int) -> Option<Seq<int>> {
    if bytes.len() == 4 * rank && is_permutation(axes(bytes)) {
        Some(axes(bytes))
    } else {
        None
    }
}

/// The constant data of the second input of an operator.
pub open spec fn second_data(model: ParsedModel, op: ParsedOp) -> Option<Seq<u8>> {
    if op.inputs@.len() > 1 {
        match model.tensor(op.inputs@[1] as int) {
            Some(tensor) => model.data(tensor),
            None => None,
        }
    } else {
        None
    }
}

/// The permutation that a transposition applies.
pub open spec fn permutation_of(model: ParsedModel, op: ParsedOp, rank: int) -> Option<Seq<int>> {
    match second_data(model, op) {
        Some(bytes) => stored_permutation(bytes, rank),
        None => None,
    }
}

/// The shape that a relabelling gives, from its options or its second input.
pub open spec fn target_shape(model: ParsedModel, op: ParsedOp) -> Option<Seq<i32>> {
    match op.options {
        Some(ParsedOptions::Reshape { new_shape }) => Some(new_shape@),
        _ => match second_data(model, op) {
            Some(bytes) => if bytes.len() % 4 == 0 {
                Some(crate::bytes::words(bytes))
            } else {
                None
            },
            None => None,
        },
    }
}

/// The dimensions of a shape that are not one.
pub open spec fn proper_dims(shape: Seq<i32>) -> Seq<i32>
    decreases shape.len(),
{
    if shape.len() == 0 {
        Seq::empty()
    } else if shape.last() == 1 {
        proper_dims(shape.drop_last())
    } else {
        proper_dims(shape.drop_last()).push(shape.last())
    }
}

/// Whether an operator is a transposition.
pub open spec fn transposes(code: i32) -> bool {
    code == crate::model::TRANSPOSE || code == TRANSPOSE
}

/// The operator at `i` as a fold.
pub open spec fn weight_fold(model: ParsedModel, i: int) -> Option<FoldView> {
    fold_of(model, i, model.ops@[i])
}

/// An operator in the place `i` as a fold: it is followed by an operator that
/// reads its result as weights, its own input is constant, and it permutes axes
/// or moves dimensions of one.
pub open spec fn fold_of(model: ParsedModel, i: int, op: ParsedOp) -> Option<FoldView> {
    let feeds_weights = i + 1 < model.ops@.len() && op.outputs@.len() > 0 && reads_weights(
        model.ops@[i + 1],
        op.outputs@[0],
    );
    if feeds_weights && op.inputs@.len() > 0 {
        let rank = weight_rank(model.ops@[i + 1].builtin_code)->0 as int;
        match (model.tensor(op.inputs@[0] as int), model.tensor(op.outputs@[0] as int)) {
            (Some(src), Some(out)) => if model.data(src) is None || out.shape@.len() != rank {
                None
            } else if transposes(op.builtin_code) {
                match permutation_of(model, op, rank) {
                    Some(permutation) => Some(
                        FoldView {
                            op_index: i,
                            weight_index: op.inputs@[0],
                            permutation,
                            weight_shape: out.shape@,
                            note: "weight TRANSPOSE folded into compile-time buffer re-index"@,
                        },
                    ),
                    None => None,
                }
            } else if op.builtin_code == RESHAPE {
                match target_shape(model, op) {
                    Some(shape) => if shape.len() == rank && crate::shape::all_positive(shape)
                        && proper_dims(src.shape@) == proper_dims(shape) {
                        Some(
                            FoldView {
                                op_index: i,
                                weight_index: op.inputs@[0],
                                permutation: Seq::empty(),
                                weight_shape: shape,
                                note: "weight RESHAPE folded as a pure shape relabel"@,
                            },
                        )
                    } else {
                        None
                    },
                    None => None,
                }
            } else {
                None
            },
            _ => None,
        }
    } else {
        None
    }
}

/// The folds of the first `n` operators.
pub open spec fn folds_upto(model: ParsedModel, n: nat) -> Seq<FoldView>
    decreases n,
{
    if n == 0 {
        Seq::empty()
    } else {
        let before = folds_upto(model, (n - 1) as nat);
        match weight_fold(model, n - 1) {
            Some(fold) => before.push(fold),
            None => before,
        }
    }
}

fn second_buffer<'a>(model: &'a ParsedModel, op: &ParsedOp) -> (r: Option<&'a Vec<u8>>)
    ensures
        match r {
            Some(bytes) => second_data(*model, *op) == Some(bytes@),
            None => second_data(*model, *op) is None,
        },
{
    if op.inputs.len() > 1 {
        match model.tensor_by_index(op.inputs[1] as usize) {
            Some(tensor) => model.buffer_data(tensor),
            None => None,
        }
    } else {
        None
    }
}

fn occurs(list: &Vec<usize>, axis: usize) -> (r: bool)
    ensures
        r == list@.contains(axis),
{
    let mut k: usize = 0;
    while k < list.len()
        invariant
            k <= list@.len(),
            forall|j: int| 0 <= j < k ==> list@[j] != axis,
        decreases list@.len() - k,
    {
        if list[k] == axis {
            return true;
        }
        k = k + 1;
    }
    false
}

/// The permutation that a transposition applies. A list with a repeated axis or
/// one out of range is none: it would lose data.
pub fn read_transpose_permutation(model: &ParsedModel, op: &ParsedOp, rank: usize) -> (r: Option<
    Vec<usize>,
>)
    ensures
        match r {
            Some(p) => permutation_of(*model, *op, rank as int) == Some(
                p@.map_values(|a: usize| a as int),
            ),
            None => permutation_of(*model, *op, rank as int) is None,
        },
{
    let data = match second_buffer(model, op) {
        Some(data) => data,
        None => return None,
    };
    let size: usize = data.len();
    if size % 4 != 0 || size / 4 != rank {
        return None;
    }
    let ghost all = axes(data@);
    let mut perm: Vec<usize> = Vec::new();
    let mut k: usize = 0;
    while k < rank
        invariant
            k <= rank,
            size == data@.len(),
            size == 4 * rank,
            all == axes(data@),
            all.len() == rank,
            perm@.len() == k,
            second_data(*model, *op) == Some(data@),
            forall|j: int| 0 <= j < k ==> #[trigger] perm@[j] == all[j] && perm@[j] < rank,
            perm@.no_duplicates(),
        decreases rank - k,
    {
        let axis: i32 = read_word(data, 4 * k);
        assert(all[k as int] == axis);
        if axis < 0 || axis as usize >= rank {
            assert(!is_permutation(all));
            return None;
        }
        if occurs(&perm, axis as usize) {
            proof {
                let j = choose|j: int| 0 <= j < perm@.len() && perm@[j] == axis as usize;
                assert(all[j] == all[k as int]);
                assert(!is_permutation(all));
            }
            return None;
        }
        perm.push(axis as usize);
        k = k + 1;
    }
    proof {
        assert(perm@.map_values(|a: usize| a as int) =~= all);
        assert(all.no_duplicates());
        assert forall|j: int| 0 <= j < all.len() implies 0 <= #[trigger] all[j] < all.len() by {
            assert(perm@[j] == all[j]);
        }
    }
    Some(perm)
}

fn copy_dims(shape: &Vec<i32>) -> (r: Vec<i32>)
    ensures
        r@ == shape@,
{
    let mut r: Vec<i32> = Vec::new();
    let mut k: usize = 0;
    while k < shape.len()
        invariant
            k <= shape@.len(),
            r@ == shape@.take(k as int),
        decreases shape@.len() - k,
    {
        r.push(shape[k]);
        k = k + 1;
        assert(shape@.take(k as int) =~= shape@.take(k - 1).push(shape@[k - 1]));
    }
    assert(shape@.take(shape@.len() as int) =~= shape@);
    r
}

/// The shape that a relabelling gives, from its options or its second input.
pub fn read_reshape_shape(model: &ParsedModel, op: &ParsedOp) -> (r: Option<Vec<i32>>)
    ensures
        match r {
            Some(shape) => target_shape(*model, *op) == Some(shape@),
            None => target_shape(*model, *op) is None,
        },
{
    match &op.options {
        Some(ParsedOptions::Reshape { new_shape }) => {
            return Some(copy_dims(new_shape));
        },
        _ => {},
    }
    match second_buffer(model, op) {
        Some(data) => if data.len() % 4 == 0 {
            Some(read_words(data))
        } else {
            None
        },
        None => None,
    }
}

/// The dimensions of a shape that are not one.
pub fn strip_unit_dims(shape: &Vec<i32>) -> (r: Vec<i32>)
    ensures
        r@ == proper_dims(shape@),
{
    let mut r: Vec<i32> = Vec::new();
    let mut k: usize = 0;
    while k < shape.len()
        invariant
            k <= shape@.len(),
            r@ == proper_dims(shape@.take(k as int)),
        decreases shape@.len() - k,
    {
        proof {
            assert(shape@.take(k + 1).drop_last() =~= shape@.take(k as int));
        }
        if shape[k] != 1 {
            r.push(shape[k]);
        }
        k = k + 1;
    }
    assert(shape@.take(shape@.len() as int) =~= shape@);
    r
}

fn same_dims(a: &Vec<i32>, b: &Vec<i32>) -> (r: bool)
    ensures
        r == (a@ == b@),
{
    if a.len() != b.len() {
        return false;
    }
    let mut k: usize = 0;
    while k < a.len()
        invariant
            k <= a@.len(),
            a@.len() == b@.len(),
            forall|j: int| 0 <= j < k ==> a@[j] == b@[j],
        decreases a@.len() - k,
    {
        if a[k] != b[k] {
            return false;
        }
        k = k + 1;
    }
    assert(a@ =~= b@);
    true
}

fn dims_positive(shape: &Vec<i32>) -> (r: bool)
    ensures
        r == crate::shape::all_positive(shape@),
{
    let mut k: usize = 0;
    while k < shape.len()
        invariant
            k <= shape@.len(),
            forall|j: int| 0 <= j < k ==> #[trigger] shape@[j] > 0,
        decreases shape@.len() - k,
    {
        if shape[k] <= 0 {
            return false;
        }
        k = k + 1;
    }
    true
}

fn is_transpose(code: i32) -> (r: bool)
    ensures
        r == transposes(code),
{
    code == crate::model::TRANSPOSE || code == TRANSPOSE
}

/// An operator in the place `op_index` as a fold.
pub fn try_fold_weight_layout_op(model: &ParsedModel, op_index: u32, op: &ParsedOp) -> (r: Option<
    TransposeFold,
>)
    ensures
        match r {
            Some(fold) => fold_of(*model, op_index as int, *op) == Some(fold@),
            None => fold_of(*model, op_index as int, *op) is None,
        },
{
    let i: usize = op_index as usize;
    let n: usize = model.ops.len();
    if i >= n || i >= n - 1 {
        return None;
    }
    let consumer = &model.ops[i + 1];
    let rank: usize = match weight_rank_for(consumer.builtin_code) {
        Some(rank) => rank,
        None => return None,
    };
    if op.outputs.len() == 0 || op.inputs.len() == 0 {
        return None;
    }
    let out: u32 = op.outputs[0];
    if consumer.inputs.len() < 2 || consumer.inputs[1] != out {
        return None;
    }
    let src: u32 = op.inputs[0];
    let src_tensor = match model.tensor_by_index(src as usize) {
        Some(t) => t,
        None => return None,
    };
    if model.buffer_data(src_tensor).is_none() {
        return None;
    }
    let out_tensor = match model.tensor_by_index(out as usize) {
        Some(t) => t,
        None => return None,
    };
    if out_tensor.shape.len() != rank {
        return None;
    }
    if is_transpose(op.builtin_code) {
        match read_transpose_permutation(model, op, rank) {
            Some(permutation) => Some(
                TransposeFold {
                    op_index,
                    weight_index: src,
                    permutation,
                    weight_shape: copy_dims(&out_tensor.shape),
                    note: "weight TRANSPOSE folded into compile-time buffer re-index",
                },
            ),
            None => None,
        }
    } else if op.builtin_code == RESHAPE {
        let new_shape: Vec<i32> = match read_reshape_shape(model, op) {
            Some(shape) => shape,
            None => return None,
        };
        if new_shape.len() != rank || !dims_positive(&new_shape) {
            return None;
        }
        if !same_dims(&strip_unit_dims(&src_tensor.shape), &strip_unit_dims(&new_shape)) {
            return None;
        }
        let fold = TransposeFold {
            op_index,
            weight_index: src,
            permutation: Vec::new(),
            weight_shape: new_shape,
            note: "weight RESHAPE folded as a pure shape relabel",
        };
        assert(fold@.permutation =~= Seq::empty());
        Some(fold)
    } else {
        None
    }
}

/// Every transposition or relabelling that is done at compile time, in order.
pub fn find_weight_folds(model: &ParsedModel) -> (folds: Vec<TransposeFold>)
    requires
        model.ops@.len() <= 0x1_0000_0000,
    ensures
        folds@.map_values(|f: TransposeFold| f@) == folds_upto(*model, model.ops@.len()),
{
    let mut folds: Vec<TransposeFold> = Vec::new();
    let mut k: usize = 0;
    assert(folds@.map_values(|f: TransposeFold| f@) =~= Seq::empty());
    while k < model.ops.len()
        invariant
            k <= model.ops@.len(),
            model.ops@.len() <= 0x1_0000_0000,
            folds@.map_values(|f: TransposeFold| f@) == folds_upto(*model, k as nat),
        decreases model.ops@.len() - k,
    {
        let op = &model.ops[k];
        let ghost before = folds@.map_values(|f: TransposeFold| f@);
        if is_transpose(op.builtin_code) || op.builtin_code == RESHAPE {
            match try_fold_weight_layout_op(model, k as u32, op) {
                Some(fold) => {
                    let ghost view = fold@;
                    folds.push(fold);
                    assert(folds@.map_values(|f: TransposeFold| f@) =~= before.push(view));
                },
                None => {},
            }
        }
        k = k + 1;
    }
    folds
}

/// The layouts of a model: those of its tensors, the inputs that are padded,
/// and the weights that are permuted.
pub fn decide_layouts(model: &ParsedModel) -> (plan: LayoutPlan)
    requires
        model.tensors@.len() <= 0x1_0000_0000,
        model.ops@.len() <= 0x1_0000_0000,
    ensures
        plan.layouts@ == Seq::new(model.tensors@.len(), |i: int| layout_of(*model, i)),
        plan.repads@.len() == repadded(*model, model.tensors@.len()).len(),
        forall|k: int|
            0 <= k < plan.repads@.len() ==> is_repad_of(
                *model,
                #[trigger] plan.repads@[k],
                repadded(*model, model.tensors@.len())[k],
            ),
        plan.folds@.map_values(|f: TransposeFold| f@) == folds_upto(*model, model.ops@.len()),
{
    let mut layouts: Vec<TensorLayout> = Vec::new();
    let mut repads: Vec<RepadNode> = Vec::new();
    let mut i: usize = 0;
    while i < model.tensors.len()
        invariant
            i <= model.tensors@.len(),
            model.tensors@.len() <= 0x1_0000_0000,
            layouts@.len() == i,
            forall|k: int| 0 <= k < i ==> #[trigger] layouts@[k] == layout_of(*model, k),
            repads@.len() == repadded(*model, i as nat).len(),
            forall|k: int|
                0 <= k < repads@.len() ==> is_repad_of(
                    *model,
                    #[trigger] repads@[k],
                    repadded(*model, i as nat)[k],
                ),
        decreases model.tensors@.len() - i,
    {
        let tensor = &model.tensors[i];
        let index: u32 = i as u32;
        let channels: u32 = channels_of(tensor);
        let activation: bool = model.buffer_data(tensor).is_none() && !contains_index(
            &model.outputs,
            index,
        ) && !consumed_as_weight(model, index) && tensor.shape.len() == 4;
        let layout: ChannelLayout = if activation {
            layout_pad_decision(channels)
        } else {
            ChannelLayout::Nhwc
        };
        let effective_channels: u32 = match layout {
            ChannelLayout::Nhwc => channels,
            ChannelLayout::NhwcPad16 => padded_channels(channels),
        };
        layouts.push(TensorLayout { tensor_index: index, layout, channels, effective_channels });
        assert(layouts@[i as int] == layout_of(*model, i as int));
        let ghost before = repadded(*model, i as nat);
        assert(repadded(*model, (i + 1) as nat) == if needs_repad(*model, i as int) {
            before.push(i as int)
        } else {
            before
        });
        if layout == ChannelLayout::NhwcPad16 && effective_channels > channels && contains_index(
            &model.inputs,
            index,
        ) {
            repads.push(
                RepadNode {
                    tensor_index: index,
                    target_channels: effective_channels,
                    note: "graph input produced unpadded; consumer reads pad16",
                },
            );
        }
        i = i + 1;
    }
    assert(layouts@ =~= Seq::new(model.tensors@.len(), |i: int| layout_of(*model, i)));
    LayoutPlan { layouts, repads, folds: find_weight_folds(model) }
}

/// Padded channels fill whole vectors, and padding adds at most a third.
pub proof fn law_padding_is_aligned_and_bounded(model: ParsedModel, i: int)
    requires
        0 <= i < model.tensors@.len(),
    ensures
        ({
            let l = layout_of(model, i);
            &&& l.channels <= l.effective_channels
            &&& l.layout == ChannelLayout::Nhwc ==> l.effective_channels == l.channels
            &&& l.layout == ChannelLayout::NhwcPad16 ==> l.effective_channels % 16 == 0 && 3 * (
            l.effective_channels - l.channels) <= l.channels && l.effective_channels - l.channels
                < 16
        }),
{
}

/// Fewer than sixteen channels are never padded.
pub proof fn law_few_channels_are_not_padded(channels: int)
    requires
        0 <= channels < 16,
    ensures
        !pads(channels),
{
}

/// Padding is the least that fills whole vectors, and padding again changes
/// nothing.
pub proof fn law_padding_is_least(channels: int, other: int)
    requires
        channels >= 0,
    ensures
        padded(channels) >= channels,
        padded(channels) % 16 == 0,
        other >= channels && other % 16 == 0 ==> padded(channels) <= other,
        padded(padded(channels)) == padded(channels),
{
}

/// A permutation that is done at compile time moves every axis to exactly one
/// place: nothing is lost.
pub proof fn law_folded_permutations_lose_nothing(model: ParsedModel, i: int, axis: int)
    requires
        weight_fold(model, i) is Some,
        transposes(model.ops@[i].builtin_code),
        0 <= axis < weight_fold(model, i)->0.permutation.len(),
    ensures
        ({
            let p = weight_fold(model, i)->0.permutation;
            &&& is_permutation(p)
            &&& p.len() == weight_fold(model, i)->0.weight_shape.len()
            &&& p.contains(axis)
        }),
{
    let p = weight_fold(model, i)->0.permutation;
    let n = p.len() as int;
    let range = vstd::set_lib::set_int_range(0, n);
    vstd::set_lib::lemma_int_range(0, n);
    p.unique_seq_to_set();
    assert(p.to_set().subset_of(range)) by {
        assert forall|a: int| p.to_set().contains(a) implies range.contains(a) by {
            let k = choose|k: int| 0 <= k < p.len() && p[k] == a;
            assert(0 <= p[k] < p.len());
        }
    }
    vstd::set_lib::lemma_subset_equality(p.to_set(), range);
    assert(range.contains(axis));
}

/// Dropping dimensions of one keeps the number of elements.
proof fn lemma_proper_dims_product(shape: Seq<i32>)
    ensures
        crate::shape::product_of(proper_dims(shape)) == crate::shape::product_of(shape),
    decreases shape.len(),
{
    if shape.len() > 0 {
        let rest = shape.drop_last();
        lemma_proper_dims_product(rest);
        if shape.last() != 1 {
            assert(proper_dims(shape).drop_last() =~= proper_dims(rest));
        } else {
            assert(crate::shape::product_of(rest) * 1 == crate::shape::product_of(rest));
        }
    }
}

/// A relabelling that is done at compile time keeps the number of elements.
pub proof fn law_relabelling_keeps_elements(model: ParsedModel, i: int)
    requires
        weight_fold(model, i) is Some,
        model.ops@[i].builtin_code == RESHAPE,
    ensures
        ({
            let src = model.tensors@[model.ops@[i].inputs@[0] as int];
            crate::shape::product_of(weight_fold(model, i)->0.weight_shape)
                == crate::shape::product_of(src.shape@)
        }),
{
    let src = model.tensors@[model.ops@[i].inputs@[0] as int];
    lemma_proper_dims_product(src.shape@);
    lemma_proper_dims_product(weight_fold(model, i)->0.weight_shape);
}

/// Whether some convolution or dense layer reads a tensor as its weights.
pub open spec fn weighs_an_operator(model: ParsedModel, t: int) -> bool {
    exists|k: int|
        0 <= k < model.ops@.len() && ({
            let op = #[trigger] model.ops@[k];
            &&& op.builtin_code == 3 || op.builtin_code == 4 || op.builtin_code == 9
            &&& op.inputs@.len() > 1
            &&& op.inputs@[1] == t
        })
}

/// A tensor is padded exactly where it is a four-dimensional activation, that is
/// no constant, no output of the model and no weights, and its channels fill
/// whole vectors, or number at least sixteen and grow by at most a third. It is
/// padded to the next multiple of sixteen, and all others are left alone.
pub proof fn law_activations_are_padded(model: ParsedModel, i: int, c: int, wide: int)
    requires
        0 <= i < model.tensors@.len(),
        i <= u32::MAX,
        ({
            let shape = model.tensors@[i].shape@;
            c == if shape.len() > 0 && shape[shape.len() - 1] > 0 {
                shape[shape.len() - 1] as int
            } else {
                0
            }
        }),
        wide % 16 == 0,
        c <= wide < c + 16,
    ensures
        ({
            let l = layout_of(model, i);
            let shape = model.tensors@[i].shape@;
            &&& l.tensor_index == i
            &&& l.channels == c
            &&& l.layout == ChannelLayout::NhwcPad16 <==> {
                &&& shape.len() == 4
                &&& !model.is_constant(i)
                &&& !model.outputs@.contains(i as u32)
                &&& !weighs_an_operator(model, i)
                &&& c > 0
                &&& wide == c || (c >= 16 && 3 * (wide - c) <= c)
            }
            &&& l.layout == ChannelLayout::NhwcPad16 ==> l.effective_channels == wide
            &&& l.layout == ChannelLayout::Nhwc ==> l.effective_channels == c
        }),
{
    assert(padded(c) == wide);
    if is_weight(model.ops@, i as u32) {
        let k = choose|k: int|
            0 <= k < model.ops@.len() && reads_weights(#[trigger] model.ops@[k], i as u32);
        assert(model.ops@[k].inputs@[1] == i);
    }
    if weighs_an_operator(model, i) {
        let k = choose|k: int|
            0 <= k < model.ops@.len() && ({
                let op = #[trigger] model.ops@[k];
                &&& op.builtin_code == 3 || op.builtin_code == 4 || op.builtin_code == 9
                &&& op.inputs@.len() > 1
                &&& op.inputs@[1] == i
            });
        assert(reads_weights(model.ops@[k], i as u32));
    }
}

/// Whether the caller hands a tensor in does not matter to its layout.
pub proof fn law_model_inputs_are_padded_alike(model: ParsedModel, other: ParsedModel, i: int)
    requires
        model.tensors@ == other.tensors@,
        model.ops@ == other.ops@,
        model.outputs@ == other.outputs@,
        model.buffers@ == other.buffers@,
    ensures
        layout_of(model, i) == layout_of(other, i),
{
}

/// The tensors that are padded when the caller hands them in are exactly the
/// inputs of the model that are stored wider than they are, each once and in
/// order.
pub proof fn law_padded_inputs_are_repadded(model: ParsedModel, n: nat, i: int)
    requires
        0 <= i < n,
        n <= 0x1_0000_0000,
    ensures
        repadded(model, n).contains(i) <==> {
            &&& model.inputs@.contains(i as u32)
            &&& layout_of(model, i).layout == ChannelLayout::NhwcPad16
            &&& layout_of(model, i).effective_channels > layout_of(model, i).channels
        },
        forall|j: int, k: int|
            0 <= j < k < repadded(model, n).len() ==> 0 <= #[trigger] repadded(model, n)[j]
                < #[trigger] repadded(model, n)[k] < n,
        repadded(model, n).len() == 1 ==> 0 <= repadded(model, n)[0] < n,
    decreases n,
{
    let before = repadded(model, (n - 1) as nat);
    let all = repadded(model, n);
    lemma_repadded_range(model, n);
    lemma_repadded_range(model, (n - 1) as nat);
    if i < n - 1 {
        law_padded_inputs_are_repadded(model, (n - 1) as nat, i);
        if before.contains(i) {
            let k = choose|k: int| 0 <= k < before.len() && before[k] == i;
            assert(all[k] == i);
        }
        if all.contains(i) {
            let k = choose|k: int| 0 <= k < all.len() && all[k] == i;
            assert(before[k] == i);
        }
    } else {
        if n > 1 {
            law_padded_inputs_are_repadded(model, (n - 1) as nat, 0);
        }
        if needs_repad(model, i) {
            assert(all[before.len() as int] == i);
        } else if all.contains(i) {
            let k = choose|k: int| 0 <= k < all.len() && all[k] == i;
            assert(before[k] < n - 1);
        }
    }
}

proof fn lemma_repadded_range(model: ParsedModel, n: nat)
    ensures
        forall|k: int|
            0 <= k < repadded(model, n).len() ==> 0 <= #[trigger] repadded(model, n)[k] < n,
    decreases n,
{
    if n > 0 {
        lemma_repadded_range(model, (n - 1) as nat);
        let before = repadded(model, (n - 1) as nat);
        let all = repadded(model, n);
        assert forall|k: int| 0 <= k < all.len() implies 0 <= #[trigger] all[k] < n by {
            if k < before.len() {
                assert(all[k] == before[k]);
            }
        }
    }
}

/// Whether the operator behind a place reads a tensor as weights of a rank.
pub open spec fn feeds_weights(model: ParsedModel, i: int, t: u32, rank: int) -> bool {
    &&& 0 <= i + 1 < model.ops@.len()
    &&& ({
        let next = model.ops@[i + 1];
        &&& next.inputs@.len() > 1 && next.inputs@[1] == t
        &&& (next.builtin_code == 3 || next.builtin_code == 4) && rank == 4 || next.builtin_code
            == 9 && rank == 2
    })
}

/// A transposition is done at compile time exactly where the operator behind it
/// reads its result as weights, its input is constant, its result has the rank
/// of the weights, and its second operand holds a permutation of as many axes.
/// The fold has that permutation and the shape of the result.
pub proof fn law_weight_transpositions_are_folded(model: ParsedModel, i: int, op: ParsedOp, rank: int)
    requires
        op.builtin_code == 39 || op.builtin_code == 15,
        op.inputs@.len() > 1,
        op.outputs@.len() > 0,
        rank == 4 || rank == 2,
        i >= 0,
        feeds_weights(model, i, op.outputs@[0], rank),
        op.inputs@[0] < model.tensors@.len(),
        op.inputs@[1] < model.tensors@.len(),
        op.outputs@[0] < model.tensors@.len(),
    ensures
        ({
            let out = model.tensors@[op.outputs@[0] as int].shape@;
            let axes = model.tensors@[op.inputs@[1] as int];
            let bytes = model.data(axes)->0;
            let fold = fold_of(model, i, op);
            &&& fold is Some <==> {
                &&& model.is_constant(op.inputs@[0] as int)
                &&& out.len() == rank
                &&& model.data(axes) is Some
                &&& bytes.len() == 4 * rank
                &&& forall|k: int|
                    0 <= k < rank ==> 0 <= #[trigger] crate::bytes::word_at(bytes, 4 * k) < rank
                &&& forall|j: int, k: int|
                    0 <= j < k < rank ==> #[trigger] crate::bytes::word_at(bytes, 4 * j)
                        != #[trigger] crate::bytes::word_at(bytes, 4 * k)
            }
            &&& fold matches Some(f) ==> {
                &&& f.op_index == i
                &&& f.weight_index == op.inputs@[0]
                &&& f.weight_shape == out
                &&& f.permutation.len() == rank
                &&& forall|k: int|
                    0 <= k < rank ==> #[trigger] f.permutation[k] == crate::bytes::word_at(
                        bytes,
                        4 * k,
                    )
            }
        }),
{
    let bytes = model.data(model.tensors@[op.inputs@[1] as int])->0;
    let list = axes(bytes);
    if bytes.len() == 4 * rank {
        assert(list.len() == rank);
        assert(forall|k: int| 0 <= k < rank ==> #[trigger] list[k] == crate::bytes::word_at(bytes, 4 * k));
        if is_permutation(list) {
            assert forall|k: int| 0 <= k < rank implies 0 <= #[trigger] crate::bytes::word_at(
                bytes,
                4 * k,
            ) < rank by {
                assert(list[k] == crate::bytes::word_at(bytes, 4 * k));
            }
            assert forall|j: int, k: int| 0 <= j < k < rank implies #[trigger] crate::bytes::word_at(
                bytes,
                4 * j,
            ) != #[trigger] crate::bytes::word_at(bytes, 4 * k) by {
                assert(list[j] != list[k]);
            }
        }
        if (forall|k: int|
            0 <= k < rank ==> 0 <= #[trigger] crate::bytes::word_at(bytes, 4 * k) < rank) && (
        forall|j: int, k: int|
            0 <= j < k < rank ==> #[trigger] crate::bytes::word_at(bytes, 4 * j)
                != #[trigger] crate::bytes::word_at(bytes, 4 * k)) {
            assert forall|k: int| 0 <= k < list.len() implies 0 <= #[trigger] list[k] < list.len() by {
                assert(0 <= crate::bytes::word_at(bytes, 4 * k) < rank);
            }
            assert forall|j: int, k: int|
                0 <= j < list.len() && 0 <= k < list.len() && j != k implies list[j] != list[k] by {
                if j < k {
                    assert(crate::bytes::word_at(bytes, 4 * j) != crate::bytes::word_at(
                        bytes,
                        4 * k,
                    ));
                } else {
                    assert(crate::bytes::word_at(bytes, 4 * k) != crate::bytes::word_at(
                        bytes,
                        4 * j,
                    ));
                }
            }
            assert(list.no_duplicates());
            assert(is_permutation(list));
        }
    }
}

/// A relabelling that is done at compile time is of constant weights that the
/// operator behind it reads, moves nothing, and gives a known shape of their
/// rank: the one in its options, or else in the words of its second operand.
pub proof fn law_weight_relabellings_are_folded(model: ParsedModel, i: int, op: ParsedOp)
    requires
        op.builtin_code == 22,
        fold_of(model, i, op) is Some,
        i >= 0,
    ensures
        ({
            let f = fold_of(model, i, op)->0;
            let rank = f.weight_shape.len() as int;
            &&& feeds_weights(model, i, op.outputs@[0], rank)
            &&& model.is_constant(op.inputs@[0] as int)
            &&& model.tensors@[op.outputs@[0] as int].shape@.len() == rank
            &&& f.op_index == i
            &&& f.weight_index == op.inputs@[0]
            &&& f.permutation.len() == 0
            &&& crate::shape::all_positive(f.weight_shape)
            &&& match op.options {
                Some(ParsedOptions::Reshape { new_shape }) => f.weight_shape == new_shape@,
                _ => op.inputs@.len() > 1 && model.is_constant(op.inputs@[1] as int) && forall|
                    k: int,
                |
                    0 <= k < rank ==> #[trigger] f.weight_shape[k] == crate::bytes::word_at(
                        model.data(model.tensors@[op.inputs@[1] as int])->0,
                        4 * k,
                    ),
            }
        }),
{
}

/// Only transpositions and relabellings are done at compile time, and all of
/// them are listed in order: one fold for each operator that has one.
pub proof fn law_all_folds_are_listed(model: ParsedModel, n: nat, i: int)
    requires
        0 <= i < n,
        n <= model.ops@.len(),
    ensures
        weight_fold(model, i) matches Some(f) ==> folds_upto(model, n).contains(f) && ({
            let code = model.ops@[i].builtin_code;
            code == 39 || code == 15 || code == 22
        }),
        forall|k: int|
            0 <= k < folds_upto(model, n).len() ==> {
                let f = #[trigger] folds_upto(model, n)[k];
                0 <= f.op_index < n && weight_fold(model, f.op_index) == Some(f)
            },
        forall|j: int, k: int|
            0 <= j < k < folds_upto(model, n).len() ==> (#[trigger] folds_upto(model, n)[j]).op_index
                < (#[trigger] folds_upto(model, n)[k]).op_index,
    decreases n,
{
    let before = folds_upto(model, (n - 1) as nat);
    let all = folds_upto(model, n);
    if n > 1 {
        law_all_folds_are_listed(
            model,
            (n - 1) as nat,
            if i < n - 1 {
                i
            } else {
                0
            },
        );
    }
    match weight_fold(model, i) {
        Some(f) => {
            if i < n - 1 {
                let k = choose|k: int| 0 <= k < before.len() && before[k] == f;
                assert(all[k] == f);
            } else {
                assert(all[before.len() as int] == f);
            }
        },
        None => {},
    }
}

/// Dimensions of one are left out, and all others are kept in order.
pub proof fn law_unit_dimensions_are_left_out(shape: Seq<i32>, d: i32)
    ensures
        proper_dims(Seq::empty()).len() == 0,
        d == 1 ==> proper_dims(shape.push(d)) == proper_dims(shape),
        d != 1 ==> proper_dims(shape.push(d)) == proper_dims(shape).push(d),
{
    assert(shape.push(d).drop_last() =~= shape);
}

} // verus!
