//! The emitted program of a model: its calls in execution order and the memory
//! of every tensor.

use crate::arena::{plan_arena_internal, ArenaError, ArenaPlan, ArenaRequest};
use crate::emit_error::EmitError;
use crate::generate::check_dimensions;
use crate::generate::{emit_activation, emit_conv2d, emit_depthwise, emit_elementwise};
use crate::generate::{emit_fully_connected, emit_leaky_relu, emit_mean, emit_pad, emit_pool};
use crate::generate::{emit_prelu, emit_reshape, emit_resize, emit_softmax, emit_transpose};
use crate::generate::{ActivationEmission, ActivationMethod, ConvEmission, DepthwiseEmission};
use crate::generate::{ElementwiseEmission, ElementwiseMethod, FullyConnectedEmission};
use crate::generate::{MeanEmission, PadEmission, PoolEmission, ReshapeEmission, ResizeEmission};
use crate::generate::{SoftmaxEmission, TransposeEmission};
use crate::model::{ParsedModel, ParsedOp, ADD, AVERAGE_POOL_2D, CONV_2D, DEPTHWISE_CONV_2D};
use crate::model::{FULLY_CONNECTED, HARD_SWISH, LEAKY_RELU, MAX_POOL_2D, MEAN, MUL, PAD, PRELU};
use crate::model::{RELU, RELU6, RESHAPE, RESIZE_NEAREST_NEIGHBOR, SOFTMAX, SUB, TRANSPOSE};
use crate::op_params::PoolKind;
use crate::shape::flat_prod;
use crate::operands::{check_count, check_int8, check_listed, flat_len, tensor_at, Source, Storage, Target};
use crate::generate;
use crate::operands;
use vstd::prelude::*;

verus! {

/// The emitted call of an operator.
#[derive(Debug)]
pub enum OpEmission {
    Conv2D(ConvEmission),
    DepthwiseConv2D(DepthwiseEmission),
    FullyConnected(FullyConnectedEmission),
    Pool(PoolEmission),
    Softmax(SoftmaxEmission),
    Activation(ActivationEmission),
    Elementwise(ElementwiseEmission),
    Mean(MeanEmission),
    Reshape(ReshapeEmission),
    Pad(PadEmission),
    Transpose(TransposeEmission),
    Resize(ResizeEmission),
}

/// An intermediate tensor: how long it is, and where it lies in an arena.
#[derive(Clone, Copy, Debug, PartialEq, Eq, Structural)]
pub struct Intermediate {
    pub index: usize,
    pub len: usize,
    pub offset: usize,
}

/// The emitted program of a model.
#[derive(Debug)]
pub struct ModelEmission {
    /// Elements of the input array.
    pub input_len: usize,
    /// Elements of the output array.
    pub output_len: usize,
    /// Bytes of scratch that the calls need at least.
    pub scratch_len: usize,
    /// Bytes of the arena.
    pub arena_len: usize,
    /// The calls, in execution order.
    pub ops: Vec<OpEmission>,
    /// The intermediate tensors.
    pub tensors: Vec<Intermediate>,
}

/// Fails where an operator has no call.
#[verifier::opaque]
pub open spec fn op_failure(
    model: ParsedModel,
    storage: Seq<Storage>,
    i: usize,
    op: ParsedOp,
) -> Option<EmitError> {
    let code = op.builtin_code;
    if code == ADD || code == SUB || code == MUL {
        generate::elementwise_failure(model, storage, i, op)
    } else if code == AVERAGE_POOL_2D || code == MAX_POOL_2D {
        generate::pool_failure(model, storage, i, op)
    } else if code == CONV_2D {
        generate::conv2d_failure(model, storage, i, op)
    } else if code == DEPTHWISE_CONV_2D {
        generate::depthwise_failure(model, storage, i, op)
    } else if code == FULLY_CONNECTED {
        generate::fully_connected_failure(model, storage, i, op)
    } else if code == RELU || code == RELU6 || code == HARD_SWISH {
        generate::activation_failure(model, storage, i, op)
    } else if code == RESHAPE {
        generate::reshape_failure(model, storage, i, op)
    } else if code == SOFTMAX {
        generate::softmax_failure(model, storage, i, op)
    } else if code == PAD {
        generate::pad_failure(model, storage, i, op)
    } else if code == TRANSPOSE {
        generate::transpose_failure(model, storage, i, op)
    } else if code == MEAN {
        generate::mean_failure(model, storage, i, op)
    } else if code == PRELU {
        generate::prelu_failure(model, storage, i, op)
    } else if code == RESIZE_NEAREST_NEIGHBOR {
        generate::resize_failure(model, storage, i, op)
    } else if code == LEAKY_RELU {
        generate::leaky_failure(model, storage, i, op)
    } else {
        Some(EmitError::Unsupported { code })
    }
}

/// Whether a call is that of an operator.
#[verifier::opaque]
pub open spec fn is_call(
    e: OpEmission,
    model: ParsedModel,
    storage: Seq<Storage>,
    op: ParsedOp,
) -> bool {
    let code = op.builtin_code;
    match e {
        OpEmission::Conv2D(e) => code == CONV_2D && generate::is_conv2d(e, model, storage, op),
        OpEmission::DepthwiseConv2D(e) => code == DEPTHWISE_CONV_2D && generate::is_depthwise(
            e,
            model,
            storage,
            op,
        ),
        OpEmission::FullyConnected(e) => code == FULLY_CONNECTED && generate::is_fully_connected(
            e,
            model,
            storage,
            op,
        ),
        OpEmission::Pool(e) => {
            ||| code == AVERAGE_POOL_2D && generate::is_pool(
                e,
                model,
                storage,
                op,
                PoolKind::Average,
            )
            ||| code == MAX_POOL_2D && generate::is_pool(e, model, storage, op, PoolKind::Max)
        },
        OpEmission::Softmax(e) => code == SOFTMAX && generate::is_softmax(e, model, storage, op),
        OpEmission::Activation(e) => {
            ||| code == RELU && generate::is_activation(
                e,
                model,
                storage,
                op,
                ActivationMethod::Relu,
            )
            ||| code == RELU6 && generate::is_activation(
                e,
                model,
                storage,
                op,
                ActivationMethod::Relu6,
            )
            ||| code == HARD_SWISH && generate::is_activation(
                e,
                model,
                storage,
                op,
                ActivationMethod::HardSwish,
            )
            ||| code == LEAKY_RELU && generate::is_leaky(e, model, storage, op)
            ||| code == PRELU && generate::is_prelu(e, model, storage, op)
        },
        OpEmission::Elementwise(e) => {
            ||| code == ADD && generate::is_elementwise(
                e,
                model,
                storage,
                op,
                ElementwiseMethod::Add,
            )
            ||| code == SUB && generate::is_elementwise(
                e,
                model,
                storage,
                op,
                ElementwiseMethod::Sub,
            )
            ||| code == MUL && generate::is_elementwise(
                e,
                model,
                storage,
                op,
                ElementwiseMethod::Mul,
            )
        },
        OpEmission::Mean(e) => code == MEAN && generate::is_mean(e, model, storage, op),
        OpEmission::Reshape(e) => code == RESHAPE && generate::is_reshape(e, model, storage, op),
        OpEmission::Pad(e) => code == PAD && generate::is_pad(e, model, storage, op),
        OpEmission::Transpose(e) => code == TRANSPOSE && generate::is_transpose(
            e,
            model,
            storage,
            op,
        ),
        OpEmission::Resize(e) => code == RESIZE_NEAREST_NEIGHBOR && generate::is_resize(
            e,
            model,
            storage,
            op,
        ),
    }
}

/// The call of an operator.
pub fn emit_op(model: &ParsedModel, storage: &Vec<Storage>, i: usize, op: &ParsedOp) -> (r: Result<
    OpEmission,
    EmitError,
>)
    requires
        generate::dimensions_fit(*model, *op),
    ensures
        match r {
            Ok(e) => op_failure(*model, storage@, i, *op) is None && is_call(
                e,
                *model,
                storage@,
                *op,
            ),
            Err(e) => op_failure(*model, storage@, i, *op) == Some(e),
        },
{
    proof {
        reveal(op_failure);
        reveal(is_call);
    }
    let code: i32 = op.builtin_code;
    if code == ADD {
        Ok(
            OpEmission::Elementwise(
                emit_elementwise(model, storage, i, op, ElementwiseMethod::Add)?,
            ),
        )
    } else if code == SUB {
        Ok(
            OpEmission::Elementwise(
                emit_elementwise(model, storage, i, op, ElementwiseMethod::Sub)?,
            ),
        )
    } else if code == MUL {
        Ok(
            OpEmission::Elementwise(
                emit_elementwise(model, storage, i, op, ElementwiseMethod::Mul)?,
            ),
        )
    } else if code == AVERAGE_POOL_2D {
        Ok(OpEmission::Pool(emit_pool(model, storage, i, op, PoolKind::Average)?))
    } else if code == MAX_POOL_2D {
        Ok(OpEmission::Pool(emit_pool(model, storage, i, op, PoolKind::Max)?))
    } else if code == CONV_2D {
        Ok(OpEmission::Conv2D(emit_conv2d(model, storage, i, op)?))
    } else if code == DEPTHWISE_CONV_2D {
        Ok(OpEmission::DepthwiseConv2D(emit_depthwise(model, storage, i, op)?))
    } else if code == FULLY_CONNECTED {
        Ok(OpEmission::FullyConnected(emit_fully_connected(model, storage, i, op)?))
    } else if code == RELU {
        Ok(
            OpEmission::Activation(emit_activation(model, storage, i, op, ActivationMethod::Relu)?),
        )
    } else if code == RELU6 {
        Ok(
            OpEmission::Activation(
                emit_activation(model, storage, i, op, ActivationMethod::Relu6)?,
            ),
        )
    } else if code == HARD_SWISH {
        Ok(
            OpEmission::Activation(
                emit_activation(model, storage, i, op, ActivationMethod::HardSwish)?,
            ),
        )
    } else if code == RESHAPE {
        Ok(OpEmission::Reshape(emit_reshape(model, storage, i, op)?))
    } else if code == SOFTMAX {
        Ok(OpEmission::Softmax(emit_softmax(model, storage, i, op)?))
    } else if code == PAD {
        Ok(OpEmission::Pad(emit_pad(model, storage, i, op)?))
    } else if code == TRANSPOSE {
        Ok(OpEmission::Transpose(emit_transpose(model, storage, i, op)?))
    } else if code == MEAN {
        Ok(OpEmission::Mean(emit_mean(model, storage, i, op)?))
    } else if code == PRELU {
        Ok(OpEmission::Activation(emit_prelu(model, storage, i, op)?))
    } else if code == RESIZE_NEAREST_NEIGHBOR {
        Ok(OpEmission::Resize(emit_resize(model, storage, i, op)?))
    } else if code == LEAKY_RELU {
        Ok(OpEmission::Activation(emit_leaky_relu(model, storage, i, op)?))
    } else {
        Err(EmitError::Unsupported { code })
    }
}

/// The number of elements of a tensor, or zero where it is not known.
pub open spec fn len_of(model: ParsedModel, t: int) -> int {
    match model.tensor(t) {
        Some(tensor) => if crate::shape::all_positive(tensor.shape@) {
            crate::shape::product_of(tensor.shape@)
        } else {
            0
        },
        None => 0,
    }
}

/// The number of elements of all listed tensors.
pub open spec fn span(model: ParsedModel, list: Seq<u32>) -> int
    decreases list.len(),
{
    if list.len() == 0 {
        0
    } else {
        span(model, list.drop_last()) + len_of(model, list.last() as int)
    }
}

/// Fails where a listed tensor cannot be an input or output of a model.
pub open spec fn io_failure(model: ParsedModel, list: Seq<u32>) -> Option<EmitError>
    decreases list.len(),
{
    if list.len() == 0 {
        None
    } else {
        let t = list.last();
        operands::either(
            io_failure(model, list.drop_last()),
            operands::either(
                operands::known(model, t),
                operands::either(
                    operands::int8(model, t),
                    operands::countable(model.tensors@[t as int].shape@),
                ),
            ),
        )
    }
}

/// Where a tensor lies among the listed tensors, one behind the other: start
/// and length at its last mention.
pub open spec fn place_of(model: ParsedModel, list: Seq<u32>, t: int) -> Option<(int, int)>
    decreases list.len(),
{
    if list.len() == 0 {
        None
    } else if list.last() == t {
        Some((span(model, list.drop_last()), len_of(model, t)))
    } else {
        place_of(model, list.drop_last(), t)
    }
}

/// Where the data of a tensor lies: a range of the output array where it is a
/// model output, or else of the input array where it is a model input; a
/// constant where it has data; and otherwise memory of its own.
pub open spec fn storage_of(model: ParsedModel, t: int) -> Storage {
    match place_of(model, model.outputs@, t) {
        Some((start, len)) => Storage::Output { start: start as usize, len: len as usize },
        None => match place_of(model, model.inputs@, t) {
            Some((start, len)) => Storage::Input { start: start as usize, len: len as usize },
            None => if model.is_constant(t) {
                Storage::Const
            } else {
                Storage::Tensor { idx: t as usize }
            },
        },
    }
}

/// Where the data of every tensor lies.
pub open spec fn storages(model: ParsedModel) -> Seq<Storage> {
    Seq::new(model.tensors@.len(), |t: int| storage_of(model, t))
}

/// Fails where one of the first operators has no call.
pub open spec fn ops_failure(model: ParsedModel, n: nat) -> Option<EmitError>
    decreases n,
{
    if n == 0 {
        None
    } else {
        operands::either(
            ops_failure(model, (n - 1) as nat),
            op_failure(model, storages(model), (n - 1) as usize, model.ops@[n - 1]),
        )
    }
}

/// Fails where the size of one of the first intermediate tensors is unknown.
pub open spec fn sizes_failure(model: ParsedModel, n: nat) -> Option<EmitError>
    decreases n,
{
    if n == 0 {
        None
    } else {
        operands::either(
            sizes_failure(model, (n - 1) as nat),
            if storage_of(model, n - 1) is Tensor {
                operands::countable(model.tensors@[n - 1].shape@)
            } else {
                None
            },
        )
    }
}

/// Why no program is emitted for a model, where none is.
pub open spec fn model_failure(model: ParsedModel) -> Option<EmitError> {
    operands::either(
        operands::unless(
            model.subgraph_count == 1,
            EmitError::Subgraphs { count: model.subgraph_count },
        ),
        operands::either(
            operands::unless(model.tensors@.len() > 0, EmitError::NoTensors),
            operands::either(
                operands::unless(model.inputs@.len() > 0, EmitError::NoInputs),
                operands::either(
                    operands::unless(model.outputs@.len() > 0, EmitError::NoOutputs),
                    operands::either(
                        io_failure(model, model.inputs@),
                        operands::either(
                            io_failure(model, model.outputs@),
                            operands::either(
                                ops_failure(model, model.ops@.len()),
                                sizes_failure(model, model.tensors@.len()),
                            ),
                        ),
                    ),
                ),
            ),
        ),
    )
}

/// A length in whole blocks of sixteen.
pub open spec fn aligned(len: int) -> int {
    (len + 15) / 16 * 16
}

/// The arena that the intermediate tensors among the first tensors fill, one
/// behind the other.
pub open spec fn arena_span(model: ParsedModel, n: nat) -> int
    decreases n,
{
    if n == 0 {
        0
    } else {
        arena_span(model, (n - 1) as nat) + if storage_of(model, n - 1) is Tensor {
            aligned(len_of(model, n - 1))
        } else {
            0
        }
    }
}

/// Where a plan puts a tensor.
pub open spec fn slot(plan: ArenaPlan, t: int) -> Option<usize> {
    if t < plan.offsets@.len() {
        plan.offsets@[t]
    } else {
        None
    }
}

/// Whether a plan has a place for every intermediate tensor.
pub open spec fn slotted(model: ParsedModel, plan: Option<ArenaPlan>) -> bool {
    match plan {
        Some(plan) => forall|t: int|
            0 <= t < model.tensors@.len() && storage_of(model, t) is Tensor ==> #[trigger] slot(
                plan,
                t,
            ) is Some,
        None => false,
    }
}

/// Where a tensor lies in the arena: where the plan puts it, or else behind the
/// tensors before it.
pub open spec fn offset_of(model: ParsedModel, plan: Option<ArenaPlan>, t: int) -> int {
    if slotted(model, plan) {
        slot(plan->0, t)->0 as int
    } else {
        arena_span(model, t as nat)
    }
}

/// The bytes of the arena.
pub open spec fn arena_size(model: ParsedModel, plan: Option<ArenaPlan>) -> int {
    if slotted(model, plan) {
        plan->0.peak_arena_bytes as int
    } else {
        arena_span(model, model.tensors@.len())
    }
}

/// The intermediate tensors among the first tensors.
pub open spec fn intermediates(model: ParsedModel, plan: Option<ArenaPlan>, n: nat) -> Seq<
    Intermediate,
>
    decreases n,
{
    if n == 0 {
        Seq::empty()
    } else {
        let before = intermediates(model, plan, (n - 1) as nat);
        if storage_of(model, n - 1) is Tensor {
            before.push(
                Intermediate {
                    index: (n - 1) as usize,
                    len: len_of(model, n - 1) as usize,
                    offset: offset_of(model, plan, n - 1) as usize,
                },
            )
        } else {
            before
        }
    }
}

/// Whether the element counts of the intermediate tensors fit into the numbers
/// that hold them.
pub open spec fn intermediates_fit(model: ParsedModel) -> bool {
    forall|t: int|
        0 <= t < model.tensors@.len() && #[trigger] storage_of(model, t) is Tensor
            ==> operands::count_fits(model.tensors@[t].shape@)
}

/// Whether the sizes that the program of a model is made of fit into the numbers
/// that hold them. Tensors that the program does not count may be of any size.
pub open spec fn fits(model: ParsedModel, plan: Option<ArenaPlan>) -> bool {
    &&& operands::listed_fit(model, model.inputs@)
    &&& operands::listed_fit(model, model.outputs@)
    &&& span(model, model.inputs@) <= usize::MAX
    &&& span(model, model.outputs@) <= usize::MAX
    &&& forall|i: int|
        0 <= i < model.ops@.len() ==> generate::dimensions_fit(model, #[trigger] model.ops@[i])
    &&& io_failure(model, model.inputs@) is None && io_failure(model, model.outputs@) is None ==> {
        &&& intermediates_fit(model)
        &&& slotted(model, plan) || arena_span(model, model.tensors@.len()) <= usize::MAX
    }
}

/// Whether a program is that of a model.
pub open spec fn is_program(
    program: ModelEmission,
    model: ParsedModel,
    plan: Option<ArenaPlan>,
) -> bool {
    &&& program.input_len == span(model, model.inputs@)
    &&& program.output_len == span(model, model.outputs@)
    &&& program.scratch_len == 0
    &&& program.arena_len == arena_size(model, plan)
    &&& program.ops@.len() == model.ops@.len()
    &&& forall|i: int|
        0 <= i < model.ops@.len() ==> is_call(
            #[trigger] program.ops@[i],
            model,
            storages(model),
            model.ops@[i],
        )
    &&& program.tensors@ == intermediates(model, plan, model.tensors@.len())
}

/// Lengths are not negative.
proof fn lemma_len_of(model: ParsedModel, t: int)
    ensures
        len_of(model, t) >= 0,
{
    if 0 <= t < model.tensors@.len() && crate::shape::all_positive(model.tensors@[t].shape@) {
        crate::shape::lemma_product_positive(model.tensors@[t].shape@);
    }
}

/// The first of the listed tensors take no more than all.
proof fn lemma_span_grows(model: ParsedModel, list: Seq<u32>, n: int)
    requires
        0 <= n <= list.len(),
    ensures
        0 <= span(model, list.take(n)) <= span(model, list),
    decreases list.len(),
{
    if list.len() > 0 {
        let rest = list.drop_last();
        lemma_len_of(model, list.last() as int);
        if n < list.len() {
            lemma_span_grows(model, rest, n);
            assert(rest.take(n) =~= list.take(n));
        } else {
            lemma_span_grows(model, rest, n - 1);
            assert(rest.take(n - 1) =~= rest);
            assert(list.take(n) =~= list);
        }
    }
}

/// A place is within the span of the list.
proof fn lemma_place_within(model: ParsedModel, list: Seq<u32>, t: int)
    ensures
        place_of(model, list, t) is Some ==> {
            let (start, len) = place_of(model, list, t)->0;
            0 <= start && 0 <= len && start + len <= span(model, list) && len == len_of(model, t)
        },
    decreases list.len(),
{
    if list.len() > 0 {
        let rest = list.drop_last();
        lemma_len_of(model, list.last() as int);
        lemma_span_grows(model, rest, rest.len() as int);
        assert(rest.take(rest.len() as int) =~= rest);
        lemma_place_within(model, rest, t);
    }
}

/// What is wrong with the first listed tensors is wrong with all.
proof fn lemma_io_failure_stays(model: ParsedModel, list: Seq<u32>, n: int)
    requires
        0 <= n <= list.len(),
    ensures
        io_failure(model, list.take(n)) is Some ==> io_failure(model, list) == io_failure(
            model,
            list.take(n),
        ),
    decreases list.len() - n,
{
    if n == list.len() {
        assert(list.take(n) =~= list);
    } else {
        assert(list.take(n + 1).drop_last() =~= list.take(n));
        lemma_io_failure_stays(model, list, n + 1);
    }
}

/// The length of one more listed tensor.
fn listed_len(model: &ParsedModel, list: &Vec<u32>, k: usize) -> (r: Result<usize, EmitError>)
    requires
        operands::listed_fit(*model, list@),
        k < list@.len(),
        io_failure(*model, list@.take(k as int)) is None,
    ensures
        match r {
            Ok(len) => {
                &&& io_failure(*model, list@.take(k + 1)) is None
                &&& list@[k as int] < model.tensors@.len()
                &&& len == len_of(*model, list@[k as int] as int)
            },
            Err(e) => io_failure(*model, list@) == Some(e),
        },
{
    let t: u32 = list[k];
    proof {
        assert(list@.take(k + 1).drop_last() =~= list@.take(k as int));
        assert(list@.take(k + 1).last() == t);
        lemma_io_failure_stays(*model, list@, k + 1);
    }
    let tensor = tensor_at(model, t)?;
    check_int8(model, t)?;
    assert(operands::tensor_fits(*model, list@[k as int] as int));
    flat_len(&tensor.shape)
}

/// Where the data of every tensor lies, and the elements of the input array and
/// of the output array.
fn classify(model: &ParsedModel) -> (r: Result<(Vec<Storage>, usize, usize), EmitError>)
    requires
        operands::listed_fit(*model, model.inputs@),
        operands::listed_fit(*model, model.outputs@),
        span(*model, model.inputs@) <= usize::MAX,
        span(*model, model.outputs@) <= usize::MAX,
    ensures
        match r {
            Ok((storage, input_len, output_len)) => {
                &&& io_failure(*model, model.inputs@) is None
                &&& io_failure(*model, model.outputs@) is None
                &&& storage@ == storages(*model)
                &&& input_len == span(*model, model.inputs@)
                &&& output_len == span(*model, model.outputs@)
            },
            Err(e) => operands::either(
                io_failure(*model, model.inputs@),
                io_failure(*model, model.outputs@),
            ) == Some(e),
        },
{
    let n: usize = model.tensors.len();
    let mut storage: Vec<Storage> = Vec::new();
    let mut k: usize = 0;
    while k < n
        invariant
            k <= n,
            storage@.len() == k,
            forall|t: int| 0 <= t < k ==> #[trigger] storage@[t] == Storage::Const,
        decreases n - k,
    {
        storage.push(Storage::Const);
        k = k + 1;
    }
    let mut input_len: usize = 0;
    k = 0;
    assert(model.inputs@.take(0) =~= Seq::empty());
    while k < model.inputs.len()
        invariant
            operands::listed_fit(*model, model.inputs@),
            span(*model, model.inputs@) <= usize::MAX,
            n == model.tensors@.len(),
            storage@.len() == n,
            k <= model.inputs@.len(),
            io_failure(*model, model.inputs@.take(k as int)) is None,
            input_len == span(*model, model.inputs@.take(k as int)),
            forall|t: int|
                0 <= t < n ==> #[trigger] storage@[t] == match place_of(
                    *model,
                    model.inputs@.take(k as int),
                    t,
                ) {
                    Some((start, len)) => Storage::Input {
                        start: start as usize,
                        len: len as usize,
                    },
                    None => Storage::Const,
                },
        decreases model.inputs@.len() - k,
    {
        let len: usize = listed_len(model, &model.inputs, k)?;
        proof {
            let next = model.inputs@.take(k + 1);
            assert(next.drop_last() =~= model.inputs@.take(k as int));
            assert(next.last() == model.inputs@[k as int]);
            lemma_span_grows(*model, model.inputs@, k + 1);
        }
        storage.set(model.inputs[k] as usize, Storage::Input { start: input_len, len });
        input_len = input_len + len;
        k = k + 1;
    }
    assert(model.inputs@.take(model.inputs@.len() as int) =~= model.inputs@);
    let mut output_len: usize = 0;
    k = 0;
    assert(model.outputs@.take(0) =~= Seq::empty());
    while k < model.outputs.len()
        invariant
            operands::listed_fit(*model, model.outputs@),
            span(*model, model.outputs@) <= usize::MAX,
            io_failure(*model, model.inputs@) is None,
            n == model.tensors@.len(),
            storage@.len() == n,
            k <= model.outputs@.len(),
            io_failure(*model, model.outputs@.take(k as int)) is None,
            output_len == span(*model, model.outputs@.take(k as int)),
            forall|t: int|
                0 <= t < n ==> #[trigger] storage@[t] == match place_of(
                    *model,
                    model.outputs@.take(k as int),
                    t,
                ) {
                    Some((start, len)) => Storage::Output {
                        start: start as usize,
                        len: len as usize,
                    },
                    None => match place_of(*model, model.inputs@, t) {
                        Some((start, len)) => Storage::Input {
                            start: start as usize,
                            len: len as usize,
                        },
                        None => Storage::Const,
                    },
                },
        decreases model.outputs@.len() - k,
    {
        let len: usize = listed_len(model, &model.outputs, k)?;
        proof {
            let next = model.outputs@.take(k + 1);
            assert(next.drop_last() =~= model.outputs@.take(k as int));
            assert(next.last() == model.outputs@[k as int]);
            lemma_span_grows(*model, model.outputs@, k + 1);
        }
        storage.set(model.outputs[k] as usize, Storage::Output { start: output_len, len });
        output_len = output_len + len;
        k = k + 1;
    }
    assert(model.outputs@.take(model.outputs@.len() as int) =~= model.outputs@);
    let ghost listed = storage@;
    k = 0;
    while k < n
        invariant
            n == model.tensors@.len(),
            storage@.len() == n,
            k <= n,
            forall|t: int|
                0 <= t < n ==> #[trigger] listed[t] == match place_of(*model, model.outputs@, t) {
                    Some((start, len)) => Storage::Output {
                        start: start as usize,
                        len: len as usize,
                    },
                    None => match place_of(*model, model.inputs@, t) {
                        Some((start, len)) => Storage::Input {
                            start: start as usize,
                            len: len as usize,
                        },
                        None => Storage::Const,
                    },
                },
            forall|t: int| 0 <= t < k ==> #[trigger] storage@[t] == storage_of(*model, t),
            forall|t: int| k <= t < n ==> #[trigger] storage@[t] == listed[t],
        decreases n - k,
    {
        if storage[k] == Storage::Const && model.buffer_data(&model.tensors[k]).is_none() {
            storage.set(k, Storage::Tensor { idx: k });
        }
        k = k + 1;
    }
    assert(storage@ =~= storages(*model));
    Ok((storage, input_len, output_len))
}

/// What is wrong with the first operators is wrong with all.
proof fn lemma_ops_failure_stays(model: ParsedModel, n: nat, m: nat)
    requires
        n <= m,
        ops_failure(model, n) is Some,
    ensures
        ops_failure(model, m) == ops_failure(model, n),
    decreases m - n,
{
    if n < m {
        lemma_ops_failure_stays(model, n, (m - 1) as nat);
    }
}

/// What is wrong with the first tensors is wrong with all.
proof fn lemma_sizes_failure_stays(model: ParsedModel, n: nat, m: nat)
    requires
        n <= m,
        sizes_failure(model, n) is Some,
    ensures
        sizes_failure(model, m) == sizes_failure(model, n),
    decreases m - n,
{
    if n < m {
        lemma_sizes_failure_stays(model, n, (m - 1) as nat);
    }
}

/// The first tensors take no more of the arena than all.
proof fn lemma_arena_span_grows(model: ParsedModel, n: nat, m: nat)
    requires
        n <= m,
    ensures
        0 <= arena_span(model, n) <= arena_span(model, m),
        arena_span(model, n) % 16 == 0,
    decreases m,
{
    if m > 0 {
        lemma_len_of(model, m - 1);
        if n < m {
            lemma_arena_span_grows(model, n, (m - 1) as nat);
        } else {
            lemma_arena_span_grows(model, (m - 1) as nat, (m - 1) as nat);
        }
    }
}

/// The calls of all operators.
fn emit_ops(model: &ParsedModel, storage: &Vec<Storage>) -> (r: Result<Vec<OpEmission>, EmitError>)
    requires
        forall|i: int|
            0 <= i < model.ops@.len() ==> generate::dimensions_fit(*model, #[trigger] model.ops@[i]),
        storage@ == storages(*model),
    ensures
        match r {
            Ok(ops) => {
                &&& ops_failure(*model, model.ops@.len()) is None
                &&& ops@.len() == model.ops@.len()
                &&& forall|i: int|
                    0 <= i < model.ops@.len() ==> is_call(
                        #[trigger] ops@[i],
                        *model,
                        storages(*model),
                        model.ops@[i],
                    )
            },
            Err(e) => ops_failure(*model, model.ops@.len()) == Some(e),
        },
{
    let mut ops: Vec<OpEmission> = Vec::new();
    let mut i: usize = 0;
    while i < model.ops.len()
        invariant
            forall|i: int|
                0 <= i < model.ops@.len() ==> generate::dimensions_fit(
                    *model,
                    #[trigger] model.ops@[i],
                ),
            storage@ == storages(*model),
            i <= model.ops@.len(),
            ops_failure(*model, i as nat) is None,
            ops@.len() == i,
            forall|k: int|
                0 <= k < i ==> is_call(
                    #[trigger] ops@[k],
                    *model,
                    storages(*model),
                    model.ops@[k],
                ),
        decreases model.ops@.len() - i,
    {
        let op = &model.ops[i];
        assert(generate::dimensions_fit(*model, model.ops@[i as int]));
        match emit_op(model, storage, i, op) {
            Ok(e) => ops.push(e),
            Err(e) => {
                proof {
                    assert(ops_failure(*model, (i + 1) as nat) == Some(e));
                    lemma_ops_failure_stays(*model, (i + 1) as nat, model.ops@.len());
                }
                return Err(e);
            },
        }
        i = i + 1;
    }
    Ok(ops)
}

/// Fails where the size of an intermediate tensor is unknown.
fn check_sizes(model: &ParsedModel, storage: &Vec<Storage>) -> (r: Result<(), EmitError>)
    requires
        intermediates_fit(*model),
        storage@ == storages(*model),
    ensures
        match r {
            Ok(_) => sizes_failure(*model, model.tensors@.len()) is None,
            Err(e) => sizes_failure(*model, model.tensors@.len()) == Some(e),
        },
{
    let mut t: usize = 0;
    while t < model.tensors.len()
        invariant
            intermediates_fit(*model),
            storage@ == storages(*model),
            t <= model.tensors@.len(),
            sizes_failure(*model, t as nat) is None,
        decreases model.tensors@.len() - t,
    {
        if let Storage::Tensor { .. } = storage[t] {
            assert(storage_of(*model, t as int) is Tensor);
            match flat_len(&model.tensors[t].shape) {
                Ok(_) => {},
                Err(e) => {
                    proof {
                        assert(sizes_failure(*model, (t + 1) as nat) == Some(e));
                        lemma_sizes_failure_stays(*model, (t + 1) as nat, model.tensors@.len());
                    }
                    return Err(e);
                },
            }
        }
        t = t + 1;
    }
    Ok(())
}

/// Where a plan puts a tensor.
fn slot_of(plan: &ArenaPlan, t: usize) -> (r: Option<usize>)
    ensures
        r == slot(*plan, t as int),
{
    if t < plan.offsets.len() {
        plan.offsets[t]
    } else {
        None
    }
}

/// Whether a plan has a place for every intermediate tensor.
fn has_all_slots(model: &ParsedModel, storage: &Vec<Storage>, plan: &ArenaPlan) -> (r: bool)
    requires
        storage@ == storages(*model),
    ensures
        r == slotted(*model, Some(*plan)),
{
    let mut t: usize = 0;
    while t < storage.len()
        invariant
            storage@ == storages(*model),
            t <= storage@.len(),
            forall|k: int|
                0 <= k < t && storage_of(*model, k) is Tensor ==> #[trigger] slot(
                    *plan,
                    k,
                ) is Some,
        decreases storage@.len() - t,
    {
        if let Storage::Tensor { .. } = storage[t] {
            if slot_of(plan, t).is_none() {
                assert(storage_of(*model, t as int) is Tensor);
                assert(slot(*plan, t as int) is None);
                return false;
            }
        }
        t = t + 1;
    }
    true
}

/// A size that is known throughout is known of one tensor.
proof fn lemma_known_size(model: ParsedModel, n: nat, t: int)
    requires
        sizes_failure(model, n) is None,
        0 <= t < n,
        storage_of(model, t) is Tensor,
    ensures
        operands::countable(model.tensors@[t].shape@) is None,
    decreases n,
{
    if t < n - 1 {
        lemma_known_size(model, (n - 1) as nat, t);
    }
}

/// The intermediate tensors, and the bytes of the arena.
fn lay_out(model: &ParsedModel, storage: &Vec<Storage>, plan: Option<&ArenaPlan>) -> (r: (
    Vec<Intermediate>,
    usize,
))
    requires
        intermediates_fit(*model),
        storage@ == storages(*model),
        sizes_failure(*model, model.tensors@.len()) is None,
        !slotted(*model, given(plan)) ==> arena_span(*model, model.tensors@.len()) <= usize::MAX,
    ensures
        r.0@ == intermediates(*model, given(plan), model.tensors@.len()),
        r.1 == arena_size(*model, given(plan)),
{
    let followed: Option<&ArenaPlan> = match plan {
        Some(plan) => if has_all_slots(model, storage, plan) {
            Some(plan)
        } else {
            None
        },
        None => None,
    };
    let mut tensors: Vec<Intermediate> = Vec::new();
    let mut cursor: usize = 0;
    let mut t: usize = 0;
    let n: usize = model.tensors.len();
    while t < n
        invariant
            n == model.tensors@.len(),
            intermediates_fit(*model),
            storage@ == storages(*model),
            sizes_failure(*model, n as nat) is None,
            followed is Some <==> slotted(*model, given(plan)),
            followed is Some ==> plan == followed,
            !slotted(*model, given(plan)) ==> arena_span(*model, n as nat) <= usize::MAX,
            t <= n,
            tensors@ == intermediates(*model, given(plan), t as nat),
            followed is None ==> cursor == arena_span(*model, t as nat),
        decreases n - t,
    {
        if let Storage::Tensor { .. } = storage[t] {
            proof {
                assert(storage_of(*model, t as int) is Tensor);
                lemma_known_size(*model, n as nat, t as int);
                operands::lemma_bad_dimension(model.tensors@[t as int].shape@);
                lemma_arena_span_grows(*model, (t + 1) as nat, n as nat);
                lemma_arena_span_grows(*model, t as nat, n as nat);
            }
            let len: usize = flat_prod(&model.tensors[t].shape);
            assert(len == len_of(*model, t as int));
            let offset: usize = match followed {
                Some(plan) => match slot_of(plan, t) {
                    Some(offset) => offset,
                    None => 0,
                },
                None => {
                    let offset: usize = cursor;
                    assert(cursor + aligned(len as int) <= usize::MAX);
                    assert(usize::MAX % 16 == 15) by {
                        assert(usize::MAX == 0xffff_ffff || usize::MAX
                            == 0xffff_ffff_ffff_ffff);
                    }
                    cursor = cursor + (len + 15) / 16 * 16;
                    offset
                },
            };
            proof {
                if followed is Some {
                    assert(slot(*followed->0, t as int) is Some);
                }
                assert(offset == offset_of(*model, given(plan), t as int));
            }
            tensors.push(Intermediate { index: t, len, offset });
        }
        t = t + 1;
    }
    let arena_len: usize = match followed {
        Some(plan) => plan.peak_arena_bytes,
        None => cursor,
    };
    (tensors, arena_len)
}

/// The plan behind a reference.
pub open spec fn given(plan: Option<&ArenaPlan>) -> Option<ArenaPlan> {
    match plan {
        Some(plan) => Some(*plan),
        None => None,
    }
}

/// What the planner is asked for the arena of a program: all intermediate
/// tensors in one region, without a limit that matters.
pub fn arena_request(model: &ParsedModel) -> (r: Result<ArenaRequest, ArenaError>)
    ensures
        match r {
            Ok(request) => crate::arena::refusal(*model) is None && crate::arena::requests(
                request,
                *model,
                usize::MAX / 4,
                None,
            ),
            Err(e) => crate::arena::refusal(*model) == Some(e),
        },
{
    plan_arena_internal(model, usize::MAX / 4, None)
}

/// The program of a model. Where there is a plan with a place for every
/// intermediate tensor, the arena follows it.
pub fn emit_model(model: &ParsedModel, plan: Option<&ArenaPlan>) -> (r: Result<
    ModelEmission,
    EmitError,
>)
    requires
        fits(*model, given(plan)),
    ensures
        match r {
            Ok(program) => model_failure(*model) is None && is_program(
                program,
                *model,
                given(plan),
            ),
            Err(e) => model_failure(*model) == Some(e),
        },
{
    if model.subgraph_count != 1 {
        return Err(EmitError::Subgraphs { count: model.subgraph_count });
    }
    if model.tensors.len() == 0 {
        return Err(EmitError::NoTensors);
    }
    if model.inputs.len() == 0 {
        return Err(EmitError::NoInputs);
    }
    if model.outputs.len() == 0 {
        return Err(EmitError::NoOutputs);
    }
    let (storage, input_len, output_len): (Vec<Storage>, usize, usize) = classify(model)?;
    let ops: Vec<OpEmission> = emit_ops(model, &storage)?;
    check_sizes(model, &storage)?;
    let (tensors, arena_len): (Vec<Intermediate>, usize) = lay_out(model, &storage, plan);
    Ok(ModelEmission { input_len, output_len, scratch_len: 0, arena_len, ops, tensors })
}

/// The number of elements of a tensor, or zero where it is not known.
fn len_at(model: &ParsedModel, t: usize) -> (r: u128)
    requires
        operands::tensor_fits(*model, t as int),
    ensures
        r == len_of(*model, t as int),
        r <= i64::MAX,
{
    match model.tensor_by_index(t) {
        Some(tensor) => flat_prod(&tensor.shape) as u128,
        None => 0,
    }
}

/// The number of elements of all listed tensors.
fn span_of(model: &ParsedModel, list: &Vec<u32>) -> (r: u128)
    requires
        operands::listed_fit(*model, list@),
    ensures
        r == span(*model, list@),
{
    let mut sum: u128 = 0;
    let mut k: usize = 0;
    assert(list@.take(0) =~= Seq::empty());
    while k < list.len()
        invariant
            operands::listed_fit(*model, list@),
            k <= list@.len(),
            k <= usize::MAX,
            sum == span(*model, list@.take(k as int)),
            sum <= k * 0x7fff_ffff_ffff_ffff,
        decreases list@.len() - k,
    {
        assert(list@.take(k + 1).drop_last() =~= list@.take(k as int));
        assert(k * 0x7fff_ffff_ffff_ffff <= 0xffff_ffff_ffff_ffff * 0x7fff_ffff_ffff_ffff)
            by (nonlinear_arith)
            requires
                0 <= k <= 0xffff_ffff_ffff_ffff,
        ;
        assert(operands::tensor_fits(*model, list@[k as int] as int));
        sum = sum + len_at(model, list[k] as usize);
        k = k + 1;
    }
    assert(list@.take(list@.len() as int) =~= list@);
    sum
}

/// The arena that all intermediate tensors fill, one behind the other.
fn arena_span_of(model: &ParsedModel, storage: &Vec<Storage>) -> (r: u128)
    requires
        intermediates_fit(*model),
        storage@ == storages(*model),
    ensures
        r == arena_span(*model, model.tensors@.len()),
{
    let mut sum: u128 = 0;
    let mut t: usize = 0;
    while t < model.tensors.len()
        invariant
            intermediates_fit(*model),
            storage@ == storages(*model),
            t <= model.tensors@.len(),
            t <= usize::MAX,
            sum == arena_span(*model, t as nat),
            sum <= t * 0x8000_0000_0000_0010,
        decreases model.tensors@.len() - t,
    {
        assert(t * 0x8000_0000_0000_0010 <= 0xffff_ffff_ffff_ffff * 0x8000_0000_0000_0010)
            by (nonlinear_arith)
            requires
                0 <= t <= 0xffff_ffff_ffff_ffff,
        ;
        if let Storage::Tensor { .. } = storage[t] {
            assert(storage_of(*model, t as int) is Tensor);
            sum = sum + (len_at(model, t) + 15) / 16 * 16;
        }
        t = t + 1;
    }
    sum
}

/// Whether the element counts of the intermediate tensors fit into the numbers
/// that hold them.
fn check_intermediates(model: &ParsedModel, storage: &Vec<Storage>) -> (r: bool)
    requires
        storage@ == storages(*model),
    ensures
        r == intermediates_fit(*model),
{
    let mut t: usize = 0;
    while t < model.tensors.len()
        invariant
            storage@ == storages(*model),
            t <= model.tensors@.len(),
            forall|k: int|
                0 <= k < t && #[trigger] storage_of(*model, k) is Tensor ==> operands::count_fits(
                    model.tensors@[k].shape@,
                ),
        decreases model.tensors@.len() - t,
    {
        if let Storage::Tensor { .. } = storage[t] {
            if !check_count(&model.tensors[t].shape) {
                assert(storage_of(*model, t as int) is Tensor);
                return false;
            }
        }
        t = t + 1;
    }
    true
}

/// Whether the sizes of every operator fit into the numbers that hold them.
fn check_operators(model: &ParsedModel) -> (r: bool)
    ensures
        r == forall|i: int|
            0 <= i < model.ops@.len() ==> generate::dimensions_fit(*model, #[trigger] model.ops@[i]),
{
    let mut i: usize = 0;
    while i < model.ops.len()
        invariant
            i <= model.ops@.len(),
            forall|k: int|
                0 <= k < i ==> generate::dimensions_fit(*model, #[trigger] model.ops@[k]),
        decreases model.ops@.len() - i,
    {
        if !check_dimensions(model, &model.ops[i]) {
            assert(!generate::dimensions_fit(*model, model.ops@[i as int]));
            return false;
        }
        i = i + 1;
    }
    true
}

/// Whether the sizes that the program of a model is made of fit into the numbers
/// that hold them.
pub fn check_fits(model: &ParsedModel, plan: Option<&ArenaPlan>) -> (r: bool)
    ensures
        r == fits(*model, given(plan)),
{
    if !check_listed(model, &model.inputs) || !check_listed(model, &model.outputs)
        || !check_operators(model) {
        return false;
    }
    let limit: u128 = usize::MAX as u128;
    if span_of(model, &model.inputs) > limit || span_of(model, &model.outputs) > limit {
        return false;
    }
    match classify(model) {
        Ok((storage, _, _)) => {
            if !check_intermediates(model, &storage) {
                return false;
            }
            let followed: bool = match plan {
                Some(plan) => has_all_slots(model, &storage, plan),
                None => false,
            };
            followed || arena_span_of(model, &storage) <= limit
        },
        Err(_) => true,
    }
}

/// What a call reads, its constants apart.
pub open spec fn reads(e: OpEmission) -> Seq<Source> {
    match e {
        OpEmission::Conv2D(e) => seq![e.source],
        OpEmission::DepthwiseConv2D(e) => seq![e.conv.source],
        OpEmission::FullyConnected(e) => seq![e.source],
        OpEmission::Pool(e) => seq![e.source],
        OpEmission::Softmax(e) => seq![e.source],
        OpEmission::Activation(e) => seq![e.source],
        OpEmission::Elementwise(e) => seq![e.source1, e.source2],
        OpEmission::Mean(e) => seq![e.source],
        OpEmission::Reshape(e) => seq![e.source],
        OpEmission::Pad(e) => seq![e.source],
        OpEmission::Transpose(e) => seq![e.source],
        OpEmission::Resize(e) => seq![e.source],
    }
}

/// What a call writes.
pub open spec fn writes(e: OpEmission) -> Target {
    match e {
        OpEmission::Conv2D(e) => e.target,
        OpEmission::DepthwiseConv2D(e) => e.conv.target,
        OpEmission::FullyConnected(e) => e.target,
        OpEmission::Pool(e) => e.target,
        OpEmission::Softmax(e) => e.target,
        OpEmission::Activation(e) => e.target,
        OpEmission::Elementwise(e) => e.target,
        OpEmission::Mean(e) => e.target,
        OpEmission::Reshape(e) => e.target,
        OpEmission::Pad(e) => e.target,
        OpEmission::Transpose(e) => e.target,
        OpEmission::Resize(e) => e.target,
    }
}

/// Where no operator fails, one does not.
proof fn lemma_no_op_failure(model: ParsedModel, n: nat, i: int)
    requires
        ops_failure(model, n) is None,
        0 <= i < n,
    ensures
        op_failure(model, storages(model), i as usize, model.ops@[i]) is None,
    decreases n,
{
    if i < n - 1 {
        lemma_no_op_failure(model, (n - 1) as nat, i);
    }
}

/// The operands of an operator without a failure can be read and written.
proof fn lemma_operands_are_placed(
    model: ParsedModel,
    storage: Seq<Storage>,
    i: usize,
    op: ParsedOp,
)
    requires
        op_failure(model, storage, i, op) is None,
    ensures
        operands::readable(storage, generate::input_of(op)) is None,
        operands::writable(storage, generate::output_of(op)) is None,
        op.builtin_code == ADD || op.builtin_code == SUB || op.builtin_code == MUL
            ==> operands::readable(storage, generate::second_of(op)) is None,
{
    reveal(op_failure);
}

/// What a call reads and writes are the operands of its operator.
proof fn lemma_call_names_operands(
    e: OpEmission,
    model: ParsedModel,
    storage: Seq<Storage>,
    op: ParsedOp,
    k: int,
)
    requires
        is_call(e, model, storage, op),
        0 <= k < reads(e).len(),
    ensures
        writes(e) == operands::target_of(storage, generate::output_of(op)),
        reads(e)[k] == operands::source_of(storage, generate::input_of(op)) || {
            &&& op.builtin_code == ADD || op.builtin_code == SUB || op.builtin_code == MUL
            &&& reads(e)[k] == operands::source_of(storage, generate::second_of(op))
        },
{
    reveal(is_call);
}

/// What an operator with a call reads can be read, and what it writes can be
/// written.
proof fn lemma_call_is_placed(
    e: OpEmission,
    model: ParsedModel,
    storage: Seq<Storage>,
    i: usize,
    op: ParsedOp,
    k: int,
)
    requires
        op_failure(model, storage, i, op) is None,
        is_call(e, model, storage, op),
        0 <= k < reads(e).len(),
    ensures
        exists|t: u32|
            operands::readable(storage, t) is None && reads(e)[k] == #[trigger] operands::source_of(
                storage,
                t,
            ),
        exists|t: u32|
            operands::writable(storage, t) is None && writes(e) == #[trigger] operands::target_of(
                storage,
                t,
            ),
{
    lemma_operands_are_placed(model, storage, i, op);
    lemma_call_names_operands(e, model, storage, op, k);
}

/// Every intermediate tensor of a model is one of its program.
proof fn lemma_intermediate_is_listed(
    model: ParsedModel,
    plan: Option<ArenaPlan>,
    n: nat,
    t: int,
) -> (m: int)
    requires
        0 <= t < n,
        storage_of(model, t) is Tensor,
    ensures
        0 <= m < intermediates(model, plan, n).len(),
        intermediates(model, plan, n)[m].index == t as usize,
    decreases n,
{
    if t == n - 1 {
        intermediates(model, plan, n).len() - 1
    } else {
        lemma_intermediate_is_listed(model, plan, (n - 1) as nat, t)
    }
}

/// Every call of a program stays inside the memory that the program declares:
/// a range of the input array that it reads, and a range of the output array
/// that it writes, lie within these arrays, and every intermediate tensor that
/// it names is declared.
pub proof fn law_calls_stay_inside(
    program: ModelEmission,
    model: ParsedModel,
    plan: Option<ArenaPlan>,
    i: int,
    k: int,
)
    requires
        model_failure(model) is None,
        is_program(program, model, plan),
        0 <= i < program.ops@.len(),
        0 <= k < reads(program.ops@[i]).len(),
    ensures
        match reads(program.ops@[i])[k] {
            Source::Input { start, len } => start + len <= program.input_len,
            Source::Tensor { idx } => exists|m: int|
                0 <= m < program.tensors@.len() && #[trigger] program.tensors@[m].index == idx,
        },
        match writes(program.ops@[i]) {
            Target::Output { start, len } => start + len <= program.output_len,
            Target::Tensor { idx } => exists|m: int|
                0 <= m < program.tensors@.len() && #[trigger] program.tensors@[m].index == idx,
        },
{
    let e = program.ops@[i];
    let storage = storages(model);
    let n = model.tensors@.len();
    lemma_no_op_failure(model, model.ops@.len(), i);
    assert(is_call(e, model, storage, model.ops@[i]));
    lemma_call_is_placed(e, model, storage, i as usize, model.ops@[i], k);
    let r = choose|t: u32|
        operands::readable(storage, t) is None && reads(e)[k] == #[trigger] operands::source_of(
            storage,
            t,
        );
    let w = choose|t: u32|
        operands::writable(storage, t) is None && writes(e) == #[trigger] operands::target_of(
            storage,
            t,
        );
    lemma_place_within(model, model.inputs@, r as int);
    lemma_place_within(model, model.outputs@, w as int);
    if storage_of(model, r as int) is Tensor {
        let m = lemma_intermediate_is_listed(model, plan, n, r as int);
        assert(program.tensors@[m].index == r);
    }
    if storage_of(model, w as int) is Tensor {
        let m = lemma_intermediate_is_listed(model, plan, n, w as int);
        assert(program.tensors@[m].index == w);
    }
}

/// What an intermediate tensor of a program without a plan is.
proof fn lemma_sequential(model: ParsedModel, plan: Option<ArenaPlan>, n: nat, m: int) -> (t: int)
    requires
        !slotted(model, plan),
        n <= model.tensors@.len(),
        arena_span(model, n) <= usize::MAX,
        0 <= m < intermediates(model, plan, n).len(),
    ensures
        0 <= t < n,
        storage_of(model, t) is Tensor,
        intermediates(model, plan, n)[m].offset == arena_span(model, t as nat),
        intermediates(model, plan, n)[m].len == len_of(model, t),
        intermediates(model, plan, n)[m].offset + intermediates(model, plan, n)[m].len
            <= arena_span(model, (t + 1) as nat),
        m < intermediates(model, plan, n).len() - 1 ==> t < n - 1,
        m < intermediates(model, plan, (t + 1) as nat).len(),
        m == intermediates(model, plan, (t + 1) as nat).len() - 1,
    decreases n,
{
    let before = intermediates(model, plan, (n - 1) as nat);
    lemma_arena_span_grows(model, (n - 1) as nat, n);
    lemma_len_of(model, n - 1);
    if m == before.len() {
        n - 1
    } else {
        lemma_sequential(model, plan, (n - 1) as nat, m)
    }
}

/// Later tensors have more before them.
proof fn lemma_intermediates_grow(model: ParsedModel, plan: Option<ArenaPlan>, n: nat, m: nat)
    requires
        n <= m,
    ensures
        intermediates(model, plan, n).len() <= intermediates(model, plan, m).len(),
    decreases m,
{
    if n < m {
        lemma_intermediates_grow(model, plan, n, (m - 1) as nat);
    }
}

/// Without a plan the intermediate tensors share no byte of the arena, each
/// begins at a multiple of sixteen, and all lie inside.
pub proof fn law_sequential_arena_is_disjoint(
    program: ModelEmission,
    model: ParsedModel,
    plan: Option<ArenaPlan>,
    a: int,
    b: int,
)
    requires
        is_program(program, model, plan),
        !slotted(model, plan),
        0 <= a <= b < program.tensors@.len(),
    ensures
        a < b ==> program.tensors@[a].offset + program.tensors@[a].len
            <= program.tensors@[b].offset,
        program.tensors@[a].offset % 16 == 0,
        program.tensors@[b].offset % 16 == 0,
        program.tensors@[b].offset + program.tensors@[b].len <= program.arena_len,
{
    let n = model.tensors@.len();
    let s = lemma_sequential(model, plan, n, a);
    let t = lemma_sequential(model, plan, n, b);
    if t <= s {
        lemma_intermediates_grow(model, plan, (t + 1) as nat, (s + 1) as nat);
    } else {
        lemma_arena_span_grows(model, (s + 1) as nat, t as nat);
    }
    lemma_arena_span_grows(model, s as nat, s as nat);
    lemma_arena_span_grows(model, (t + 1) as nat, n);
    lemma_arena_span_grows(model, t as nat, n);
}

/// With a plan that has a place for every intermediate tensor, each lies where
/// the plan puts it, and the arena is as large as the plan says.
pub proof fn law_plan_is_followed(
    program: ModelEmission,
    model: ParsedModel,
    plan: ArenaPlan,
    m: int,
)
    requires
        is_program(program, model, Some(plan)),
        slotted(model, Some(plan)),
        0 <= m < program.tensors@.len(),
    ensures
        program.arena_len == plan.peak_arena_bytes,
        slot(plan, program.tensors@[m].index as int) == Some(program.tensors@[m].offset),
{
    let t = lemma_planned(model, plan, model.tensors@.len(), m);
    assert(slot(plan, t) is Some);
}

/// What an intermediate tensor of a program with a plan is.
proof fn lemma_planned(model: ParsedModel, plan: ArenaPlan, n: nat, m: int) -> (t: int)
    requires
        slotted(model, Some(plan)),
        n <= model.tensors@.len(),
        0 <= m < intermediates(model, Some(plan), n).len(),
    ensures
        0 <= t < n,
        storage_of(model, t) is Tensor,
        intermediates(model, Some(plan), n)[m].index == t,
        slot(plan, t) is Some,
        intermediates(model, Some(plan), n)[m].offset == slot(plan, t)->0,
    decreases n,
{
    assert(n <= usize::MAX) by {
        assert(model.tensors@.len() == model.tensors.len());
    }
    let before = intermediates(model, Some(plan), (n - 1) as nat);
    if m == before.len() {
        assert(slot(plan, n - 1) is Some);
        n - 1
    } else {
        lemma_planned(model, plan, (n - 1) as nat, m)
    }
}

/// The inputs of a model lie one behind the other in the input array, in the
/// order of the list, and so do the outputs.
pub proof fn law_listed_tensors_are_contiguous(model: ParsedModel, list: Seq<u32>, k: int)
    requires
        list.no_duplicates(),
        0 <= k < list.len(),
    ensures
        place_of(model, list, list[k] as int) == Some(
            (span(model, list.take(k)), len_of(model, list[k] as int)),
        ),
        span(model, list.take(k + 1)) == span(model, list.take(k)) + len_of(
            model,
            list[k] as int,
        ),
    decreases list.len(),
{
    let rest = list.drop_last();
    assert(list.take(k + 1).drop_last() =~= list.take(k));
    if k < list.len() - 1 {
        assert(rest.no_duplicates());
        assert(list.last() != list[k]);
        law_listed_tensors_are_contiguous(model, rest, k);
        assert(rest.take(k) =~= list.take(k));
    } else {
        assert(rest =~= list.take(k));
    }
}

/// A shape with ones in front has as many elements.
proof fn lemma_widened_product(shape: Seq<i32>)
    requires
        shape.len() <= 4,
    ensures
        crate::shape::product_of(operands::widened(shape)) == crate::shape::product_of(shape),
{
    let wide = operands::widened(shape);
    let ones = Seq::new((4 - shape.len()) as nat, |k: int| 1i32);
    assert(wide =~= ones + shape);
    lemma_product_of_ones(ones);
    lemma_product_splits(ones, shape);
}

proof fn lemma_product_of_ones(ones: Seq<i32>)
    requires
        forall|k: int| 0 <= k < ones.len() ==> #[trigger] ones[k] == 1,
    ensures
        crate::shape::product_of(ones) == 1,
    decreases ones.len(),
{
    if ones.len() > 0 {
        let rest = ones.drop_last();
        assert forall|k: int| 0 <= k < rest.len() implies #[trigger] rest[k] == 1 by {
            assert(ones[k] == 1);
        }
        lemma_product_of_ones(rest);
    }
}

proof fn lemma_product_splits(ones: Seq<i32>, shape: Seq<i32>)
    requires
        crate::shape::product_of(ones) == 1,
    ensures
        crate::shape::product_of(ones + shape) == crate::shape::product_of(shape),
    decreases shape.len(),
{
    if shape.len() == 0 {
        assert(ones + shape =~= ones);
    } else {
        assert((ones + shape).drop_last() =~= ones + shape.drop_last());
        assert((ones + shape).last() == shape.last());
        lemma_product_splits(ones, shape.drop_last());
    }
}

/// A convolution is called with slices of the lengths that its kernel asks for:
/// as many weights as its filter shape has elements, one bias, one multiplier
/// and one shift per output channel, and an input as long as its input shape
/// says.
pub proof fn law_convolution_lengths_match(
    e: ConvEmission,
    model: ParsedModel,
    i: usize,
    op: ParsedOp,
)
    requires
        generate::conv2d_failure(model, storages(model), i, op) is None,
        generate::is_conv2d(e, model, storages(model), op),
    ensures
        e.weights@.len() == crate::shape::product_of(e.filter_shape@),
        e.bias@.len() == e.filter_shape@[0],
        e.quant.multipliers@.len() == e.filter_shape@[0],
        e.quant.shifts@.len() == e.filter_shape@[0],
        len_of(model, generate::input_of(op) as int) == crate::shape::product_of(e.input_shape@),
        len_of(model, generate::output_of(op) as int) == crate::shape::product_of(e.output_shape@),
{
    let input = model.tensors@[generate::input_of(op) as int].shape@;
    let weights = model.tensors@[generate::second_of(op) as int].shape@;
    let output = model.tensors@[generate::output_of(op) as int].shape@;
    operands::lemma_bad_dimension(input);
    operands::lemma_bad_dimension(weights);
    operands::lemma_bad_dimension(output);
    lemma_widened_product(input);
    lemma_widened_product(weights);
    lemma_widened_product(output);
    lemma_widened_positive(weights, 0);
}

/// The same of a depthwise convolution, whose channels are the last dimension
/// of its filter.
pub proof fn law_depthwise_lengths_match(
    e: DepthwiseEmission,
    model: ParsedModel,
    i: usize,
    op: ParsedOp,
)
    requires
        generate::depthwise_failure(model, storages(model), i, op) is None,
        generate::is_depthwise(e, model, storages(model), op),
    ensures
        e.conv.weights@.len() == crate::shape::product_of(e.conv.filter_shape@),
        e.conv.bias@.len() == e.conv.filter_shape@[3],
        e.conv.quant.multipliers@.len() == e.conv.filter_shape@[3],
        e.conv.quant.shifts@.len() == e.conv.filter_shape@[3],
        len_of(model, generate::input_of(op) as int) == crate::shape::product_of(
            e.conv.input_shape@,
        ),
        len_of(model, generate::output_of(op) as int) == crate::shape::product_of(
            e.conv.output_shape@,
        ),
{
    let input = model.tensors@[generate::input_of(op) as int].shape@;
    let weights = model.tensors@[generate::second_of(op) as int].shape@;
    let output = model.tensors@[generate::output_of(op) as int].shape@;
    operands::lemma_bad_dimension(input);
    operands::lemma_bad_dimension(weights);
    operands::lemma_bad_dimension(output);
    lemma_widened_product(input);
    lemma_widened_product(weights);
    lemma_widened_product(output);
    lemma_widened_positive(weights, 3);
}

proof fn lemma_widened_positive(shape: Seq<i32>, k: int)
    requires
        shape.len() <= 4,
        crate::shape::all_positive(shape),
        0 <= k < 4,
    ensures
        operands::widened(shape)[k] > 0,
{
    if k >= 4 - shape.len() {
        assert(shape[k - (4 - shape.len())] > 0);
    }
}

/// A dense layer is called with one bias, one multiplier and one shift per
/// output of a batch, and with as many weights as its weight tensor has
/// elements.
pub proof fn law_dense_lengths_match(
    e: FullyConnectedEmission,
    model: ParsedModel,
    i: usize,
    op: ParsedOp,
)
    requires
        generate::layer_fits(model, op),
        generate::fully_connected_failure(model, storages(model), i, op) is None,
        generate::is_fully_connected(e, model, storages(model), op),
    ensures
        e.output_dim >= 0,
        e.bias@.len() == e.output_dim,
        e.quant.multipliers@.len() == e.output_dim,
        e.quant.shifts@.len() == e.output_dim,
        e.weights@.len() == len_of(model, generate::second_of(op) as int),
{
    let output = model.tensors@[generate::output_of(op) as int].shape@;
    operands::lemma_bad_dimension(model.tensors@[generate::second_of(op) as int].shape@);
    operands::lemma_bad_dimension(output);
    crate::shape::lemma_product_positive(output);
}

/// A call has the kind of its operator: the code alone decides which kernel is
/// called.
pub proof fn law_calls_have_the_kind_of_their_operator(
    e: OpEmission,
    model: ParsedModel,
    storage: Seq<Storage>,
    op: ParsedOp,
)
    requires
        is_call(e, model, storage, op),
    ensures
        ({
            let code = op.builtin_code;
            &&& code == 0 <==> (e matches OpEmission::Elementwise(x) && x.method
                == ElementwiseMethod::Add)
            &&& code == 41 <==> (e matches OpEmission::Elementwise(x) && x.method
                == ElementwiseMethod::Sub)
            &&& code == 18 <==> (e matches OpEmission::Elementwise(x) && x.method
                == ElementwiseMethod::Mul)
            &&& code == 1 <==> (e matches OpEmission::Pool(x) && x.kind == PoolKind::Average)
            &&& code == 17 <==> (e matches OpEmission::Pool(x) && x.kind == PoolKind::Max)
            &&& code == 3 <==> e is Conv2D
            &&& code == 4 <==> e is DepthwiseConv2D
            &&& code == 9 <==> e is FullyConnected
            &&& code == 19 <==> (e matches OpEmission::Activation(x) && x.method
                == ActivationMethod::Relu)
            &&& code == 21 <==> (e matches OpEmission::Activation(x) && x.method
                == ActivationMethod::Relu6)
            &&& code == 117 <==> (e matches OpEmission::Activation(x) && x.method
                == ActivationMethod::HardSwish)
            &&& code == 98 <==> (e matches OpEmission::Activation(x) && x.method
                == ActivationMethod::LeakyRelu)
            &&& code == 54 <==> (e matches OpEmission::Activation(x) && x.method
                == ActivationMethod::Prelu)
            &&& code == 22 <==> e is Reshape
            &&& code == 25 <==> e is Softmax
            &&& code == 34 <==> e is Pad
            &&& code == 39 <==> e is Transpose
            &&& code == 40 <==> e is Mean
            &&& code == 97 <==> e is Resize
        }),
{
    reveal(is_call);
}

/// Whether there are kernels for an operator code.
pub open spec fn is_supported(code: i32) -> bool {
    ||| code == 0 || code == 1 || code == 3 || code == 4 || code == 9
    ||| code == 17 || code == 18 || code == 19 || code == 21 || code == 22
    ||| code == 25 || code == 34 || code == 39 || code == 40 || code == 41
    ||| code == 54 || code == 97 || code == 98 || code == 117
}

/// An operator without kernels is named in the error, and an operator with
/// kernels fails for reasons of its own kind.
pub proof fn law_unsupported_operators_are_named(
    model: ParsedModel,
    storage: Seq<Storage>,
    i: usize,
    op: ParsedOp,
)
    ensures
        !is_supported(op.builtin_code) ==> op_failure(model, storage, i, op) == Some(
            EmitError::Unsupported { code: op.builtin_code },
        ),
        op.builtin_code == 3 ==> op_failure(model, storage, i, op) == generate::conv2d_failure(
            model,
            storage,
            i,
            op,
        ),
        op.builtin_code == 4 ==> op_failure(model, storage, i, op) == generate::depthwise_failure(
            model,
            storage,
            i,
            op,
        ),
        op.builtin_code == 9 ==> op_failure(model, storage, i, op)
            == generate::fully_connected_failure(model, storage, i, op),
        op.builtin_code == 1 || op.builtin_code == 17 ==> op_failure(model, storage, i, op)
            == generate::pool_failure(model, storage, i, op),
        op.builtin_code == 0 || op.builtin_code == 18 || op.builtin_code == 41 ==> op_failure(
            model,
            storage,
            i,
            op,
        ) == generate::elementwise_failure(model, storage, i, op),
        op.builtin_code == 19 || op.builtin_code == 21 || op.builtin_code == 117 ==> op_failure(
            model,
            storage,
            i,
            op,
        ) == generate::activation_failure(model, storage, i, op),
{
    reveal(op_failure);
}

/// A tensor lies in the output array where the model lists it as an output, in
/// the input array where it lists it as an input alone, among the constants
/// where it has data, and in memory of its own otherwise.
pub proof fn law_tensors_lie_where_the_graph_says(model: ParsedModel, t: u32)
    requires
        t < model.tensors@.len(),
    ensures
        ({
            let s = storage_of(model, t as int);
            &&& model.outputs@.contains(t) <==> s is Output
            &&& model.inputs@.contains(t) && !model.outputs@.contains(t) <==> s is Input
            &&& !model.inputs@.contains(t) && !model.outputs@.contains(t) && model.is_constant(
                t as int,
            ) <==> s is Const
            &&& s is Tensor ==> s->idx == t
            &&& storages(model)[t as int] == s
        }),
{
    lemma_place_is_listed(model, model.inputs@, t);
    lemma_place_is_listed(model, model.outputs@, t);
}

proof fn lemma_place_is_listed(model: ParsedModel, list: Seq<u32>, t: u32)
    ensures
        place_of(model, list, t as int) is Some <==> list.contains(t),
    decreases list.len(),
{
    if list.len() > 0 {
        let rest = list.drop_last();
        lemma_place_is_listed(model, rest, t);
        if list.last() == t {
            assert(list[list.len() - 1] == t);
        }
        if rest.contains(t) {
            let k = choose|k: int| 0 <= k < rest.len() && rest[k] == t;
            assert(list[k] == t);
        }
        if list.contains(t) && list.last() != t {
            let k = choose|k: int| 0 <= k < list.len() && list[k] == t;
            assert(rest[k] == t);
        }
    }
}

/// Whether a tensor can be an input or output of a model: it exists, is of bytes
/// and has known dimensions.
pub open spec fn can_be_listed(model: ParsedModel, t: u32) -> bool {
    &&& t < model.tensors@.len()
    &&& model.tensors@[t as int].tensor_type is Int8
    &&& crate::shape::all_positive(model.tensors@[t as int].shape@)
}

proof fn lemma_io_failure(model: ParsedModel, list: Seq<u32>)
    ensures
        io_failure(model, list) is None <==> forall|k: int|
            0 <= k < list.len() ==> can_be_listed(model, #[trigger] list[k]),
    decreases list.len(),
{
    if list.len() > 0 {
        let rest = list.drop_last();
        lemma_io_failure(model, rest);
        operands::lemma_bad_dimension(model.tensors@[list.last() as int].shape@);
        if forall|k: int| 0 <= k < list.len() ==> can_be_listed(model, #[trigger] list[k]) {
            assert forall|k: int| 0 <= k < rest.len() implies can_be_listed(
                model,
                #[trigger] rest[k],
            ) by {
                assert(can_be_listed(model, list[k]));
            }
            assert(can_be_listed(model, list[list.len() - 1]));
        }
        if io_failure(model, list) is None {
            assert forall|k: int| 0 <= k < list.len() implies can_be_listed(
                model,
                #[trigger] list[k],
            ) by {
                if k < rest.len() {
                    assert(can_be_listed(model, rest[k]));
                }
            }
        }
    }
}

proof fn lemma_ops_failure(model: ParsedModel, n: nat)
    requires
        n <= model.ops@.len(),
    ensures
        ops_failure(model, n) is None <==> forall|i: int|
            0 <= i < n ==> op_failure(
                model,
                storages(model),
                i as usize,
                #[trigger] model.ops@[i],
            ) is None,
    decreases n,
{
    if n > 0 {
        lemma_ops_failure(model, (n - 1) as nat);
        if forall|i: int|
            0 <= i < n ==> op_failure(
                model,
                storages(model),
                i as usize,
                #[trigger] model.ops@[i],
            ) is None {
            assert(op_failure(
                model,
                storages(model),
                (n - 1) as usize,
                model.ops@[n - 1],
            ) is None);
        }
    }
}

proof fn lemma_sizes_failure(model: ParsedModel, n: nat)
    requires
        n <= model.tensors@.len(),
    ensures
        sizes_failure(model, n) is None <==> forall|t: int|
            0 <= t < n && #[trigger] storage_of(model, t) is Tensor ==> crate::shape::all_positive(
                model.tensors@[t].shape@,
            ),
    decreases n,
{
    if n > 0 {
        lemma_sizes_failure(model, (n - 1) as nat);
        operands::lemma_bad_dimension(model.tensors@[n - 1].shape@);
        if forall|t: int|
            0 <= t < n && #[trigger] storage_of(model, t) is Tensor ==> crate::shape::all_positive(
                model.tensors@[t].shape@,
            ) {
            if storage_of(model, n - 1) is Tensor {
                assert(crate::shape::all_positive(model.tensors@[n - 1].shape@));
            }
        }
    }
}

/// A model has a program exactly where it has one subgraph, with tensors, inputs
/// and outputs, its inputs and outputs exist as bytes of known dimensions, every
/// operator has a call, and every intermediate tensor has known dimensions.
pub proof fn law_sound_models_have_programs(model: ParsedModel)
    ensures
        model_failure(model) is None <==> {
            &&& model.subgraph_count == 1
            &&& model.tensors@.len() > 0
            &&& model.inputs@.len() > 0
            &&& model.outputs@.len() > 0
            &&& forall|k: int|
                0 <= k < model.inputs@.len() ==> can_be_listed(model, #[trigger] model.inputs@[k])
            &&& forall|k: int|
                0 <= k < model.outputs@.len() ==> can_be_listed(model, #[trigger] model.outputs@[k])
            &&& forall|i: int|
                0 <= i < model.ops@.len() ==> op_failure(
                    model,
                    storages(model),
                    i as usize,
                    #[trigger] model.ops@[i],
                ) is None
            &&& forall|t: int|
                0 <= t < model.tensors@.len() && #[trigger] storage_of(model, t) is Tensor
                    ==> crate::shape::all_positive(model.tensors@[t].shape@)
        },
{
    lemma_io_failure(model, model.inputs@);
    lemma_io_failure(model, model.outputs@);
    lemma_ops_failure(model, model.ops@.len());
    lemma_sizes_failure(model, model.tensors@.len());
}

/// A program has one call per operator, in order, and no scratch of its own. Its
/// intermediate tensors are the tensors in memory of their own, in order, each
/// with all its elements.
pub proof fn law_programs_follow_the_graph(
    program: ModelEmission,
    model: ParsedModel,
    plan: Option<ArenaPlan>,
    i: int,
    m: int,
)
    requires
        model_failure(model) is None,
        is_program(program, model, plan),
        fits(model, plan),
        0 <= i < model.ops@.len(),
    ensures
        program.ops@.len() == model.ops@.len(),
        is_call(program.ops@[i], model, storages(model), model.ops@[i]),
        program.scratch_len == 0,
        0 <= m < program.tensors@.len() ==> {
            let t = program.tensors@[m];
            &&& t.index < model.tensors@.len()
            &&& storage_of(model, t.index as int) is Tensor
            &&& t.len == crate::shape::product_of(model.tensors@[t.index as int].shape@)
            &&& m > 0 ==> program.tensors@[m - 1].index < t.index
        },
{
    assert(is_call(program.ops@[i], model, storages(model), model.ops@[i]));
    lemma_sizes_failure(model, model.tensors@.len());
    if 0 <= m < program.tensors@.len() {
        lemma_intermediate(model, plan, model.tensors@.len(), m);
        let t = program.tensors@[m].index as int;
        assert(storage_of(model, t) is Tensor);
        assert(crate::shape::all_positive(model.tensors@[t].shape@));
        crate::shape::lemma_product_positive(model.tensors@[t].shape@);
        law_sound_models_have_programs(model);
        lemma_io_failure(model, model.inputs@);
        lemma_io_failure(model, model.outputs@);
        assert(intermediates_fit(model));
        assert(operands::count_fits(model.tensors@[t].shape@));
        assert(model.tensor(t) == Some(model.tensors@[t]));
        assert(len_of(model, t) == crate::shape::product_of(model.tensors@[t].shape@));
    }
}

/// What an intermediate tensor of a program is.
proof fn lemma_intermediate(model: ParsedModel, plan: Option<ArenaPlan>, n: nat, m: int)
    requires
        n <= model.tensors@.len(),
        0 <= m < intermediates(model, plan, n).len(),
    ensures
        ({
            let all = intermediates(model, plan, n);
            let t = all[m].index as int;
            &&& 0 <= t < n
            &&& storage_of(model, t) is Tensor
            &&& all[m].len == len_of(model, t) as usize
            &&& m > 0 ==> all[m - 1].index < t
        }),
    decreases n,
{
    assert(model.tensors@.len() == model.tensors.len());
    let before = intermediates(model, plan, (n - 1) as nat);
    if m < before.len() {
        lemma_intermediate(model, plan, (n - 1) as nat, m);
    } else if m > 0 {
        lemma_intermediate(model, plan, (n - 1) as nat, m - 1);
    }
}

/// Without a plan the first tensors are packed: nothing but the rest of a block
/// of sixteen lies between two of them, or behind the last.
proof fn lemma_packed(model: ParsedModel, plan: Option<ArenaPlan>, n: nat)
    requires
        !slotted(model, plan),
        arena_span(model, n) <= usize::MAX,
    ensures
        ({
            let all = intermediates(model, plan, n);
            let last = all[all.len() - 1];
            &&& all.len() == 0 ==> arena_span(model, n) == 0
            &&& all.len() > 0 ==> 0 <= arena_span(model, n) - (last.offset + last.len) < 16
            &&& all.len() > 0 ==> all[0].offset == 0
            &&& forall|m: int|
                0 <= m && m + 1 < all.len() ==> 0 <= all[m + 1].offset - ((#[trigger] all[m]).offset
                    + all[m].len) < 16
        }),
    decreases n,
{
    if n > 0 {
        let before = intermediates(model, plan, (n - 1) as nat);
        let all = intermediates(model, plan, n);
        lemma_arena_span_grows(model, (n - 1) as nat, n);
        lemma_len_of(model, n - 1);
        lemma_packed(model, plan, (n - 1) as nat);
        if storage_of(model, n - 1) is Tensor {
            lemma_arena_span_grows(model, 0, (n - 1) as nat);
            assert forall|m: int| 0 <= m && m + 1 < all.len() implies 0 <= all[m + 1].offset - ((
            #[trigger] all[m]).offset + all[m].len) < 16 by {
                assert(all[m] == before[m]);
                if m + 1 < before.len() {
                    assert(all[m + 1] == before[m + 1]);
                }
            }
            if before.len() > 0 {
                assert(all[0] == before[0]);
            }
        }
    }
}

/// Without a plan the arena has no gaps but those that alignment makes: it starts
/// with the first intermediate tensor, each is followed by the next, and nothing
/// is behind the last.
pub proof fn law_sequential_arena_has_no_gaps(
    program: ModelEmission,
    model: ParsedModel,
    plan: Option<ArenaPlan>,
    m: int,
)
    requires
        is_program(program, model, plan),
        !slotted(model, plan),
    ensures
        program.tensors@.len() == 0 ==> program.arena_len == 0,
        program.tensors@.len() > 0 ==> program.tensors@[0].offset == 0,
        0 <= m && m + 1 < program.tensors@.len() ==> program.tensors@[m + 1].offset < 16
            + program.tensors@[m].offset + program.tensors@[m].len,
        m + 1 == program.tensors@.len() && m >= 0 ==> program.arena_len < 16
            + program.tensors@[m].offset + program.tensors@[m].len,
{
    lemma_packed(model, plan, model.tensors@.len());
    if 0 <= m < program.tensors@.len() {
        assert(program.tensors@[m] == intermediates(model, plan, model.tensors@.len())[m]);
    }
}

/// Every tensor with memory of its own is among the intermediate tensors of the
/// program.
pub proof fn law_programs_list_all_intermediates(
    program: ModelEmission,
    model: ParsedModel,
    plan: Option<ArenaPlan>,
    t: u32,
)
    requires
        is_program(program, model, plan),
        t < model.tensors@.len(),
        !model.inputs@.contains(t),
        !model.outputs@.contains(t),
        !model.is_constant(t as int),
    ensures
        exists|m: int|
            0 <= m < program.tensors@.len() && (#[trigger] program.tensors@[m]).index == t,
{
    law_tensors_lie_where_the_graph_says(model, t);
    let m = lemma_intermediate_is_listed(model, plan, model.tensors@.len(), t as int);
    assert(program.tensors@[m].index == t);
}

/// The input array holds all model inputs and the output array all outputs: each
/// tensor adds its elements.
pub proof fn law_arrays_hold_all_listed_tensors(model: ParsedModel, list: Seq<u32>, t: u32)
    requires
        t < model.tensors@.len(),
        crate::shape::all_positive(model.tensors@[t as int].shape@),
    ensures
        span(model, Seq::empty()) == 0,
        span(model, list.push(t)) == span(model, list) + crate::shape::product_of(
            model.tensors@[t as int].shape@,
        ),
{
    assert(list.push(t).drop_last() =~= list);
}

} // verus!
