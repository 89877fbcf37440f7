//! What holds where a model is refused: what the error says is so.
//!
//! An error names an operand, a tensor, a number or an option of the operator
//! that has no call. The laws below tie each of these to the graph.

use crate::emit_error::{EmitError, OperandName, OperatorName, OptionsName};
use crate::generate;
use crate::model::{ParsedModel, ParsedOp, ParsedOptions, ParsedTensor, NO_TENSOR};
use crate::operands;
use crate::operands::Storage;
use crate::program;
use vstd::prelude::*;

verus! {

/// Whether a tensor is one of the first two inputs or the first output of an
/// operator.
pub open spec fn touches(op: ParsedOp, t: u32) -> bool {
    ||| op.inputs@.len() > 0 && op.inputs@[0] == t
    ||| op.inputs@.len() > 1 && op.inputs@[1] == t
    ||| op.outputs@.len() > 0 && op.outputs@[0] == t
}

/// The tensor with an index.
pub open spec fn at(model: ParsedModel, t: u32) -> ParsedTensor {
    model.tensors@[t as int]
}

/// The number of constant bytes of a tensor.
pub open spec fn size_of(model: ParsedModel, t: u32) -> nat {
    model.data(at(model, t))->0.len()
}

/// The padding code in the options of an operator.
pub open spec fn padding_code(op: ParsedOp) -> Option<i8> {
    match op.options {
        Some(ParsedOptions::Conv2D { padding, .. }) => Some(padding),
        Some(ParsedOptions::DepthwiseConv2D { padding, .. }) => Some(padding),
        Some(ParsedOptions::Pool2D { padding, .. }) => Some(padding),
        _ => None,
    }
}

/// Whether an operator has options with a name.
pub open spec fn has_options(op: ParsedOp, name: OptionsName) -> bool {
    op.options matches Some(o) && match name {
        OptionsName::Conv2D => o is Conv2D,
        OptionsName::DepthwiseConv2D => o is DepthwiseConv2D,
        OptionsName::FullyConnected => o is FullyConnected,
        OptionsName::Pool2D => o is Pool2D,
        OptionsName::LeakyRelu => o is LeakyRelu,
        OptionsName::Mean => o is Mean,
        OptionsName::ResizeNearest => o is ResizeNearest,
    }
}

/// Whether an operand is missing from an operator.
pub open spec fn lacks(op: ParsedOp, operand: OperandName) -> bool {
    match operand {
        OperandName::Output => op.outputs@.len() == 0,
        OperandName::Input | OperandName::Input1 => op.inputs@.len() == 0,
        _ => op.inputs@.len() == 1,
    }
}

/// Whether what an error says of the operator at `i` is so; `name` is what
/// messages call the operator.
pub open spec fn is_so(
    e: EmitError,
    model: ParsedModel,
    storage: Seq<Storage>,
    i: usize,
    op: ParsedOp,
    name: OperatorName,
) -> bool {
    match e {
        EmitError::Missing { operator, operand } => operator == name && lacks(op, operand),
        EmitError::IndexOutOfRange { tensor } => touches(op, tensor) && (tensor
            >= model.tensors@.len() || tensor >= storage.len()),
        EmitError::Dimension { dim } => dim < 1,
        EmitError::ShapeDimension { dim } => dim < 1,
        EmitError::Rank { rank } => rank > 4,
        EmitError::InvalidScale { tensor } => touches(op, tensor) && (at(model, tensor).quant matches Some(
            q,
        ) && !(0 < q.scale < 0x7f80_0000)),
        EmitError::NoQuantization { tensor } => touches(op, tensor) && at(
            model,
            tensor,
        ).quant is None,
        EmitError::NoChannelQuantization => at(model, op.inputs@[1]).quant is None,
        EmitError::ChannelCount { scales, channels } => scales != 1 && (at(
            model,
            op.inputs@[1],
        ).quant matches Some(q) && (q.per_channel matches Some(pc) && pc.scales@.len() == scales)),
        EmitError::UnknownPadding { value } => padding_code(op) == Some(value) && value != 0
            && value != 1,
        EmitError::WeightIndex { tensor } => tensor == op.inputs@[1] && tensor
            >= model.tensors@.len(),
        EmitError::WeightData { tensor } => tensor == op.inputs@[1] && model.data(
            at(model, tensor),
        ) is None,
        EmitError::WeightLength { tensor, bytes, size } => tensor == op.inputs@[1] && size_of(
            model,
            tensor,
        ) != crate::shape::product_of(at(model, tensor).shape@) && bytes == size_of(
            model,
            tensor,
        ) as usize && size == crate::shape::product_of(at(model, tensor).shape@) as usize,
        EmitError::BiasIndex { tensor } => op.inputs@.len() > 2 && tensor == op.inputs@[2]
            && tensor != NO_TENSOR && tensor >= model.tensors@.len(),
        EmitError::BiasLength { tensor, bytes, expected } => op.inputs@.len() > 2 && tensor
            == op.inputs@[2] && bytes == size_of(model, tensor) as usize,
        EmitError::ConstantSource { tensor } => touches(op, tensor)
            && storage[tensor as int] is Const,
        EmitError::OutputSource { tensor } => touches(op, tensor)
            && storage[tensor as int] is Output,
        EmitError::Target { tensor } => tensor == op.outputs@[0] && (
        storage[tensor as int] is Const || storage[tensor as int] is Input),
        EmitError::Options { op: k, options } => k == i && !has_options(op, options),
        EmitError::SoftmaxOptions { op: k } => k == i && (op.options matches Some(o) && (
        o matches ParsedOptions::Softmax { beta } ==> !crate::accuracy::is_one_to_a_millionth(
            beta,
        ))),
        EmitError::PreluOptions { op: k } => k == i && (op.options matches Some(o)
            && o !is Prelu),
        EmitError::ElementwiseOptions { op: k } => k == i && (op.options matches Some(o)
            && o !is Add && o !is Sub && o !is Mul),
        EmitError::ActivationCount { op: k } => k == i && crate::shape::product_of(
            at(model, op.inputs@[0]).shape@,
        ) != crate::shape::product_of(at(model, op.outputs@[0]).shape@),
        EmitError::ElementwiseCount { op: k } => k == i,
        EmitError::EmptyShape => at(model, op.inputs@[0]).shape@.len() == 0,
        EmitError::BatchSize { batches, length } => true,
        EmitError::AxisCount { op: k, count } => k == i && (op.options matches Some(
            ParsedOptions::Mean { axis, .. },
        ) && count == axis@.len() && (count == 0 || count > 4)),
        EmitError::Axis { op: k, axis: a } => k == i && !(-0x8000 <= a < 0x8000),
        EmitError::ReshapeRank { op: k, rank } => k == i,
        EmitError::ReshapeDimension { op: k, dim } => k == i && dim < 1,
        EmitError::PadRank { op: k, rank } => k == i && {
            let n = at(model, op.inputs@[0]).shape@.len();
            rank == n as usize && (n == 0 || n > 4)
        },
        EmitError::TransposeRank { op: k, rank } => k == i && {
            let n = at(model, op.inputs@[0]).shape@.len();
            rank == n as usize && (n == 0 || n > 4)
        },
        EmitError::PadData { op: k, tensor } => k == i && tensor == op.inputs@[1] && model.data(
            at(model, tensor),
        ) is None,
        EmitError::PermutationData { op: k, tensor } => k == i && tensor == op.inputs@[1]
            && model.data(at(model, tensor)) is None,
        EmitError::PadLength { op: k, tensor, bytes, expected } => k == i && tensor
            == op.inputs@[1] && bytes == size_of(model, tensor) as usize && expected == 8 * at(
            model,
            op.inputs@[0],
        ).shape@.len() && size_of(model, tensor) != expected,
        EmitError::PermutationLength { op: k, tensor, bytes, expected } => k == i && tensor
            == op.inputs@[1] && bytes == size_of(model, tensor) as usize && expected == 4 * at(
            model,
            op.inputs@[0],
        ).shape@.len() && size_of(model, tensor) != expected,
        EmitError::PermutationEntry { op: k, entry, rank } => k == i && rank == at(
            model,
            op.inputs@[0],
        ).shape@.len() && !(0 <= entry < rank),
        EmitError::Unsupported { code } => code == op.builtin_code,
        _ => false,
    }
}

/// What lies outside of bounds is an entry of the list, and all before it lie
/// inside.
pub proof fn law_first_outside_is_the_first(list: Seq<i32>, low: int, high: int)
    ensures
        operands::first_outside(list, low, high) matches Some(d) ==> !(low <= d < high)
            && exists|k: int|
            0 <= k < list.len() && #[trigger] list[k] == d && forall|j: int|
                0 <= j < k ==> low <= #[trigger] list[j] < high,
    decreases list.len(),
{
    if list.len() > 0 {
        let rest = list.drop_last();
        law_first_outside_is_the_first(rest, low, high);
        operands::lemma_none_outside(rest, low, high);
        match operands::first_outside(rest, low, high) {
            Some(d) => {
                let k = choose|k: int|
                    0 <= k < rest.len() && #[trigger] rest[k] == d && forall|j: int|
                        0 <= j < k ==> low <= #[trigger] rest[j] < high;
                assert(list[k] == d);
                assert forall|j: int| 0 <= j < k implies low <= #[trigger] list[j] < high by {
                    assert(low <= rest[j] < high);
                }
            },
            None => {
                assert forall|j: int| 0 <= j < rest.len() implies low <= #[trigger] list[j]
                    < high by {
                    assert(low <= rest[j] < high);
                }
                assert(list[list.len() - 1] == list.last());
            },
        }
    }
}

/// Ranks and numbers of scales are machine words.
proof fn lemma_lengths(model: ParsedModel, t: u32)
    ensures
        at(model, t).shape@.len() <= usize::MAX,
        at(model, t).quant matches Some(q) ==> (q.per_channel matches Some(pc) ==> pc.scales@.len()
            <= usize::MAX),
{
    assert(at(model, t).shape@.len() == at(model, t).shape.len());
    match at(model, t).quant {
        Some(q) => match q.per_channel {
            Some(pc) => {
                assert(pc.scales@.len() == pc.scales.len());
            },
            None => {},
        },
        None => {},
    }
}

/// What is not a dimension of an operand is less than one, and ranks are words.
proof fn lemma_operands(model: ParsedModel, op: ParsedOp)
    ensures
        at(model, op.inputs@[0]).shape@.len() <= usize::MAX,
        at(model, op.inputs@[1]).shape@.len() <= usize::MAX,
        at(model, op.outputs@[0]).shape@.len() <= usize::MAX,
        operands::bad_dimension(at(model, op.inputs@[0]).shape@) matches Some(d) ==> d < 1,
        operands::bad_dimension(at(model, op.inputs@[1]).shape@) matches Some(d) ==> d < 1,
        operands::bad_dimension(at(model, op.outputs@[0]).shape@) matches Some(d) ==> d < 1,
        at(model, op.inputs@[1]).quant matches Some(q) ==> (q.per_channel matches Some(pc)
            ==> pc.scales@.len() <= usize::MAX),
{
    lemma_lengths(model, op.inputs@[0]);
    lemma_lengths(model, op.inputs@[1]);
    lemma_lengths(model, op.outputs@[0]);
    law_first_outside_is_the_first(at(model, op.inputs@[0]).shape@, 1, 0x8000_0000);
    law_first_outside_is_the_first(at(model, op.inputs@[1]).shape@, 1, 0x8000_0000);
    law_first_outside_is_the_first(at(model, op.outputs@[0]).shape@, 1, 0x8000_0000);
}

/// Where a convolution is refused, what the error says is so.
pub proof fn law_refused_convolutions_are_told_why(
    model: ParsedModel,
    storage: Seq<Storage>,
    i: usize,
    op: ParsedOp,
)
    ensures
        generate::conv2d_failure(model, storage, i, op) matches Some(e) ==> is_so(
            e,
            model,
            storage,
            i,
            op,
            OperatorName::Conv2D,
        ),
        generate::depthwise_failure(model, storage, i, op) matches Some(e) ==> is_so(
            e,
            model,
            storage,
            i,
            op,
            OperatorName::Depthwise,
        ),
{
    lemma_operands(model, op);
}

/// Where a dense layer is refused, what the error says is so.
pub proof fn law_refused_dense_layers_are_told_why(
    model: ParsedModel,
    storage: Seq<Storage>,
    i: usize,
    op: ParsedOp,
)
    ensures
        generate::fully_connected_failure(model, storage, i, op) matches Some(e) ==> is_so(
            e,
            model,
            storage,
            i,
            op,
            OperatorName::FullyConnected,
        ),
{
    let input = at(model, op.inputs@[0]).shape@;
    law_first_outside_is_the_first(input.drop_last(), 1, 0x8000_0000);
    law_first_outside_is_the_first(input.skip(1), 1, 0x8000_0000);
    lemma_operands(model, op);
}

/// Where a pool, a softmax, a mean or a resize is refused, what the error says is
/// so.
pub proof fn law_refused_pools_and_means_are_told_why(
    model: ParsedModel,
    storage: Seq<Storage>,
    i: usize,
    op: ParsedOp,
)
    ensures
        generate::pool_failure(model, storage, i, op) matches Some(e) ==> is_so(
            e,
            model,
            storage,
            i,
            op,
            OperatorName::Pool,
        ),
        generate::softmax_failure(model, storage, i, op) matches Some(e) ==> is_so(
            e,
            model,
            storage,
            i,
            op,
            OperatorName::Softmax,
        ),
        generate::mean_failure(model, storage, i, op) matches Some(e) ==> is_so(
            e,
            model,
            storage,
            i,
            op,
            OperatorName::Mean,
        ),
        generate::resize_failure(model, storage, i, op) matches Some(e) ==> is_so(
            e,
            model,
            storage,
            i,
            op,
            OperatorName::Resize,
        ),
{
    lemma_operands(model, op);
    match op.options {
        Some(ParsedOptions::Mean { axis, .. }) => {
            law_first_outside_is_the_first(axis@, -0x8000, 0x8000);
            assert(axis@.len() == axis.len());
        },
        Some(ParsedOptions::Softmax { beta }) => {
            crate::accuracy::law_unit_patterns(beta);
        },
        _ => {},
    }
}

/// Where an activation is refused, what the error says is so.
pub proof fn law_refused_activations_are_told_why(
    model: ParsedModel,
    storage: Seq<Storage>,
    i: usize,
    op: ParsedOp,
)
    ensures
        generate::activation_failure(model, storage, i, op) matches Some(e) ==> is_so(
            e,
            model,
            storage,
            i,
            op,
            OperatorName::Activation,
        ),
        generate::leaky_failure(model, storage, i, op) matches Some(e) ==> is_so(
            e,
            model,
            storage,
            i,
            op,
            OperatorName::LeakyRelu,
        ),
        generate::prelu_failure(model, storage, i, op) matches Some(e) ==> is_so(
            e,
            model,
            storage,
            i,
            op,
            OperatorName::Prelu,
        ),
{
    lemma_operands(model, op);
}

/// Where an elementwise operator is refused, what the error says is so, and a
/// refusal for its counts means that two of them differ or that they are no
/// words.
pub proof fn law_refused_elementwise_operators_are_told_why(
    model: ParsedModel,
    storage: Seq<Storage>,
    i: usize,
    op: ParsedOp,
)
    ensures
        generate::elementwise_failure(model, storage, i, op) matches Some(e) ==> is_so(
            e,
            model,
            storage,
            i,
            op,
            OperatorName::Elementwise,
        ),
        ({
            let a = crate::shape::product_of(at(model, op.inputs@[0]).shape@);
            let b = crate::shape::product_of(at(model, op.inputs@[1]).shape@);
            let c = crate::shape::product_of(at(model, op.outputs@[0]).shape@);
            generate::elementwise_failure(model, storage, i, op) matches Some(e) && e
                is ElementwiseCount && 0 <= a <= i32::MAX ==> a != b || a != c
        }),
{
    lemma_operands(model, op);
}

/// Where a reshape, a pad or a transpose is refused, what the error says is so.
pub proof fn law_refused_moves_are_told_why(
    model: ParsedModel,
    storage: Seq<Storage>,
    i: usize,
    op: ParsedOp,
)
    ensures
        generate::reshape_failure(model, storage, i, op) matches Some(e) ==> is_so(
            e,
            model,
            storage,
            i,
            op,
            OperatorName::Reshape,
        ),
        generate::pad_failure(model, storage, i, op) matches Some(e) ==> is_so(
            e,
            model,
            storage,
            i,
            op,
            OperatorName::Pad,
        ),
        generate::transpose_failure(model, storage, i, op) matches Some(e) ==> is_so(
            e,
            model,
            storage,
            i,
            op,
            OperatorName::Transpose,
        ),
{
    lemma_operands(model, op);
    law_first_outside_is_the_first(generate::reshaped(model, op), 1, 0x8000_0000);
    match model.data(at(model, op.inputs@[1])) {
        Some(bytes) => {
            law_first_outside_is_the_first(
                crate::bytes::words(bytes),
                0,
                at(model, op.inputs@[0]).shape@.len() as int,
            );
        },
        None => {},
    }
}

/// What messages call an operator.
pub open spec fn called(code: i32) -> OperatorName {
    if code == 3 {
        OperatorName::Conv2D
    } else if code == 4 {
        OperatorName::Depthwise
    } else if code == 9 {
        OperatorName::FullyConnected
    } else if code == 1 || code == 17 {
        OperatorName::Pool
    } else if code == 25 {
        OperatorName::Softmax
    } else if code == 19 || code == 21 || code == 117 {
        OperatorName::Activation
    } else if code == 98 {
        OperatorName::LeakyRelu
    } else if code == 54 {
        OperatorName::Prelu
    } else if code == 40 {
        OperatorName::Mean
    } else if code == 22 {
        OperatorName::Reshape
    } else if code == 34 {
        OperatorName::Pad
    } else if code == 39 {
        OperatorName::Transpose
    } else if code == 97 {
        OperatorName::Resize
    } else {
        OperatorName::Elementwise
    }
}

/// Where an operator has no call, what the error says of it is so.
pub proof fn law_refused_operators_are_told_why(
    model: ParsedModel,
    storage: Seq<Storage>,
    i: usize,
    op: ParsedOp,
)
    ensures
        program::op_failure(model, storage, i, op) matches Some(e) ==> is_so(
            e,
            model,
            storage,
            i,
            op,
            called(op.builtin_code),
        ),
{
    reveal(program::op_failure);
    law_refused_convolutions_are_told_why(model, storage, i, op);
    law_refused_dense_layers_are_told_why(model, storage, i, op);
    law_refused_pools_and_means_are_told_why(model, storage, i, op);
    law_refused_activations_are_told_why(model, storage, i, op);
    law_refused_elementwise_operators_are_told_why(model, storage, i, op);
    law_refused_moves_are_told_why(model, storage, i, op);
}

/// Where the inputs or outputs of a model are refused, the error names one of
/// them that does not exist or is not of bytes, or a dimension that is not
/// positive.
pub proof fn law_refused_listings_are_told_why(model: ParsedModel, list: Seq<u32>)
    ensures
        program::io_failure(model, list) matches Some(e) ==> match e {
            EmitError::IndexOutOfRange { tensor } => list.contains(tensor) && tensor
                >= model.tensors@.len(),
            EmitError::NotInt8 { tensor } => list.contains(tensor) && at(
                model,
                tensor,
            ).tensor_type !is Int8,
            EmitError::Dimension { dim } => dim < 1,
            _ => false,
        },
    decreases list.len(),
{
    if list.len() > 0 {
        let rest = list.drop_last();
        law_refused_listings_are_told_why(model, rest);
        law_first_outside_is_the_first(at(model, list.last()).shape@, 1, 0x8000_0000);
        assert(list[list.len() - 1] == list.last());
        assert forall|t: u32| rest.contains(t) implies list.contains(t) by {
            let k = choose|k: int| 0 <= k < rest.len() && rest[k] == t;
            assert(list[k] == t);
        }
    }
}

/// The first failure of a model is told: first of the model itself, then of its
/// inputs and outputs, then of its operators in order.
pub proof fn law_refused_models_are_told_why(model: ParsedModel)
    ensures
        model.subgraph_count != 1 ==> program::model_failure(model) == Some(
            EmitError::Subgraphs { count: model.subgraph_count },
        ),
        model.subgraph_count == 1 && model.tensors@.len() == 0 ==> program::model_failure(model)
            == Some(EmitError::NoTensors),
        model.subgraph_count == 1 && model.tensors@.len() > 0 && model.inputs@.len() == 0
            ==> program::model_failure(model) == Some(EmitError::NoInputs),
        model.subgraph_count == 1 && model.tensors@.len() > 0 && model.inputs@.len() > 0
            && model.outputs@.len() == 0 ==> program::model_failure(model) == Some(
            EmitError::NoOutputs,
        ),
        program::model_failure(model) matches Some(EmitError::Unsupported { code }) ==> exists|
            i: int,
        |
            0 <= i < model.ops@.len() && (#[trigger] model.ops@[i]).builtin_code == code,
{
    if program::model_failure(model) is Some && program::model_failure(model)->0 is Unsupported {
        let code = program::model_failure(model)->0->Unsupported_code;
        law_refused_listings_are_told_why(model, model.inputs@);
        law_refused_listings_are_told_why(model, model.outputs@);
        lemma_sizes_are_not_codes(model, model.tensors@.len());
        lemma_unsupported_operator(model, model.ops@.len(), code);
    }
}

proof fn lemma_sizes_are_not_codes(model: ParsedModel, n: nat)
    ensures
        program::sizes_failure(model, n) matches Some(e) ==> e is Dimension,
    decreases n,
{
    if n > 0 {
        lemma_sizes_are_not_codes(model, (n - 1) as nat);
    }
}

proof fn lemma_unsupported_operator(model: ParsedModel, n: nat, code: i32)
    requires
        n <= model.ops@.len(),
        program::ops_failure(model, n) == Some(EmitError::Unsupported { code }),
    ensures
        exists|i: int| 0 <= i < n && (#[trigger] model.ops@[i]).builtin_code == code,
    decreases n,
{
    if n > 0 {
        if program::ops_failure(model, (n - 1) as nat) is Some {
            lemma_unsupported_operator(model, (n - 1) as nat, code);
        } else {
            let op = model.ops@[n - 1];
            let storage = program::storages(model);
            law_refused_operators_are_told_why(model, storage, (n - 1) as usize, op);
            assert(model.ops@[n - 1].builtin_code == code);
        }
    }
}

} // verus!
