//! Why no code is emitted for a model.

use crate::model::{ParsedModel, TensorType};
use crate::text::{to_decimal, to_signed_decimal};
use vstd::prelude::*;
use vstd::string::*;

verus! {

/// An operator, as messages name it.
#[derive(Clone, Copy, Debug, PartialEq, Eq, Structural)]
pub enum OperatorName {
    Conv2D,
    Depthwise,
    FullyConnected,
    Pool,
    Softmax,
    Activation,
    LeakyRelu,
    Prelu,
    Elementwise,
    Mean,
    Reshape,
    Pad,
    Transpose,
    Resize,
}

impl OperatorName {
    /// The name in messages.
    pub open spec fn spec_text(self) -> Seq<char> {
        match self {
            OperatorName::Conv2D => "conv2d"@,
            OperatorName::Depthwise => "depthwise"@,
            OperatorName::FullyConnected => "fully_connected"@,
            OperatorName::Pool => "pool"@,
            OperatorName::Softmax => "softmax"@,
            OperatorName::Activation => "activation"@,
            OperatorName::LeakyRelu => "leaky_relu"@,
            OperatorName::Prelu => "prelu"@,
            OperatorName::Elementwise => "elementwise"@,
            OperatorName::Mean => "mean"@,
            OperatorName::Reshape => "reshape"@,
            OperatorName::Pad => "pad"@,
            OperatorName::Transpose => "transpose"@,
            OperatorName::Resize => "resize"@,
        }
    }

    /// The name in messages.
    pub fn text(self) -> (r: &'static str)
        ensures
            r@ == self.spec_text(),
    {
        match self {
            OperatorName::Conv2D => "conv2d",
            OperatorName::Depthwise => "depthwise",
            OperatorName::FullyConnected => "fully_connected",
            OperatorName::Pool => "pool",
            OperatorName::Softmax => "softmax",
            OperatorName::Activation => "activation",
            OperatorName::LeakyRelu => "leaky_relu",
            OperatorName::Prelu => "prelu",
            OperatorName::Elementwise => "elementwise",
            OperatorName::Mean => "mean",
            OperatorName::Reshape => "reshape",
            OperatorName::Pad => "pad",
            OperatorName::Transpose => "transpose",
            OperatorName::Resize => "resize",
        }
    }
}

/// An operand, as messages name it.
#[derive(Clone, Copy, Debug, PartialEq, Eq, Structural)]
pub enum OperandName {
    Input,
    Input1,
    Input2,
    Weights,
    Alpha,
    Padding,
    Permutation,
    Output,
}

impl OperandName {
    /// The name in messages.
    pub open spec fn spec_text(self) -> Seq<char> {
        match self {
            OperandName::Input => "input"@,
            OperandName::Input1 => "input1"@,
            OperandName::Input2 => "input2"@,
            OperandName::Weights => "weights"@,
            OperandName::Alpha => "alpha"@,
            OperandName::Padding => "padding"@,
            OperandName::Permutation => "perm"@,
            OperandName::Output => "output"@,
        }
    }

    /// The name in messages.
    pub fn text(self) -> (r: &'static str)
        ensures
            r@ == self.spec_text(),
    {
        match self {
            OperandName::Input => "input",
            OperandName::Input1 => "input1",
            OperandName::Input2 => "input2",
            OperandName::Weights => "weights",
            OperandName::Alpha => "alpha",
            OperandName::Padding => "padding",
            OperandName::Permutation => "perm",
            OperandName::Output => "output",
        }
    }
}

/// The options of an operator, as messages name them.
#[derive(Clone, Copy, Debug, PartialEq, Eq, Structural)]
pub enum OptionsName {
    Conv2D,
    DepthwiseConv2D,
    FullyConnected,
    Pool2D,
    LeakyRelu,
    Mean,
    ResizeNearest,
}

impl OptionsName {
    /// The name in messages.
    pub open spec fn spec_text(self) -> Seq<char> {
        match self {
            OptionsName::Conv2D => "Conv2D"@,
            OptionsName::DepthwiseConv2D => "DepthwiseConv2D"@,
            OptionsName::FullyConnected => "FullyConnected"@,
            OptionsName::Pool2D => "Pool2D"@,
            OptionsName::LeakyRelu => "LeakyRelu"@,
            OptionsName::Mean => "Mean"@,
            OptionsName::ResizeNearest => "ResizeNearest"@,
        }
    }

    /// The name in messages.
    pub fn text(self) -> (r: &'static str)
        ensures
            r@ == self.spec_text(),
    {
        match self {
            OptionsName::Conv2D => "Conv2D",
            OptionsName::DepthwiseConv2D => "DepthwiseConv2D",
            OptionsName::FullyConnected => "FullyConnected",
            OptionsName::Pool2D => "Pool2D",
            OptionsName::LeakyRelu => "LeakyRelu",
            OptionsName::Mean => "Mean",
            OptionsName::ResizeNearest => "ResizeNearest",
        }
    }
}

/// Why no code is emitted for a model. Tensors are named by their index.
#[derive(Clone, Copy, Debug, PartialEq, Eq, Structural)]
pub enum EmitError {
    /// The model has not exactly one subgraph.
    Subgraphs { count: usize },
    /// The model has no tensors.
    NoTensors,
    /// The model has no inputs.
    NoInputs,
    /// The model has no outputs.
    NoOutputs,
    /// No tensor has this index.
    IndexOutOfRange { tensor: u32 },
    /// A model input or output is not int8.
    NotInt8 { tensor: u32 },
    /// A dimension is unknown or empty.
    Dimension { dim: i32 },
    /// A dimension of an operand is unknown or empty.
    ShapeDimension { dim: i32 },
    /// An operand has more than four dimensions.
    Rank { rank: usize },
    /// The scale of a tensor is not positive and finite.
    InvalidScale { tensor: u32 },
    /// A tensor is not quantized.
    NoQuantization { tensor: u32 },
    /// The weights are not quantized.
    NoChannelQuantization,
    /// The weights have scales for another number of channels.
    ChannelCount { scales: usize, channels: usize },
    /// A padding code has no meaning.
    UnknownPadding { value: i8 },
    /// No weight tensor has this index.
    WeightIndex { tensor: u32 },
    /// A weight tensor holds no constant data.
    WeightData { tensor: u32 },
    /// A weight tensor holds more or fewer bytes than elements.
    WeightLength { tensor: u32, bytes: usize, size: usize },
    /// No bias tensor has this index.
    BiasIndex { tensor: u32 },
    /// A bias tensor does not hold one word per channel.
    BiasLength { tensor: u32, bytes: usize, expected: u64 },
    /// A constant is read where only a computed tensor can be.
    ConstantSource { tensor: u32 },
    /// A model output is read.
    OutputSource { tensor: u32 },
    /// A model input or a constant is written.
    Target { tensor: u32 },
    /// No kernel runs this operator.
    Unsupported { code: i32 },
    /// The options of an operator are absent or of another operator.
    Options { op: usize, options: OptionsName },
    /// The options of a softmax do not say one.
    SoftmaxOptions { op: usize },
    /// The options of a PReLU are of another operator.
    PreluOptions { op: usize },
    /// The options of an elementwise operator are of another operator.
    ElementwiseOptions { op: usize },
    /// An operand is not listed.
    Missing { operator: OperatorName, operand: OperandName },
    /// An activation changes the number of elements.
    ActivationCount { op: usize },
    /// The operands of an elementwise operator differ in size.
    ElementwiseCount { op: usize },
    /// The input of a dense layer has no dimensions.
    EmptyShape,
    /// The batches of a dense layer do not share its output evenly.
    BatchSize { batches: i64, length: i64 },
    /// A mean is over no axis or over more than four.
    AxisCount { op: usize, count: usize },
    /// An axis does not fit.
    Axis { op: usize, axis: i32 },
    /// A reshape is to more than four dimensions.
    ReshapeRank { op: usize, rank: usize },
    /// A reshape is to an unknown or empty dimension.
    ReshapeDimension { op: usize, dim: i32 },
    /// The input of a pad has no dimension or more than four.
    PadRank { op: usize, rank: usize },
    /// The amounts of a pad are not constant.
    PadData { op: usize, tensor: u32 },
    /// A pad does not have two amounts per dimension.
    PadLength { op: usize, tensor: u32, bytes: usize, expected: u64 },
    /// The input of a transpose has no dimension or more than four.
    TransposeRank { op: usize, rank: usize },
    /// The permutation of a transpose is not constant.
    PermutationData { op: usize, tensor: u32 },
    /// A permutation does not have one entry per dimension.
    PermutationLength { op: usize, tensor: u32, bytes: usize, expected: u64 },
    /// An entry of a permutation names no dimension.
    PermutationEntry { op: usize, entry: i32, rank: usize },
}

/// The name of a tensor; empty where there is none.
pub open spec fn name_of(model: ParsedModel, t: u32) -> Seq<char> {
    match model.tensor(t as int) {
        Some(tensor) => tensor.name@,
        None => ""@,
    }
}

/// The name of an element type.
pub open spec fn type_text(t: TensorType) -> Seq<char> {
    match t {
        TensorType::Float32 => "Float32"@,
        TensorType::Float16 => "Float16"@,
        TensorType::Int32 => "Int32"@,
        TensorType::Uint8 => "Uint8"@,
        TensorType::Int64 => "Int64"@,
        TensorType::String => "String"@,
        TensorType::Bool => "Bool"@,
        TensorType::Int16 => "Int16"@,
        TensorType::Complex64 => "Complex64"@,
        TensorType::Int8 => "Int8"@,
        TensorType::Float64 => "Float64"@,
        TensorType::Complex128 => "Complex128"@,
        TensorType::Uint64 => "Uint64"@,
        TensorType::Resource => "Resource"@,
        TensorType::Variant => "Variant"@,
        TensorType::Uint32 => "Uint32"@,
        TensorType::Uint16 => "Uint16"@,
        TensorType::Int4 => "Int4"@,
        TensorType::Unknown => "Unknown"@,
    }
}

/// The element type of a tensor; empty where there is none.
pub open spec fn type_of(model: ParsedModel, t: u32) -> Seq<char> {
    match model.tensor(t as int) {
        Some(tensor) => type_text(tensor.tensor_type),
        None => ""@,
    }
}

fn tensor_name<'a>(model: &'a ParsedModel, t: u32) -> (r: &'a str)
    ensures
        r@ == name_of(*model, t),
{
    match model.tensor_by_index(t as usize) {
        Some(tensor) => tensor.name.as_str(),
        None => "",
    }
}

/// The name of an element type.
pub fn element_type_text(t: TensorType) -> (r: &'static str)
    ensures
        r@ == type_text(t),
{
    match t {
        TensorType::Float32 => "Float32",
        TensorType::Float16 => "Float16",
        TensorType::Int32 => "Int32",
        TensorType::Uint8 => "Uint8",
        TensorType::Int64 => "Int64",
        TensorType::String => "String",
        TensorType::Bool => "Bool",
        TensorType::Int16 => "Int16",
        TensorType::Complex64 => "Complex64",
        TensorType::Int8 => "Int8",
        TensorType::Float64 => "Float64",
        TensorType::Complex128 => "Complex128",
        TensorType::Uint64 => "Uint64",
        TensorType::Resource => "Resource",
        TensorType::Variant => "Variant",
        TensorType::Uint32 => "Uint32",
        TensorType::Uint16 => "Uint16",
        TensorType::Int4 => "Int4",
        TensorType::Unknown => "Unknown",
    }
}

fn tensor_type_name(model: &ParsedModel, t: u32) -> (r: &'static str)
    ensures
        r@ == type_of(*model, t),
{
    match model.tensor_by_index(t as usize) {
        Some(tensor) => element_type_text(tensor.tensor_type),
        None => "",
    }
}

impl EmitError {
    /// The error in words.
    pub open spec fn spec_message(self, model: ParsedModel) -> Seq<char> {
        match self {
            EmitError::Subgraphs { count } => "model has "@ + crate::text::decimal(count as nat) + " subgraphs; only single-subgraph models are supported"@,
            EmitError::NoTensors => "model subgraph[0] has no tensors"@,
            EmitError::NoInputs => "model subgraph[0] has no input tensors"@,
            EmitError::NoOutputs => "model subgraph[0] has no output tensors"@,
            EmitError::IndexOutOfRange { tensor } => "tensor index "@ + crate::text::decimal(tensor as nat) + " out of range"@,
            EmitError::NotInt8 { tensor } => "model I/O tensor '"@ + name_of(model, tensor) + "' is "@ + type_of(model, tensor) + ", not INT8 (T4.1 typed I/O bridge requires int8)"@,
            EmitError::Dimension { dim } => "dynamic or non-positive shape dimension "@ + crate::text::signed_decimal(dim as int) + " is not supported (T4.1 static shapes)"@,
            EmitError::ShapeDimension { dim } => "dynamic or non-positive shape dimension "@ + crate::text::signed_decimal(dim as int) + " is not supported"@,
            EmitError::Rank { rank } => "tensor rank "@ + crate::text::decimal(rank as nat) + " exceeds the T4.1 static-shape limit of 4"@,
            EmitError::InvalidScale { tensor } => "tensor "@ + name_of(model, tensor) + " has invalid scale"@,
            EmitError::NoQuantization { tensor } => "tensor "@ + name_of(model, tensor) + " has no quantization"@,
            EmitError::NoChannelQuantization => "tensor has no quantization"@,
            EmitError::ChannelCount { scales, channels } => "per-channel scales length "@ + crate::text::decimal(scales as nat) + " != expected output channels "@ + crate::text::decimal(channels as nat),
            EmitError::UnknownPadding { value } => "unknown padding value "@ + crate::text::signed_decimal(value as int) + " (expected 0=SAME, 1=VALID)"@,
            EmitError::WeightIndex { tensor } => "weight tensor index "@ + crate::text::decimal(tensor as nat) + " out of range"@,
            EmitError::WeightData { tensor } => "weight tensor '"@ + name_of(model, tensor) + "' has no buffer data; constant weights are required in T4.1"@,
            EmitError::WeightLength { tensor, bytes, size } => "weight tensor '"@ + name_of(model, tensor) + "' buffer length "@ + crate::text::decimal(bytes as nat) + " != shape size "@ + crate::text::decimal(size as nat),
            EmitError::BiasIndex { tensor } => "bias tensor index "@ + crate::text::decimal(tensor as nat) + " out of range"@,
            EmitError::BiasLength { tensor, bytes, expected } => "bias tensor '"@ + name_of(model, tensor) + "' buffer length "@ + crate::text::decimal(bytes as nat) + " != expected "@ + crate::text::decimal(expected as nat),
            EmitError::ConstantSource { tensor } => "tensor "@ + crate::text::decimal(tensor as nat) + " is a constant (buffer-backed) but is used as a runtime op input; constant data inputs are not supported in T4.1 (deferred to T4.2a fusion)"@,
            EmitError::OutputSource { tensor } => "tensor "@ + crate::text::decimal(tensor as nat) + " is a model output used as an op input"@,
            EmitError::Target { tensor } => "tensor "@ + crate::text::decimal(tensor as nat) + " cannot be an op output (model input or const)"@,
            EmitError::Unsupported { code } => "unsupported operator (builtin_code="@ + crate::text::signed_decimal(code as int) + ") in subgraph[0]; T4.1 dispatches only the in-scope op set (conv2d, depthwise_conv2d, fully_connected, average_pool_2d, max_pool_2d, softmax, relu, relu6, hard_swish, leaky_relu, prelu, add, sub, mul, mean, reshape, resize_nearest); this opcode is gated behind the T5 feature wave (see local-notes/plans/hematite-nn.md, T5: extended op support)"@,
            EmitError::Options { op, options } => "op "@ + crate::text::decimal(op as nat) + ": expected "@ + options.spec_text() + " options"@,
            EmitError::SoftmaxOptions { op } => "op "@ + crate::text::decimal(op as nat) + ": softmax beta != 1.0 is not supported (T4.1 dispatch scope)"@,
            EmitError::PreluOptions { op } => "op "@ + crate::text::decimal(op as nat) + ": unexpected options for prelu"@,
            EmitError::ElementwiseOptions { op } => "op "@ + crate::text::decimal(op as nat) + ": unexpected elementwise options"@,
            EmitError::Missing { operator, operand } => operator.spec_text() + " missing "@ + operand.spec_text() + " tensor"@,
            EmitError::ActivationCount { op } => "op "@ + crate::text::decimal(op as nat) + ": activation input/output element counts differ"@,
            EmitError::ElementwiseCount { op } => "op "@ + crate::text::decimal(op as nat) + ": elementwise input1/input2/output element counts must match"@,
            EmitError::EmptyShape => "empty input shape"@,
            EmitError::BatchSize { batches, length } => "fully_connected batch size "@ + crate::text::signed_decimal(batches as int) + " does not divide output length "@ + crate::text::signed_decimal(length as int),
            EmitError::AxisCount { op, count } => "op "@ + crate::text::decimal(op as nat) + ": mean axis count "@ + crate::text::decimal(count as nat) + " out of range (1..=4)"@,
            EmitError::Axis { op, axis } => "op "@ + crate::text::decimal(op as nat) + ": mean axis "@ + crate::text::signed_decimal(axis as int) + " out of i16 range"@,
            EmitError::ReshapeRank { op, rank } => "op "@ + crate::text::decimal(op as nat) + ": reshape target rank "@ + crate::text::decimal(rank as nat) + " exceeds 4"@,
            EmitError::ReshapeDimension { op, dim } => "op "@ + crate::text::decimal(op as nat) + ": reshape dim "@ + crate::text::signed_decimal(dim as int) + " is not supported (static shapes only)"@,
            EmitError::PadRank { op, rank } => "op "@ + crate::text::decimal(op as nat) + ": pad input rank "@ + crate::text::decimal(rank as nat) + " outside the static-shape range 1..=4"@,
            EmitError::PadData { op, tensor } => "op "@ + crate::text::decimal(op as nat) + ": padding tensor '"@ + name_of(model, tensor) + "' has no const buffer"@,
            EmitError::PadLength { op, tensor, bytes, expected } => "op "@ + crate::text::decimal(op as nat) + ": padding tensor '"@ + name_of(model, tensor) + "' buffer length "@ + crate::text::decimal(bytes as nat) + " != rank*2*4 = "@ + crate::text::decimal(expected as nat),
            EmitError::TransposeRank { op, rank } => "op "@ + crate::text::decimal(op as nat) + ": transpose input rank "@ + crate::text::decimal(rank as nat) + " outside the static-shape range 1..=4"@,
            EmitError::PermutationData { op, tensor } => "op "@ + crate::text::decimal(op as nat) + ": perm tensor '"@ + name_of(model, tensor) + "' has no const buffer"@,
            EmitError::PermutationLength { op, tensor, bytes, expected } => "op "@ + crate::text::decimal(op as nat) + ": perm tensor '"@ + name_of(model, tensor) + "' buffer length "@ + crate::text::decimal(bytes as nat) + " != rank*4 = "@ + crate::text::decimal(expected as nat),
            EmitError::PermutationEntry { op, entry, rank } => "op "@ + crate::text::decimal(op as nat) + ": transpose perm entry "@ + crate::text::signed_decimal(entry as int) + " out of range for rank "@ + crate::text::decimal(rank as nat),
        }
    }

    /// The error in words. What the options or the scale were is left to the
    /// caller, who has the model.
    pub fn message(self, model: &ParsedModel) -> (r: String)
        ensures
            r@ == self.spec_message(*model),
    {
        match self {
            EmitError::Subgraphs { count } => {
                let mut r = "model has ".to_owned();
                r.append(to_decimal(count as u64).as_str());
                r.append(" subgraphs; only single-subgraph models are supported");
                r
            },
            EmitError::NoTensors => "model subgraph[0] has no tensors".to_owned(),
            EmitError::NoInputs => "model subgraph[0] has no input tensors".to_owned(),
            EmitError::NoOutputs => "model subgraph[0] has no output tensors".to_owned(),
            EmitError::IndexOutOfRange { tensor } => {
                let mut r = "tensor index ".to_owned();
                r.append(to_decimal(tensor as u64).as_str());
                r.append(" out of range");
                r
            },
            EmitError::NotInt8 { tensor } => {
                let mut r = "model I/O tensor '".to_owned();
                r.append(tensor_name(model, tensor));
                r.append("' is ");
                r.append(tensor_type_name(model, tensor));
                r.append(", not INT8 (T4.1 typed I/O bridge requires int8)");
                r
            },
            EmitError::Dimension { dim } => {
                let mut r = "dynamic or non-positive shape dimension ".to_owned();
                r.append(to_signed_decimal(dim as i64).as_str());
                r.append(" is not supported (T4.1 static shapes)");
                r
            },
            EmitError::ShapeDimension { dim } => {
                let mut r = "dynamic or non-positive shape dimension ".to_owned();
                r.append(to_signed_decimal(dim as i64).as_str());
                r.append(" is not supported");
                r
            },
            EmitError::Rank { rank } => {
                let mut r = "tensor rank ".to_owned();
                r.append(to_decimal(rank as u64).as_str());
                r.append(" exceeds the T4.1 static-shape limit of 4");
                r
            },
            EmitError::InvalidScale { tensor } => {
                let mut r = "tensor ".to_owned();
                r.append(tensor_name(model, tensor));
                r.append(" has invalid scale");
                r
            },
            EmitError::NoQuantization { tensor } => {
                let mut r = "tensor ".to_owned();
                r.append(tensor_name(model, tensor));
                r.append(" has no quantization");
                r
            },
            EmitError::NoChannelQuantization => "tensor has no quantization".to_owned(),
            EmitError::ChannelCount { scales, channels } => {
                let mut r = "per-channel scales length ".to_owned();
                r.append(to_decimal(scales as u64).as_str());
                r.append(" != expected output channels ");
                r.append(to_decimal(channels as u64).as_str());
                r
            },
            EmitError::UnknownPadding { value } => {
                let mut r = "unknown padding value ".to_owned();
                r.append(to_signed_decimal(value as i64).as_str());
                r.append(" (expected 0=SAME, 1=VALID)");
                r
            },
            EmitError::WeightIndex { tensor } => {
                let mut r = "weight tensor index ".to_owned();
                r.append(to_decimal(tensor as u64).as_str());
                r.append(" out of range");
                r
            },
            EmitError::WeightData { tensor } => {
                let mut r = "weight tensor '".to_owned();
                r.append(tensor_name(model, tensor));
                r.append("' has no buffer data; constant weights are required in T4.1");
                r
            },
            EmitError::WeightLength { tensor, bytes, size } => {
                let mut r = "weight tensor '".to_owned();
                r.append(tensor_name(model, tensor));
                r.append("' buffer length ");
                r.append(to_decimal(bytes as u64).as_str());
                r.append(" != shape size ");
                r.append(to_decimal(size as u64).as_str());
                r
            },
            EmitError::BiasIndex { tensor } => {
                let mut r = "bias tensor index ".to_owned();
                r.append(to_decimal(tensor as u64).as_str());
                r.append(" out of range");
                r
            },
            EmitError::BiasLength { tensor, bytes, expected } => {
                let mut r = "bias tensor '".to_owned();
                r.append(tensor_name(model, tensor));
                r.append("' buffer length ");
                r.append(to_decimal(bytes as u64).as_str());
                r.append(" != expected ");
                r.append(to_decimal(expected as u64).as_str());
                r
            },
            EmitError::ConstantSource { tensor } => {
                let mut r = "tensor ".to_owned();
                r.append(to_decimal(tensor as u64).as_str());
                r.append(" is a constant (buffer-backed) but is used as a runtime op input; constant data inputs are not supported in T4.1 (deferred to T4.2a fusion)");
                r
            },
            EmitError::OutputSource { tensor } => {
                let mut r = "tensor ".to_owned();
                r.append(to_decimal(tensor as u64).as_str());
                r.append(" is a model output used as an op input");
                r
            },
            EmitError::Target { tensor } => {
                let mut r = "tensor ".to_owned();
                r.append(to_decimal(tensor as u64).as_str());
                r.append(" cannot be an op output (model input or const)");
                r
            },
            EmitError::Unsupported { code } => {
                let mut r = "unsupported operator (builtin_code=".to_owned();
                r.append(to_signed_decimal(code as i64).as_str());
                r.append(") in subgraph[0]; T4.1 dispatches only the in-scope op set (conv2d, depthwise_conv2d, fully_connected, average_pool_2d, max_pool_2d, softmax, relu, relu6, hard_swish, leaky_relu, prelu, add, sub, mul, mean, reshape, resize_nearest); this opcode is gated behind the T5 feature wave (see local-notes/plans/hematite-nn.md, T5: extended op support)");
                r
            },
            EmitError::Options { op, options } => {
                let mut r = "op ".to_owned();
                r.append(to_decimal(op as u64).as_str());
                r.append(": expected ");
                r.append(options.text());
                r.append(" options");
                r
            },
            EmitError::SoftmaxOptions { op } => {
                let mut r = "op ".to_owned();
                r.append(to_decimal(op as u64).as_str());
                r.append(": softmax beta != 1.0 is not supported (T4.1 dispatch scope)");
                r
            },
            EmitError::PreluOptions { op } => {
                let mut r = "op ".to_owned();
                r.append(to_decimal(op as u64).as_str());
                r.append(": unexpected options for prelu");
                r
            },
            EmitError::ElementwiseOptions { op } => {
                let mut r = "op ".to_owned();
                r.append(to_decimal(op as u64).as_str());
                r.append(": unexpected elementwise options");
                r
            },
            EmitError::Missing { operator, operand } => {
                let mut r = operator.text().to_owned();
                r.append(" missing ");
                r.append(operand.text());
                r.append(" tensor");
                r
            },
            EmitError::ActivationCount { op } => {
                let mut r = "op ".to_owned();
                r.append(to_decimal(op as u64).as_str());
                r.append(": activation input/output element counts differ");
                r
            },
            EmitError::ElementwiseCount { op } => {
                let mut r = "op ".to_owned();
                r.append(to_decimal(op as u64).as_str());
                r.append(": elementwise input1/input2/output element counts must match");
                r
            },
            EmitError::EmptyShape => "empty input shape".to_owned(),
            EmitError::BatchSize { batches, length } => {
                let mut r = "fully_connected batch size ".to_owned();
                r.append(to_signed_decimal(batches as i64).as_str());
                r.append(" does not divide output length ");
                r.append(to_signed_decimal(length as i64).as_str());
                r
            },
            EmitError::AxisCount { op, count } => {
                let mut r = "op ".to_owned();
                r.append(to_decimal(op as u64).as_str());
                r.append(": mean axis count ");
                r.append(to_decimal(count as u64).as_str());
                r.append(" out of range (1..=4)");
                r
            },
            EmitError::Axis { op, axis } => {
                let mut r = "op ".to_owned();
                r.append(to_decimal(op as u64).as_str());
                r.append(": mean axis ");
                r.append(to_signed_decimal(axis as i64).as_str());
                r.append(" out of i16 range");
                r
            },
            EmitError::ReshapeRank { op, rank } => {
                let mut r = "op ".to_owned();
                r.append(to_decimal(op as u64).as_str());
                r.append(": reshape target rank ");
                r.append(to_decimal(rank as u64).as_str());
                r.append(" exceeds 4");
                r
            },
            EmitError::ReshapeDimension { op, dim } => {
                let mut r = "op ".to_owned();
                r.append(to_decimal(op as u64).as_str());
                r.append(": reshape dim ");
                r.append(to_signed_decimal(dim as i64).as_str());
                r.append(" is not supported (static shapes only)");
                r
            },
            EmitError::PadRank { op, rank } => {
                let mut r = "op ".to_owned();
                r.append(to_decimal(op as u64).as_str());
                r.append(": pad input rank ");
                r.append(to_decimal(rank as u64).as_str());
                r.append(" outside the static-shape range 1..=4");
                r
            },
            EmitError::PadData { op, tensor } => {
                let mut r = "op ".to_owned();
                r.append(to_decimal(op as u64).as_str());
                r.append(": padding tensor '");
                r.append(tensor_name(model, tensor));
                r.append("' has no const buffer");
                r
            },
            EmitError::PadLength { op, tensor, bytes, expected } => {
                let mut r = "op ".to_owned();
                r.append(to_decimal(op as u64).as_str());
                r.append(": padding tensor '");
                r.append(tensor_name(model, tensor));
                r.append("' buffer length ");
                r.append(to_decimal(bytes as u64).as_str());
                r.append(" != rank*2*4 = ");
                r.append(to_decimal(expected as u64).as_str());
                r
            },
            EmitError::TransposeRank { op, rank } => {
                let mut r = "op ".to_owned();
                r.append(to_decimal(op as u64).as_str());
                r.append(": transpose input rank ");
                r.append(to_decimal(rank as u64).as_str());
                r.append(" outside the static-shape range 1..=4");
                r
            },
            EmitError::PermutationData { op, tensor } => {
                let mut r = "op ".to_owned();
                r.append(to_decimal(op as u64).as_str());
                r.append(": perm tensor '");
                r.append(tensor_name(model, tensor));
                r.append("' has no const buffer");
                r
            },
            EmitError::PermutationLength { op, tensor, bytes, expected } => {
                let mut r = "op ".to_owned();
                r.append(to_decimal(op as u64).as_str());
                r.append(": perm tensor '");
                r.append(tensor_name(model, tensor));
                r.append("' buffer length ");
                r.append(to_decimal(bytes as u64).as_str());
                r.append(" != rank*4 = ");
                r.append(to_decimal(expected as u64).as_str());
                r
            },
            EmitError::PermutationEntry { op, entry, rank } => {
                let mut r = "op ".to_owned();
                r.append(to_decimal(op as u64).as_str());
                r.append(": transpose perm entry ");
                r.append(to_signed_decimal(entry as i64).as_str());
                r.append(" out of range for rank ");
                r.append(to_decimal(rank as u64).as_str());
                r
            },
        }
    }
}

} // verus!
