//! The graph of a quantized model: tensors, operators and constant data.
//!
//! A scale is the bit pattern of a binary32 number; see [`crate::ieee`].

use vstd::prelude::*;

verus! {

/// Operator codes of the graph format.
pub const ADD: i32 = 0;

pub const AVERAGE_POOL_2D: i32 = 1;

pub const CONV_2D: i32 = 3;

pub const DEPTHWISE_CONV_2D: i32 = 4;

pub const FULLY_CONNECTED: i32 = 9;

pub const MAX_POOL_2D: i32 = 17;

pub const MUL: i32 = 18;

pub const RELU: i32 = 19;

pub const RELU6: i32 = 21;

pub const RESHAPE: i32 = 22;

pub const SOFTMAX: i32 = 25;

pub const PAD: i32 = 34;

pub const TRANSPOSE: i32 = 39;

pub const MEAN: i32 = 40;

pub const SUB: i32 = 41;

pub const PRELU: i32 = 54;

pub const RESIZE_NEAREST_NEIGHBOR: i32 = 97;

pub const LEAKY_RELU: i32 = 98;

pub const HARD_SWISH: i32 = 117;

/// The tensor index that stands for an absent optional input.
pub const NO_TENSOR: u32 = 0xffff_ffff;

/// Element type of a tensor.
#[derive(Clone, Copy, Debug, PartialEq, Eq, Structural)]
pub enum TensorType {
    Float32,
    Float16,
    Int32,
    Uint8,
    Int64,
    String,
    Bool,
    Int16,
    Complex64,
    Int8,
    Float64,
    Complex128,
    Uint64,
    Resource,
    Variant,
    Uint32,
    Uint16,
    Int4,
    Unknown,
}

/// Scales and zero points along one dimension.
#[derive(Debug)]
pub struct PerChannelQuant {
    pub scales: Vec<u32>,
    pub zero_points: Vec<i64>,
    pub quantized_dimension: i32,
}

/// Quantization of a tensor.
#[derive(Debug)]
pub struct QuantInfo {
    pub scale: u32,
    pub zero_point: i64,
    pub per_channel: Option<PerChannelQuant>,
}

/// One tensor of the graph.
#[derive(Debug)]
pub struct ParsedTensor {
    pub name: String,
    pub shape: Vec<i32>,
    pub tensor_type: TensorType,
    pub quant: Option<QuantInfo>,
    pub buffer_index: u32,
}

/// The typed options of an operator.
#[derive(Debug)]
pub enum ParsedOptions {
    Conv2D {
        padding: i8,
        stride_w: i32,
        stride_h: i32,
        dilation_w: i32,
        dilation_h: i32,
        fused_activation: i8,
    },
    DepthwiseConv2D {
        padding: i8,
        stride_w: i32,
        stride_h: i32,
        depth_multiplier: i32,
        dilation_w: i32,
        dilation_h: i32,
        fused_activation: i8,
    },
    FullyConnected { fused_activation: i8, weights_format: i8, keep_num_dims: bool },
    Pool2D {
        padding: i8,
        stride_w: i32,
        stride_h: i32,
        filter_w: i32,
        filter_h: i32,
        fused_activation: i8,
    },
    /// `beta` is a binary32 pattern.
    Softmax { beta: u32 },
    Add { fused_activation: i8, pot_scale_int16: bool },
    Sub { fused_activation: i8, pot_scale_int16: bool },
    Mul { fused_activation: i8 },
    Reshape { new_shape: Vec<i32> },
    Mean { axis: Vec<i32>, keep_dims: bool },
    /// `alpha` is a binary32 pattern.
    LeakyRelu { alpha: u32 },
    Prelu,
    ResizeNearest { align_corners: bool, half_pixel_centers: bool },
    /// The raw bytes of options without a typed form.
    Custom(Vec<u8>),
}

/// One operator of the graph.
#[derive(Debug)]
pub struct ParsedOp {
    pub opcode_index: u32,
    pub builtin_code: i32,
    pub inputs: Vec<u32>,
    pub outputs: Vec<u32>,
    pub options: Option<ParsedOptions>,
    pub custom_options: Vec<u8>,
}

/// A model: the first subgraph with the constant data of its tensors. Operators
/// are in execution order.
#[derive(Debug)]
pub struct ParsedModel {
    pub subgraph_count: usize,
    pub tensors: Vec<ParsedTensor>,
    pub ops: Vec<ParsedOp>,
    pub inputs: Vec<u32>,
    pub outputs: Vec<u32>,
    pub buffers: Vec<Vec<u8>>,
}

/// The first element of a list, or [`NO_TENSOR`].
pub open spec fn first_or_none(list: Seq<u32>) -> u32 {
    if list.len() > 0 {
        list[0]
    } else {
        NO_TENSOR
    }
}

impl ParsedOp {
    /// The first output of the operator.
    pub open spec fn output(&self) -> u32 {
        first_or_none(self.outputs@)
    }

    /// The first input of the operator.
    pub open spec fn input(&self) -> u32 {
        first_or_none(self.inputs@)
    }

    /// The first output of the operator, or [`NO_TENSOR`].
    pub fn first_output(&self) -> (t: u32)
        ensures
            t == self.output(),
    {
        if self.outputs.len() > 0 {
            self.outputs[0]
        } else {
            NO_TENSOR
        }
    }

    /// The first input of the operator, or [`NO_TENSOR`].
    pub fn first_input(&self) -> (t: u32)
        ensures
            t == self.input(),
    {
        if self.inputs.len() > 0 {
            self.inputs[0]
        } else {
            NO_TENSOR
        }
    }
}

impl ParsedModel {
    /// The tensor at an index, where there is one.
    pub open spec fn tensor(&self, t: int) -> Option<ParsedTensor> {
        if 0 <= t < self.tensors@.len() {
            Some(self.tensors@[t])
        } else {
            None
        }
    }

    /// The constant data of a tensor; an empty buffer holds none.
    pub open spec fn data(&self, tensor: ParsedTensor) -> Option<Seq<u8>> {
        if tensor.buffer_index < self.buffers@.len() && self.buffers@[tensor.buffer_index as int]@.len()
            > 0 {
            Some(self.buffers@[tensor.buffer_index as int]@)
        } else {
            None
        }
    }

    /// Whether a tensor holds constant data.
    pub open spec fn is_constant(&self, t: int) -> bool {
        match self.tensor(t) {
            Some(tensor) => self.data(tensor) is Some,
            None => false,
        }
    }

    /// Whether a tensor is an input of the model.
    pub open spec fn is_model_input(&self, t: u32) -> bool {
        self.inputs@.contains(t)
    }

    /// Whether a tensor is an output of the model.
    pub open spec fn is_model_output(&self, t: u32) -> bool {
        self.outputs@.contains(t)
    }

    /// The tensor at an index, where there is one.
    pub fn tensor_by_index(&self, t: usize) -> (r: Option<&ParsedTensor>)
        ensures
            match r {
                Some(tensor) => self.tensor(t as int) == Some(*tensor),
                None => self.tensor(t as int) is None,
            },
    {
        if t < self.tensors.len() {
            Some(&self.tensors[t])
        } else {
            None
        }
    }

    /// The constant data of a tensor; an empty buffer holds none.
    pub fn buffer_data(&self, tensor: &ParsedTensor) -> (r: Option<&Vec<u8>>)
        ensures
            match r {
                Some(bytes) => self.data(*tensor) == Some(bytes@),
                None => self.data(*tensor) is None,
            },
    {
        let i: usize = tensor.buffer_index as usize;
        if i < self.buffers.len() && self.buffers[i].len() > 0 {
            Some(&self.buffers[i])
        } else {
            None
        }
    }
}

/// Whether a list holds a tensor index.
pub fn contains_index(list: &Vec<u32>, t: u32) -> (r: bool)
    ensures
        r == list@.contains(t),
{
    let mut i: usize = 0;
    while i < list.len()
        invariant
            i <= list@.len(),
            forall|k: int| 0 <= k < i ==> list@[k] != t,
        decreases list@.len() - i,
    {
        if list[i] == t {
            return true;
        }
        i = i + 1;
    }
    false
}

/// A copy of a list of tensor indices.
pub fn copy_indices(list: &Vec<u32>) -> (r: Vec<u32>)
    ensures
        r@ == list@,
{
    let mut r: Vec<u32> = Vec::new();
    let mut i: usize = 0;
    while i < list.len()
        invariant
            i <= list@.len(),
            r@ == list@.take(i as int),
        decreases list@.len() - i,
    {
        r.push(list[i]);
        i = i + 1;
        assert(list@.take(i as int) =~= list@.take(i - 1).push(list@[i - 1]));
    }
    assert(list@.take(list@.len() as int) =~= list@);
    r
}

/// A tensor has constant data exactly where its buffer exists and is not empty,
/// and the data is all of the buffer.
pub proof fn law_data_is_that_of_the_buffer(model: ParsedModel, t: int)
    requires
        0 <= t < model.tensors@.len(),
    ensures
        ({
            let tensor = model.tensors@[t];
            let i = tensor.buffer_index as int;
            let there = i < model.buffers@.len() && model.buffers@[i]@.len() > 0;
            &&& model.tensor(t) == Some(tensor)
            &&& model.data(tensor) is Some <==> there
            &&& there ==> model.data(tensor) == Some(model.buffers@[i]@)
            &&& model.is_constant(t) <==> there
        }),
{
}

} // verus!
