//! What holds of model files, in terms of their bytes.
//!
//! The schema of a model file gives every field of a table a number. What the
//! reader returns is what the file holds under these numbers: the laws below
//! relate results to the bytes that vtables, offsets and lengths lead to.

use crate::calls;
use crate::flatbuffer;
use crate::flatbuffer::ParseError;
use crate::model::{ParsedModel, ParsedOp, ParsedOptions, ParsedTensor, QuantInfo, TensorType};
use vstd::prelude::*;

verus! {

/// Whether `n` bytes lie at a position.
pub open spec fn inside(b: Seq<u8>, at: int, n: int) -> bool {
    0 <= at && at + n <= b.len()
}

/// Whether a number is the unsigned word at a position, the lowest byte first.
pub open spec fn is_unsigned(x: int, b: Seq<u8>, at: int) -> bool {
    0 <= x < 0x1_0000_0000 && calls::is_word(x, b, at)
}

/// Whether a number is the signed word at a position.
pub open spec fn is_signed(x: int, b: Seq<u8>, at: int) -> bool {
    -0x8000_0000 <= x < 0x8000_0000 && calls::is_word(x, b, at)
}

/// Whether a number is the signed double word at a position: its low word is
/// the first.
pub open spec fn is_long(x: int, b: Seq<u8>, at: int) -> bool {
    exists|low: int, high: int| #[trigger]
        is_unsigned(low, b, at) && #[trigger] is_signed(high, b, at + 4) && x == low
            + 0x1_0000_0000 * high
}

/// Whether the vtable at `v` belongs to the table at `t` and puts the field with
/// a number at `p`.
pub open spec fn lies_at(b: Seq<u8>, t: int, v: int, number: int, p: int) -> bool {
    &&& inside(b, t, 4)
    &&& is_signed(t - v, b, t)
    &&& inside(b, v, 4)
    &&& 4 + 2 * number + 2 <= b[v] + 0x100 * b[v + 1]
    &&& inside(b, v + 4 + 2 * number, 2)
    &&& p - t == b[v + 4 + 2 * number] + 0x100 * b[v + 4 + 2 * number + 1]
    &&& t < p < b.len()
}

/// A field lies where the vtable of its table puts it, and nowhere else.
pub proof fn law_fields_lie_where_the_vtable_says(
    b: Seq<u8>,
    t: int,
    v: int,
    number: int,
    p: int,
)
    requires
        0 <= number,
    ensures
        lies_at(b, t, v, number, p) ==> flatbuffer::field_at(b, t, number) == Some(p),
        flatbuffer::field_at(b, t, number) == Some(p) ==> exists|w: int| #[trigger]
            lies_at(b, t, w, number, p),
{
    let w = t - crate::bytes::word_at(b, t);
    if flatbuffer::field_at(b, t, number) == Some(p) {
        assert(lies_at(b, t, w, number, p));
    }
    if lies_at(b, t, v, number, p) {
        assert(v == w);
    }
}

/// Whether the offset at `at` leads to a vector of `n` elements of a size, with
/// its length at `start`.
pub open spec fn leads_to(b: Seq<u8>, at: int, start: int, n: int, size: int) -> bool {
    &&& inside(b, at, 4)
    &&& is_unsigned(start - at, b, at)
    &&& start < b.len()
    &&& inside(b, start, 4)
    &&& is_unsigned(n, b, start)
    &&& inside(b, start + 4, size * n)
}

/// A vector is where the offset in its field leads, as long as it says; without
/// the field it is empty.
pub proof fn law_vectors_are_where_the_offset_leads(
    b: Seq<u8>,
    t: int,
    number: int,
    size: int,
    p: int,
    start: int,
    n: int,
)
    ensures
        flatbuffer::field_at(b, t, number) == Some(p) ==> (leads_to(b, p, start, n, size) <==> (
        flatbuffer::vector_of(b, t, number, size) == Ok::<(int, int), ParseError>((start, n)))),
        flatbuffer::field_at(b, t, number) is None ==> flatbuffer::vector_of(b, t, number, size)
            == Ok::<(int, int), ParseError>((0int, 0int)),
{
    if leads_to(b, p, start, n, size) {
        assert(start - p == flatbuffer::unsigned_at(b, p));
        assert(n == flatbuffer::unsigned_at(b, start));
    }
}

/// The elements of a vector are the numbers in its bytes, one behind the other.
pub proof fn law_elements_follow_each_other(b: Seq<u8>, start: int, n: int, i: int)
    requires
        0 <= i < n,
    ensures
        flatbuffer::byte_list(b, start, n).len() == n,
        flatbuffer::unsigned_list(b, start, n).len() == n,
        flatbuffer::word_list(b, start, n).len() == n,
        flatbuffer::long_list(b, start, n).len() == n,
        flatbuffer::byte_list(b, start, n)[i] == b[start + 4 + i],
        is_unsigned(flatbuffer::unsigned_list(b, start, n)[i] as int, b, start + 4 + 4 * i),
        is_signed(flatbuffer::word_list(b, start, n)[i] as int, b, start + 4 + 4 * i),
        is_long(flatbuffer::long_list(b, start, n)[i] as int, b, start + 4 + 8 * i),
{
    let at = start + 4 + 8 * i;
    let low = flatbuffer::unsigned_at(b, at);
    let high = crate::bytes::word_at(b, at + 4);
    assert(is_unsigned(low, b, at));
    assert(is_signed(high, b, at + 4));
    assert(flatbuffer::long_list(b, start, n)[i] == low + 0x1_0000_0000 * high);
}

/// Whether a number is a word field of a table; the default where the table
/// leaves the field out or the file ends within it.
pub open spec fn holds_word(b: Seq<u8>, t: int, number: int, default: int, x: int) -> bool {
    match flatbuffer::field_at(b, t, number) {
        Some(p) => if p + 4 <= b.len() {
            calls::is_word(x, b, p)
        } else {
            x == default
        },
        None => x == default,
    }
}

/// Whether a number is a byte field of a table, as a signed number; zero where
/// the table leaves the field out.
pub open spec fn holds_code(b: Seq<u8>, t: int, number: int, x: int) -> bool {
    match flatbuffer::field_at(b, t, number) {
        Some(p) => (x - b[p]) % 256 == 0,
        None => x == 0,
    }
}

/// Whether a truth value is a byte field of a table.
pub open spec fn holds_flag(b: Seq<u8>, t: int, number: int, default: bool, x: bool) -> bool {
    match flatbuffer::field_at(b, t, number) {
        Some(p) => x <==> b[p] != 0,
        None => x == default,
    }
}

proof fn lemma_fields_hold(b: Seq<u8>, t: int, number: int)
    ensures
        forall|d: i32| #[trigger]
            holds_word(
                b,
                t,
                number,
                d as int,
                flatbuffer::word_field(b, t, number, d) as int,
            ),
        forall|d: u32| #[trigger]
            holds_word(
                b,
                t,
                number,
                d as int,
                flatbuffer::unsigned_field(b, t, number, d) as int,
            ),
        holds_code(b, t, number, flatbuffer::code_field(b, t, number) as int),
        holds_flag(b, t, number, false, flatbuffer::flag_field(b, t, number, 0)),
        holds_flag(b, t, number, true, flatbuffer::flag_field(b, t, number, 1)),
{
}

/// The options of a convolution are the fields of their table: the padding, the
/// strides, the activation and the dilations of a convolution, and of a depthwise
/// one the depth multiplier before the activation.
pub proof fn law_convolution_options_are_the_fields(o: ParsedOptions, b: Seq<u8>, t: int)
    ensures
        flatbuffer::are_options(o, b, t, 3) ==> (o matches ParsedOptions::Conv2D {
            padding,
            stride_w,
            stride_h,
            dilation_w,
            dilation_h,
            fused_activation,
        } && {
            &&& holds_code(b, t, 0, padding as int)
            &&& holds_word(b, t, 1, 1, stride_w as int)
            &&& holds_word(b, t, 2, 1, stride_h as int)
            &&& holds_code(b, t, 3, fused_activation as int)
            &&& holds_word(b, t, 4, 1, dilation_w as int)
            &&& holds_word(b, t, 5, 1, dilation_h as int)
        }),
        flatbuffer::are_options(o, b, t, 4) ==> (o matches ParsedOptions::DepthwiseConv2D {
            padding,
            stride_w,
            stride_h,
            depth_multiplier,
            dilation_w,
            dilation_h,
            fused_activation,
        } && {
            &&& holds_code(b, t, 0, padding as int)
            &&& holds_word(b, t, 1, 1, stride_w as int)
            &&& holds_word(b, t, 2, 1, stride_h as int)
            &&& holds_word(b, t, 3, 1, depth_multiplier as int)
            &&& holds_code(b, t, 4, fused_activation as int)
            &&& holds_word(b, t, 5, 1, dilation_w as int)
            &&& holds_word(b, t, 6, 1, dilation_h as int)
        }),
{
    lemma_fields_hold(b, t, 0);
    lemma_fields_hold(b, t, 1);
    lemma_fields_hold(b, t, 2);
    lemma_fields_hold(b, t, 3);
    lemma_fields_hold(b, t, 4);
    lemma_fields_hold(b, t, 5);
    lemma_fields_hold(b, t, 6);
}

/// The options of a pool and of a dense layer are the fields of their table.
pub proof fn law_pool_and_dense_options_are_the_fields(
    o: ParsedOptions,
    b: Seq<u8>,
    t: int,
    code: i32,
)
    requires
        code == 1 || code == 17 || code == 9,
        flatbuffer::are_options(o, b, t, code),
    ensures
        code != 9 ==> (o matches ParsedOptions::Pool2D {
            padding,
            stride_w,
            stride_h,
            filter_w,
            filter_h,
            fused_activation,
        } && {
            &&& holds_code(b, t, 0, padding as int)
            &&& holds_word(b, t, 1, 1, stride_w as int)
            &&& holds_word(b, t, 2, 1, stride_h as int)
            &&& holds_word(b, t, 3, 1, filter_w as int)
            &&& holds_word(b, t, 4, 1, filter_h as int)
            &&& holds_code(b, t, 5, fused_activation as int)
        }),
        code == 9 ==> (o matches ParsedOptions::FullyConnected {
            fused_activation,
            weights_format,
            keep_num_dims,
        } && {
            &&& holds_code(b, t, 0, fused_activation as int)
            &&& holds_code(b, t, 1, weights_format as int)
            &&& holds_flag(b, t, 2, false, keep_num_dims)
        }),
{
    lemma_fields_hold(b, t, 0);
    lemma_fields_hold(b, t, 1);
    lemma_fields_hold(b, t, 2);
    lemma_fields_hold(b, t, 3);
    lemma_fields_hold(b, t, 4);
    lemma_fields_hold(b, t, 5);
}

/// The options of the other operators with typed options are the fields of their
/// table.
pub proof fn law_other_options_are_the_fields(o: ParsedOptions, b: Seq<u8>, t: int, code: i32)
    requires
        flatbuffer::are_options(o, b, t, code),
    ensures
        code == 0 ==> (o matches ParsedOptions::Add { fused_activation, pot_scale_int16 }
            && holds_code(b, t, 0, fused_activation as int) && holds_flag(
            b,
            t,
            1,
            true,
            pot_scale_int16,
        )),
        code == 41 ==> (o matches ParsedOptions::Sub { fused_activation, pot_scale_int16 }
            && holds_code(b, t, 0, fused_activation as int) && holds_flag(
            b,
            t,
            1,
            true,
            pot_scale_int16,
        )),
        code == 18 ==> (o matches ParsedOptions::Mul { fused_activation } && holds_code(
            b,
            t,
            0,
            fused_activation as int,
        )),
        code == 25 ==> (o matches ParsedOptions::Softmax { beta } && holds_word(
            b,
            t,
            0,
            0,
            beta as int,
        )),
        code == 98 ==> (o matches ParsedOptions::LeakyRelu { alpha } && holds_word(
            b,
            t,
            0,
            0,
            alpha as int,
        )),
        code == 22 ==> (o matches ParsedOptions::Reshape { new_shape } && flatbuffer::vector_of(
            b,
            t,
            0,
            4,
        ) matches Ok((v, n)) && new_shape@.len() == n && forall|i: int|
            0 <= i < n ==> is_signed(#[trigger] new_shape@[i] as int, b, v + 4 + 4 * i)),
        code == 54 ==> o is Prelu,
        code == 97 ==> (o matches ParsedOptions::ResizeNearest {
            align_corners,
            half_pixel_centers,
        } && holds_flag(b, t, 0, false, align_corners) && holds_flag(
            b,
            t,
            1,
            false,
            half_pixel_centers,
        )),
{
    lemma_fields_hold(b, t, 0);
    lemma_fields_hold(b, t, 1);
    if code == 22 {
        lemma_vector_length(b, t, 0, 4);
        match flatbuffer::vector_of(b, t, 0, 4) {
            Ok((v, n)) => {
                let list = flatbuffer::word_list(b, v, n);
                assert forall|i: int| 0 <= i < n implies is_signed(
                    #[trigger] list[i] as int,
                    b,
                    v + 4 + 4 * i,
                ) by {
                    law_elements_follow_each_other(b, v, n, i);
                }
            },
            Err(_) => {},
        }
    }
}

/// Lengths are not negative.
proof fn lemma_vector_length(b: Seq<u8>, t: int, number: int, size: int)
    ensures
        flatbuffer::vector_of(b, t, number, size) matches Ok((v, n)) ==> n >= 0,
{
}

/// The options of an operator without a typed form are the bytes of their table,
/// as many as its vtable says.
pub proof fn law_untyped_options_are_the_bytes(
    o: ParsedOptions,
    b: Seq<u8>,
    t: int,
    v: int,
    code: i32,
)
    requires
        flatbuffer::are_options(o, b, t, code),
        code == 19 || code == 21 || code == 34 || code == 39 || code == 117,
        inside(b, t, 4),
        is_signed(t - v, b, t),
        inside(b, v, 4),
        inside(b, t, b[v + 2] + 0x100 * b[v + 3]),
    ensures
        o matches ParsedOptions::Custom(raw) && raw@.len() == b[v + 2] + 0x100 * b[v + 3]
            && forall|i: int| 0 <= i < raw@.len() ==> #[trigger] raw@[i] == b[t + i],
{
    assert(v == t - crate::bytes::word_at(b, t));
}

/// The quantization of a tensor is what its table holds: the first scale and the
/// first zero point, and with more than one scale all of them and the dimension
/// that they go along.
pub proof fn law_quantizations_are_the_fields(q: QuantInfo, b: Seq<u8>, t: int)
    requires
        flatbuffer::is_quantization(q, b, t),
    ensures
        flatbuffer::vector_of(b, t, 2, 4) matches Ok((v, n)) && n > 0 && is_unsigned(
            q.scale as int,
            b,
            v + 4,
        ) && (n > 1 <==> q.per_channel is Some) && (q.per_channel matches Some(pc) ==> {
            &&& pc.scales@.len() == n
            &&& forall|i: int|
                0 <= i < n ==> is_unsigned(#[trigger] pc.scales@[i] as int, b, v + 4 + 4 * i)
            &&& holds_word(b, t, 6, 0, pc.quantized_dimension as int)
        }),
        match flatbuffer::vector_of(b, t, 3, 8) {
            Ok((v, n)) => {
                &&& n == 0 ==> q.zero_point == 0
                &&& n > 0 ==> is_long(q.zero_point as int, b, v + 4)
                &&& q.per_channel matches Some(pc) ==> pc.zero_points@.len() == n && forall|i: int|
                    0 <= i < n ==> is_long(#[trigger] pc.zero_points@[i] as int, b, v + 4 + 8 * i)
            },
            Err(_) => q.zero_point == 0,
        },
{
    lemma_fields_hold(b, t, 6);
    lemma_vector_length(b, t, 2, 4);
    lemma_vector_length(b, t, 3, 8);
    match flatbuffer::vector_of(b, t, 2, 4) {
        Ok((v, n)) => {
            let list = flatbuffer::unsigned_list(b, v, n);
            assert(list == flatbuffer::scale_list(b, t));
            assert forall|i: int| 0 <= i < n implies is_unsigned(
                #[trigger] list[i] as int,
                b,
                v + 4 + 4 * i,
            ) by {
                law_elements_follow_each_other(b, v, n, i);
            }
            assert(list.len() == n);
            assert(is_unsigned(list[0] as int, b, v + 4 + 4 * 0));
        },
        Err(_) => {},
    }
    match flatbuffer::vector_of(b, t, 3, 8) {
        Ok((v, n)) => {
            let list = flatbuffer::long_list(b, v, n);
            assert(list == flatbuffer::zero_point_list(b, t));
            assert forall|i: int| 0 <= i < n implies is_long(
                #[trigger] list[i] as int,
                b,
                v + 4 + 8 * i,
            ) by {
                law_elements_follow_each_other(b, v, n, i);
            }
            assert(list.len() == n);
            if n > 0 {
                assert(is_long(list[0] as int, b, v + 4 + 8 * 0));
            }
        },
        Err(_) => {},
    }
}

/// Whether a table is the entry of a vector of tables.
pub open spec fn is_entry(b: Seq<u8>, vector: int, i: int, t: int) -> bool {
    let at = vector + 4 + 4 * i;
    inside(b, at, 4) && is_unsigned(t - at, b, at) && t < b.len()
}

/// Whether numbers are the unsigned words of the vector in a field.
pub open spec fn holds_indices(b: Seq<u8>, t: int, number: int, list: Seq<u32>) -> bool {
    flatbuffer::vector_of(b, t, number, 4) matches Ok((v, n)) && list.len() == n && forall|i: int|
        0 <= i < n ==> is_unsigned(#[trigger] list[i] as int, b, v + 4 + 4 * i)
}

proof fn lemma_indices(b: Seq<u8>, t: int, number: int, list: Seq<u32>)
    requires
        flatbuffer::vector_of(b, t, number, 4) matches Ok((v, n)) && list
            == flatbuffer::unsigned_list(b, v, n),
    ensures
        holds_indices(b, t, number, list),
{
    lemma_vector_length(b, t, number, 4);
    match flatbuffer::vector_of(b, t, number, 4) {
        Ok((v, n)) => {
            assert forall|i: int| 0 <= i < n implies is_unsigned(
                #[trigger] list[i] as int,
                b,
                v + 4 + 4 * i,
            ) by {
                law_elements_follow_each_other(b, v, n, i);
            }
        },
        Err(_) => {},
    }
}

/// The number of an element type.
pub open spec fn is_type(n: int, of: TensorType) -> bool {
    match of {
        TensorType::Float32 => n == 0,
        TensorType::Float16 => n == 1,
        TensorType::Int32 => n == 2,
        TensorType::Uint8 => n == 3,
        TensorType::Int64 => n == 4,
        TensorType::String => n == 5,
        TensorType::Bool => n == 6,
        TensorType::Int16 => n == 7,
        TensorType::Complex64 => n == 8,
        TensorType::Int8 => n == 9,
        TensorType::Float64 => n == 10,
        TensorType::Complex128 => n == 11,
        TensorType::Uint64 => n == 12,
        TensorType::Resource => n == 13,
        TensorType::Variant => n == 14,
        TensorType::Uint32 => n == 15,
        TensorType::Uint16 => n == 16,
        TensorType::Int4 => n == 17,
        TensorType::Unknown => n > 17,
    }
}

/// A tensor is what its table holds: shape, element type, buffer, name and
/// quantization, in this order.
pub proof fn law_tensors_are_the_fields(tensor: ParsedTensor, b: Seq<u8>, vector: int, k: int)
    requires
        flatbuffer::is_tensor(tensor, b, vector, k),
    ensures
        flatbuffer::entry_at(b, vector, k) matches Ok(t) && {
            &&& is_entry(b, vector, k, t)
            &&& flatbuffer::vector_of(b, t, 0, 4) matches Ok((v, n)) && tensor.shape@.len() == n
                && forall|i: int|
                0 <= i < n ==> is_signed(#[trigger] tensor.shape@[i] as int, b, v + 4 + 4 * i)
            &&& match flatbuffer::field_at(b, t, 1) {
                Some(p) => is_type(b[p] as int, tensor.tensor_type),
                None => tensor.tensor_type is Float32,
            }
            &&& holds_word(b, t, 2, 0, tensor.buffer_index as int)
            &&& flatbuffer::vector_of(b, t, 3, 1) matches Ok((v, n)) && (n > 0 ==> {
                let name = b.subrange(v + 4, v + 4 + n);
                &&& vstd::utf8::valid_utf8(name) ==> tensor.name@ == vstd::utf8::decode_utf8(name)
                &&& !vstd::utf8::valid_utf8(name) ==> tensor.name@.len() == 0
            })
            &&& flatbuffer::field_at(b, t, 4) is None ==> tensor.quant is None
            &&& flatbuffer::field_at(b, t, 4) matches Some(p) ==> exists|q: int| #[trigger]
                is_unsigned(q - p, b, p) && match tensor.quant {
                    Some(quant) => flatbuffer::is_quantization(quant, b, q),
                    None => flatbuffer::scale_list(b, q).len() == 0,
                }
        },
{
    let t = flatbuffer::entry_at(b, vector, k)->Ok_0;
    lemma_fields_hold(b, t, 2);
    lemma_vector_length(b, t, 0, 4);
    lemma_vector_length(b, t, 3, 1);
    match flatbuffer::vector_of(b, t, 0, 4) {
        Ok((v, n)) => {
            let list = flatbuffer::word_list(b, v, n);
            assert forall|i: int| 0 <= i < n implies is_signed(
                #[trigger] list[i] as int,
                b,
                v + 4 + 4 * i,
            ) by {
                law_elements_follow_each_other(b, v, n, i);
            }
        },
        Err(_) => {},
    }
    match flatbuffer::vector_of(b, t, 3, 1) {
        Ok((v, n)) => {
            if n > 0 {
                assert(flatbuffer::field_at(b, t, 3) is Some);
                assert(1 * n == n);
                assert(flatbuffer::byte_list(b, v, n) =~= b.subrange(v + 4, v + 4 + n));
            }
        },
        Err(_) => {},
    }
    match flatbuffer::field_at(b, t, 4) {
        Some(p) => {
            let q = p + flatbuffer::unsigned_at(b, p);
            assert(is_unsigned(q - p, b, p));
        },
        None => {},
    }
}

/// The code of an operator is the larger of the byte in which old files have it
/// and the word in which new ones do.
pub proof fn law_codes_are_the_larger_of_two(b: Seq<u8>, t: int, old_code: int, new_code: int)
    requires
        match flatbuffer::field_at(b, t, 0) {
            Some(p) => old_code == b[p],
            None => old_code == 0,
        },
        -0x8000_0000 <= new_code < 0x8000_0000,
        holds_word(b, t, 3, 0, new_code),
    ensures
        flatbuffer::code_of(b, t) >= old_code,
        flatbuffer::code_of(b, t) >= new_code,
        flatbuffer::code_of(b, t) == old_code || flatbuffer::code_of(b, t) == new_code,
{
}

/// An operator is what its table holds: the index of its code, its inputs and
/// outputs, the kind of its options and its options, and its custom options, in
/// this order.
pub proof fn law_operators_are_the_fields(
    op: ParsedOp,
    b: Seq<u8>,
    vector: int,
    k: int,
    codes: Seq<i32>,
    tensors: Seq<ParsedTensor>,
    buffers: Seq<Vec<u8>>,
)
    requires
        flatbuffer::is_operator(op, b, vector, k, codes, tensors, buffers),
    ensures
        flatbuffer::entry_at(b, vector, k) matches Ok(t) && {
            &&& is_entry(b, vector, k, t)
            &&& holds_word(b, t, 0, 0, op.opcode_index as int)
            &&& op.opcode_index < codes.len() && op.builtin_code == codes[op.opcode_index as int]
            &&& holds_indices(b, t, 1, op.inputs@)
            &&& holds_indices(b, t, 2, op.outputs@)
            &&& flatbuffer::vector_of(b, t, 5, 1) matches Ok((v, n)) && op.custom_options@.len()
                == n && forall|i: int|
                0 <= i < n ==> #[trigger] op.custom_options@[i] == b[v + 4 + i]
            &&& op.builtin_code != 40 && (match flatbuffer::field_at(b, t, 3) {
                Some(p) => b[p] == 0,
                None => true,
            } || flatbuffer::field_at(b, t, 4) is None) ==> op.options is None
            &&& op.builtin_code != 40 && (match flatbuffer::field_at(b, t, 3) {
                Some(p) => b[p] != 0,
                None => false,
            }) ==> (flatbuffer::field_at(b, t, 4) matches Some(p) ==> exists|o: int| #[trigger]
                is_unsigned(o - p, b, p) && (op.options matches Some(options)
                    && flatbuffer::are_options(options, b, o, op.builtin_code)))
            &&& op.builtin_code == 40 ==> (op.options matches Some(
                ParsedOptions::Mean { axis, keep_dims },
            ) && (op.inputs@.len() > 1 && op.inputs@[1] < tensors.len()
                && tensors[op.inputs@[1] as int].buffer_index < buffers.len() ==> {
                let data = buffers[tensors[op.inputs@[1] as int].buffer_index as int]@;
                &&& axis@.len() == data.len() / 4
                &&& forall|i: int|
                    0 <= i < axis@.len() ==> is_signed(#[trigger] axis@[i] as int, data, 4 * i)
            }) && ((match flatbuffer::field_at(b, t, 3) {
                Some(p) => b[p] != 0,
                None => false,
            }) && flatbuffer::target_of(b, t, 4) is Ok ==> (flatbuffer::field_at(b, t, 4) matches Some(
                p,
            ) ==> exists|o: int| #[trigger]
                is_unsigned(o - p, b, p) && holds_flag(b, o, 0, false, keep_dims))))
        },
{
    let t = flatbuffer::entry_at(b, vector, k)->Ok_0;
    lemma_fields_hold(b, t, 0);
    lemma_vector_length(b, t, 5, 1);
    lemma_indices(b, t, 1, op.inputs@);
    lemma_indices(b, t, 2, op.outputs@);
    match flatbuffer::field_at(b, t, 4) {
        Some(p) => {
            let o = p + flatbuffer::unsigned_at(b, p);
            assert(is_unsigned(o - p, b, p));
            lemma_fields_hold(b, o, 0);
        },
        None => {},
    }
}

/// A model file starts with the offset of its root table and the identifier, and
/// the root table has subgraphs and buffers under their numbers.
pub proof fn law_models_are_the_fields(m: ParsedModel, b: Seq<u8>, root: int)
    requires
        flatbuffer::parse_failure(b) is None,
        flatbuffer::is_model(m, b),
        is_unsigned(root, b, 0),
    ensures
        b.len() >= 8,
        b[4] == 0x54 && b[5] == 0x46 && b[6] == 0x4c && b[7] == 0x33,
        flatbuffer::vector_of(b, root, 2, 4) matches Ok((graphs, n)) && n > 0 && m.subgraph_count
            == n && (flatbuffer::entry_at(b, graphs, 0) matches Ok(graph) && is_entry(
            b,
            graphs,
            0,
            graph,
        ) && flatbuffer::is_subgraph(m, b, graph, flatbuffer::codes_of(b, root))),
        flatbuffer::field_at(b, root, 4) is None ==> m.buffers@.len() == 0,
        flatbuffer::field_at(b, root, 4) matches Some(p) ==> flatbuffer::are_buffers(
            m.buffers@,
            b,
            p + flatbuffer::unsigned_at(b, p),
        ) && flatbuffer::buffer_list_failure(b, p + flatbuffer::unsigned_at(b, p)) is None,
{
    lemma_root(b, root);
}

proof fn lemma_root(b: Seq<u8>, root: int)
    requires
        is_unsigned(root, b, 0),
    ensures
        root == flatbuffer::unsigned_at(b, 0),
{
}

/// A subgraph has tensors, inputs, outputs and operators under their numbers, in
/// this order.
pub proof fn law_subgraphs_are_the_fields(
    m: ParsedModel,
    b: Seq<u8>,
    graph: int,
    codes: Seq<i32>,
    i: int,
    k: int,
)
    requires
        flatbuffer::is_subgraph(m, b, graph, codes),
    ensures
        flatbuffer::vector_of(b, graph, 0, 4) matches Ok((v, c)) && m.tensors@.len() == c && (0
            <= k < c ==> flatbuffer::is_tensor(m.tensors@[k], b, v, k)),
        holds_indices(b, graph, 1, m.inputs@),
        holds_indices(b, graph, 2, m.outputs@),
        flatbuffer::vector_of(b, graph, 3, 4) matches Ok((v, c)) && m.ops@.len() == c && (0 <= i
            < c ==> flatbuffer::is_operator(
            m.ops@[i],
            b,
            v,
            i,
            codes,
            m.tensors@,
            m.buffers@,
        )),
{
    lemma_indices(b, graph, 1, m.inputs@);
    lemma_indices(b, graph, 2, m.outputs@);
}

/// The codes of a model are those of the entries under their number.
pub proof fn law_codes_are_the_fields(b: Seq<u8>, root: int, i: int)
    requires
        flatbuffer::vector_of(b, root, 1, 4) matches Ok((v, n)) && 0 <= i < n
            && flatbuffer::entry_at(b, v, i) is Ok,
    ensures
        flatbuffer::vector_of(b, root, 1, 4) matches Ok((v, n)) && flatbuffer::codes_of(
            b,
            root,
        ).len() == n && (flatbuffer::entry_at(b, v, i) matches Ok(t) && is_entry(b, v, i, t)
            && flatbuffer::codes_of(b, root)[i] == flatbuffer::code_of(b, t)),
{
}

/// The bytes of a buffer are those that the only field of its table leads to.
pub proof fn law_buffers_are_the_fields(list: Seq<Vec<u8>>, b: Seq<u8>, vector: int, i: int)
    requires
        flatbuffer::are_buffers(list, b, vector),
        flatbuffer::buffer_list_failure(b, vector) is None,
        0 <= i < list.len(),
    ensures
        is_unsigned(list.len() as int, b, vector),
        flatbuffer::entry_at(b, vector, i) matches Ok(t) && is_entry(b, vector, i, t) && (
        flatbuffer::vector_of(b, t, 0, 1) matches Ok((v, n)) && list[i]@.len() == n && forall|j: int|
            0 <= j < n ==> #[trigger] list[i]@[j] == b[v + 4 + j]),
{
    lemma_buffer_is_inside(b, vector, list.len(), i);
    assert(list[i]@ == flatbuffer::buffer_bytes(b, vector, i));
    match flatbuffer::entry_at(b, vector, i) {
        Ok(t) => {
            lemma_vector_length(b, t, 0, 1);
        },
        Err(_) => {},
    }
}

proof fn lemma_buffer_is_inside(b: Seq<u8>, vector: int, n: nat, i: int)
    requires
        flatbuffer::buffers_failure(b, vector, n) is None,
        0 <= i < n,
    ensures
        flatbuffer::buffer_failure(b, vector, i) is None,
    decreases n,
{
    if i < n - 1 {
        lemma_buffer_is_inside(b, vector, (n - 1) as nat, i);
    }
}

/// A tensor is read exactly where its entry, its shape, its name and its
/// quantization are inside the file.
pub proof fn law_tensors_inside_are_read(b: Seq<u8>, vector: int, i: int)
    ensures
        flatbuffer::tensor_failure(b, vector, i) is None <==> (flatbuffer::entry_at(
            b,
            vector,
            i,
        ) matches Ok(t) && flatbuffer::vector_of(b, t, 0, 4) is Ok && flatbuffer::vector_of(
            b,
            t,
            3,
            1,
        ) is Ok && flatbuffer::target_of(b, t, 4) is Ok),
{
}

/// An operator is read exactly where its entry, its inputs, its outputs and its
/// options are inside the file and its code is listed. The options are looked at
/// where the operator says that it has some; those of a reshape have a vector.
pub proof fn law_operators_inside_are_read(b: Seq<u8>, vector: int, i: int, codes: Seq<i32>)
    ensures
        flatbuffer::operator_failure(b, vector, i, codes) is None <==> (flatbuffer::entry_at(
            b,
            vector,
            i,
        ) matches Ok(t) && {
            let index = flatbuffer::unsigned_field(b, t, 0, 0);
            let optioned = match flatbuffer::field_at(b, t, 3) {
                Some(p) => b[p] != 0,
                None => false,
            };
            &&& index < codes.len()
            &&& flatbuffer::vector_of(b, t, 1, 4) is Ok
            &&& flatbuffer::vector_of(b, t, 2, 4) is Ok
            &&& flatbuffer::vector_of(b, t, 5, 1) is Ok
            &&& optioned ==> flatbuffer::target_of(b, t, 4) is Ok
            &&& optioned && codes[index as int] == 22 ==> (flatbuffer::target_of(b, t, 4) matches Ok(
                Some(o),
            ) ==> flatbuffer::vector_of(b, o, 0, 4) is Ok)
        }),
{
}

/// An offset can be followed exactly where it and what it leads to are inside
/// the file, and otherwise its place is named.
pub proof fn law_offsets_inside_are_followed(b: Seq<u8>, at: int, to: int)
    requires
        0 <= at,
    ensures
        inside(b, at, 4) && is_unsigned(to - at, b, at) ==> (flatbuffer::target_at(b, at) == Ok::<
            int,
            ParseError,
        >(to) <==> to < b.len()),
        inside(b, at, 4) && is_unsigned(to - at, b, at) && to >= b.len() ==> flatbuffer::target_at(
            b,
            at,
        ) == Err::<int, ParseError>(ParseError::Truncated { at: at as usize }),
        !inside(b, at, 4) ==> flatbuffer::target_at(b, at) == Err::<int, ParseError>(
            ParseError::Truncated { at: at as usize },
        ),
{
    if inside(b, at, 4) && is_unsigned(to - at, b, at) {
        assert(to - at == flatbuffer::unsigned_at(b, at));
    }
}

/// A file that is no model is told why: too short, another identifier, no
/// subgraph, or an operator whose code is not listed.
pub proof fn law_refused_files_are_told_why(b: Seq<u8>, root: int)
    requires
        b.len() <= usize::MAX,
        is_unsigned(root, b, 0),
    ensures
        b.len() < 8 ==> flatbuffer::parse_failure(b) == Some(
            ParseError::TooShort { len: b.len() as usize },
        ),
        b.len() >= 8 && !(b[4] == 0x54 && b[5] == 0x46 && b[6] == 0x4c && b[7] == 0x33)
            ==> flatbuffer::parse_failure(b) == Some(ParseError::Identifier),
        flatbuffer::parse_failure(b) matches Some(e) ==> match e {
            ParseError::TooShort { len } => b.len() < 8 && len == b.len(),
            ParseError::Identifier => b.len() >= 8 && !(b[4] == 0x54 && b[5] == 0x46 && b[6] == 0x4c
                && b[7] == 0x33),
            ParseError::NoSubgraph => flatbuffer::vector_of(b, root, 2, 4) matches Ok((v, n)) && n
                == 0,
            ParseError::OperatorCode { op, index } => index >= flatbuffer::codes_of(b, root).len(),
            ParseError::Truncated { at } => true,
        },
{
    lemma_root(b, root);
    match flatbuffer::target_of(b, root, 4) {
        Ok(Some(v)) => {
            match flatbuffer::count_at(b, v, 4) {
                Ok(n) => {
                    lemma_buffers_are_truncated(b, v, n as nat);
                },
                Err(_) => {},
            }
        },
        _ => {},
    }
    match flatbuffer::vector_of(b, root, 1, 4) {
        Ok((v, n)) => {
            lemma_entries_are_truncated(b, v, n as nat);
        },
        Err(_) => {},
    }
    match flatbuffer::vector_of(b, root, 2, 4) {
        Ok((v, n)) => {
            match flatbuffer::entry_at(b, v, 0) {
                Ok(graph) => {
                    match flatbuffer::vector_of(b, graph, 0, 4) {
                        Ok((w, m)) => {
                            lemma_tensors_are_truncated(b, w, m as nat);
                        },
                        Err(_) => {},
                    }
                    match flatbuffer::vector_of(b, graph, 3, 4) {
                        Ok((w, m)) => {
                            lemma_operators_are_listed(
                                b,
                                w,
                                m as nat,
                                flatbuffer::codes_of(b, root),
                            );
                        },
                        Err(_) => {},
                    }
                },
                Err(_) => {},
            }
        },
        Err(_) => {},
    }
}

proof fn lemma_buffers_are_truncated(b: Seq<u8>, vector: int, n: nat)
    ensures
        flatbuffer::buffers_failure(b, vector, n) matches Some(e) ==> e is Truncated,
    decreases n,
{
    if n > 0 {
        lemma_buffers_are_truncated(b, vector, (n - 1) as nat);
    }
}

proof fn lemma_entries_are_truncated(b: Seq<u8>, vector: int, n: nat)
    ensures
        flatbuffer::entries_failure(b, vector, n) matches Some(e) ==> e is Truncated,
    decreases n,
{
    if n > 0 {
        lemma_entries_are_truncated(b, vector, (n - 1) as nat);
    }
}

proof fn lemma_tensors_are_truncated(b: Seq<u8>, vector: int, n: nat)
    ensures
        flatbuffer::tensors_failure(b, vector, n) matches Some(e) ==> e is Truncated,
    decreases n,
{
    if n > 0 {
        lemma_tensors_are_truncated(b, vector, (n - 1) as nat);
    }
}

proof fn lemma_operators_are_listed(b: Seq<u8>, vector: int, n: nat, codes: Seq<i32>)
    ensures
        flatbuffer::operators_failure(b, vector, n, codes) matches Some(e) ==> e is Truncated || (
        e matches ParseError::OperatorCode { op, index } && index >= codes.len()),
    decreases n,
{
    if n > 0 {
        lemma_operators_are_listed(b, vector, (n - 1) as nat, codes);
    }
}

} // verus!
