//! The model file: a FlatBuffers buffer with the identifier `TFL3`.
//!
//! A table starts with a signed offset back to its vtable, which says where the
//! fields of the table lie. A field that the vtable leaves out has its default.
//! Vectors, strings and other tables are reached by offsets forward from the
//! place that holds the offset; a vector starts with its length.

use crate::bytes;
use crate::bytes::read_words;
use crate::model::{ParsedModel, ParsedOp, ParsedOptions, ParsedTensor, PerChannelQuant, QuantInfo};
use crate::model::{TensorType, ADD, AVERAGE_POOL_2D, CONV_2D, DEPTHWISE_CONV_2D, FULLY_CONNECTED};
use crate::model::{LEAKY_RELU, MAX_POOL_2D, MEAN, MUL, PRELU, RESHAPE, RESIZE_NEAREST_NEIGHBOR};
use crate::model::{SOFTMAX, SUB};
use crate::text::{join, to_decimal};
use vstd::prelude::*;
use vstd::string::*;

verus! {

/// Why a file is not a model.
#[derive(Clone, Copy, Debug, PartialEq, Eq, Structural)]
pub enum ParseError {
    /// There is no room for a root offset and an identifier.
    TooShort { len: usize },
    /// The identifier is another one.
    Identifier,
    /// An offset or a vector at this position leads beyond the end.
    Truncated { at: usize },
    /// The model has no subgraph.
    NoSubgraph,
    /// An operator names an operator code that is not listed.
    OperatorCode { op: usize, index: u32 },
}

impl ParseError {
    /// The error in words.
    pub open spec fn spec_message(self) -> Seq<char> {
        match self {
            ParseError::TooShort { len } => "buffer too short for a model: "@ + crate::text::decimal(
                len as nat,
            ) + " bytes"@,
            ParseError::Identifier => "file identifier is not \"TFL3\""@,
            ParseError::Truncated { at } => "truncated at offset "@ + crate::text::decimal(
                at as nat,
            ),
            ParseError::NoSubgraph => "model has no subgraphs"@,
            ParseError::OperatorCode { op, index } => "op "@ + crate::text::decimal(op as nat)
                + ": operator code "@ + crate::text::decimal(index as nat) + " out of range"@,
        }
    }

    /// The error in words.
    pub fn message(self) -> (r: String)
        ensures
            r@ == self.spec_message(),
    {
        match self {
            ParseError::TooShort { len } => {
                let mut r = join("buffer too short for a model: ", to_decimal(len as u64).as_str());
                r.append(" bytes");
                r
            },
            ParseError::Identifier => "file identifier is not \"TFL3\"".to_owned(),
            ParseError::Truncated { at } => join(
                "truncated at offset ",
                to_decimal(at as u64).as_str(),
            ),
            ParseError::NoSubgraph => "model has no subgraphs".to_owned(),
            ParseError::OperatorCode { op, index } => {
                let mut r = join("op ", to_decimal(op as u64).as_str());
                r.append(": operator code ");
                r.append(to_decimal(index as u64).as_str());
                r.append(" out of range");
                r
            },
        }
    }
}

/// Whether `n` bytes lie at a position.
pub open spec fn has(b: Seq<u8>, at: int, n: int) -> bool {
    0 <= at && at + n <= b.len()
}

/// The unsigned number in two bytes.
pub open spec fn half_at(b: Seq<u8>, at: int) -> int {
    b[at] + 0x100 * b[at + 1]
}

/// The unsigned number in four bytes.
pub open spec fn unsigned_at(b: Seq<u8>, at: int) -> int {
    bytes::unsigned_word(b[at], b[at + 1], b[at + 2], b[at + 3])
}

/// The signed number in eight bytes.
pub open spec fn long_at(b: Seq<u8>, at: int) -> int {
    unsigned_at(b, at) + 0x1_0000_0000 * bytes::word_at(b, at + 4)
}

/// Whether `n` bytes lie at a position.
fn in_range(buf: &[u8], at: usize, n: usize) -> (r: bool)
    ensures
        r == has(buf@, at as int, n as int),
{
    n <= buf.len() && at <= buf.len() - n
}

fn half(buf: &[u8], at: usize) -> (r: u16)
    requires
        has(buf@, at as int, 2),
    ensures
        r == half_at(buf@, at as int),
{
    buf[at] as u16 + 0x100 * (buf[at + 1] as u16)
}

fn unsigned(buf: &[u8], at: usize) -> (r: u32)
    requires
        has(buf@, at as int, 4),
    ensures
        r == unsigned_at(buf@, at as int),
{
    buf[at] as u32 + 0x100 * (buf[at + 1] as u32) + 0x1_0000 * (buf[at + 2] as u32) + 0x100_0000 * (
    buf[at + 3] as u32)
}

fn word(buf: &[u8], at: usize) -> (r: i32)
    requires
        has(buf@, at as int, 4),
    ensures
        r == bytes::word_at(buf@, at as int),
{
    let u: u32 = unsigned(buf, at);
    if u >= 0x8000_0000 {
        (u as i64 - 0x1_0000_0000) as i32
    } else {
        u as i32
    }
}

fn long(buf: &[u8], at: usize) -> (r: i64)
    requires
        has(buf@, at as int, 8),
    ensures
        r == long_at(buf@, at as int),
{
    let end: usize = buf.len();
    assert(at + 8 <= end);
    unsigned(buf, at) as i64 + 0x1_0000_0000 * (word(buf, at + 4) as i64)
}

/// Where a field of a table lies; nothing where the table leaves it out.
pub open spec fn field_at(b: Seq<u8>, table: int, field: int) -> Option<int> {
    let vtable = table - bytes::word_at(b, table);
    let entry = vtable + 4 + 2 * field;
    if has(b, table, 4) && has(b, vtable, 4) && 4 + 2 * field + 2 <= half_at(b, vtable) && has(
        b,
        entry,
        2,
    ) && half_at(b, entry) != 0 && table + half_at(b, entry) < b.len() {
        Some(table + half_at(b, entry))
    } else {
        None
    }
}

/// Where a field of a table lies; nothing where the table leaves it out, or
/// where table, vtable or field are not inside the file.
pub fn table_field(buf: &[u8], table: usize, field: usize) -> (r: Option<usize>)
    ensures
        match r {
            Some(p) => field_at(buf@, table as int, field as int) == Some(p as int),
            None => field_at(buf@, table as int, field as int) is None,
        },
{
    if !in_range(buf, table, 4) || field >= 0x8000 {
        return None;
    }
    let start: i128 = table as i128 - word(buf, table) as i128;
    if start < 0 || start > buf.len() as i128 {
        return None;
    }
    let vtable: usize = start as usize;
    if !in_range(buf, vtable, 4) || 4 + 2 * field + 2 > half(buf, vtable) as usize {
        return None;
    }
    let entry: usize = vtable + 4;
    if !in_range(buf, entry, 2 * field + 2) {
        return None;
    }
    let offset: usize = half(buf, entry + 2 * field) as usize;
    if offset == 0 || offset >= buf.len() - table {
        return None;
    }
    Some(table + offset)
}

/// A byte field of a table.
pub open spec fn byte_field(b: Seq<u8>, table: int, field: int, default: u8) -> u8 {
    match field_at(b, table, field) {
        Some(p) => b[p],
        None => default,
    }
}

/// A signed word field of a table; the default also where it is cut off.
pub open spec fn word_field(b: Seq<u8>, table: int, field: int, default: i32) -> i32 {
    match field_at(b, table, field) {
        Some(p) => if has(b, p, 4) {
            bytes::word_at(b, p) as i32
        } else {
            default
        },
        None => default,
    }
}

/// An unsigned word field of a table; the default also where it is cut off.
pub open spec fn unsigned_field(b: Seq<u8>, table: int, field: int, default: u32) -> u32 {
    match field_at(b, table, field) {
        Some(p) => if has(b, p, 4) {
            unsigned_at(b, p) as u32
        } else {
            default
        },
        None => default,
    }
}

fn read_byte_field(buf: &[u8], table: usize, field: usize, default: u8) -> (r: u8)
    ensures
        r == byte_field(buf@, table as int, field as int, default),
{
    match table_field(buf, table, field) {
        Some(p) => buf[p],
        None => default,
    }
}

fn read_code_field(buf: &[u8], table: usize, field: usize) -> (r: i8)
    ensures
        r == bytes::signed_byte(byte_field(buf@, table as int, field as int, 0)),
{
    let byte: u8 = read_byte_field(buf, table, field, 0);
    if byte < 128 {
        byte as i8
    } else {
        (byte as i16 - 256) as i8
    }
}

fn read_word_field(buf: &[u8], table: usize, field: usize, default: i32) -> (r: i32)
    ensures
        r == word_field(buf@, table as int, field as int, default),
{
    match table_field(buf, table, field) {
        Some(p) => if in_range(buf, p, 4) {
            word(buf, p)
        } else {
            default
        },
        None => default,
    }
}

fn read_unsigned_field(buf: &[u8], table: usize, field: usize, default: u32) -> (r: u32)
    ensures
        r == unsigned_field(buf@, table as int, field as int, default),
{
    match table_field(buf, table, field) {
        Some(p) => if in_range(buf, p, 4) {
            unsigned(buf, p)
        } else {
            default
        },
        None => default,
    }
}

/// Where the offset at a position leads.
pub open spec fn target_at(b: Seq<u8>, at: int) -> Result<int, ParseError> {
    if has(b, at, 4) && at + unsigned_at(b, at) < b.len() {
        Ok(at + unsigned_at(b, at))
    } else {
        Err(ParseError::Truncated { at: at as usize })
    }
}

/// What a field of a table refers to; nothing where the table leaves it out.
pub open spec fn target_of(b: Seq<u8>, table: int, field: int) -> Result<Option<int>, ParseError> {
    match field_at(b, table, field) {
        Some(p) => match target_at(b, p) {
            Ok(t) => Ok(Some(t)),
            Err(e) => Err(e),
        },
        None => Ok(None),
    }
}

/// The length of a vector whose elements have a size.
pub open spec fn count_at(b: Seq<u8>, vector: int, size: int) -> Result<int, ParseError> {
    if has(b, vector, 4) && has(b, vector + 4, size * unsigned_at(b, vector)) {
        Ok(unsigned_at(b, vector))
    } else {
        Err(ParseError::Truncated { at: vector as usize })
    }
}

/// The vector that a field of a table refers to, and its length: an empty one
/// where the table leaves it out.
pub open spec fn vector_of(b: Seq<u8>, table: int, field: int, size: int) -> Result<
    (int, int),
    ParseError,
> {
    match target_of(b, table, field) {
        Ok(Some(v)) => match count_at(b, v, size) {
            Ok(n) => Ok((v, n)),
            Err(e) => Err(e),
        },
        Ok(None) => Ok((0int, 0int)),
        Err(e) => Err(e),
    }
}

fn target(buf: &[u8], at: usize) -> (r: Result<usize, ParseError>)
    ensures
        match r {
            Ok(t) => target_at(buf@, at as int) == Ok::<int, ParseError>(t as int),
            Err(e) => target_at(buf@, at as int) == Err::<int, ParseError>(e),
        },
{
    if !in_range(buf, at, 4) {
        return Err(ParseError::Truncated { at });
    }
    let offset: u32 = unsigned(buf, at);
    if offset as u64 >= (buf.len() - at) as u64 {
        return Err(ParseError::Truncated { at });
    }
    Ok(at + offset as usize)
}

fn field_target(buf: &[u8], table: usize, field: usize) -> (r: Result<Option<usize>, ParseError>)
    ensures
        match r {
            Ok(Some(t)) => target_of(buf@, table as int, field as int) == Ok::<
                Option<int>,
                ParseError,
            >(Some(t as int)),
            Ok(None) => target_of(buf@, table as int, field as int) == Ok::<
                Option<int>,
                ParseError,
            >(None),
            Err(e) => target_of(buf@, table as int, field as int) == Err::<
                Option<int>,
                ParseError,
            >(e),
        },
{
    match table_field(buf, table, field) {
        Some(p) => Ok(Some(target(buf, p)?)),
        None => Ok(None),
    }
}

fn count(buf: &[u8], vector: usize, size: usize) -> (r: Result<usize, ParseError>)
    requires
        1 <= size <= 8,
    ensures
        match r {
            Ok(n) => count_at(buf@, vector as int, size as int) == Ok::<int, ParseError>(n as int),
            Err(e) => count_at(buf@, vector as int, size as int) == Err::<int, ParseError>(e),
        },
{
    if !in_range(buf, vector, 4) {
        return Err(ParseError::Truncated { at: vector });
    }
    let n: u32 = unsigned(buf, vector);
    let room: usize = buf.len() - vector - 4;
    assert(size * n <= 8 * n) by (nonlinear_arith)
        requires
            size <= 8,
    ;
    assert(n <= size * n) by (nonlinear_arith)
        requires
            size >= 1,
    ;
    if size as u64 * n as u64 > room as u64 {
        return Err(ParseError::Truncated { at: vector });
    }
    Ok(n as usize)
}

fn locate(buf: &[u8], table: usize, field: usize, size: usize) -> (r: Result<
    (usize, usize),
    ParseError,
>)
    requires
        1 <= size <= 8,
    ensures
        match r {
            Ok((v, n)) => vector_of(buf@, table as int, field as int, size as int) == Ok::<
                (int, int),
                ParseError,
            >((v as int, n as int)) && (n > 0 ==> has(buf@, v + 4, size * n)),
            Err(e) => vector_of(buf@, table as int, field as int, size as int) == Err::<
                (int, int),
                ParseError,
            >(e),
        },
{
    match field_target(buf, table, field)? {
        Some(v) => {
            let n: usize = count(buf, v, size)?;
            Ok((v, n))
        },
        None => Ok((0, 0)),
    }
}

/// The bytes of a vector.
pub open spec fn byte_list(b: Seq<u8>, vector: int, n: int) -> Seq<u8> {
    Seq::new(n as nat, |i: int| b[vector + 4 + i])
}

/// The unsigned words of a vector.
pub open spec fn unsigned_list(b: Seq<u8>, vector: int, n: int) -> Seq<u32> {
    Seq::new(n as nat, |i: int| unsigned_at(b, vector + 4 + 4 * i) as u32)
}

/// The signed words of a vector.
pub open spec fn word_list(b: Seq<u8>, vector: int, n: int) -> Seq<i32> {
    Seq::new(n as nat, |i: int| bytes::word_at(b, vector + 4 + 4 * i) as i32)
}

/// The signed double words of a vector.
pub open spec fn long_list(b: Seq<u8>, vector: int, n: int) -> Seq<i64> {
    Seq::new(n as nat, |i: int| long_at(b, vector + 4 + 8 * i) as i64)
}

fn read_bytes(buf: &[u8], vector: usize, n: usize) -> (r: Vec<u8>)
    requires
        n > 0 ==> has(buf@, vector + 4, n as int),
    ensures
        r@ == byte_list(buf@, vector as int, n as int),
{
    let mut r: Vec<u8> = Vec::new();
    let end: usize = buf.len();
    let mut i: usize = 0;
    while i < n
        invariant
            i <= n,
            end == buf@.len(),
            n > 0 ==> has(buf@, vector + 4, n as int),
            r@.len() == i,
            forall|k: int| 0 <= k < i ==> r@[k] == buf@[vector + 4 + k],
        decreases n - i,
    {
        assert(vector + 4 + n <= end);
        r.push(buf[vector + 4 + i]);
        i = i + 1;
    }
    assert(r@ =~= byte_list(buf@, vector as int, n as int));
    r
}

fn read_unsigned(buf: &[u8], vector: usize, n: usize) -> (r: Vec<u32>)
    requires
        n > 0 ==> has(buf@, vector + 4, 4 * n),
    ensures
        r@ == unsigned_list(buf@, vector as int, n as int),
{
    let mut r: Vec<u32> = Vec::new();
    let end: usize = buf.len();
    let mut i: usize = 0;
    while i < n
        invariant
            i <= n,
            end == buf@.len(),
            n > 0 ==> has(buf@, vector + 4, 4 * n),
            r@.len() == i,
            forall|k: int| 0 <= k < i ==> #[trigger] r@[k] == unsigned_at(buf@, vector + 4 + 4 * k),
        decreases n - i,
    {
        assert(vector + 4 + 4 * n <= end);
        r.push(unsigned(buf, vector + 4 + 4 * i));
        i = i + 1;
    }
    assert(r@ =~= unsigned_list(buf@, vector as int, n as int));
    r
}

fn read_word_list(buf: &[u8], vector: usize, n: usize) -> (r: Vec<i32>)
    requires
        n > 0 ==> has(buf@, vector + 4, 4 * n),
    ensures
        r@ == word_list(buf@, vector as int, n as int),
{
    let mut r: Vec<i32> = Vec::new();
    let end: usize = buf.len();
    let mut i: usize = 0;
    while i < n
        invariant
            i <= n,
            end == buf@.len(),
            n > 0 ==> has(buf@, vector + 4, 4 * n),
            r@.len() == i,
            forall|k: int|
                0 <= k < i ==> #[trigger] r@[k] == bytes::word_at(buf@, vector + 4 + 4 * k),
        decreases n - i,
    {
        assert(vector + 4 + 4 * n <= end);
        r.push(word(buf, vector + 4 + 4 * i));
        i = i + 1;
    }
    assert(r@ =~= word_list(buf@, vector as int, n as int));
    r
}

fn read_longs(buf: &[u8], vector: usize, n: usize) -> (r: Vec<i64>)
    requires
        n > 0 ==> has(buf@, vector + 4, 8 * n),
    ensures
        r@ == long_list(buf@, vector as int, n as int),
{
    let mut r: Vec<i64> = Vec::new();
    let end: usize = buf.len();
    let mut i: usize = 0;
    while i < n
        invariant
            i <= n,
            end == buf@.len(),
            n > 0 ==> has(buf@, vector + 4, 8 * n),
            r@.len() == i,
            forall|k: int| 0 <= k < i ==> #[trigger] r@[k] == long_at(buf@, vector + 4 + 8 * k),
        decreases n - i,
    {
        assert(vector + 4 + 8 * n <= end);
        r.push(long(buf, vector + 4 + 8 * i));
        i = i + 1;
    }
    assert(r@ =~= long_list(buf@, vector as int, n as int));
    r
}

/// The scales in a quantization table; none where they are cut off.
pub open spec fn scale_list(b: Seq<u8>, table: int) -> Seq<u32> {
    match vector_of(b, table, 2, 4) {
        Ok((v, n)) => unsigned_list(b, v, n),
        Err(_) => Seq::empty(),
    }
}

/// The zero points in a quantization table; none where they are cut off.
pub open spec fn zero_point_list(b: Seq<u8>, table: int) -> Seq<i64> {
    match vector_of(b, table, 3, 8) {
        Ok((v, n)) => long_list(b, v, n),
        Err(_) => Seq::empty(),
    }
}

/// Whether a quantization is that of a table: the first scale and the first
/// zero point, and all of them where there is more than one scale.
pub open spec fn is_quantization(q: QuantInfo, b: Seq<u8>, table: int) -> bool {
    let scales = scale_list(b, table);
    let zero_points = zero_point_list(b, table);
    &&& scales.len() > 0
    &&& q.scale == scales[0]
    &&& q.zero_point == if zero_points.len() > 0 {
        zero_points[0]
    } else {
        0
    }
    &&& match q.per_channel {
        Some(pc) => scales.len() > 1 && pc.scales@ == scales && pc.zero_points@ == zero_points
            && pc.quantized_dimension == word_field(b, table, 6, 0),
        None => scales.len() == 1,
    }
}

/// The quantization in a table; nothing where it has no scale.
pub fn parse_quantization_table(buf: &[u8], table: usize) -> (r: Option<QuantInfo>)
    ensures
        match r {
            Some(q) => is_quantization(q, buf@, table as int),
            None => scale_list(buf@, table as int).len() == 0,
        },
{
    let scales: Vec<u32> = match locate(buf, table, 2, 4) {
        Ok((v, n)) => read_unsigned(buf, v, n),
        Err(_) => Vec::new(),
    };
    assert(scales@ =~= scale_list(buf@, table as int));
    if scales.len() == 0 {
        return None;
    }
    let zero_points: Vec<i64> = match locate(buf, table, 3, 8) {
        Ok((v, n)) => read_longs(buf, v, n),
        Err(_) => Vec::new(),
    };
    assert(zero_points@ =~= zero_point_list(buf@, table as int));
    let scale: u32 = scales[0];
    let zero_point: i64 = if zero_points.len() > 0 { zero_points[0] } else { 0 };
    let per_channel: Option<PerChannelQuant> = if scales.len() > 1 {
        Some(
            PerChannelQuant {
                scales,
                zero_points,
                quantized_dimension: read_word_field(buf, table, 6, 0),
            },
        )
    } else {
        None
    };
    Some(QuantInfo { scale, zero_point, per_channel })
}

/// A byte field that holds an enumeration; zero where it is left out.
pub open spec fn code_field(b: Seq<u8>, table: int, field: int) -> i8 {
    bytes::signed_byte(byte_field(b, table, field, 0)) as i8
}

/// A byte field that holds a truth value.
pub open spec fn flag_field(b: Seq<u8>, table: int, field: int, default: u8) -> bool {
    byte_field(b, table, field, default) != 0
}

/// The options of a convolution.
pub open spec fn conv2d_options(b: Seq<u8>, t: int) -> ParsedOptions {
    ParsedOptions::Conv2D {
        padding: code_field(b, t, 0),
        stride_w: word_field(b, t, 1, 1),
        stride_h: word_field(b, t, 2, 1),
        dilation_w: word_field(b, t, 4, 1),
        dilation_h: word_field(b, t, 5, 1),
        fused_activation: code_field(b, t, 3),
    }
}

/// The options of a convolution.
pub fn parse_conv2d_options(buf: &[u8], table: usize) -> (r: ParsedOptions)
    ensures
        r == conv2d_options(buf@, table as int),
{
    ParsedOptions::Conv2D {
        padding: read_code_field(buf, table, 0),
        stride_w: read_word_field(buf, table, 1, 1),
        stride_h: read_word_field(buf, table, 2, 1),
        dilation_w: read_word_field(buf, table, 4, 1),
        dilation_h: read_word_field(buf, table, 5, 1),
        fused_activation: read_code_field(buf, table, 3),
    }
}

/// The options of a depthwise convolution.
pub open spec fn depthwise_options(b: Seq<u8>, t: int) -> ParsedOptions {
    ParsedOptions::DepthwiseConv2D {
        padding: code_field(b, t, 0),
        stride_w: word_field(b, t, 1, 1),
        stride_h: word_field(b, t, 2, 1),
        depth_multiplier: word_field(b, t, 3, 1),
        dilation_w: word_field(b, t, 5, 1),
        dilation_h: word_field(b, t, 6, 1),
        fused_activation: code_field(b, t, 4),
    }
}

/// The options of a pool.
pub open spec fn pool2d_options(b: Seq<u8>, t: int) -> ParsedOptions {
    ParsedOptions::Pool2D {
        padding: code_field(b, t, 0),
        stride_w: word_field(b, t, 1, 1),
        stride_h: word_field(b, t, 2, 1),
        filter_w: word_field(b, t, 3, 1),
        filter_h: word_field(b, t, 4, 1),
        fused_activation: code_field(b, t, 5),
    }
}

/// The bytes of a table without what it refers to: as many as its vtable says.
pub open spec fn table_bytes(b: Seq<u8>, t: int) -> Seq<u8> {
    let vtable = t - bytes::word_at(b, t);
    if has(b, t, 4) && has(b, vtable, 4) && has(b, t, half_at(b, vtable + 2)) {
        b.subrange(t, t + half_at(b, vtable + 2))
    } else {
        Seq::empty()
    }
}

/// Whether options are those that an operator with this code has in a table.
/// Options without a typed form are kept as bytes.
pub open spec fn are_options(o: ParsedOptions, b: Seq<u8>, t: int, code: i32) -> bool {
    if code == CONV_2D {
        o == conv2d_options(b, t)
    } else if code == DEPTHWISE_CONV_2D {
        o == depthwise_options(b, t)
    } else if code == FULLY_CONNECTED {
        o == (ParsedOptions::FullyConnected {
            fused_activation: code_field(b, t, 0),
            weights_format: code_field(b, t, 1),
            keep_num_dims: flag_field(b, t, 2, 0),
        })
    } else if code == AVERAGE_POOL_2D || code == MAX_POOL_2D {
        o == pool2d_options(b, t)
    } else if code == SOFTMAX {
        o == (ParsedOptions::Softmax { beta: unsigned_field(b, t, 0, 0) })
    } else if code == ADD {
        o == (ParsedOptions::Add {
            fused_activation: code_field(b, t, 0),
            pot_scale_int16: flag_field(b, t, 1, 1),
        })
    } else if code == SUB {
        o == (ParsedOptions::Sub {
            fused_activation: code_field(b, t, 0),
            pot_scale_int16: flag_field(b, t, 1, 1),
        })
    } else if code == MUL {
        o == (ParsedOptions::Mul { fused_activation: code_field(b, t, 0) })
    } else if code == RESHAPE {
        o matches ParsedOptions::Reshape { new_shape } && vector_of(b, t, 0, 4) matches Ok((v, n))
            && new_shape@ == word_list(b, v, n)
    } else if code == LEAKY_RELU {
        o == (ParsedOptions::LeakyRelu { alpha: unsigned_field(b, t, 0, 0) })
    } else if code == PRELU {
        o == ParsedOptions::Prelu
    } else if code == RESIZE_NEAREST_NEIGHBOR {
        o == (ParsedOptions::ResizeNearest {
            align_corners: flag_field(b, t, 0, 0),
            half_pixel_centers: flag_field(b, t, 1, 0),
        })
    } else {
        o matches ParsedOptions::Custom(raw) && raw@ == table_bytes(b, t)
    }
}

/// Fails where the options of an operator refer to something outside.
pub open spec fn options_failure(b: Seq<u8>, t: int, code: i32) -> Option<ParseError> {
    if code == RESHAPE {
        match vector_of(b, t, 0, 4) {
            Ok(_) => None,
            Err(e) => Some(e),
        }
    } else {
        None
    }
}

fn read_table_bytes(buf: &[u8], table: usize) -> (r: Vec<u8>)
    ensures
        r@ == table_bytes(buf@, table as int),
{
    let mut r: Vec<u8> = Vec::new();
    if !in_range(buf, table, 4) {
        return r;
    }
    let start: i128 = table as i128 - word(buf, table) as i128;
    if start < 0 || start > buf.len() as i128 || !in_range(buf, start as usize, 4) {
        return r;
    }
    let size: usize = half(buf, start as usize + 2) as usize;
    if !in_range(buf, table, size) {
        return r;
    }
    let end: usize = buf.len();
    let mut i: usize = 0;
    while i < size
        invariant
            i <= size,
            table + size <= end,
            end == buf@.len(),
            r@.len() == i,
            forall|k: int| 0 <= k < i ==> r@[k] == buf@[table + k],
        decreases size - i,
    {
        r.push(buf[table + i]);
        i = i + 1;
    }
    assert(r@ =~= buf@.subrange(table as int, table + size));
    r
}

fn parse_options(buf: &[u8], table: usize, code: i32) -> (r: Result<ParsedOptions, ParseError>)
    ensures
        match r {
            Ok(o) => options_failure(buf@, table as int, code) is None && are_options(
                o,
                buf@,
                table as int,
                code,
            ),
            Err(e) => options_failure(buf@, table as int, code) == Some(e),
        },
{
    if code == CONV_2D {
        Ok(parse_conv2d_options(buf, table))
    } else if code == DEPTHWISE_CONV_2D {
        Ok(
            ParsedOptions::DepthwiseConv2D {
                padding: read_code_field(buf, table, 0),
                stride_w: read_word_field(buf, table, 1, 1),
                stride_h: read_word_field(buf, table, 2, 1),
                depth_multiplier: read_word_field(buf, table, 3, 1),
                dilation_w: read_word_field(buf, table, 5, 1),
                dilation_h: read_word_field(buf, table, 6, 1),
                fused_activation: read_code_field(buf, table, 4),
            },
        )
    } else if code == FULLY_CONNECTED {
        Ok(
            ParsedOptions::FullyConnected {
                fused_activation: read_code_field(buf, table, 0),
                weights_format: read_code_field(buf, table, 1),
                keep_num_dims: read_byte_field(buf, table, 2, 0) != 0,
            },
        )
    } else if code == AVERAGE_POOL_2D || code == MAX_POOL_2D {
        Ok(
            ParsedOptions::Pool2D {
                padding: read_code_field(buf, table, 0),
                stride_w: read_word_field(buf, table, 1, 1),
                stride_h: read_word_field(buf, table, 2, 1),
                filter_w: read_word_field(buf, table, 3, 1),
                filter_h: read_word_field(buf, table, 4, 1),
                fused_activation: read_code_field(buf, table, 5),
            },
        )
    } else if code == SOFTMAX {
        Ok(ParsedOptions::Softmax { beta: read_unsigned_field(buf, table, 0, 0) })
    } else if code == ADD {
        Ok(
            ParsedOptions::Add {
                fused_activation: read_code_field(buf, table, 0),
                pot_scale_int16: read_byte_field(buf, table, 1, 1) != 0,
            },
        )
    } else if code == SUB {
        Ok(
            ParsedOptions::Sub {
                fused_activation: read_code_field(buf, table, 0),
                pot_scale_int16: read_byte_field(buf, table, 1, 1) != 0,
            },
        )
    } else if code == MUL {
        Ok(ParsedOptions::Mul { fused_activation: read_code_field(buf, table, 0) })
    } else if code == RESHAPE {
        let (v, n): (usize, usize) = locate(buf, table, 0, 4)?;
        Ok(ParsedOptions::Reshape { new_shape: read_word_list(buf, v, n) })
    } else if code == LEAKY_RELU {
        Ok(ParsedOptions::LeakyRelu { alpha: read_unsigned_field(buf, table, 0, 0) })
    } else if code == PRELU {
        Ok(ParsedOptions::Prelu)
    } else if code == RESIZE_NEAREST_NEIGHBOR {
        Ok(
            ParsedOptions::ResizeNearest {
                align_corners: read_byte_field(buf, table, 0, 0) != 0,
                half_pixel_centers: read_byte_field(buf, table, 1, 0) != 0,
            },
        )
    } else {
        Ok(ParsedOptions::Custom(read_table_bytes(buf, table)))
    }
}

/// The first failure of two.
pub open spec fn first_of(a: Option<ParseError>, b: Option<ParseError>) -> Option<ParseError> {
    match a {
        Some(e) => Some(e),
        None => b,
    }
}

/// Fails where a field refers to a vector that is not inside.
pub open spec fn vector_failure(b: Seq<u8>, table: int, field: int, size: int) -> Option<ParseError> {
    match vector_of(b, table, field, size) {
        Ok(_) => None,
        Err(e) => Some(e),
    }
}

/// The table that an entry of a vector of tables refers to.
pub open spec fn entry_at(b: Seq<u8>, vector: int, i: int) -> Result<int, ParseError> {
    target_at(b, vector + 4 + 4 * i)
}

fn entry(buf: &[u8], vector: usize, n: usize, i: usize) -> (r: Result<usize, ParseError>)
    requires
        has(buf@, vector + 4, 4 * n),
        i < n,
    ensures
        match r {
            Ok(t) => entry_at(buf@, vector as int, i as int) == Ok::<int, ParseError>(t as int),
            Err(e) => entry_at(buf@, vector as int, i as int) == Err::<int, ParseError>(e),
        },
{
    let end: usize = buf.len();
    assert(vector + 4 + 4 * n <= end);
    target(buf, vector + 4 + 4 * i)
}

/// Fails where a buffer is not inside.
pub open spec fn buffer_failure(b: Seq<u8>, vector: int, i: int) -> Option<ParseError> {
    match entry_at(b, vector, i) {
        Ok(t) => vector_failure(b, t, 0, 1),
        Err(e) => Some(e),
    }
}

/// The bytes of a buffer.
pub open spec fn buffer_bytes(b: Seq<u8>, vector: int, i: int) -> Seq<u8> {
    match entry_at(b, vector, i) {
        Ok(t) => match vector_of(b, t, 0, 1) {
            Ok((v, n)) => byte_list(b, v, n),
            Err(_) => Seq::empty(),
        },
        Err(_) => Seq::empty(),
    }
}

/// Fails where one of the first `n` buffers is not inside.
pub open spec fn buffers_failure(b: Seq<u8>, vector: int, n: nat) -> Option<ParseError>
    decreases n,
{
    if n == 0 {
        None
    } else {
        first_of(
            buffers_failure(b, vector, (n - 1) as nat),
            buffer_failure(b, vector, n - 1),
        )
    }
}

/// Fails where a vector of buffers or a buffer of it is not inside.
pub open spec fn buffer_list_failure(b: Seq<u8>, vector: int) -> Option<ParseError> {
    match count_at(b, vector, 4) {
        Ok(n) => buffers_failure(b, vector, n as nat),
        Err(e) => Some(e),
    }
}

/// Whether these are the buffers of a vector.
pub open spec fn are_buffers(list: Seq<Vec<u8>>, b: Seq<u8>, vector: int) -> bool {
    &&& count_at(b, vector, 4) == Ok::<int, ParseError>(list.len() as int)
    &&& forall|i: int| 0 <= i < list.len() ==> (#[trigger] list[i])@ == buffer_bytes(b, vector, i)
}

proof fn lemma_buffers_failure(b: Seq<u8>, vector: int, k: nat, n: nat)
    requires
        k < n,
        buffers_failure(b, vector, k) is None,
        buffer_failure(b, vector, k as int) is Some,
    ensures
        buffers_failure(b, vector, n) == buffer_failure(b, vector, k as int),
    decreases n - k,
{
    if n > k + 1 {
        lemma_buffers_failure(b, vector, k, (n - 1) as nat);
    }
}

fn parse_buffer(buf: &[u8], vector: usize, n: usize, i: usize) -> (r: Result<Vec<u8>, ParseError>)
    requires
        has(buf@, vector + 4, 4 * n),
        i < n,
    ensures
        match r {
            Ok(data) => buffer_failure(buf@, vector as int, i as int) is None && data@
                == buffer_bytes(buf@, vector as int, i as int),
            Err(e) => buffer_failure(buf@, vector as int, i as int) == Some(e),
        },
{
    let table: usize = entry(buf, vector, n, i)?;
    let (v, m): (usize, usize) = locate(buf, table, 0, 1)?;
    Ok(read_bytes(buf, v, m))
}

/// The buffers of a vector. A buffer without data is empty.
pub fn parse_buffers(buf: &[u8], vector: usize) -> (r: Result<Vec<Vec<u8>>, ParseError>)
    ensures
        match r {
            Ok(list) => buffer_list_failure(buf@, vector as int) is None && are_buffers(
                list@,
                buf@,
                vector as int,
            ),
            Err(e) => buffer_list_failure(buf@, vector as int) == Some(e),
        },
{
    let n: usize = count(buf, vector, 4)?;
    let mut list: Vec<Vec<u8>> = Vec::new();
    let mut i: usize = 0;
    while i < n
        invariant
            i <= n,
            has(buf@, vector + 4, 4 * n),
            count_at(buf@, vector as int, 4) == Ok::<int, ParseError>(n as int),
            list@.len() == i,
            buffers_failure(buf@, vector as int, i as nat) is None,
            forall|k: int|
                0 <= k < i ==> (#[trigger] list@[k])@ == buffer_bytes(buf@, vector as int, k),
        decreases n - i,
    {
        match parse_buffer(buf, vector, n, i) {
            Ok(data) => list.push(data),
            Err(e) => {
                proof {
                    lemma_buffers_failure(buf@, vector as int, i as nat, n as nat);
                }
                return Err(e);
            },
        }
        i = i + 1;
    }
    Ok(list)
}

/// The operator code in a table: an old file has it in a byte, a new one in a
/// word, and the larger counts.
pub open spec fn code_of(b: Seq<u8>, table: int) -> i32 {
    let old_code = byte_field(b, table, 0, 0) as i32;
    let new_code = word_field(b, table, 3, 0);
    if old_code > new_code {
        old_code
    } else {
        new_code
    }
}

/// The operator code in an entry of a vector.
pub open spec fn code_at(b: Seq<u8>, vector: int, i: int) -> i32 {
    match entry_at(b, vector, i) {
        Ok(t) => code_of(b, t),
        Err(_) => 0,
    }
}

/// Fails where one of the first `n` entries of a vector leads outside.
pub open spec fn entries_failure(b: Seq<u8>, vector: int, n: nat) -> Option<ParseError>
    decreases n,
{
    if n == 0 {
        None
    } else {
        first_of(
            entries_failure(b, vector, (n - 1) as nat),
            match entry_at(b, vector, n - 1) {
                Ok(_) => None,
                Err(e) => Some(e),
            },
        )
    }
}

proof fn lemma_entries_failure(b: Seq<u8>, vector: int, k: nat, n: nat)
    requires
        k < n,
        entries_failure(b, vector, k) is None,
        entry_at(b, vector, k as int) is Err,
    ensures
        entries_failure(b, vector, n) == Some(entry_at(b, vector, k as int)->Err_0),
    decreases n - k,
{
    if n > k + 1 {
        lemma_entries_failure(b, vector, k, (n - 1) as nat);
    }
}

fn parse_codes(buf: &[u8], vector: usize, n: usize) -> (r: Result<Vec<i32>, ParseError>)
    requires
        n > 0 ==> has(buf@, vector + 4, 4 * n),
    ensures
        match r {
            Ok(list) => entries_failure(buf@, vector as int, n as nat) is None && list@ == Seq::new(
                n as nat,
                |i: int| code_at(buf@, vector as int, i),
            ),
            Err(e) => entries_failure(buf@, vector as int, n as nat) == Some(e),
        },
{
    let mut list: Vec<i32> = Vec::new();
    let mut i: usize = 0;
    while i < n
        invariant
            i <= n,
            n > 0 ==> has(buf@, vector + 4, 4 * n),
            list@.len() == i,
            entries_failure(buf@, vector as int, i as nat) is None,
            forall|k: int| 0 <= k < i ==> list@[k] == #[trigger] code_at(buf@, vector as int, k),
        decreases n - i,
    {
        match entry(buf, vector, n, i) {
            Ok(table) => {
                let old_code: i32 = read_byte_field(buf, table, 0, 0) as i32;
                let new_code: i32 = read_word_field(buf, table, 3, 0);
                let code: i32 = if old_code > new_code { old_code } else { new_code };
                assert(code == code_at(buf@, vector as int, i as int));
                list.push(code);
            },
            Err(e) => {
                proof {
                    lemma_entries_failure(buf@, vector as int, i as nat, n as nat);
                }
                return Err(e);
            },
        }
        i = i + 1;
    }
    assert(list@ =~= Seq::new(n as nat, |i: int| code_at(buf@, vector as int, i)));
    Ok(list)
}

/// The element type with a number.
pub open spec fn type_of_number(n: u8) -> TensorType {
    if n == 0 {
        TensorType::Float32
    } else if n == 1 {
        TensorType::Float16
    } else if n == 2 {
        TensorType::Int32
    } else if n == 3 {
        TensorType::Uint8
    } else if n == 4 {
        TensorType::Int64
    } else if n == 5 {
        TensorType::String
    } else if n == 6 {
        TensorType::Bool
    } else if n == 7 {
        TensorType::Int16
    } else if n == 8 {
        TensorType::Complex64
    } else if n == 9 {
        TensorType::Int8
    } else if n == 10 {
        TensorType::Float64
    } else if n == 11 {
        TensorType::Complex128
    } else if n == 12 {
        TensorType::Uint64
    } else if n == 13 {
        TensorType::Resource
    } else if n == 14 {
        TensorType::Variant
    } else if n == 15 {
        TensorType::Uint32
    } else if n == 16 {
        TensorType::Uint16
    } else if n == 17 {
        TensorType::Int4
    } else {
        TensorType::Unknown
    }
}

fn tensor_type(n: u8) -> (r: TensorType)
    ensures
        r == type_of_number(n),
{
    match n {
        0 => TensorType::Float32,
        1 => TensorType::Float16,
        2 => TensorType::Int32,
        3 => TensorType::Uint8,
        4 => TensorType::Int64,
        5 => TensorType::String,
        6 => TensorType::Bool,
        7 => TensorType::Int16,
        8 => TensorType::Complex64,
        9 => TensorType::Int8,
        10 => TensorType::Float64,
        11 => TensorType::Complex128,
        12 => TensorType::Uint64,
        13 => TensorType::Resource,
        14 => TensorType::Variant,
        15 => TensorType::Uint32,
        16 => TensorType::Uint16,
        17 => TensorType::Int4,
        _ => TensorType::Unknown,
    }
}

/// The text in UTF-8 bytes, by `String::from_utf8`; nothing where the bytes are
/// no UTF-8.
///
/// Trusted: the standard function succeeds exactly on valid UTF-8, and gives
/// the characters that the bytes encode.
#[verifier::external_body]
fn text_from_utf8(bytes: Vec<u8>) -> (r: Option<String>)
    ensures
        match r {
            Some(text) => vstd::utf8::valid_utf8(bytes@) && text@ == vstd::utf8::decode_utf8(bytes@),
            None => !vstd::utf8::valid_utf8(bytes@),
        },
{
    String::from_utf8(bytes).ok()
}

/// The text in bytes; empty where they are no UTF-8.
pub open spec fn text_of(bytes: Seq<u8>) -> Seq<char> {
    if vstd::utf8::valid_utf8(bytes) {
        vstd::utf8::decode_utf8(bytes)
    } else {
        Seq::empty()
    }
}

/// Fails where a tensor refers to something outside.
pub open spec fn tensor_failure(b: Seq<u8>, vector: int, i: int) -> Option<ParseError> {
    match entry_at(b, vector, i) {
        Ok(t) => first_of(
            vector_failure(b, t, 0, 4),
            first_of(
                vector_failure(b, t, 3, 1),
                match target_of(b, t, 4) {
                    Ok(_) => None,
                    Err(e) => Some(e),
                },
            ),
        ),
        Err(e) => Some(e),
    }
}

/// Whether a tensor is that in an entry of a vector.
pub open spec fn is_tensor(tensor: ParsedTensor, b: Seq<u8>, vector: int, i: int) -> bool {
    entry_at(b, vector, i) matches Ok(t) && {
        &&& vector_of(b, t, 0, 4) matches Ok((v, n)) && tensor.shape@ == word_list(b, v, n)
        &&& tensor.tensor_type == type_of_number(byte_field(b, t, 1, 0))
        &&& tensor.buffer_index == unsigned_field(b, t, 2, 0)
        &&& vector_of(b, t, 3, 1) matches Ok((v, n)) && tensor.name@ == text_of(byte_list(b, v, n))
        &&& match tensor.quant {
            Some(q) => target_of(b, t, 4) matches Ok(Some(table)) && is_quantization(q, b, table),
            None => target_of(b, t, 4) matches Ok(Some(table)) ==> scale_list(b, table).len() == 0,
        }
    }
}

fn parse_tensor(buf: &[u8], vector: usize, n: usize, i: usize) -> (r: Result<
    ParsedTensor,
    ParseError,
>)
    requires
        has(buf@, vector + 4, 4 * n),
        i < n,
    ensures
        match r {
            Ok(tensor) => tensor_failure(buf@, vector as int, i as int) is None && is_tensor(
                tensor,
                buf@,
                vector as int,
                i as int,
            ),
            Err(e) => tensor_failure(buf@, vector as int, i as int) == Some(e),
        },
{
    let table: usize = entry(buf, vector, n, i)?;
    let (v, m): (usize, usize) = locate(buf, table, 0, 4)?;
    let shape: Vec<i32> = read_word_list(buf, v, m);
    let (v, m): (usize, usize) = locate(buf, table, 3, 1)?;
    let name: String = match text_from_utf8(read_bytes(buf, v, m)) {
        Some(text) => text,
        None => String::new(),
    };
    let quant: Option<QuantInfo> = match field_target(buf, table, 4)? {
        Some(q) => parse_quantization_table(buf, q),
        None => None,
    };
    Ok(
        ParsedTensor {
            name,
            shape,
            tensor_type: tensor_type(read_byte_field(buf, table, 1, 0)),
            quant,
            buffer_index: read_unsigned_field(buf, table, 2, 0),
        },
    )
}

/// Fails where one of the first `n` tensors refers to something outside.
pub open spec fn tensors_failure(b: Seq<u8>, vector: int, n: nat) -> Option<ParseError>
    decreases n,
{
    if n == 0 {
        None
    } else {
        first_of(
            tensors_failure(b, vector, (n - 1) as nat),
            tensor_failure(b, vector, n - 1),
        )
    }
}

proof fn lemma_tensors_failure(b: Seq<u8>, vector: int, k: nat, n: nat)
    requires
        k < n,
        tensors_failure(b, vector, k) is None,
        tensor_failure(b, vector, k as int) is Some,
    ensures
        tensors_failure(b, vector, n) == tensor_failure(b, vector, k as int),
    decreases n - k,
{
    if n > k + 1 {
        lemma_tensors_failure(b, vector, k, (n - 1) as nat);
    }
}

fn parse_tensors(buf: &[u8], vector: usize, n: usize) -> (r: Result<Vec<ParsedTensor>, ParseError>)
    requires
        n > 0 ==> has(buf@, vector + 4, 4 * n),
    ensures
        match r {
            Ok(list) => tensors_failure(buf@, vector as int, n as nat) is None && list@.len() == n
                && forall|k: int|
                0 <= k < n ==> is_tensor(#[trigger] list@[k], buf@, vector as int, k),
            Err(e) => tensors_failure(buf@, vector as int, n as nat) == Some(e),
        },
{
    let mut list: Vec<ParsedTensor> = Vec::new();
    let mut i: usize = 0;
    while i < n
        invariant
            i <= n,
            n > 0 ==> has(buf@, vector + 4, 4 * n),
            list@.len() == i,
            tensors_failure(buf@, vector as int, i as nat) is None,
            forall|k: int| 0 <= k < i ==> is_tensor(#[trigger] list@[k], buf@, vector as int, k),
        decreases n - i,
    {
        match parse_tensor(buf, vector, n, i) {
            Ok(tensor) => list.push(tensor),
            Err(e) => {
                proof {
                    lemma_tensors_failure(buf@, vector as int, i as nat, n as nat);
                }
                return Err(e);
            },
        }
        i = i + 1;
    }
    Ok(list)
}

/// The table with the options of an operator; nothing where the operator says
/// that it has none.
pub open spec fn options_target(b: Seq<u8>, t: int) -> Result<Option<int>, ParseError> {
    if byte_field(b, t, 3, 0) == 0 {
        Ok(None)
    } else {
        target_of(b, t, 4)
    }
}

/// The axes of a mean: the words in the buffer of its second input.
pub open spec fn axes_of(
    tensors: Seq<ParsedTensor>,
    buffers: Seq<Vec<u8>>,
    inputs: Seq<u32>,
) -> Seq<i32> {
    if inputs.len() > 1 && inputs[1] < tensors.len() && tensors[inputs[1] as int].buffer_index
        < buffers.len() {
        bytes::words(buffers[tensors[inputs[1] as int].buffer_index as int]@)
    } else {
        Seq::empty()
    }
}

/// Fails where an operator refers to something outside.
pub open spec fn operator_failure(b: Seq<u8>, vector: int, i: int, codes: Seq<i32>) -> Option<
    ParseError,
> {
    match entry_at(b, vector, i) {
        Ok(t) => {
            let index = unsigned_field(b, t, 0, 0);
            let code = codes[index as int];
            first_of(
                if index < codes.len() {
                    None
                } else {
                    Some(ParseError::OperatorCode { op: i as usize, index })
                },
                first_of(
                    vector_failure(b, t, 1, 4),
                    first_of(
                        vector_failure(b, t, 2, 4),
                        first_of(
                            vector_failure(b, t, 5, 1),
                            match options_target(b, t) {
                                Ok(Some(o)) => if code == MEAN {
                                    None
                                } else {
                                    options_failure(b, o, code)
                                },
                                Ok(None) => None,
                                Err(e) => Some(e),
                            },
                        ),
                    ),
                ),
            )
        },
        Err(e) => Some(e),
    }
}

/// Whether an operator is that in an entry of a vector. A mean has options in
/// any case: its axes are an operand in the file.
pub open spec fn is_operator(
    op: ParsedOp,
    b: Seq<u8>,
    vector: int,
    i: int,
    codes: Seq<i32>,
    tensors: Seq<ParsedTensor>,
    buffers: Seq<Vec<u8>>,
) -> bool {
    entry_at(b, vector, i) matches Ok(t) && {
        &&& op.opcode_index == unsigned_field(b, t, 0, 0)
        &&& op.opcode_index < codes.len() && op.builtin_code == codes[op.opcode_index as int]
        &&& vector_of(b, t, 1, 4) matches Ok((v, n)) && op.inputs@ == unsigned_list(b, v, n)
        &&& vector_of(b, t, 2, 4) matches Ok((v, n)) && op.outputs@ == unsigned_list(b, v, n)
        &&& vector_of(b, t, 5, 1) matches Ok((v, n)) && op.custom_options@ == byte_list(b, v, n)
        &&& if op.builtin_code == MEAN {
            op.options matches Some(ParsedOptions::Mean { axis, keep_dims }) && axis@ == axes_of(
                tensors,
                buffers,
                op.inputs@,
            ) && keep_dims == (options_target(b, t) matches Ok(Some(o)) && flag_field(b, o, 0, 0))
        } else {
            match op.options {
                Some(options) => options_target(b, t) matches Ok(Some(o)) && are_options(
                    options,
                    b,
                    o,
                    op.builtin_code,
                ),
                None => options_target(b, t) == Ok::<Option<int>, ParseError>(None),
            }
        }
    }
}

fn mean_axes(tensors: &Vec<ParsedTensor>, buffers: &Vec<Vec<u8>>, inputs: &Vec<u32>) -> (r: Vec<i32>)
    ensures
        r@ == axes_of(tensors@, buffers@, inputs@),
{
    if inputs.len() > 1 && (inputs[1] as usize) < tensors.len() {
        let index: usize = tensors[inputs[1] as usize].buffer_index as usize;
        if index < buffers.len() {
            return read_words(&buffers[index]);
        }
    }
    Vec::new()
}

fn parse_operator(
    buf: &[u8],
    vector: usize,
    n: usize,
    i: usize,
    codes: &Vec<i32>,
    tensors: &Vec<ParsedTensor>,
    buffers: &Vec<Vec<u8>>,
) -> (r: Result<ParsedOp, ParseError>)
    requires
        has(buf@, vector + 4, 4 * n),
        i < n,
    ensures
        match r {
            Ok(op) => operator_failure(buf@, vector as int, i as int, codes@) is None
                && is_operator(op, buf@, vector as int, i as int, codes@, tensors@, buffers@),
            Err(e) => operator_failure(buf@, vector as int, i as int, codes@) == Some(e),
        },
{
    let table: usize = entry(buf, vector, n, i)?;
    let opcode_index: u32 = read_unsigned_field(buf, table, 0, 0);
    if opcode_index as usize >= codes.len() {
        return Err(ParseError::OperatorCode { op: i, index: opcode_index });
    }
    let builtin_code: i32 = codes[opcode_index as usize];
    let (v, m): (usize, usize) = locate(buf, table, 1, 4)?;
    let inputs: Vec<u32> = read_unsigned(buf, v, m);
    let (v, m): (usize, usize) = locate(buf, table, 2, 4)?;
    let outputs: Vec<u32> = read_unsigned(buf, v, m);
    let (v, m): (usize, usize) = locate(buf, table, 5, 1)?;
    let custom_options: Vec<u8> = read_bytes(buf, v, m);
    let target: Option<usize> = if read_byte_field(buf, table, 3, 0) == 0 {
        None
    } else {
        field_target(buf, table, 4)?
    };
    let options: Option<ParsedOptions> = if builtin_code == MEAN {
        Some(
            ParsedOptions::Mean {
                axis: mean_axes(tensors, buffers, &inputs),
                keep_dims: match target {
                    Some(o) => read_byte_field(buf, o, 0, 0) != 0,
                    None => false,
                },
            },
        )
    } else {
        match target {
            Some(o) => Some(parse_options(buf, o, builtin_code)?),
            None => None,
        }
    };
    Ok(ParsedOp { opcode_index, builtin_code, inputs, outputs, options, custom_options })
}

/// Fails where one of the first `n` operators refers to something outside.
pub open spec fn operators_failure(b: Seq<u8>, vector: int, n: nat, codes: Seq<i32>) -> Option<
    ParseError,
>
    decreases n,
{
    if n == 0 {
        None
    } else {
        first_of(
            operators_failure(b, vector, (n - 1) as nat, codes),
            operator_failure(b, vector, n - 1, codes),
        )
    }
}

proof fn lemma_operators_failure(b: Seq<u8>, vector: int, k: nat, n: nat, codes: Seq<i32>)
    requires
        k < n,
        operators_failure(b, vector, k, codes) is None,
        operator_failure(b, vector, k as int, codes) is Some,
    ensures
        operators_failure(b, vector, n, codes) == operator_failure(b, vector, k as int, codes),
    decreases n - k,
{
    if n > k + 1 {
        lemma_operators_failure(b, vector, k, (n - 1) as nat, codes);
    }
}

fn parse_operators(
    buf: &[u8],
    vector: usize,
    n: usize,
    codes: &Vec<i32>,
    tensors: &Vec<ParsedTensor>,
    buffers: &Vec<Vec<u8>>,
) -> (r: Result<Vec<ParsedOp>, ParseError>)
    requires
        n > 0 ==> has(buf@, vector + 4, 4 * n),
    ensures
        match r {
            Ok(list) => operators_failure(buf@, vector as int, n as nat, codes@) is None
                && list@.len() == n && forall|k: int|
                0 <= k < n ==> is_operator(
                    #[trigger] list@[k],
                    buf@,
                    vector as int,
                    k,
                    codes@,
                    tensors@,
                    buffers@,
                ),
            Err(e) => operators_failure(buf@, vector as int, n as nat, codes@) == Some(e),
        },
{
    let mut list: Vec<ParsedOp> = Vec::new();
    let mut i: usize = 0;
    while i < n
        invariant
            i <= n,
            n > 0 ==> has(buf@, vector + 4, 4 * n),
            list@.len() == i,
            operators_failure(buf@, vector as int, i as nat, codes@) is None,
            forall|k: int|
                0 <= k < i ==> is_operator(
                    #[trigger] list@[k],
                    buf@,
                    vector as int,
                    k,
                    codes@,
                    tensors@,
                    buffers@,
                ),
        decreases n - i,
    {
        match parse_operator(buf, vector, n, i, codes, tensors, buffers) {
            Ok(op) => list.push(op),
            Err(e) => {
                proof {
                    lemma_operators_failure(buf@, vector as int, i as nat, n as nat, codes@);
                }
                return Err(e);
            },
        }
        i = i + 1;
    }
    Ok(list)
}

/// Whether a file has the identifier of a model.
pub open spec fn identified(b: Seq<u8>) -> bool {
    b[4] == 0x54 && b[5] == 0x46 && b[6] == 0x4c && b[7] == 0x33
}

/// The operator codes of a model.
pub open spec fn codes_of(b: Seq<u8>, model: int) -> Seq<i32> {
    match vector_of(b, model, 1, 4) {
        Ok((v, n)) => Seq::new(n as nat, |i: int| code_at(b, v, i)),
        Err(_) => Seq::empty(),
    }
}

/// Fails where the first subgraph refers to something outside.
pub open spec fn subgraph_failure(b: Seq<u8>, graph: int, codes: Seq<i32>) -> Option<ParseError> {
    first_of(
        match vector_of(b, graph, 0, 4) {
            Ok((v, n)) => tensors_failure(b, v, n as nat),
            Err(e) => Some(e),
        },
        first_of(
            vector_failure(b, graph, 1, 4),
            first_of(
                vector_failure(b, graph, 2, 4),
                match vector_of(b, graph, 3, 4) {
                    Ok((v, n)) => operators_failure(b, v, n as nat, codes),
                    Err(e) => Some(e),
                },
            ),
        ),
    )
}

/// Fails where a file is not a model: in the order of its header, its buffers,
/// its operator codes and its first subgraph.
pub open spec fn parse_failure(b: Seq<u8>) -> Option<ParseError> {
    let model = unsigned_at(b, 0);
    if b.len() < 8 {
        Some(ParseError::TooShort { len: b.len() as usize })
    } else if !identified(b) {
        Some(ParseError::Identifier)
    } else {
        first_of(
            match target_of(b, model, 4) {
                Ok(Some(v)) => buffer_list_failure(b, v),
                Ok(None) => None,
                Err(e) => Some(e),
            },
            first_of(
                match vector_of(b, model, 1, 4) {
                    Ok((v, n)) => entries_failure(b, v, n as nat),
                    Err(e) => Some(e),
                },
                match vector_of(b, model, 2, 4) {
                    Ok((v, n)) => if n == 0 {
                        Some(ParseError::NoSubgraph)
                    } else {
                        match entry_at(b, v, 0) {
                            Ok(graph) => subgraph_failure(b, graph, codes_of(b, model)),
                            Err(e) => Some(e),
                        }
                    },
                    Err(e) => Some(e),
                },
            ),
        )
    }
}

/// Whether tensors, inputs, outputs and operators of a model are those of a
/// subgraph.
pub open spec fn is_subgraph(m: ParsedModel, b: Seq<u8>, graph: int, codes: Seq<i32>) -> bool {
    &&& vector_of(b, graph, 0, 4) matches Ok((v, n)) && m.tensors@.len() == n && forall|k: int|
        0 <= k < n ==> is_tensor(#[trigger] m.tensors@[k], b, v, k)
    &&& vector_of(b, graph, 1, 4) matches Ok((v, n)) && m.inputs@ == unsigned_list(b, v, n)
    &&& vector_of(b, graph, 2, 4) matches Ok((v, n)) && m.outputs@ == unsigned_list(b, v, n)
    &&& vector_of(b, graph, 3, 4) matches Ok((v, n)) && m.ops@.len() == n && forall|k: int|
        0 <= k < n ==> is_operator(
            #[trigger] m.ops@[k],
            b,
            v,
            k,
            codes,
            m.tensors@,
            m.buffers@,
        )
}

/// Whether a model is that in a file.
pub open spec fn is_model(m: ParsedModel, b: Seq<u8>) -> bool {
    let model = unsigned_at(b, 0);
    &&& match target_of(b, model, 4) {
        Ok(Some(v)) => are_buffers(m.buffers@, b, v),
        _ => m.buffers@.len() == 0,
    }
    &&& match vector_of(b, model, 2, 4) {
        Ok((v, n)) => m.subgraph_count == n && (match entry_at(b, v, 0) {
            Ok(graph) => is_subgraph(m, b, graph, codes_of(b, model)),
            Err(_) => false,
        }),
        Err(_) => false,
    }
}

/// Reads a model file. Of the subgraphs only the first is read.
pub fn parse(buf: &[u8]) -> (r: Result<ParsedModel, ParseError>)
    ensures
        match r {
            Ok(m) => parse_failure(buf@) is None && is_model(m, buf@),
            Err(e) => parse_failure(buf@) == Some(e),
        },
{
    if buf.len() < 8 {
        return Err(ParseError::TooShort { len: buf.len() });
    }
    if buf[4] != 0x54 || buf[5] != 0x46 || buf[6] != 0x4c || buf[7] != 0x33 {
        return Err(ParseError::Identifier);
    }
    let model: usize = unsigned(buf, 0) as usize;
    let buffers: Vec<Vec<u8>> = match field_target(buf, model, 4)? {
        Some(v) => parse_buffers(buf, v)?,
        None => Vec::new(),
    };
    let (v, n): (usize, usize) = locate(buf, model, 1, 4)?;
    let codes: Vec<i32> = parse_codes(buf, v, n)?;
    let (v, subgraph_count): (usize, usize) = locate(buf, model, 2, 4)?;
    if subgraph_count == 0 {
        return Err(ParseError::NoSubgraph);
    }
    let graph: usize = entry(buf, v, subgraph_count, 0)?;
    let (v, n): (usize, usize) = locate(buf, graph, 0, 4)?;
    let tensors: Vec<ParsedTensor> = parse_tensors(buf, v, n)?;
    let (v, n): (usize, usize) = locate(buf, graph, 1, 4)?;
    let inputs: Vec<u32> = read_unsigned(buf, v, n);
    let (v, n): (usize, usize) = locate(buf, graph, 2, 4)?;
    let outputs: Vec<u32> = read_unsigned(buf, v, n);
    let (v, n): (usize, usize) = locate(buf, graph, 3, 4)?;
    let ops: Vec<ParsedOp> = parse_operators(buf, v, n, &codes, &tensors, &buffers)?;
    Ok(ParsedModel { subgraph_count, tensors, ops, inputs, outputs, buffers })
}

/// A field that the vtable is too short to list, or lists as zero, has its
/// default; a vector in its place is empty.
pub proof fn law_absent_fields_have_defaults(b: Seq<u8>, table: int, field: int)
    requires
        ({
            let vtable = table - bytes::word_at(b, table);
            has(b, table, 4) && has(b, vtable, 4) && (4 + 2 * field + 2 > half_at(b, vtable)
                || half_at(b, vtable + 4 + 2 * field) == 0)
        }),
    ensures
        forall|d: u8| byte_field(b, table, field, d) == d,
        forall|d: i32| word_field(b, table, field, d) == d,
        forall|d: u32| unsigned_field(b, table, field, d) == d,
        forall|size: int| #[trigger]
            vector_of(b, table, field, size) == Ok::<(int, int), ParseError>((0int, 0int)),
{
}

/// A model file has the identifier and names at least one subgraph, and every
/// operator in it has a listed code.
pub proof fn law_models_are_identified(m: ParsedModel, b: Seq<u8>, k: int)
    requires
        parse_failure(b) is None,
        is_model(m, b),
        0 <= k < m.ops@.len(),
    ensures
        b.len() >= 8,
        identified(b),
        m.subgraph_count > 0,
        codes_of(b, unsigned_at(b, 0)).contains(m.ops@[k].builtin_code),
{
    let codes = codes_of(b, unsigned_at(b, 0));
    assert(codes[m.ops@[k].opcode_index as int] == m.ops@[k].builtin_code);
}

} // verus!
