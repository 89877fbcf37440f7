//! Little-endian words in constant data.

use vstd::prelude::*;

verus! {

/// The unsigned word in four bytes, the lowest first.
pub open spec fn unsigned_word(b0: u8, b1: u8, b2: u8, b3: u8) -> int {
    b0 + 0x100 * b1 + 0x1_0000 * b2 + 0x100_0000 * b3
}

/// The signed word in four bytes, the lowest first.
pub open spec fn signed_word(b0: u8, b1: u8, b2: u8, b3: u8) -> int {
    let u = unsigned_word(b0, b1, b2, b3);
    if u >= 0x8000_0000 {
        u - 0x1_0000_0000
    } else {
        u
    }
}

/// The signed word at a position in a list of bytes.
pub open spec fn word_at(bytes: Seq<u8>, at: int) -> int {
    signed_word(bytes[at], bytes[at + 1], bytes[at + 2], bytes[at + 3])
}

/// All signed words in a list of bytes.
pub open spec fn words(bytes: Seq<u8>) -> Seq<i32> {
    Seq::new(bytes.len() / 4, |k: int| word_at(bytes, 4 * k) as i32)
}

/// The signed word at a position in a list of bytes.
pub fn read_word(bytes: &Vec<u8>, at: usize) -> (r: i32)
    requires
        at + 3 < bytes@.len(),
    ensures
        r == word_at(bytes@, at as int),
{
    let last: usize = bytes.len() - 1;
    assert(at + 3 <= last);
    let u: i64 = bytes[at] as i64 + 0x100 * (bytes[at + 1] as i64) + 0x1_0000 * (bytes[at
        + 2] as i64) + 0x100_0000 * (bytes[at + 3] as i64);
    if u >= 0x8000_0000 {
        (u - 0x1_0000_0000) as i32
    } else {
        u as i32
    }
}

/// All signed words in a list of bytes.
pub fn read_words(bytes: &Vec<u8>) -> (r: Vec<i32>)
    ensures
        r@ == words(bytes@),
{
    let size: usize = bytes.len();
    let n: usize = size / 4;
    let mut r: Vec<i32> = Vec::new();
    let mut k: usize = 0;
    while k < n
        invariant
            k <= n,
            n == size / 4,
            size == bytes@.len(),
            r@.len() == k,
            forall|j: int| 0 <= j < k ==> #[trigger] r@[j] == word_at(bytes@, 4 * j) as i32,
        decreases n - k,
    {
        r.push(read_word(bytes, 4 * k));
        k = k + 1;
    }
    assert(r@ =~= words(bytes@));
    r
}

/// A byte as a signed number.
pub open spec fn signed_byte(b: u8) -> int {
    if b < 128 {
        b as int
    } else {
        b - 256
    }
}

/// All bytes as signed numbers.
pub open spec fn signed_bytes(bytes: Seq<u8>) -> Seq<i8> {
    Seq::new(bytes.len(), |k: int| signed_byte(bytes[k]) as i8)
}

/// All bytes as signed numbers.
pub fn read_signed(bytes: &Vec<u8>) -> (r: Vec<i8>)
    ensures
        r@ == signed_bytes(bytes@),
{
    let mut r: Vec<i8> = Vec::new();
    let mut k: usize = 0;
    while k < bytes.len()
        invariant
            k <= bytes@.len(),
            r@.len() == k,
            forall|j: int| 0 <= j < k ==> #[trigger] r@[j] == signed_byte(bytes@[j]) as i8,
        decreases bytes@.len() - k,
    {
        let b: u8 = bytes[k];
        r.push(
            if b < 128 {
                b as i8
            } else {
                (b as i16 - 256) as i8
            },
        );
        k = k + 1;
    }
    assert(r@ =~= signed_bytes(bytes@));
    r
}

} // verus!
