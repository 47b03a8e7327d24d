//! 32-bit word arithmetic and big-endian byte/word conversions.
//!
//! SHA-1 works on 32-bit words: addition modulo 2^32, left rotation, and
//! big-endian assembly of words from the byte stream.  The spec functions
//! here are the vocabulary in which the rest of the library states its
//! contracts.

use vstd::prelude::*;

verus! {

/// Addition of two 32-bit words modulo 2^32; wraparound is the defined
/// semantic of every addition in SHA-1.
pub open spec fn wadd(x: u32, y: u32) -> u32 {
    if x + y > u32::MAX {
        (x + y - 0x1_0000_0000) as u32
    } else {
        (x + y) as u32
    }
}

/// Left rotation of a 32-bit word by `n` positions.
pub open spec fn rotl(x: u32, n: u32) -> u32
    recommends
        0 < n < 32,
{
    (x << n) | (x >> ((32 - n) as u32))
}

/// Modular 32-bit addition.
pub(crate) fn add_mod(x: u32, y: u32) -> (r: u32)
    ensures
        r == wadd(x, y),
{
    x.wrapping_add(y)
}

/// Left rotation of a 32-bit word.
pub(crate) fn rotl32(x: u32, n: u32) -> (r: u32)
    requires
        0 < n < 32,
    ensures
        r == rotl(x, n),
{
    (x << n) | (x >> (32 - n))
}

/// A 32-bit word assembled big-endian (most significant byte first) from
/// four consecutive bytes.
pub open spec fn word_be(b0: u8, b1: u8, b2: u8, b3: u8) -> u32 {
    ((b0 as u32) << 24) | ((b1 as u32) << 16) | ((b2 as u32) << 8) | (b3 as u32)
}

/// The sixteen big-endian words of one 64-byte block.
pub open spec fn block_words(bytes: Seq<u8>) -> Seq<u32>
    recommends
        bytes.len() == 64,
{
    Seq::new(16, |i: int| word_be(bytes[4 * i], bytes[4 * i + 1], bytes[4 * i + 2], bytes[4 * i + 3]))
}

/// Byte `j` of a 32-bit word, counting from the most significant byte.
pub open spec fn word_byte(w: u32, j: int) -> u8
    recommends
        0 <= j < 4,
{
    if j == 0 {
        (w >> 24) as u8
    } else if j == 1 {
        (w >> 16) as u8
    } else if j == 2 {
        (w >> 8) as u8
    } else {
        w as u8
    }
}

/// The big-endian byte rendering of a sequence of 32-bit words.
pub open spec fn words_bytes(ws: Seq<u32>) -> Seq<u8> {
    Seq::new(ws.len() * 4, |i: int| word_byte(ws[i / 4], i % 4))
}

/// The eight big-endian bytes of a 64-bit value (the length suffix of the
/// padding).
pub open spec fn be64_bytes(x: u64) -> Seq<u8> {
    seq![
        (x >> 56) as u8,
        (x >> 48) as u8,
        (x >> 40) as u8,
        (x >> 32) as u8,
        (x >> 24) as u8,
        (x >> 16) as u8,
        (x >> 8) as u8,
        x as u8,
    ]
}

} // verus!
