//! The SHA-1 hash of a whole message, as a mathematical function.
//!
//! `sha1_digest` maps an arbitrary byte sequence to its 20-byte digest:
//! append the padding (a `0x80` byte, zero bytes up to 56 modulo 64, and the
//! big-endian 64-bit bit length), then run the block transform over the
//! padded stream, 64 bytes at a time, starting from the fixed initial state.
//! The engine's contracts are stated against these functions.

use vstd::prelude::*;

use vstd::arithmetic::div_mod::{
    lemma_add_mod_noop,
    lemma_mod_self_0,
    lemma_mod_sub_multiples_vanish,
    lemma_small_mod,
};

use crate::block::compress;
use crate::words::{be64_bytes, block_words, words_bytes};

verus! {

/// The fixed initial running state.
pub open spec fn init_state() -> Seq<u32> {
    seq![0x67452301u32, 0xEFCDAB89u32, 0x98BADCFEu32, 0x10325476u32, 0xC3D2E1F0u32]
}

/// Folds the block transform over a stream of complete 64-byte blocks.
pub open spec fn process_blocks(s: Seq<u32>, msg: Seq<u8>) -> Seq<u32>
    recommends
        s.len() == 5,
        msg.len() % 64 == 0,
    decreases msg.len(),
{
    if msg.len() < 64 {
        s
    } else {
        process_blocks(compress(s, block_words(msg.take(64))), msg.skip(64))
    }
}

/// How many zero bytes the padding inserts after the `0x80` byte, so that
/// the padded length is congruent to 56 modulo 64 before the length suffix.
pub open spec fn zero_count(len: nat) -> nat {
    if len % 64 < 56 {
        (55 - len % 64) as nat
    } else {
        (119 - len % 64) as nat
    }
}

/// The padding appended to a message of `len` bytes: one `0x80` byte, zero
/// bytes up to 56 modulo 64, then the 8-byte big-endian total bit length.
pub open spec fn padding(len: nat) -> Seq<u8> {
    seq![0x80u8] + Seq::new(zero_count(len), |i: int| 0u8) + be64_bytes((len * 8) as u64)
}

/// The five state words after hashing the whole message: pad, then process
/// every 64-byte block from the initial state.
pub open spec fn sha1_words(msg: Seq<u8>) -> Seq<u32> {
    process_blocks(init_state(), msg + padding(msg.len()))
}

/// The 20-byte SHA-1 digest of an arbitrary byte sequence: the five state
/// words rendered big-endian.
pub open spec fn sha1_digest(msg: Seq<u8>) -> Seq<u8> {
    words_bytes(sha1_words(msg))
}

/// Processing a block stream is associative over concatenation at block
/// boundaries: the state after `m1 ++ m2` is the state after `m1`, advanced
/// by `m2`.  This is the heart of chunk-invariance: however the caller
/// splits the stream, the running state is the same.
pub proof fn lemma_process_blocks_append(s: Seq<u32>, m1: Seq<u8>, m2: Seq<u8>)
    requires
        m1.len() % 64 == 0,
    ensures
        process_blocks(s, m1 + m2) == process_blocks(process_blocks(s, m1), m2),
    decreases m1.len(),
{
    if m1.len() == 0 {
        assert(m1 + m2 =~= m2);
    } else {
        assert(m1.len() >= 64);
        assert((m1 + m2).take(64) =~= m1.take(64));
        assert((m1 + m2).skip(64) =~= m1.skip(64) + m2);
        lemma_mod_sub_multiples_vanish(m1.len() as int, 64);
        assert(m1.skip(64).len() % 64 == 0);
        lemma_process_blocks_append(compress(s, block_words(m1.take(64))), m1.skip(64), m2);
    }
}

/// Processing a single complete block is one application of the transform.
pub proof fn lemma_process_one_block(s: Seq<u32>, b: Seq<u8>)
    requires
        b.len() == 64,
    ensures
        process_blocks(s, b) == compress(s, block_words(b)),
{
    assert(b.take(64) =~= b);
    assert(b.skip(64).len() == 0);
    assert(process_blocks(s, b) == process_blocks(compress(s, block_words(b)), b.skip(64)));
    assert(process_blocks(compress(s, block_words(b)), b.skip(64)) == compress(
        s,
        block_words(b),
    ));
}

/// The running state always has exactly five words.
pub proof fn lemma_process_blocks_len(s: Seq<u32>, msg: Seq<u8>)
    requires
        s.len() == 5,
    ensures
        process_blocks(s, msg).len() == 5,
    decreases msg.len(),
{
    if msg.len() >= 64 {
        lemma_process_blocks_len(compress(s, block_words(msg.take(64))), msg.skip(64));
    }
}

/// The digest of any byte sequence is exactly 20 bytes.
pub proof fn lemma_digest_len(msg: Seq<u8>)
    ensures
        sha1_digest(msg).len() == 20,
{
    lemma_process_blocks_len(init_state(), msg + padding(msg.len()));
}

/// Padding always completes the last block: the padded length is a multiple
/// of 64, and the residue of the message (its length modulo 64) is extended
/// to exactly one trailing block when it is shorter than 56 bytes, and to
/// exactly two trailing blocks otherwise.
pub proof fn lemma_padding_blocks(len: nat)
    ensures
        padding(len).len() == zero_count(len) + 9,
        len % 64 < 56 ==> len % 64 + padding(len).len() == 64,
        len % 64 >= 56 ==> len % 64 + padding(len).len() == 128,
        (len + padding(len).len()) % 64 == 0,
{
    lemma_small_mod(len % 64, 64);
    lemma_add_mod_noop(len as int, padding(len).len() as int, 64);
    lemma_mod_self_0(64);
    if len % 64 >= 56 {
        lemma_mod_sub_multiples_vanish(128, 64);
        assert(128int % 64 == 0);
    }
}

} // verus!
