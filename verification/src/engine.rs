//! The incremental digest engine.
//!
//! A [`Sha1`] owns the five-word running state, a pending buffer of fewer
//! than 64 bytes, and the total bit length fed so far.  Its abstract value
//! (the view `@`) is the whole byte stream fed since creation or reset; the
//! well-formedness predicate [`Sha1::wf`] ties the concrete fields to that
//! stream, and every operation is proved against it.  In particular the
//! digest returned by [`Sha1::result`] is exactly `sha1_digest` of the
//! stream, however the stream was chunked into `input` calls.

use vstd::prelude::*;

use vstd::arithmetic::div_mod::{
    lemma_add_mod_noop,
    lemma_fundamental_div_mod,
    lemma_mod_bound,
    lemma_mod_multiples_basic,
    lemma_mod_self_0,
    lemma_small_mod,
};

use crate::block::sha1_digest_block;
use crate::hash::{
    init_state,
    lemma_padding_blocks,
    lemma_process_blocks_append,
    lemma_process_blocks_len,
    lemma_process_one_block,
    padding,
    process_blocks,
    sha1_digest,
    sha1_words,
    zero_count,
};
use crate::hex::{hex_of, to_hex};
use crate::words::words_bytes;

verus! {

/// The greatest number of bytes a single stream may reach: its bit length
/// must fit in the 64-bit length field of the padding.
pub const MAX_MESSAGE_LEN: u64 = 0x1fff_ffff_ffff_ffff;

/// The length of the processed prefix of a stream of `len` bytes: every
/// complete 64-byte block has been compressed, the rest is pending.
pub open spec fn aligned_len(len: nat) -> int {
    len - len % 64
}

/// The running state `h` and pending buffer `buf` agree with the stream
/// `m`: the buffer holds the incomplete trailing block of `m`, and `h` is
/// the initial state advanced by every complete block of `m`.
pub open spec fn coherent(h: Seq<u32>, buf: Seq<u8>, m: Seq<u8>) -> bool {
    &&& buf == m.skip(aligned_len(m.len()))
    &&& h == process_blocks(init_state(), m.take(aligned_len(m.len())))
}

/// The prefix of a stream up to its last block boundary has a length that
/// is a multiple of 64.
proof fn lemma_aligned(len: nat)
    ensures
        0 <= len % 64 < 64,
        len % 64 <= len,
        aligned_len(len) % 64 == 0,
{
    lemma_mod_bound(len as int, 64);
    lemma_fundamental_div_mod(len as int, 64);
    lemma_mod_multiples_basic(len as int / 64, 64);
}

/// Structure representing the state of a Sha1 computation.
#[derive(Clone)]
pub struct Sha1 {
    h: [u32; 5],
    length_bits: u64,
    buffer: Vec<u8>,
    stream: Ghost<Seq<u8>>,
}

impl View for Sha1 {
    type V = Seq<u8>;

    /// The abstract value of the engine: every byte fed since creation or
    /// the last reset.
    closed spec fn view(&self) -> Seq<u8> {
        self.stream@
    }
}

impl Sha1 {
    /// The engine's fields agree with its abstract stream.
    pub closed spec fn wf(&self) -> bool {
        &&& self.stream@.len() * 8 <= u64::MAX
        &&& self.length_bits == self.stream@.len() * 8
        &&& coherent(self.h@, self.buffer@, self.stream@)
    }

    /// Construct a `Sha1` engine: fixed initial state, empty pending
    /// buffer, zero length.
    pub fn new() -> (s: Sha1)
        ensures
            s.wf(),
            s@ == Seq::<u8>::empty(),
    {
        let s = Sha1 {
            h: [0x67452301u32, 0xEFCDAB89u32, 0x98BADCFEu32, 0x10325476u32, 0xC3D2E1F0u32],
            length_bits: 0u64,
            buffer: Vec::new(),
            stream: Ghost(Seq::empty()),
        };
        proof {
            assert(s.h@ =~= init_state());
            assert(s.stream@.skip(aligned_len(0)) =~= s.buffer@);
            assert(s.stream@.take(aligned_len(0)) =~= Seq::<u8>::empty());
        }
        s
    }

    /// Restore the initial state, clear the pending buffer, zero the
    /// length: the engine is ready for a fresh, independent digest.
    pub fn reset(&mut self)
        ensures
            final(self).wf(),
            final(self)@ == Seq::<u8>::empty(),
    {
        self.h = [0x67452301u32, 0xEFCDAB89u32, 0x98BADCFEu32, 0x10325476u32, 0xC3D2E1F0u32];
        self.length_bits = 0;
        self.buffer.clear();
        self.stream = Ghost(Seq::empty());
        proof {
            assert(self.h@ =~= init_state());
            assert(self.stream@.skip(aligned_len(0)) =~= self.buffer@);
            assert(self.stream@.take(aligned_len(0)) =~= Seq::<u8>::empty());
        }
    }

    /// The block size of the algorithm, in bytes.
    pub fn block_size(&self) -> (n: usize)
        ensures
            n == 64,
    {
        64
    }

    /// Append `msg` to the stream.  Complete 64-byte blocks are compressed
    /// into the running state at once; the remainder stays pending.  The
    /// abstract effect is pure concatenation, so the digest depends only on
    /// the concatenated stream, never on how it was chunked into calls.
    pub fn input(&mut self, msg: &[u8])
        requires
            old(self).wf(),
            old(self)@.len() + msg@.len() <= MAX_MESSAGE_LEN,
        ensures
            final(self).wf(),
            final(self)@ == old(self)@ + msg@,
    {
        let ghost fed0 = self.stream@;
        let bits: u64 = (msg.len() as u64) * 8;
        self.length_bits = self.length_bits + bits;
        let mut i: usize = 0;
        while i < msg.len()
            invariant
                i <= msg@.len(),
                fed0.len() + msg@.len() <= MAX_MESSAGE_LEN,
                self.length_bits == (fed0.len() + msg@.len()) * 8,
                self.stream@ == fed0 + msg@.take(i as int),
                coherent(self.h@, self.buffer@, self.stream@),
            decreases msg@.len() - i,
        {
            let ghost m = self.stream@;
            let b = msg[i];
            self.buffer.push(b);
            proof {
                self.stream@ = self.stream@.push(b);
                assert(self.stream@ =~= fed0 + msg@.take(i + 1));
                lemma_aligned(m.len());
                lemma_add_mod_noop(m.len() as int, 1, 64);
                lemma_small_mod(1, 64);
                if m.len() % 64 < 63 {
                    lemma_small_mod((m.len() % 64 + 1) as nat, 64);
                } else {
                    lemma_mod_self_0(64);
                }
                assert(self.stream@.len() % 64 == (m.len() % 64 + 1) % 64);
            }
            if self.buffer.len() == 64 {
                proof {
                    // the stream now ends exactly at a block boundary
                    assert(self.stream@.len() % 64 == 0);
                    assert(aligned_len(self.stream@.len()) == self.stream@.len());
                }
                sha1_digest_block(&mut self.h, self.buffer.as_slice());
                self.buffer.clear();
                proof {
                    let m1 = self.stream@;
                    let done = aligned_len(m.len());
                    assert(m1.take(done) =~= m.take(done));
                    assert(self.buffer@ =~= m1.skip(aligned_len(m1.len())));
                    lemma_aligned(m.len());
                    lemma_process_blocks_append(init_state(), m1.take(done), m1.skip(done));
                    assert(m1.take(done) + m1.skip(done) =~= m1);
                    assert(m1.skip(done) =~= m.skip(done).push(b));
                    lemma_process_one_block(
                        process_blocks(init_state(), m1.take(done)),
                        m1.skip(done),
                    );
                    assert(m1.take(aligned_len(m1.len())) =~= m1);
                }
            } else {
                proof {
                    let m1 = self.stream@;
                    let done = aligned_len(m.len());
                    assert(m1.len() % 64 == m.len() % 64 + 1);
                    assert(aligned_len(m1.len()) == done);
                    assert(m1.take(done) =~= m.take(done));
                    assert(m1.skip(done) =~= m.skip(done).push(b));
                }
            }
            i = i + 1;
        }
        proof {
            assert(msg@.take(msg@.len() as int) =~= msg@);
        }
    }

    /// The trailing bytes still to be compressed at finalization: pending
    /// residue, `0x80`, zeros up to 56 modulo 64, then the 64-bit bit
    /// length.  Always exactly one or two whole blocks.
    fn pad_tail(&self) -> (tail: Vec<u8>)
        requires
            self.wf(),
        ensures
            tail@ == self.buffer@ + padding(self@.len()),
            tail@.len() == 64 || tail@.len() == 128,
    {
        let ghost m = self.stream@;
        proof {
            lemma_aligned(m.len());
        }
        let mut tail: Vec<u8> = Vec::new();
        let mut i: usize = 0;
        while i < self.buffer.len()
            invariant
                i <= self.buffer@.len(),
                tail@ == self.buffer@.take(i as int),
            decreases self.buffer@.len() - i,
        {
            tail.push(self.buffer[i]);
            i = i + 1;
        }
        assert(tail@ =~= self.buffer@);

        tail.push(0x80u8);
        let r = self.buffer.len();
        proof {
            assert(r == m.len() % 64);
        }
        let zeros: usize = if r < 56 {
            55 - r
        } else {
            119 - r
        };
        let mut z: usize = 0;
        while z < zeros
            invariant
                z <= zeros,
                tail@ == self.buffer@ + seq![0x80u8] + Seq::new(z as nat, |k: int| 0u8),
            decreases zeros - z,
        {
            tail.push(0u8);
            proof {
                assert(tail@ =~= self.buffer@ + seq![0x80u8] + Seq::new((z + 1) as nat, |k: int| 0u8));
            }
            z = z + 1;
        }
        let ghost base = self.buffer@ + seq![0x80u8] + Seq::new(zero_count(m.len()), |k: int| 0u8);
        proof {
            assert(zeros == zero_count(m.len()));
            assert(tail@ =~= base);
        }

        let lb = self.length_bits;
        tail.push(#[verifier::truncate] ((lb >> 56) as u8));
        tail.push(#[verifier::truncate] ((lb >> 48) as u8));
        tail.push(#[verifier::truncate] ((lb >> 40) as u8));
        tail.push(#[verifier::truncate] ((lb >> 32) as u8));
        tail.push(#[verifier::truncate] ((lb >> 24) as u8));
        tail.push(#[verifier::truncate] ((lb >> 16) as u8));
        tail.push(#[verifier::truncate] ((lb >> 8) as u8));
        tail.push(#[verifier::truncate] (lb as u8));
        proof {
            assert((m.len() * 8) as u64 == lb);
            assert(tail@ =~= self.buffer@ + padding(m.len()));
            lemma_padding_blocks(m.len());
            assert(tail@.len() == 64 || tail@.len() == 128);
        }
        tail
    }

    /// Perform padding and return the 20-byte digest of the stream fed so
    /// far.  The engine itself is not mutated: the computation runs on a
    /// private copy of the state, so the engine may keep accumulating, and
    /// calling this twice returns the same value both times.
    pub fn result(&self) -> (digest: [u8; 20])
        requires
            self.wf(),
        ensures
            digest@ == sha1_digest(self@),
    {
        let ghost m = self.stream@;
        let mut hh: [u32; 5] = self.h;
        let tail = self.pad_tail();

        // compress the one or two trailing blocks into the private copy
        let ghost h0 = self.h@;
        let mut k: usize = 0;
        while k < tail.len()
            invariant
                k == 0 || k == 64 || k == 128,
                k <= tail@.len(),
                tail@.len() == 64 || tail@.len() == 128,
                hh@ == process_blocks(h0, tail@.take(k as int)),
            decreases tail@.len() - k,
        {
            let mut blk: Vec<u8> = Vec::new();
            let mut j: usize = 0;
            while j < 64
                invariant
                    j <= 64,
                    k + 64 <= tail@.len(),
                    tail@.len() <= 128,
                    blk@ == tail@.subrange(k as int, k as int + j as int),
                decreases 64 - j,
            {
                blk.push(tail[k + j]);
                proof {
                    assert(blk@ =~= tail@.subrange(k as int, k as int + j + 1));
                }
                j = j + 1;
            }
            sha1_digest_block(&mut hh, blk.as_slice());
            proof {
                let pre = tail@.take(k as int);
                assert(pre.len() % 64 == 0) by {
                    lemma_mod_self_0(64);
                    assert(0int % 64 == 0);
                }
                lemma_process_blocks_append(h0, pre, blk@);
                lemma_process_one_block(process_blocks(h0, pre), blk@);
                assert(pre + blk@ =~= tail@.take(k as int + 64));
            }
            k = k + 64;
        }
        proof {
            assert(tail@.take(tail@.len() as int) =~= tail@);
        }

        // hh now holds the state words of the whole padded stream
        proof {
            lemma_aligned(m.len());
            let done = aligned_len(m.len());
            lemma_process_blocks_append(init_state(), m.take(done), m.skip(done) + padding(m.len()));
            assert(m.take(done) + (m.skip(done) + padding(m.len())) =~= m + padding(m.len()));
            assert(self.buffer@ + padding(m.len()) =~= m.skip(done) + padding(m.len()));
            assert(hh@ == sha1_words(m));
            lemma_process_blocks_len(init_state(), m + padding(m.len()));
        }
        state_bytes(&hh)
    }

    /// The digest of the stream fed so far, as a 40-character lower-case
    /// hexadecimal string.
    pub fn result_str(&self) -> (s: String)
        requires
            self.wf(),
        ensures
            s@ == hex_of(sha1_digest(self@)),
    {
        let digest = self.result();
        to_hex(digest.as_slice())
    }
}

/// Chunk-invariance of feeding: appending `s1` and then `s2` to a stream
/// leaves the same stream as appending `s1 ++ s2` at once.  Together with
/// the contracts of `input` (the view concatenates) and `result` (the
/// digest is a function of the view alone), the digest never depends on
/// how a stream was split into `input` calls.
pub proof fn lemma_chunked_feed(v: Seq<u8>, s1: Seq<u8>, s2: Seq<u8>)
    ensures
        (v + s1) + s2 == v + (s1 + s2),
{
    assert((v + s1) + s2 =~= v + (s1 + s2));
}

/// The reset law: after `reset` the stream is empty, so feeding `x` and
/// finishing digests exactly `x` — the same as a freshly constructed
/// engine fed `x`.
pub proof fn lemma_reset_law(x: Seq<u8>)
    ensures
        sha1_digest(Seq::<u8>::empty() + x) == sha1_digest(x),
{
    assert(Seq::<u8>::empty() + x =~= x);
}

/// The big-endian byte rendering of the five state words: the digest
/// itself.
fn state_bytes(hh: &[u32; 5]) -> (out: [u8; 20])
    ensures
        out@ == words_bytes(hh@),
{
    let mut out: [u8; 20] = [0u8; 20];
    out[0] = #[verifier::truncate] ((hh[0] >> 24) as u8);
    out[1] = #[verifier::truncate] ((hh[0] >> 16) as u8);
    out[2] = #[verifier::truncate] ((hh[0] >> 8) as u8);
    out[3] = #[verifier::truncate] (hh[0] as u8);
    out[4] = #[verifier::truncate] ((hh[1] >> 24) as u8);
    out[5] = #[verifier::truncate] ((hh[1] >> 16) as u8);
    out[6] = #[verifier::truncate] ((hh[1] >> 8) as u8);
    out[7] = #[verifier::truncate] (hh[1] as u8);
    out[8] = #[verifier::truncate] ((hh[2] >> 24) as u8);
    out[9] = #[verifier::truncate] ((hh[2] >> 16) as u8);
    out[10] = #[verifier::truncate] ((hh[2] >> 8) as u8);
    out[11] = #[verifier::truncate] (hh[2] as u8);
    out[12] = #[verifier::truncate] ((hh[3] >> 24) as u8);
    out[13] = #[verifier::truncate] ((hh[3] >> 16) as u8);
    out[14] = #[verifier::truncate] ((hh[3] >> 8) as u8);
    out[15] = #[verifier::truncate] (hh[3] as u8);
    out[16] = #[verifier::truncate] ((hh[4] >> 24) as u8);
    out[17] = #[verifier::truncate] ((hh[4] >> 16) as u8);
    out[18] = #[verifier::truncate] ((hh[4] >> 8) as u8);
    out[19] = #[verifier::truncate] (hh[4] as u8);
    proof {
        assert(out@ =~= words_bytes(hh@));
    }
    out
}

impl Default for Sha1 {
    /// A freshly constructed engine.
    fn default() -> (s: Self)
        ensures
            s.wf(),
            s@ == Seq::<u8>::empty(),
    {
        Sha1::new()
    }
}

} // verus!
