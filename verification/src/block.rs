//! The SHA-1 compression core.
//!
//! `compress` is the mathematical block transform: given a 5-word running
//! state and the 16 big-endian words of one 64-byte block, it expands the
//! message schedule to 80 words, runs the 80 rounds, and adds the working
//! registers back into the state modulo 2^32.  [`sha1_digest_block_u32`] and
//! [`sha1_digest_block`] are the executable forms, proved equal to it.

use vstd::prelude::*;

use crate::batch::{
    first4,
    kind_of,
    lanes_schedule,
    lemma_quad_rounds,
    quad_round,
    sha1_digest_round_x4,
    sha1_first,
    sha1_first_add,
    sha1_first_half,
    sha1_schedule_x4,
    RoundKind,
    U32x4,
};
use crate::words::{add_mod, block_words, rotl, rotl32, wadd};

verus! {

/// Round constant for rounds 0..20.
pub const K0: u32 = 0x5A827999;

/// Round constant for rounds 20..40.
pub const K1: u32 = 0x6ED9EBA1;

/// Round constant for rounds 40..60.
pub const K2: u32 = 0x8F1BBCDC;

/// Round constant for rounds 60..80.
pub const K3: u32 = 0xCA62C1D6;

/// The nonlinear function of round `i`: "choose" for rounds 0..20,
/// "parity" for 20..40 and 60..80, "majority" for 40..60.
pub open spec fn f_sel(i: int, b: u32, c: u32, d: u32) -> u32 {
    if i < 20 {
        (b & c) | ((!b) & d)
    } else if i < 40 {
        b ^ c ^ d
    } else if i < 60 {
        (b & c) | (b & d) | (c & d)
    } else {
        b ^ c ^ d
    }
}

/// The round constant of round `i`.
pub open spec fn k_sel(i: int) -> u32 {
    if i < 20 {
        K0
    } else if i < 40 {
        K1
    } else if i < 60 {
        K2
    } else {
        K3
    }
}

/// Word `i` of the message schedule: the 16 block words, expanded to 80 by
/// `w[i] = rotl(w[i-3] ^ w[i-8] ^ w[i-14] ^ w[i-16], 1)`.
pub open spec fn schedule(b: Seq<u32>, i: int) -> u32
    recommends
        b.len() == 16,
        0 <= i < 80,
    decreases i,
{
    if i < 16 {
        b[i]
    } else {
        rotl(schedule(b, i - 3) ^ schedule(b, i - 8) ^ schedule(b, i - 14) ^ schedule(b, i - 16), 1)
    }
}

/// One round of the digest calculation: the working registers `a..e` are
/// `s[0]..s[4]`, and the new `a` is `rotl(a,5) + f + e + k + w[i]` modulo
/// 2^32.
pub open spec fn round(b: Seq<u32>, s: Seq<u32>, i: int) -> Seq<u32>
    recommends
        b.len() == 16,
        s.len() == 5,
        0 <= i < 80,
{
    seq![
        wadd(wadd(wadd(wadd(rotl(s[0], 5), f_sel(i, s[1], s[2], s[3])), s[4]), k_sel(i)), schedule(b, i)),
        s[0],
        rotl(s[1], 30),
        s[2],
        s[3],
    ]
}

/// The working registers after the first `n` rounds on block `b`, starting
/// from state `s`.
pub open spec fn rounds(b: Seq<u32>, s: Seq<u32>, n: int) -> Seq<u32>
    recommends
        b.len() == 16,
        s.len() == 5,
        0 <= n <= 80,
    decreases n,
{
    if n <= 0 {
        s
    } else {
        round(b, rounds(b, s, n - 1), n - 1)
    }
}

/// The block transform: 80 rounds, then the working registers are added
/// back into the state element-wise modulo 2^32.
pub open spec fn compress(s: Seq<u32>, b: Seq<u32>) -> Seq<u32>
    recommends
        b.len() == 16,
        s.len() == 5,
{
    let r = rounds(b, s, 80);
    seq![wadd(s[0], r[0]), wadd(s[1], r[1]), wadd(s[2], r[2]), wadd(s[3], r[3]), wadd(s[4], r[4])]
}

/// The first sixteen schedule words are the block words themselves.
proof fn lemma_schedule_base(b: Seq<u32>)
    ensures
        forall|j: int| 0 <= j < 16 ==> schedule(b, j) == b[j],
{
}

/// The working registers stay five words through any number of rounds.
proof fn lemma_rounds_len(b: Seq<u32>, s: Seq<u32>, n: int)
    requires
        s.len() == 5,
    ensures
        rounds(b, s, n).len() == 5,
    decreases n,
{
    if n > 0 {
        lemma_rounds_len(b, s, n - 1);
    }
}

/// Four rounds of the message block digest: `sha1_digest_round_x4` fed
/// through `sha1_first_half`, which folds the pending fifth register into
/// the first message lane.
/// `habcd` holds the registers after `n` rounds, `hprev` the registers
/// four rounds earlier (whose rotated first lane is the pending `e`), and
/// `wk` the schedule words `n .. n+4`.
fn rounds4(habcd: U32x4, hprev: U32x4, wk: U32x4, i: i8, bw: Ghost<Seq<u32>>, s0: Ghost<Seq<u32>>, n: Ghost<int>) -> (r: U32x4)
    requires
        s0@.len() == 5,
        0 <= i <= 3,
        20 * (i as int) <= n@,
        n@ + 4 <= 20 * (i as int) + 20,
        habcd == first4(rounds(bw@, s0@, n@)),
        rotl(hprev.0, 30) == rounds(bw@, s0@, n@)[4],
        lanes_schedule(wk, bw@, n@),
    ensures
        r == first4(rounds(bw@, s0@, n@ + 4)),
        rounds(bw@, s0@, n@ + 4)[4] == rotl(habcd.0, 30),
{
    let work = sha1_first_half(hprev, wk);
    let r = sha1_digest_round_x4(habcd, work, i);
    proof {
        let s = rounds(bw@, s0@, n@);
        lemma_rounds_len(bw@, s0@, n@);
        let kind = kind_of(n@);
        let kv = k_sel(n@);
        assert(k_sel(n@ + 1) == kv && k_sel(n@ + 2) == kv && k_sel(n@ + 3) == kv);
        let msg = U32x4(wadd(work.0, kv), wadd(work.1, kv), wadd(work.2, kv), wadd(work.3, kv));
        assert(r == quad_round(kind, habcd, msg));
        lemma_quad_rounds(kind, bw@, s, n@, habcd, msg);
        assert(rounds(bw@, s0@, n@ + 1) == round(bw@, s, n@));
        assert(rounds(bw@, s0@, n@ + 2) == round(bw@, rounds(bw@, s0@, n@ + 1), n@ + 1));
        assert(rounds(bw@, s0@, n@ + 3) == round(bw@, rounds(bw@, s0@, n@ + 2), n@ + 2));
        assert(rounds(bw@, s0@, n@ + 4) == round(bw@, rounds(bw@, s0@, n@ + 3), n@ + 3));
    }
    r
}

/// Process one block, given as 16 words, with the SHA-1 algorithm.  The
/// body batches the 80 rounds four at a time through the emulated
/// instructions; the contract is the scalar transform.
pub fn sha1_digest_block_u32(state: &mut [u32; 5], block: &[u32; 16])
    ensures
        final(state)@ == compress(old(state)@, block@),
{
    let ghost s0 = state@;
    let ghost bw = block@;
    proof {
        lemma_schedule_base(bw);
        assert(rounds(bw, s0, 0) == s0);
    }

    // Rounds 0..20
    let mut h0 = U32x4(state[0], state[1], state[2], state[3]);
    let mut w0 = U32x4(block[0], block[1], block[2], block[3]);
    proof {
        assert(lanes_schedule(w0, bw, 0));
    }
    let work0 = sha1_first_add(state[4], w0);
    let mut h1 = sha1_digest_round_x4(h0, work0, 0);
    proof {
        lemma_rounds_len(bw, s0, 0);
        let msg = U32x4(wadd(work0.0, K0), wadd(work0.1, K0), wadd(work0.2, K0), wadd(work0.3, K0));
        assert(h1 == quad_round(RoundKind::Choose, h0, msg));
        lemma_quad_rounds(RoundKind::Choose, bw, s0, 0, h0, msg);
        assert(rounds(bw, s0, 1) == round(bw, s0, 0));
        assert(rounds(bw, s0, 2) == round(bw, rounds(bw, s0, 1), 1));
        assert(rounds(bw, s0, 3) == round(bw, rounds(bw, s0, 2), 2));
        assert(rounds(bw, s0, 4) == round(bw, rounds(bw, s0, 3), 3));
        assert(h1 == first4(rounds(bw, s0, 4)));
        assert(rounds(bw, s0, 4)[4] == rotl(h0.0, 30));
    }
    let mut w1 = U32x4(block[4], block[5], block[6], block[7]);
    proof {
        assert(lanes_schedule(w1, bw, 4));
    }
    h0 = rounds4(h1, h0, w1, 0, Ghost(bw), Ghost(s0), Ghost(4));
    let mut w2 = U32x4(block[8], block[9], block[10], block[11]);
    proof {
        assert(lanes_schedule(w2, bw, 8));
    }
    h1 = rounds4(h0, h1, w2, 0, Ghost(bw), Ghost(s0), Ghost(8));
    let mut w3 = U32x4(block[12], block[13], block[14], block[15]);
    proof {
        assert(lanes_schedule(w3, bw, 12));
    }
    h0 = rounds4(h1, h0, w3, 0, Ghost(bw), Ghost(s0), Ghost(12));
    let mut w4 = sha1_schedule_x4(w0, w1, w2, w3);
    proof {
        assert(lanes_schedule(w4, bw, 16));
    }
    h1 = rounds4(h0, h1, w4, 0, Ghost(bw), Ghost(s0), Ghost(16));

    // Rounds 20..40
    w0 = sha1_schedule_x4(w1, w2, w3, w4);
    proof {
        assert(lanes_schedule(w0, bw, 20));
    }
    h0 = rounds4(h1, h0, w0, 1, Ghost(bw), Ghost(s0), Ghost(20));
    w1 = sha1_schedule_x4(w2, w3, w4, w0);
    proof {
        assert(lanes_schedule(w1, bw, 24));
    }
    h1 = rounds4(h0, h1, w1, 1, Ghost(bw), Ghost(s0), Ghost(24));
    w2 = sha1_schedule_x4(w3, w4, w0, w1);
    proof {
        assert(lanes_schedule(w2, bw, 28));
    }
    h0 = rounds4(h1, h0, w2, 1, Ghost(bw), Ghost(s0), Ghost(28));
    w3 = sha1_schedule_x4(w4, w0, w1, w2);
    proof {
        assert(lanes_schedule(w3, bw, 32));
    }
    h1 = rounds4(h0, h1, w3, 1, Ghost(bw), Ghost(s0), Ghost(32));
    w4 = sha1_schedule_x4(w0, w1, w2, w3);
    proof {
        assert(lanes_schedule(w4, bw, 36));
    }
    h0 = rounds4(h1, h0, w4, 1, Ghost(bw), Ghost(s0), Ghost(36));

    // Rounds 40..60
    w0 = sha1_schedule_x4(w1, w2, w3, w4);
    proof {
        assert(lanes_schedule(w0, bw, 40));
    }
    h1 = rounds4(h0, h1, w0, 2, Ghost(bw), Ghost(s0), Ghost(40));
    w1 = sha1_schedule_x4(w2, w3, w4, w0);
    proof {
        assert(lanes_schedule(w1, bw, 44));
    }
    h0 = rounds4(h1, h0, w1, 2, Ghost(bw), Ghost(s0), Ghost(44));
    w2 = sha1_schedule_x4(w3, w4, w0, w1);
    proof {
        assert(lanes_schedule(w2, bw, 48));
    }
    h1 = rounds4(h0, h1, w2, 2, Ghost(bw), Ghost(s0), Ghost(48));
    w3 = sha1_schedule_x4(w4, w0, w1, w2);
    proof {
        assert(lanes_schedule(w3, bw, 52));
    }
    h0 = rounds4(h1, h0, w3, 2, Ghost(bw), Ghost(s0), Ghost(52));
    w4 = sha1_schedule_x4(w0, w1, w2, w3);
    proof {
        assert(lanes_schedule(w4, bw, 56));
    }
    h1 = rounds4(h0, h1, w4, 2, Ghost(bw), Ghost(s0), Ghost(56));

    // Rounds 60..80
    w0 = sha1_schedule_x4(w1, w2, w3, w4);
    proof {
        assert(lanes_schedule(w0, bw, 60));
    }
    h0 = rounds4(h1, h0, w0, 3, Ghost(bw), Ghost(s0), Ghost(60));
    w1 = sha1_schedule_x4(w2, w3, w4, w0);
    proof {
        assert(lanes_schedule(w1, bw, 64));
    }
    h1 = rounds4(h0, h1, w1, 3, Ghost(bw), Ghost(s0), Ghost(64));
    w2 = sha1_schedule_x4(w3, w4, w0, w1);
    proof {
        assert(lanes_schedule(w2, bw, 68));
    }
    h0 = rounds4(h1, h0, w2, 3, Ghost(bw), Ghost(s0), Ghost(68));
    w3 = sha1_schedule_x4(w4, w0, w1, w2);
    proof {
        assert(lanes_schedule(w3, bw, 72));
    }
    h1 = rounds4(h0, h1, w3, 3, Ghost(bw), Ghost(s0), Ghost(72));
    w4 = sha1_schedule_x4(w0, w1, w2, w3);
    proof {
        assert(lanes_schedule(w4, bw, 76));
    }
    h0 = rounds4(h1, h0, w4, 3, Ghost(bw), Ghost(s0), Ghost(76));

    let e = rotl32(sha1_first(h1), 30);
    let U32x4(a, b, c, d) = h0;

    state[0] = add_mod(state[0], a);
    state[1] = add_mod(state[1], b);
    state[2] = add_mod(state[2], c);
    state[3] = add_mod(state[3], d);
    state[4] = add_mod(state[4], e);
    proof {
        lemma_rounds_len(bw, s0, 80);
        assert(state@ =~= compress(s0, bw));
    }
}

/// Process one block, given as 64 bytes, with the SHA-1 algorithm.  The
/// words of the block are assembled big-endian.
pub fn sha1_digest_block(state: &mut [u32; 5], block: &[u8])
    requires
        block@.len() == 64,
    ensures
        final(state)@ == compress(old(state)@, block_words(block@)),
{
    let mut ws: [u32; 16] = [0u32; 16];
    let mut j: usize = 0;
    while j < 16
        invariant
            j <= 16,
            block@.len() == 64,
            forall|k: int| 0 <= k < j ==> ws@[k] == block_words(block@)[k],
        decreases 16 - j,
    {
        ws[j] = ((block[4 * j] as u32) << 24u32) | ((block[4 * j + 1] as u32) << 16u32) | ((block[4
            * j + 2] as u32) << 8u32) | (block[4 * j + 3] as u32);
        j = j + 1;
    }
    assert(ws@ =~= block_words(block@));
    sha1_digest_block_u32(state, &ws);
}

} // verus!
