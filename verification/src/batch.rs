//! The batched compression primitives: four rounds at a time.
//!
//! Hardware SHA extension instructions work on vectors of four 32-bit
//! words; these functions emulate their shape in portable arithmetic.  Each
//! performs four rounds of the message-schedule update or of the digest
//! calculation at once, and each is proved to agree with the scalar
//! `round`/`schedule` specification, so the batched block transform is
//! bit-identical to the 80-round scalar algorithm.

use vstd::prelude::*;

use crate::block::{f_sel, k_sel, round, schedule, K0, K1, K2, K3};
use crate::words::{add_mod, rotl, rotl32, wadd};

verus! {

/// A vector of four 32-bit words, the operand shape of the emulated SHA
/// instructions.
#[derive(Clone, Copy, Debug, PartialEq, Eq)]
pub struct U32x4(pub u32, pub u32, pub u32, pub u32);

/// Which nonlinear function a group of four rounds uses.
pub enum RoundKind {
    Choose,
    Parity,
    Majority,
}

/// The nonlinear function of a round group.
pub open spec fn f_of(kind: RoundKind, b: u32, c: u32, d: u32) -> u32 {
    match kind {
        RoundKind::Choose => (b & c) | ((!b) & d),
        RoundKind::Parity => b ^ c ^ d,
        RoundKind::Majority => (b & c) | (b & d) | (c & d),
    }
}

/// The round group that round `i` belongs to.
pub open spec fn kind_of(i: int) -> RoundKind {
    if i < 20 {
        RoundKind::Choose
    } else if i < 40 {
        RoundKind::Parity
    } else if i < 60 {
        RoundKind::Majority
    } else {
        RoundKind::Parity
    }
}

/// Four rounds of the digest calculation on the register vector
/// `abcd`, with `e`, the round constant and the schedule words already
/// combined into the lanes of `msg`.  This is the dataflow of the emulated
/// `sha1rnds4` instruction; `lemma_quad_rounds` relates it to the scalar
/// rounds.
pub open spec fn quad_round(kind: RoundKind, abcd: U32x4, msg: U32x4) -> U32x4 {
    let e1 = wadd(wadd(rotl(abcd.0, 5), f_of(kind, abcd.1, abcd.2, abcd.3)), msg.0);
    let b1 = rotl(abcd.1, 30);
    let d1 = wadd(wadd(wadd(abcd.3, rotl(e1, 5)), f_of(kind, abcd.0, b1, abcd.2)), msg.1);
    let a1 = rotl(abcd.0, 30);
    let c1 = wadd(wadd(wadd(abcd.2, rotl(d1, 5)), f_of(kind, e1, a1, b1)), msg.2);
    let e2 = rotl(e1, 30);
    let b2 = wadd(wadd(wadd(b1, rotl(c1, 5)), f_of(kind, d1, e2, a1)), msg.3);
    let d2 = rotl(d1, 30);
    U32x4(b2, c1, d2, e2)
}

/// The vector of the first four working registers of a five-word state.
pub open spec fn first4(s: Seq<u32>) -> U32x4 {
    U32x4(s[0], s[1], s[2], s[3])
}

/// The lanes of `v` are the schedule words `i`, `i+1`, `i+2`, `i+3` of
/// block `b`.
pub open spec fn lanes_schedule(v: U32x4, b: Seq<u32>, i: int) -> bool {
    &&& v.0 == schedule(b, i)
    &&& v.1 == schedule(b, i + 1)
    &&& v.2 == schedule(b, i + 2)
    &&& v.3 == schedule(b, i + 3)
}

/// Not an intrinsic, but gets the first element of a vector.
pub fn sha1_first(w0: U32x4) -> (r: u32)
    ensures
        r == w0.0,
{
    w0.0
}

/// Not an intrinsic, but adds a word to the first element of a vector.
pub fn sha1_first_add(e: u32, w0: U32x4) -> (r: U32x4)
    ensures
        r == (U32x4(wadd(e, w0.0), w0.1, w0.2, w0.3)),
{
    U32x4(add_mod(e, w0.0), w0.1, w0.2, w0.3)
}

/// Emulates the `sha1nexte` instruction: rotates the first register and
/// adds it to the first lane of the message.
pub fn sha1_first_half(abcd: U32x4, msg: U32x4) -> (r: U32x4)
    ensures
        r == (U32x4(wadd(rotl(abcd.0, 30), msg.0), msg.1, msg.2, msg.3)),
{
    sha1_first_add(rotl32(sha1_first(abcd), 30), msg)
}

/// Emulates the `sha1msg1` instruction: the first half of the four-word
/// schedule update.
fn sha1msg1(a: U32x4, b: U32x4) -> (r: U32x4)
    ensures
        r == (U32x4(a.0 ^ a.2, a.1 ^ a.3, a.2 ^ b.0, a.3 ^ b.1)),
{
    U32x4(a.0 ^ a.2, a.1 ^ a.3, a.2 ^ b.0, a.3 ^ b.1)
}

/// Emulates the `sha1msg2` instruction: the second half of the four-word
/// schedule update, where the fourth new word already depends on the
/// first.
fn sha1msg2(a: U32x4, b: U32x4) -> (r: U32x4)
    ensures
        r.0 == rotl(a.0 ^ b.1, 1),
        r.1 == rotl(a.1 ^ b.2, 1),
        r.2 == rotl(a.2 ^ b.3, 1),
        r.3 == rotl(a.3 ^ r.0, 1),
{
    let w16 = rotl32(a.0 ^ b.1, 1);
    let w17 = rotl32(a.1 ^ b.2, 1);
    let w18 = rotl32(a.2 ^ b.3, 1);
    let w19 = rotl32(a.3 ^ w16, 1);
    U32x4(w16, w17, w18, w19)
}

/// The xor of four words read in the reverse order.
proof fn lemma_xor_reverse(x: u32, y: u32, z: u32, w: u32)
    by (bit_vector)
    ensures
        x ^ y ^ z ^ w == w ^ z ^ y ^ x,
{
}

/// Performs 4 rounds of the message schedule update: given the four word
/// vectors holding schedule words `i-16 .. i`, produces the vector of
/// words `i .. i+4`.
pub fn sha1_schedule_x4(v0: U32x4, v1: U32x4, v2: U32x4, v3: U32x4) -> (r: U32x4)
    ensures
        forall|b: Seq<u32>, j: int|
            0 <= j && #[trigger] lanes_schedule(v0, b, j) && lanes_schedule(v1, b, j + 4)
                && lanes_schedule(v2, b, j + 8) && lanes_schedule(v3, b, j + 12)
                ==> lanes_schedule(r, b, j + 16),
{
    let m1 = sha1msg1(v0, v1);
    let t = U32x4(m1.0 ^ v2.0, m1.1 ^ v2.1, m1.2 ^ v2.2, m1.3 ^ v2.3);
    let r = sha1msg2(t, v3);
    proof {
        assert forall|b: Seq<u32>, j: int|
            0 <= j && #[trigger] lanes_schedule(v0, b, j) && lanes_schedule(v1, b, j + 4)
                && lanes_schedule(v2, b, j + 8) && lanes_schedule(v3, b, j + 12) implies lanes_schedule(
            r,
            b,
            j + 16,
        ) by {
            lemma_xor_reverse(schedule(b, j), schedule(b, j + 2), schedule(b, j + 8), schedule(b, j + 13));
            assert(r.0 == schedule(b, j + 16));
            lemma_xor_reverse(
                schedule(b, j + 1),
                schedule(b, j + 3),
                schedule(b, j + 9),
                schedule(b, j + 14),
            );
            assert(r.1 == schedule(b, j + 17));
            lemma_xor_reverse(
                schedule(b, j + 2),
                schedule(b, j + 4),
                schedule(b, j + 10),
                schedule(b, j + 15),
            );
            assert(r.2 == schedule(b, j + 18));
            lemma_xor_reverse(
                schedule(b, j + 3),
                schedule(b, j + 5),
                schedule(b, j + 11),
                schedule(b, j + 16),
            );
            assert(r.3 == schedule(b, j + 19));
        }
    }
    r
}

/// Four "choose" rounds.
fn sha1rnds4c(abcd: U32x4, msg: U32x4) -> (r: U32x4)
    ensures
        r == quad_round(RoundKind::Choose, abcd, msg),
{
    let U32x4(a, b, c, d) = abcd;
    let U32x4(t, u, v, w) = msg;

    let e1 = add_mod(add_mod(rotl32(a, 5), (b & c) | ((!b) & d)), t);
    let b1 = rotl32(b, 30);
    let d1 = add_mod(add_mod(add_mod(d, rotl32(e1, 5)), (a & b1) | ((!a) & c)), u);
    let a1 = rotl32(a, 30);
    let c1 = add_mod(add_mod(add_mod(c, rotl32(d1, 5)), (e1 & a1) | ((!e1) & b1)), v);
    let e2 = rotl32(e1, 30);
    let b2 = add_mod(add_mod(add_mod(b1, rotl32(c1, 5)), (d1 & e2) | ((!d1) & a1)), w);
    let d2 = rotl32(d1, 30);

    U32x4(b2, c1, d2, e2)
}

/// Four "parity" rounds.
fn sha1rnds4p(abcd: U32x4, msg: U32x4) -> (r: U32x4)
    ensures
        r == quad_round(RoundKind::Parity, abcd, msg),
{
    let U32x4(a, b, c, d) = abcd;
    let U32x4(t, u, v, w) = msg;

    let e1 = add_mod(add_mod(rotl32(a, 5), b ^ c ^ d), t);
    let b1 = rotl32(b, 30);
    let d1 = add_mod(add_mod(add_mod(d, rotl32(e1, 5)), a ^ b1 ^ c), u);
    let a1 = rotl32(a, 30);
    let c1 = add_mod(add_mod(add_mod(c, rotl32(d1, 5)), e1 ^ a1 ^ b1), v);
    let e2 = rotl32(e1, 30);
    let b2 = add_mod(add_mod(add_mod(b1, rotl32(c1, 5)), d1 ^ e2 ^ a1), w);
    let d2 = rotl32(d1, 30);

    U32x4(b2, c1, d2, e2)
}

/// Four "majority" rounds.
fn sha1rnds4m(abcd: U32x4, msg: U32x4) -> (r: U32x4)
    ensures
        r == quad_round(RoundKind::Majority, abcd, msg),
{
    let U32x4(a, b, c, d) = abcd;
    let U32x4(t, u, v, w) = msg;

    let e1 = add_mod(add_mod(rotl32(a, 5), (b & c) | (b & d) | (c & d)), t);
    let b1 = rotl32(b, 30);
    let d1 = add_mod(add_mod(add_mod(d, rotl32(e1, 5)), (a & b1) | (a & c) | (b1 & c)), u);
    let a1 = rotl32(a, 30);
    let c1 = add_mod(add_mod(add_mod(c, rotl32(d1, 5)), (e1 & a1) | (e1 & b1) | (a1 & b1)), v);
    let e2 = rotl32(e1, 30);
    let b2 = add_mod(add_mod(add_mod(b1, rotl32(c1, 5)), (d1 & e2) | (d1 & a1) | (e2 & a1)), w);
    let d2 = rotl32(d1, 30);

    U32x4(b2, c1, d2, e2)
}

/// Adds the round constant to every lane.
fn kadd(v: U32x4, k: u32) -> (r: U32x4)
    ensures
        r == (U32x4(wadd(v.0, k), wadd(v.1, k), wadd(v.2, k), wadd(v.3, k))),
{
    U32x4(add_mod(v.0, k), add_mod(v.1, k), add_mod(v.2, k), add_mod(v.3, k))
}

/// Emulates the `sha1rnds4` instruction: performs 4 rounds of the message
/// block digest, selecting the nonlinear function and round constant by
/// the group index `i` (0 for rounds 0..20, 1 for 20..40, 2 for 40..60, 3
/// for 60..80).
pub fn sha1_digest_round_x4(abcd: U32x4, work: U32x4, i: i8) -> (r: U32x4)
    requires
        0 <= i <= 3,
    ensures
        i == 0 ==> r == quad_round(
            RoundKind::Choose,
            abcd,
            (U32x4(wadd(work.0, K0), wadd(work.1, K0), wadd(work.2, K0), wadd(work.3, K0))),
        ),
        i == 1 ==> r == quad_round(
            RoundKind::Parity,
            abcd,
            (U32x4(wadd(work.0, K1), wadd(work.1, K1), wadd(work.2, K1), wadd(work.3, K1))),
        ),
        i == 2 ==> r == quad_round(
            RoundKind::Majority,
            abcd,
            (U32x4(wadd(work.0, K2), wadd(work.1, K2), wadd(work.2, K2), wadd(work.3, K2))),
        ),
        i == 3 ==> r == quad_round(
            RoundKind::Parity,
            abcd,
            (U32x4(wadd(work.0, K3), wadd(work.1, K3), wadd(work.2, K3), wadd(work.3, K3))),
        ),
{
    match i {
        0 => sha1rnds4c(abcd, kadd(work, K0)),
        1 => sha1rnds4p(abcd, kadd(work, K1)),
        2 => sha1rnds4m(abcd, kadd(work, K2)),
        _ => sha1rnds4p(abcd, kadd(work, K3)),
    }
}

/// Rearranging a five-term modular sum from the grouping the batched code
/// computes into the grouping of the round specification.
proof fn lemma_wadd_fold(x: u32, y: u32, z: u32, k: u32, w: u32)
    ensures
        wadd(wadd(x, y), wadd(wadd(z, w), k)) == wadd(wadd(wadd(wadd(x, y), z), k), w),
        wadd(wadd(wadd(z, x), y), wadd(w, k)) == wadd(wadd(wadd(wadd(x, y), z), k), w),
{
}

/// Four batched rounds agree with four scalar rounds: if `abcd` holds the
/// first four registers of state `s`, and the lanes of `msg` combine the
/// fifth register `s[4]` (first lane only), the round constant and the
/// schedule words `i .. i+4`, then `quad_round` computes the first four
/// registers of the state four rounds later, and the fifth register of
/// that state is the first register of `s`, rotated.
pub proof fn lemma_quad_rounds(kind: RoundKind, b: Seq<u32>, s: Seq<u32>, i: int, abcd: U32x4, msg: U32x4)
    requires
        s.len() == 5,
        0 <= i,
        i + 4 <= 80,
        kind == kind_of(i),
        kind == kind_of(i + 3),
        abcd == (U32x4(s[0], s[1], s[2], s[3])),
        msg.0 == wadd(wadd(s[4], schedule(b, i)), k_sel(i)),
        msg.1 == wadd(schedule(b, i + 1), k_sel(i + 1)),
        msg.2 == wadd(schedule(b, i + 2), k_sel(i + 2)),
        msg.3 == wadd(schedule(b, i + 3), k_sel(i + 3)),
    ensures
        ({
            let s4 = round(b, round(b, round(b, round(b, s, i), i + 1), i + 2), i + 3);
            quad_round(kind, abcd, msg) == (U32x4(s4[0], s4[1], s4[2], s4[3])) && s4[4] == rotl(
                s[0],
                30,
            )
        }),
{
    let s1 = round(b, s, i);
    let s2 = round(b, s1, i + 1);
    let s3 = round(b, s2, i + 2);
    let s4 = round(b, s3, i + 3);

    assert(f_of(kind, s[1], s[2], s[3]) == f_sel(i, s[1], s[2], s[3]));

    let e1 = wadd(wadd(rotl(abcd.0, 5), f_of(kind, abcd.1, abcd.2, abcd.3)), msg.0);
    lemma_wadd_fold(
        rotl(s[0], 5),
        f_sel(i, s[1], s[2], s[3]),
        s[4],
        k_sel(i),
        schedule(b, i),
    );
    assert(e1 == s1[0]);

    let b1 = rotl(abcd.1, 30);
    let d1 = wadd(wadd(wadd(abcd.3, rotl(e1, 5)), f_of(kind, abcd.0, b1, abcd.2)), msg.1);
    assert(f_of(kind, s1[1], s1[2], s1[3]) == f_sel(i + 1, s1[1], s1[2], s1[3]));
    lemma_wadd_fold(
        rotl(s1[0], 5),
        f_sel(i + 1, s1[1], s1[2], s1[3]),
        s1[4],
        k_sel(i + 1),
        schedule(b, i + 1),
    );
    assert(d1 == s2[0]);

    let a1 = rotl(abcd.0, 30);
    let c1 = wadd(wadd(wadd(abcd.2, rotl(d1, 5)), f_of(kind, e1, a1, b1)), msg.2);
    assert(f_of(kind, s2[1], s2[2], s2[3]) == f_sel(i + 2, s2[1], s2[2], s2[3]));
    lemma_wadd_fold(
        rotl(s2[0], 5),
        f_sel(i + 2, s2[1], s2[2], s2[3]),
        s2[4],
        k_sel(i + 2),
        schedule(b, i + 2),
    );
    assert(c1 == s3[0]);

    let e2 = rotl(e1, 30);
    let b2 = wadd(wadd(wadd(b1, rotl(c1, 5)), f_of(kind, d1, e2, a1)), msg.3);
    assert(f_of(kind, s3[1], s3[2], s3[3]) == f_sel(i + 3, s3[1], s3[2], s3[3]));
    lemma_wadd_fold(
        rotl(s3[0], 5),
        f_sel(i + 3, s3[1], s3[2], s3[3]),
        s3[4],
        k_sel(i + 3),
        schedule(b, i + 3),
    );
    assert(b2 == s4[0]);

    let d2 = rotl(d1, 30);
    assert(quad_round(kind, abcd, msg) == (U32x4(b2, c1, d2, e2)));
    assert(s4[1] == c1 && s4[2] == d2 && s4[3] == e2 && s4[4] == a1);
}

} // verus!
