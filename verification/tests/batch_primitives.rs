//! The batched four-round primitives, composed by hand, agree with the
//! block transform.

use sha1::{
    sha1_digest_block_u32, sha1_digest_round_x4, sha1_first, sha1_first_add, sha1_first_half,
    sha1_schedule_x4, U32x4,
};

#[test]
fn first_and_first_add() {
    let v = U32x4(1, 2, 3, 4);
    assert_eq!(sha1_first(v), 1);
    assert_eq!(sha1_first_add(0xffff_ffff, v), U32x4(0, 2, 3, 4));
    assert_eq!(sha1_first_half(U32x4(2, 0, 0, 0), v), U32x4(0x8000_0001, 2, 3, 4));
}

#[test]
fn schedule_x4_matches_scalar_recurrence() {
    let words: [u32; 16] = [
        0x00010203, 0x04050607, 0x08090a0b, 0x0c0d0e0f, 0x10111213, 0x14151617, 0x18191a1b,
        0x1c1d1e1f, 0x60616263, 0x64656667, 0x68696a6b, 0x6c6d6e6f, 0x70717273, 0x74757677,
        0x78797a7b, 0x7c7d7e7f,
    ];
    let mut w = [0u32; 20];
    w[..16].copy_from_slice(&words);
    for i in 16..20 {
        w[i] = (w[i - 3] ^ w[i - 8] ^ w[i - 14] ^ w[i - 16]).rotate_left(1);
    }
    let r = sha1_schedule_x4(
        U32x4(words[0], words[1], words[2], words[3]),
        U32x4(words[4], words[5], words[6], words[7]),
        U32x4(words[8], words[9], words[10], words[11]),
        U32x4(words[12], words[13], words[14], words[15]),
    );
    assert_eq!(r, U32x4(w[16], w[17], w[18], w[19]));
}

#[test]
fn x4_rounds_match_block_transform() {
    let block: [u32; 16] = [
        0x61626380, 0, 0, 0, 0, 0, 0, 0, 0, 0, 0, 0, 0, 0, 0, 24,
    ];
    let state: [u32; 5] = [0x67452301, 0xEFCDAB89, 0x98BADCFE, 0x10325476, 0xC3D2E1F0];

    let rounds4 = |h0: U32x4, h1: U32x4, wk: U32x4, i: i8| {
        sha1_digest_round_x4(h0, sha1_first_half(h1, wk), i)
    };

    let mut h0 = U32x4(state[0], state[1], state[2], state[3]);
    let mut w0 = U32x4(block[0], block[1], block[2], block[3]);
    let mut h1 = sha1_digest_round_x4(h0, sha1_first_add(state[4], w0), 0);
    let mut w1 = U32x4(block[4], block[5], block[6], block[7]);
    h0 = rounds4(h1, h0, w1, 0);
    let mut w2 = U32x4(block[8], block[9], block[10], block[11]);
    h1 = rounds4(h0, h1, w2, 0);
    let mut w3 = U32x4(block[12], block[13], block[14], block[15]);
    h0 = rounds4(h1, h0, w3, 0);
    let mut w4 = sha1_schedule_x4(w0, w1, w2, w3);
    h1 = rounds4(h0, h1, w4, 0);

    w0 = sha1_schedule_x4(w1, w2, w3, w4);
    h0 = rounds4(h1, h0, w0, 1);
    w1 = sha1_schedule_x4(w2, w3, w4, w0);
    h1 = rounds4(h0, h1, w1, 1);
    w2 = sha1_schedule_x4(w3, w4, w0, w1);
    h0 = rounds4(h1, h0, w2, 1);
    w3 = sha1_schedule_x4(w4, w0, w1, w2);
    h1 = rounds4(h0, h1, w3, 1);
    w4 = sha1_schedule_x4(w0, w1, w2, w3);
    h0 = rounds4(h1, h0, w4, 1);

    w0 = sha1_schedule_x4(w1, w2, w3, w4);
    h1 = rounds4(h0, h1, w0, 2);
    w1 = sha1_schedule_x4(w2, w3, w4, w0);
    h0 = rounds4(h1, h0, w1, 2);
    w2 = sha1_schedule_x4(w3, w4, w0, w1);
    h1 = rounds4(h0, h1, w2, 2);
    w3 = sha1_schedule_x4(w4, w0, w1, w2);
    h0 = rounds4(h1, h0, w3, 2);
    w4 = sha1_schedule_x4(w0, w1, w2, w3);
    h1 = rounds4(h0, h1, w4, 2);

    w0 = sha1_schedule_x4(w1, w2, w3, w4);
    h0 = rounds4(h1, h0, w0, 3);
    w1 = sha1_schedule_x4(w2, w3, w4, w0);
    h1 = rounds4(h0, h1, w1, 3);
    w2 = sha1_schedule_x4(w3, w4, w0, w1);
    h0 = rounds4(h1, h0, w2, 3);
    w3 = sha1_schedule_x4(w4, w0, w1, w2);
    h1 = rounds4(h0, h1, w3, 3);
    w4 = sha1_schedule_x4(w0, w1, w2, w3);
    h0 = rounds4(h1, h0, w4, 3);

    let e = sha1_first(h1).rotate_left(30);
    let U32x4(a, b, c, d) = h0;
    let by_hand = [
        state[0].wrapping_add(a),
        state[1].wrapping_add(b),
        state[2].wrapping_add(c),
        state[3].wrapping_add(d),
        state[4].wrapping_add(e),
    ];

    let mut by_transform = state;
    sha1_digest_block_u32(&mut by_transform, &block);
    assert_eq!(by_hand, by_transform);
    // the block is the padded message "abc"
    assert_eq!(
        by_transform,
        [0xa9993e36, 0x4706816a, 0xba3e2571, 0x7850c26c, 0x9cd0d89d]
    );
}
