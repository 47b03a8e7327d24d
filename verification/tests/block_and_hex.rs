//! The block transform called directly, and the hexadecimal rendering.

use sha1::{sha1_digest_block, sha1_digest_block_u32, to_hex};

const INIT: [u32; 5] = [0x67452301, 0xEFCDAB89, 0x98BADCFE, 0x10325476, 0xC3D2E1F0];

/// The single padded block of the message `"abc"`.
fn abc_block() -> [u8; 64] {
    let mut block = [0u8; 64];
    block[0] = b'a';
    block[1] = b'b';
    block[2] = b'c';
    block[3] = 0x80;
    block[63] = 24; // bit length of "abc"
    block
}

#[test]
fn digest_block_of_abc() {
    let mut state = INIT;
    let block = abc_block();
    sha1_digest_block(&mut state, &block);
    assert_eq!(
        state,
        [0xa9993e36, 0x4706816a, 0xba3e2571, 0x7850c26c, 0x9cd0d89d]
    );
}

#[test]
fn digest_block_u32_matches_byte_form() {
    let block = abc_block();
    let mut words = [0u32; 16];
    for i in 0..16 {
        words[i] = u32::from_be_bytes([
            block[4 * i],
            block[4 * i + 1],
            block[4 * i + 2],
            block[4 * i + 3],
        ]);
    }
    let mut state_bytes = INIT;
    let mut state_words = INIT;
    sha1_digest_block(&mut state_bytes, &block);
    sha1_digest_block_u32(&mut state_words, &words);
    assert_eq!(state_bytes, state_words);
}

#[test]
fn to_hex_of_empty() {
    assert_eq!(to_hex(&[]), "");
}

#[test]
fn to_hex_of_bytes() {
    assert_eq!(to_hex(&[0x00, 0x0f, 0xf0, 0xff, 0x2a]), "000ff0ff2a");
}

#[test]
fn to_hex_uses_every_nibble() {
    assert_eq!(
        to_hex(&[0x01, 0x23, 0x45, 0x67, 0x89, 0xab, 0xcd, 0xef]),
        "0123456789abcdef"
    );
}
