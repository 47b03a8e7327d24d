//! Known-answer vectors for the digest engine.

use sha1::Sha1;

fn hex_digest(data: &[u8]) -> String {
    let mut engine = Sha1::new();
    engine.input(data);
    engine.result_str()
}

#[test]
fn empty_input() {
    assert_eq!(hex_digest(b""), "da39a3ee5e6b4b0d3255bfef95601890afd80709");
}

#[test]
fn quick_brown_fox() {
    assert_eq!(
        hex_digest(b"The quick brown fox jumps over the lazy dog"),
        "2fd4e1c67a2d28fced849ee1bb76e7391b93eb12"
    );
}

#[test]
fn quick_brown_cog() {
    assert_eq!(
        hex_digest(b"The quick brown fox jumps over the lazy cog"),
        "de9f2c7fd25e1b3afad3e85a0bd17d9b100db4b3"
    );
}

#[test]
fn testing_with_newline() {
    assert_eq!(hex_digest(b"testing\n"), "9801739daae44ec5293d4e1f53d3f4d2d426d91c");
}

#[test]
fn run_of_x_bytes() {
    assert_eq!(
        hex_digest(&[b'x'; 57]),
        "025ecbd5d70f8fb3c5457cd96bab13fda305dc59"
    );
    assert_eq!(
        hex_digest(&[b'x'; 59]),
        "af3526de3ee728ffd84f7381df8c29b09e3a088d"
    );
}

#[test]
fn hello_world() {
    let mut engine = Sha1::new();
    engine.input(b"hello world");
    let output = engine.result();
    assert_eq!(
        output,
        [
            0x2au8, 0xae, 0x6c, 0x35, 0xc9, 0x4f, 0xcf, 0xb4, 0x15, 0xdb, 0xe9, 0x5f, 0x40, 0x8b,
            0x9c, 0xe9, 0x1e, 0xe8, 0x46, 0xed
        ]
    );
}

#[test]
fn fox_fed_one_thousand_times() {
    let mut engine = Sha1::new();
    for _ in 0..1000 {
        engine.input(b"The quick brown fox jumps over the lazy dog.");
    }
    assert_eq!(
        engine.result_str(),
        "7ca27655f67fceaa78ed2e645a81c7f1d6e249d2"
    );
}

#[test]
fn boundary_lengths() {
    let cases: Vec<(usize, &str)> = vec![
        (0, "da39a3ee5e6b4b0d3255bfef95601890afd80709"),
        (55, "cef734ba81a024479e09eb5a75b6ddae62e6abf1"),
        (56, "901305367c259952f4e7af8323f480d59f81335b"),
        (63, "0ddc4e0cccd9a12850deb5abb0853a4425559fec"),
        (64, "bb2fa3ee7afb9f54c6dfb5d021f14b1ffe40c163"),
        (65, "78c741ddc482e4cdf8c474a0876347a0905b6233"),
        (119, "4300320394f7ee239bcdce7d3b8bcee173a0cd5c"),
        (120, "ceb2821639c4b6dcb10bce0e522ca2e608ce056d"),
        (128, "150fa3fbdc899bd0b8f95a9fb6027f564d953762"),
    ];
    for (len, expected) in cases {
        let data = vec![b'x'; len];
        assert_eq!(hex_digest(&data), expected, "length {}", len);
    }
}
