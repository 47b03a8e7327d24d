//! Behavior of the incremental engine: chunk-invariance, non-mutating
//! finalization, reset, and the trivial accessors.

use sha1::Sha1;

const FOX: &[u8] = b"The quick brown fox jumps over the lazy dog";
const FOX_HEX: &str = "2fd4e1c67a2d28fced849ee1bb76e7391b93eb12";

#[test]
fn chunk_invariance_two_pieces() {
    for split in 0..=FOX.len() {
        let mut engine = Sha1::new();
        engine.input(&FOX[..split]);
        engine.input(&FOX[split..]);
        assert_eq!(engine.result_str(), FOX_HEX, "split at {}", split);
    }
}

#[test]
fn chunk_invariance_byte_by_byte() {
    let mut engine = Sha1::new();
    for b in FOX {
        engine.input(&[*b]);
    }
    assert_eq!(engine.result_str(), FOX_HEX);
}

#[test]
fn chunk_invariance_across_block_boundary() {
    let data = vec![b'x'; 128];
    let mut engine = Sha1::new();
    engine.input(&data[..63]);
    engine.input(&data[63..65]);
    engine.input(&data[65..]);
    assert_eq!(
        engine.result_str(),
        "150fa3fbdc899bd0b8f95a9fb6027f564d953762"
    );
}

#[test]
fn result_is_idempotent() {
    let mut engine = Sha1::new();
    engine.input(FOX);
    let first = engine.result();
    let second = engine.result();
    assert_eq!(first, second);
    assert_eq!(engine.result_str(), FOX_HEX);
}

#[test]
fn result_does_not_consume_the_stream() {
    let mut engine = Sha1::new();
    engine.input(b"The quick brown fox jumps over the lazy ");
    let _partial = engine.result();
    engine.input(b"dog");
    assert_eq!(engine.result_str(), FOX_HEX);
}

#[test]
fn reset_equals_fresh_engine() {
    let mut engine = Sha1::new();
    // more than a block, so the running state itself must be restored
    engine.input(&vec![0xabu8; 100]);
    engine.reset();
    engine.input(FOX);
    assert_eq!(engine.result_str(), FOX_HEX);
}

#[test]
fn default_equals_new() {
    let mut a = Sha1::default();
    let mut b = Sha1::new();
    a.input(FOX);
    b.input(FOX);
    assert_eq!(a.result(), b.result());
}

#[test]
fn clone_mid_stream() {
    let mut engine = Sha1::new();
    engine.input(&FOX[..30]);
    let mut copy = engine.clone();
    engine.input(&FOX[30..]);
    copy.input(&FOX[30..]);
    assert_eq!(engine.result(), copy.result());
    assert_eq!(copy.result_str(), FOX_HEX);
}

#[test]
fn block_size_is_sixty_four() {
    let engine = Sha1::new();
    assert_eq!(engine.block_size(), 64);
}
