use ring::digest::{digest, SHA256};
use squash_digest::bounded::{padding_size, sha256_digest, BoundedDigest};
use squash_digest::hex::hex_digest;

fn reference(data: &[u8]) -> Vec<u8> {
    digest(&SHA256, data).as_ref().to_vec()
}

fn pattern(len: usize) -> Vec<u8> {
    (0..len).map(|i| (i % 256) as u8).collect()
}

const EMPTY_SHA256: &str = "e3b0c44298fc1c149afbf4c8996fb92427ae41e4649b934ca495991b7852b855";
const ABC_SHA256: &str = "ba7816bf8f01cfea414140de5dae2223b00361a396177a9cb410ff61f20015ad";

#[test]
fn exact_truncation_any_block_size() {
    let source = pattern(300);
    let max = 200;
    for block_size in [1usize, 7, 64, 300] {
        let r = sha256_digest(&source, max, block_size);
        assert_eq!(r, reference(&source[..max]), "block size {}", block_size);
    }
}

#[test]
fn chunk_size_invariance() {
    let source = pattern(1000);
    let max = 777;
    let first = sha256_digest(&source, max, 1);
    for block_size in [2usize, 3, 7, 37, 111, 259, 500, 777, 1000, 4096] {
        assert_eq!(sha256_digest(&source, max, block_size), first);
    }
}

#[test]
fn short_source_digests_everything() {
    let source = pattern(50);
    for block_size in [1usize, 8, 50, 64] {
        assert_eq!(sha256_digest(&source, 51, block_size), reference(&source));
        assert_eq!(sha256_digest(&source, 10_000, block_size), reference(&source));
    }
}

#[test]
fn zero_boundary_gives_empty_digest() {
    let source = pattern(100);
    for block_size in [1usize, 7, 100] {
        let r = sha256_digest(&source, 0, block_size);
        assert_eq!(hex_digest(&r), EMPTY_SHA256);
    }
    assert_eq!(hex_digest(&sha256_digest(&[], 0, 4)), EMPTY_SHA256);
    assert_eq!(hex_digest(&sha256_digest(&[], 5, 4)), EMPTY_SHA256);
}

#[test]
fn boundary_alignment_adds_one_byte() {
    let source = pattern(100);
    let block_size = 16;
    let edge = 3 * block_size;
    let aligned = sha256_digest(&source, edge, block_size);
    let plus_one = sha256_digest(&source, edge + 1, block_size);
    assert_eq!(aligned, reference(&source[..edge]));
    assert_eq!(plus_one, reference(&source[..edge + 1]));
    assert_ne!(aligned, plus_one);
}

#[test]
fn pattern_scenario_first_500_bytes() {
    let source = pattern(1000);
    let r = sha256_digest(&source, 500, 128);
    assert_eq!(r, reference(&source[..500]));
    assert_eq!(r.len(), 32);
}

#[test]
fn ten_bytes_whole_source() {
    let source: Vec<u8> = (1..=10).collect();
    assert_eq!(sha256_digest(&source, 10, 3), reference(&source));
}

#[test]
fn ten_bytes_boundary_on_chunk_edge() {
    let source: Vec<u8> = (1..=10).collect();
    assert_eq!(sha256_digest(&source, 9, 3), reference(&[1, 2, 3, 4, 5, 6, 7, 8, 9]));
}

#[test]
fn ten_bytes_boundary_inside_chunk() {
    let source: Vec<u8> = (1..=10).collect();
    assert_eq!(sha256_digest(&source, 8, 3), reference(&[1, 2, 3, 4, 5, 6, 7, 8]));
}

#[test]
fn known_digest_of_abc() {
    let padded = b"abcPADDING";
    assert_eq!(hex_digest(&sha256_digest(padded, 3, 2)), ABC_SHA256);
    assert_eq!(hex_digest(&sha256_digest(b"abc", 3, 1)), ABC_SHA256);
}

#[test]
fn feed_stops_at_boundary() {
    let mut d = BoundedDigest::new(8);
    assert!(d.feed(&[1, 2, 3]));
    assert_eq!(d.bytes_hashed(), 3);
    assert!(d.feed(&[4, 5]));
    assert!(!d.feed(&[6, 7, 8, 9, 10]));
    assert!(d.is_done());
    assert_eq!(d.bytes_hashed(), 8);
    assert_eq!(d.max(), 8);
    assert_eq!(d.finish(), reference(&[1, 2, 3, 4, 5, 6, 7, 8]));
}

#[test]
fn feed_aligned_boundary_then_empty_keep() {
    let mut d = BoundedDigest::new(6);
    assert!(d.feed(&[1, 2, 3]));
    assert!(d.feed(&[4, 5, 6]));
    assert!(!d.is_done());
    assert!(!d.feed(&[7, 8, 9]));
    assert_eq!(d.bytes_hashed(), 6);
    assert_eq!(d.finish(), reference(&[1, 2, 3, 4, 5, 6]));
}

#[test]
fn feed_stops_at_end_of_stream() {
    let mut d = BoundedDigest::new(100);
    assert!(d.feed(&[9, 8, 7]));
    assert!(!d.feed(&[]));
    assert!(d.is_done());
    assert_eq!(d.bytes_hashed(), 3);
    assert_eq!(d.finish(), reference(&[9, 8, 7]));
}

#[test]
fn feed_zero_boundary() {
    let mut d = BoundedDigest::new(0);
    assert!(!d.feed(&[1]));
    assert_eq!(d.bytes_hashed(), 0);
    assert_eq!(hex_digest(&d.finish()), EMPTY_SHA256);
}

#[test]
fn hex_digest_lower_case() {
    assert_eq!(hex_digest(&[0x00, 0x0f, 0xab, 0xff]), "000fabff");
    assert_eq!(hex_digest(&[]), "");
}

#[test]
fn padding_size_of_image() {
    assert_eq!(padding_size(4096, 1000), Some(3096));
    assert_eq!(padding_size(4096, 4096), Some(0));
    assert_eq!(padding_size(100, 101), None);
}

#[test]
fn unbounded_max_digests_whole_short_source() {
    let source: Vec<u8> = (1..=10).collect();
    for block_size in [1usize, 3, 10, 16] {
        assert_eq!(sha256_digest(&source, usize::MAX, block_size), reference(&source));
    }
}

#[test]
fn feed_with_unbounded_max() {
    let mut d = BoundedDigest::new(usize::MAX);
    assert!(d.feed(&[1, 2, 3]));
    assert!(d.feed(&[4]));
    assert!(!d.feed(&[]));
    assert_eq!(d.bytes_hashed(), 4);
    assert_eq!(d.finish(), reference(&[1, 2, 3, 4]));
}
