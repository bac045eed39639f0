//! The content hasher: digests depend on the bytes alone.

use havit::hasher::HashRun;
use havit::hasher::hash_chunks;

/// The BLAKE3 digest of the empty input, as lowercase hex.
const EMPTY_DIGEST: &str = "af1349b9f5f9a1a6a0404dea36dcc9499bcb25c9adc112b7cc9a93cae41f3262";

#[test]
fn test_empty_digest() {
    let run = HashRun::new();
    let d = run.digest_hex();
    assert_eq!(d.len(), 64);
    assert_eq!(d, blake3::hash(b"").to_hex().as_str());
    assert_eq!(d, EMPTY_DIGEST);
    assert_eq!(run.total_bytes(), 0);
}

#[test]
fn test_digest_matches_reference_hasher() {
    let mut run = HashRun::new();
    run.update(b"hello world");
    assert_eq!(run.digest_hex(), blake3::hash(b"hello world").to_hex().as_str());
    assert_eq!(run.total_bytes(), 11);
}

#[test]
fn test_chunking_does_not_change_digest() {
    let whole = hash_chunks(&vec![b"hello world".to_vec()]);
    let split = hash_chunks(&vec![b"hello ".to_vec(), b"world".to_vec()]);
    let bytes: Vec<Vec<u8>> = b"hello world".iter().map(|b| vec![*b]).collect();
    let single_bytes = hash_chunks(&bytes);
    assert_eq!(whole.0, split.0);
    assert_eq!(whole.0, single_bytes.0);
    assert_eq!(whole.1, 11);
    assert_eq!(split.1, 11);
    assert_eq!(single_bytes.1, 11);

    let mut run = HashRun::new();
    run.update(b"hello");
    run.update(b" world");
    assert_eq!(run.digest_hex(), whole.0);
}

#[test]
fn test_identical_content_identical_digest() {
    let mut a = HashRun::new();
    let mut b = HashRun::new();
    a.update(b"same bytes");
    b.update(b"same ");
    b.update(b"bytes");
    assert_eq!(a.digest_hex(), b.digest_hex());
}

#[test]
fn test_different_content_different_digest() {
    let mut a = HashRun::new();
    let mut b = HashRun::new();
    a.update(b"a");
    b.update(b"b");
    assert_ne!(a.digest_hex(), b.digest_hex());

    let mut c = HashRun::new();
    c.update(b"");
    let mut d = HashRun::new();
    d.update(b"\0");
    assert_ne!(c.digest_hex(), d.digest_hex());
}

#[test]
fn test_digest_is_lowercase_hex() {
    let mut run = HashRun::new();
    run.update(b"some content");
    let d = run.digest_hex();
    assert_eq!(d.len(), 64);
    assert!(d.chars().all(|c| c.is_ascii_hexdigit() && !c.is_ascii_uppercase()));
}
