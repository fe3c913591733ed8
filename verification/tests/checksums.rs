use ufc::integrity::IntegrityChecker;

#[test]
fn test_checksum_consistency() {
    let checker = IntegrityChecker::new(true);
    let data = b"hello world";
    let hash1 = checker.checksum_bytes(data);
    let hash2 = checker.checksum_bytes(data);
    assert_eq!(hash1, hash2);
}

#[test]
fn test_checksum_different_data() {
    let checker = IntegrityChecker::new(true);
    let hash1 = checker.checksum_bytes(b"hello");
    let hash2 = checker.checksum_bytes(b"world");
    assert_ne!(hash1, hash2);
}

#[test]
fn blake3_of_empty_input() {
    let checker = IntegrityChecker::new(true);
    assert_eq!(
        checker.checksum_bytes(b""),
        "af1349b9f5f9a1a6a0404dea36dcc9499bcb25c9adc112b7cc9a93cae41f3262"
    );
}

#[test]
fn sha256_of_abc() {
    let checker = IntegrityChecker::new(true);
    assert_eq!(
        checker.sha256_bytes(b"abc"),
        "ba7816bf8f01cfea414140de5dae2223b00361a396177a9cb410ff61f20015ad"
    );
}

#[test]
fn verify_bytes_accepts_matching_checksum() {
    let checker = IntegrityChecker::new(true);
    let hash = checker.checksum_bytes(b"test data");
    assert!(checker.verify_bytes(b"test data", &hash));
    assert!(!checker.verify_bytes(b"test data", "wrong_hash"));
}

#[test]
fn verify_bytes_passes_everything_when_disabled() {
    let checker = IntegrityChecker::new(false);
    assert!(checker.verify_bytes(b"test data", "wrong_hash"));
    assert!(!checker.verify_output());
}

#[test]
fn bytes_equal_compares_contents() {
    let checker = IntegrityChecker::default();
    assert!(checker.bytes_equal(b"abc", b"abc"));
    assert!(!checker.bytes_equal(b"abc", b"abd"));
    assert!(!checker.bytes_equal(b"abc", b"ab"));
    assert!(checker.verify_output());
}
