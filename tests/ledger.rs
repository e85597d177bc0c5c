use lanpaste::digest::{content_hash, request_fingerprint};
use lanpaste::errors::AppError;
use lanpaste::idempotency::{
    check_idempotency, create_response, idempotency_file_name, normalize_idempotency_key,
};
use lanpaste::types::IdempotencyRecord;

#[test]
fn content_hash_is_sha256_hex() {
    assert_eq!(
        content_hash(b""),
        "e3b0c44298fc1c149afbf4c8996fb92427ae41e4649b934ca495991b7852b855"
    );
    assert_eq!(
        content_hash(b"abc"),
        "ba7816bf8f01cfea414140de5dae2223b00361a396177a9cb410ff61f20015ad"
    );
}

#[test]
fn fingerprint_is_stable_and_distinguishing() {
    let n = Some("idempotent.txt".to_string());
    let a = request_fingerprint(&n, &None, &None, b"same payload");
    let b = request_fingerprint(&n, &None, &None, b"same payload");
    let c = request_fingerprint(&n, &None, &None, b"different payload");
    let d = request_fingerprint(&n, &Some("t".to_string()), &None, b"same payload");
    let e = request_fingerprint(&None, &None, &None, b"same payload");
    assert_eq!(a, b);
    assert_ne!(a, c);
    assert_ne!(a, d);
    assert_ne!(a, e);
    assert_eq!(a.len(), 64);
}

#[test]
fn key_normalization() {
    assert_eq!(normalize_idempotency_key(Some("  retry-123 ")), Some("retry-123".to_string()));
    assert_eq!(normalize_idempotency_key(Some("   ")), None);
    assert_eq!(normalize_idempotency_key(None), None);
}

#[test]
fn record_file_names_are_plain() {
    let f = idempotency_file_name("../../etc/passwd");
    assert!(f.ends_with(".json"));
    assert_eq!(f.len(), 64 + 5);
    assert!(!f.contains('/'));
    assert_ne!(idempotency_file_name("a"), idempotency_file_name("b"));
}

#[test]
fn replay_and_conflict() {
    let n = Some("idempotent.txt".to_string());
    let fp = request_fingerprint(&n, &None, &None, b"same payload");
    let record = || IdempotencyRecord {
        request_fingerprint: fp.clone(),
        response: create_response("ID", "pastes/p", "abc"),
    };
    assert!(matches!(check_idempotency(None, &fp), Ok(None)));
    let again = request_fingerprint(&n, &None, &None, b"same payload");
    match check_idempotency(Some(record()), &again) {
        Ok(Some(r)) => {
            assert_eq!(r.id, "ID");
            assert_eq!(r.commit, "abc");
        },
        _ => panic!("expected a replay"),
    }
    let other = request_fingerprint(&n, &None, &None, b"different payload");
    assert!(matches!(check_idempotency(Some(record()), &other), Err(AppError::Conflict(_))));
}

#[test]
fn response_urls() {
    let r = create_response("01X", "pastes/a", "c0ffee");
    assert_eq!(r.raw_url, "/api/v1/p/01X/raw");
    assert_eq!(r.view_url, "/p/01X");
    assert_eq!(r.meta_url, "/api/v1/p/01X");
    assert_eq!(r.path, "pastes/a");
}
