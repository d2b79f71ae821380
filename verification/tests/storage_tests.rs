use harbor_cache::storage::{
    check_computed_digest, compute_sha256, parse_digest, verify_data_digest, s3_blob_key, s3_upload_key, validate_digest, LocalStorage, StorageError,
};

const EMPTY_SHA256: &str = "e3b0c44298fc1c149afbf4c8996fb92427ae41e4649b934ca495991b7852b855";

#[test]
fn test_blob_path() {
    let digest = "sha256:abc123def456";
    let (algo, hash) = parse_digest(digest).unwrap();
    assert_eq!(algo, "sha256");
    assert_eq!(hash, "abc123def456");
}

#[test]
fn digest_without_separator_is_refused() {
    match parse_digest("sha256abc") {
        Err(StorageError::InvalidDigest(m)) => assert_eq!(m, "Invalid digest format: sha256abc"),
        _ => panic!("expected an invalid digest"),
    }
    let (a, h) = parse_digest("sha256:ab:cd").unwrap();
    assert_eq!(a, "sha256");
    assert_eq!(h, "ab:cd");
}

#[test]
fn sha256_of_known_inputs() {
    assert_eq!(compute_sha256(b""), format!("sha256:{}", EMPTY_SHA256));
    assert_eq!(
        compute_sha256(b"hello world"),
        "sha256:b94d27b9934d3e08a52e52d7da7dabfac484efe37a5380ee9088f7ace2efcde9"
    );
}

#[test]
fn computed_digest_validates() {
    let d = compute_sha256(b"some blob");
    assert!(validate_digest(&d).is_ok());
}

#[test]
fn digest_validation_errors() {
    let msg = |d: &str| match validate_digest(d) {
        Err(e) => e.message(),
        Ok(()) => String::from("ok"),
    };
    assert_eq!(msg("md5:abc"), "Invalid digest: Unsupported digest algorithm: md5");
    assert_eq!(
        msg("sha256:abc"),
        "Invalid digest: Hash too short for sha256: expected 64 chars, got 3"
    );
    let upper = format!("sha256:{}", EMPTY_SHA256.to_uppercase());
    assert_eq!(
        msg(&upper),
        format!("Invalid digest: Hash contains invalid characters (must be lowercase hex): {}", upper)
    );
    assert_eq!(msg("nodigest"), "Invalid digest: Invalid digest format: nodigest");
    let short512 = format!("sha512:{}", EMPTY_SHA256);
    assert_eq!(
        msg(&short512),
        "Invalid digest: Hash too short for sha512: expected 128 chars, got 64"
    );
}

#[test]
fn local_layout() {
    let s = LocalStorage::at_path(String::from("/data"));
    assert_eq!(s.base_path(), "/data");
    let p = s.blob_path(&format!("sha256:{}", EMPTY_SHA256)).ok().unwrap();
    assert_eq!(p, format!("/data/blobs/sha256/e3/{}", EMPTY_SHA256));
    assert!(s.blob_path("bad").is_err());
    assert_eq!(s.upload_path("abc"), "/data/uploads/abc");
}

#[test]
fn s3_keys() {
    let d = format!("sha256:{}", EMPTY_SHA256);
    assert_eq!(s3_blob_key("", &d).ok().unwrap(), format!("blobs/sha256/e3/{}", EMPTY_SHA256));
    assert_eq!(s3_blob_key("cache", &d).ok().unwrap(), format!("cache/blobs/sha256/e3/{}", EMPTY_SHA256));
    assert_eq!(s3_upload_key("cache", "u1"), "cache/uploads/u1");
    assert_eq!(s3_upload_key("", "u1"), "uploads/u1");
}

#[test]
fn stored_data_is_checked_against_its_digest() {
    let d = compute_sha256(b"layer");
    assert!(verify_data_digest(b"layer", &d).is_ok());
    match verify_data_digest(b"other", &d) {
        Err(StorageError::DigestMismatch { expected, actual }) => {
            assert_eq!(expected, d);
            assert_eq!(actual, compute_sha256(b"other"));
        },
        _ => panic!("expected a mismatch"),
    }
    assert!(check_computed_digest("sha256:aa".to_string(), "sha256:aa").is_ok());
    match check_computed_digest("sha256:aa".to_string(), "sha256:bb") {
        Err(e) => assert_eq!(e.message(), "Digest mismatch: expected sha256:bb, got sha256:aa"),
        Ok(()) => panic!("accepted"),
    }
}
