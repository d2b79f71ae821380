use harbor_cache::errors::{CoreError, ProxyError};
use harbor_cache::registry::{
    blob_presence, manifest_cached_by_reference, manifest_digest, manifest_name, manifest_presence, no_upstream,
    split_pieces, upstream_failure, validate_reference, validate_session_id, validate_tag_reference,
};
use harbor_cache::storage::StorageError;

#[test]
fn session_ids() {
    assert!(validate_session_id("123e4567-e89b-12d3-a456-426614174000").is_ok());
    match validate_session_id("not-a-uuid") {
        Err(CoreError::BadRequest(m)) => assert_eq!(m, "Invalid session ID format: not-a-uuid"),
        _ => panic!("expected a bad session id"),
    }
    match validate_session_id("123E4567-E89B-12D3-A456-426614174000") {
        Err(CoreError::BadRequest(m)) => assert_eq!(
            m,
            "Invalid session ID format (must be lowercase hex): 123E4567-E89B-12D3-A456-426614174000"
        ),
        _ => panic!("expected a bad session id"),
    }
    match validate_session_id("123e45678-e89-12d3-a456-426614174000") {
        Err(CoreError::BadRequest(m)) => assert_eq!(m, "Invalid session ID format: 123e45678-e89-12d3-a456-426614174000"),
        _ => panic!("expected a bad session id"),
    }
    let fresh = uuid::Uuid::new_v4().to_string();
    assert!(validate_session_id(&fresh).is_ok());
}

#[test]
fn splitting() {
    assert_eq!(split_pieces("a-b--c", '-'), vec!["a", "b", "", "c"]);
    assert_eq!(split_pieces("", '-'), vec![""]);
    assert_eq!(split_pieces("abc", '-'), vec!["abc"]);
}

#[test]
fn service_references() {
    assert!(validate_reference("latest").is_ok());
    assert!(validate_reference("sha256:e3b0c44298fc1c149afbf4c8996fb92427ae41e4649b934ca495991b7852b855").is_ok());
    match validate_reference("sha256:abc") {
        Err(CoreError::Storage(StorageError::InvalidDigest(m))) => {
            assert_eq!(m, "Hash too short for sha256: expected 64 chars, got 3")
        },
        _ => panic!("expected an invalid digest"),
    }
    match validate_tag_reference("") {
        Err(CoreError::BadRequest(m)) => assert_eq!(m, "Tag reference cannot be empty"),
        _ => panic!("expected a bad tag"),
    }
}

#[test]
fn manifests() {
    assert!(manifest_cached_by_reference("sha256:abc"));
    assert!(!manifest_cached_by_reference("latest"));
    assert_eq!(manifest_name("library/nginx", "latest"), "library/nginx:latest");
    assert_eq!(manifest_digest("sha256:given".to_string(), b"x"), "sha256:given");
    assert_eq!(
        manifest_digest(String::new(), b"hello world"),
        "sha256:b94d27b9934d3e08a52e52d7da7dabfac484efe37a5380ee9088f7ace2efcde9"
    );
    match manifest_presence(Ok((12, "ct".to_string(), "d".to_string()))) {
        Ok(Some((c, d, n))) => assert_eq!((c.as_str(), d.as_str(), n), ("ct", "d", 12)),
        _ => panic!("expected a present manifest"),
    }
    assert!(matches!(manifest_presence(Err(CoreError::NotFound("x".into()))), Ok(None)));
    assert!(matches!(manifest_presence(Err(CoreError::CacheMiss)), Err(CoreError::CacheMiss)));
}

#[test]
fn upstream_outcomes() {
    match no_upstream() {
        CoreError::NotFound(m) => assert_eq!(m, "No upstream configured"),
        _ => panic!("expected not found"),
    }
    match upstream_failure(ProxyError::NotFound("up".into()), "Blob sha256:x".to_string()) {
        CoreError::NotFound(m) => assert_eq!(m, "Blob sha256:x"),
        _ => panic!("expected not found"),
    }
    assert!(matches!(
        upstream_failure(ProxyError::Unauthorized, String::new()),
        CoreError::Proxy(ProxyError::Unauthorized)
    ));
    assert!(matches!(blob_presence(Ok(42)), Ok(Some(42))));
    assert!(matches!(blob_presence(Err(ProxyError::NotFound("b".into()))), Ok(None)));
    assert!(matches!(blob_presence(Err(ProxyError::TokenRefreshFailed)), Err(CoreError::Proxy(_))));
}
