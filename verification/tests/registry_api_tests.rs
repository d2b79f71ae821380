use harbor_cache::errors::ApiError;
use harbor_cache::storage::StorageError;
use harbor_cache::registry_api::{
    blob_created_response, blob_delivery, blob_head_response, blob_redirect_response, blob_stream_response, digest_reference,
    manifest_created_response, manifest_get_response, manifest_head_response, parse_registry_path,
    plan_get_or_head, plan_patch, plan_post, plan_put, upload_progress_response, upload_started_response,
    upload_status_response, validate_reference, validate_repository_name, validate_tag_reference, wants_presigned_url, BlobDelivery, MountQuery,
    RegistryAction, RegistryRequest, ResponsePlan, UploadCompleteQuery,
};

const D: &str = "sha256:e3b0c44298fc1c149afbf4c8996fb92427ae41e4649b934ca495991b7852b855";

fn bad_request(r: Result<(), ApiError>) -> String {
    match r {
        Err(ApiError::BadRequest(m)) => m,
        Err(e) => panic!("unexpected error {:?}", e),
        Ok(()) => String::from("ok"),
    }
}

fn headers(p: &ResponsePlan) -> Vec<(&str, &str)> {
    p.headers.iter().map(|(a, b)| (a.as_str(), b.as_str())).collect()
}

#[test]
fn repository_names() {
    assert_eq!(bad_request(validate_repository_name("library/nginx")), "ok");
    assert_eq!(bad_request(validate_repository_name("a.b_c-d/e1")), "ok");
    assert_eq!(bad_request(validate_repository_name("")), "Repository name cannot be empty");
    assert_eq!(
        bad_request(validate_repository_name(&"a".repeat(257))),
        "Repository name exceeds maximum length of 256 characters"
    );
    assert_eq!(bad_request(validate_repository_name(&"a".repeat(256))), "ok");
    assert_eq!(
        bad_request(validate_repository_name("a/../b")),
        "Repository name contains invalid path traversal sequence"
    );
    assert_eq!(
        bad_request(validate_repository_name("-abc")),
        "Repository name must start with lowercase letter or digit"
    );
    assert_eq!(
        bad_request(validate_repository_name("abc/")),
        "Repository name must end with lowercase letter or digit"
    );
    assert_eq!(
        bad_request(validate_repository_name("Library/nginx")),
        "Repository name must start with lowercase letter or digit"
    );
    assert_eq!(
        bad_request(validate_repository_name("libRary")),
        "Repository name contains invalid character: 'R'"
    );
    assert_eq!(
        bad_request(validate_repository_name("a//b")),
        "Repository name contains consecutive special characters"
    );
}

#[test]
fn tags_and_references() {
    assert_eq!(bad_request(validate_tag_reference("v1.2.3-rc_1")), "ok");
    assert_eq!(bad_request(validate_tag_reference("_x")), "ok");
    assert_eq!(bad_request(validate_tag_reference("")), "Tag reference cannot be empty");
    assert_eq!(
        bad_request(validate_tag_reference(&"a".repeat(129))),
        "Tag reference exceeds maximum length of 128 characters"
    );
    assert_eq!(bad_request(validate_tag_reference("a..b")), "Tag reference contains invalid characters");
    assert_eq!(bad_request(validate_tag_reference("a/b")), "Tag reference contains invalid characters");
    assert_eq!(
        bad_request(validate_tag_reference(".a")),
        "Tag reference must start with alphanumeric character or underscore"
    );
    assert_eq!(bad_request(validate_tag_reference("a:b")), "Tag reference contains invalid character: ':'");
    assert!(digest_reference("sha256:abc"));
    assert!(digest_reference("sha512:abc"));
    assert!(!digest_reference("md5:abc"));
    assert_eq!(bad_request(validate_reference("sha256:anything/at/all")), "ok");
    assert_eq!(bad_request(validate_reference("latest")), "ok");
    assert_eq!(bad_request(validate_reference("a/b")), "Tag reference contains invalid characters");
}

#[test]
fn registry_paths() {
    match parse_registry_path("library/alpine/manifests/latest") {
        Some(RegistryRequest::Manifest { name, reference }) => {
            assert_eq!(name, "library/alpine");
            assert_eq!(reference, "latest");
        },
        _ => panic!("expected a manifest"),
    }
    match parse_registry_path("library/alpine/blobs/uploads/") {
        Some(RegistryRequest::StartUpload { name }) => assert_eq!(name, "library/alpine"),
        _ => panic!("expected an upload start"),
    }
    match parse_registry_path("library/alpine/blobs/uploads/abc-123") {
        Some(RegistryRequest::Upload { name, session_id }) => {
            assert_eq!(name, "library/alpine");
            assert_eq!(session_id, "abc-123");
        },
        _ => panic!("expected an upload"),
    }
    match parse_registry_path(&format!("library/alpine/blobs/{}", D)) {
        Some(RegistryRequest::Blob { name, digest }) => {
            assert_eq!(name, "library/alpine");
            assert_eq!(digest, D);
        },
        _ => panic!("expected a blob"),
    }
    // The last marker splits the path.
    match parse_registry_path("a/manifests/b/manifests/c") {
        Some(RegistryRequest::Manifest { name, reference }) => {
            assert_eq!(name, "a/manifests/b");
            assert_eq!(reference, "c");
        },
        _ => panic!("expected a manifest"),
    }
    assert!(parse_registry_path("library/alpine/tags/list").is_none());
}

#[test]
fn get_and_head_plans() {
    match plan_get_or_head(true, "library/alpine/manifests/latest") {
        Ok(RegistryAction::HeadManifest { name, reference }) => {
            assert_eq!(name, "library/alpine");
            assert_eq!(reference, "latest");
        },
        _ => panic!("expected a manifest head"),
    }
    assert!(matches!(plan_get_or_head(false, "a/manifests/v1"), Ok(RegistryAction::GetManifest { .. })));
    assert!(matches!(plan_get_or_head(false, &format!("a/blobs/{}", D)), Ok(RegistryAction::GetBlob { .. })));
    assert!(matches!(plan_get_or_head(true, &format!("a/blobs/{}", D)), Ok(RegistryAction::HeadBlob { .. })));
    assert!(matches!(plan_get_or_head(false, "a/blobs/uploads/s1"), Ok(RegistryAction::UploadStatus { .. })));
    assert!(matches!(plan_get_or_head(false, "a/blobs/uploads/"), Err(ApiError::MethodNotAllowed)));
    match plan_get_or_head(false, "nothing/here") {
        Err(ApiError::NotFound(p)) => assert_eq!(p, "nothing/here"),
        _ => panic!("expected not found"),
    }
    match plan_get_or_head(false, "Bad/manifests/v1") {
        Err(ApiError::BadRequest(m)) => assert_eq!(m, "Repository name must start with lowercase letter or digit"),
        _ => panic!("expected a bad request"),
    }
    match plan_get_or_head(false, "a/manifests/.v1") {
        Err(ApiError::BadRequest(m)) => {
            assert_eq!(m, "Tag reference must start with alphanumeric character or underscore")
        },
        _ => panic!("expected a bad request"),
    }
}

#[test]
fn put_post_patch_plans() {
    let with_digest = UploadCompleteQuery { digest: Some(D.to_string()) };
    let without = UploadCompleteQuery { digest: None };
    assert!(matches!(plan_put("a/manifests/v1", &without, false), Ok(RegistryAction::PutManifest { .. })));
    match plan_put("a/blobs/uploads/s1", &with_digest, false) {
        Ok(RegistryAction::CompleteUpload { name, session_id, digest, append_body }) => {
            assert_eq!((name.as_str(), session_id.as_str(), digest.as_str()), ("a", "s1", D));
            assert!(append_body);
        },
        _ => panic!("expected an upload completion"),
    }
    match plan_put("a/blobs/uploads/s1", &with_digest, true) {
        Ok(RegistryAction::CompleteUpload { append_body, .. }) => assert!(!append_body),
        _ => panic!("expected an upload completion"),
    }
    match plan_put("a/blobs/uploads/s1", &without, true) {
        Err(ApiError::BadRequest(m)) => assert_eq!(m, "Missing digest parameter"),
        _ => panic!("expected a missing digest"),
    }
    assert!(matches!(plan_put(&format!("a/blobs/{}", D), &with_digest, true), Err(ApiError::MethodNotAllowed)));

    let none = MountQuery { mount: None, from: None };
    match plan_post("a/blobs/uploads/", &none) {
        Ok(RegistryAction::StartUpload { name }) => assert_eq!(name, "a"),
        _ => panic!("expected an upload start"),
    }
    let mount = MountQuery { mount: Some(D.to_string()), from: Some("b/c".to_string()) };
    match plan_post("a/blobs/uploads/", &mount) {
        Ok(RegistryAction::MountBlob { name, digest, from }) => {
            assert_eq!((name.as_str(), digest.as_str(), from.as_str()), ("a", D, "b/c"));
        },
        _ => panic!("expected a mount"),
    }
    let half = MountQuery { mount: Some(D.to_string()), from: None };
    assert!(matches!(plan_post("a/blobs/uploads/", &half), Ok(RegistryAction::StartUpload { .. })));
    let bad = MountQuery { mount: Some("sha256:xyz".to_string()), from: Some("b".to_string()) };
    match plan_post("a/blobs/uploads/", &bad) {
        Err(ApiError::BadRequest(m)) => assert_eq!(
            m,
            "Invalid mount digest: Invalid digest: Hash too short for sha256: expected 64 chars, got 3"
        ),
        _ => panic!("expected a bad mount digest"),
    }
    assert!(matches!(plan_post("a/manifests/v1", &none), Err(ApiError::MethodNotAllowed)));
    assert!(matches!(plan_patch("a/blobs/uploads/s1"), Ok(RegistryAction::AppendUpload { .. })));
    assert!(matches!(plan_patch("a/blobs/uploads/"), Err(ApiError::MethodNotAllowed)));
    assert!(matches!(plan_patch("zzz"), Err(ApiError::NotFound(_))));
}

#[test]
fn response_plans() {
    let p = manifest_head_response("application/json", D, 1234);
    assert_eq!(p.status, 200);
    assert_eq!(
        headers(&p),
        vec![("content-type", "application/json"), ("content-length", "1234"), ("docker-content-digest", D)]
    );
    let p = manifest_get_response("application/json", D);
    assert_eq!(headers(&p), vec![("content-type", "application/json"), ("docker-content-digest", D)]);
    let p = blob_head_response(D, 5);
    assert_eq!(headers(&p)[1], ("content-length", "5"));
    let p = blob_redirect_response("https://s3/x", D);
    assert_eq!(p.status, 307);
    assert_eq!(headers(&p)[0], ("location", "https://s3/x"));
    let p = blob_stream_response(D, 7);
    assert_eq!(p.status, 200);
    let p = upload_status_response("a", "s1", 10);
    assert_eq!(p.status, 204);
    assert_eq!(headers(&p)[0], ("location", "/v2/a/blobs/uploads/s1"));
    assert_eq!(headers(&p)[1], ("docker-upload-uuid", "s1"));
    assert_eq!(headers(&p)[2], ("range", "0-10"));
    let p = manifest_created_response("a", D);
    assert_eq!(p.status, 201);
    assert_eq!(headers(&p)[0], ("location", format!("/v2/a/manifests/{}", D).as_str()));
    let p = blob_created_response("a", D);
    assert_eq!(headers(&p)[0], ("location", format!("/v2/a/blobs/{}", D).as_str()));
    let p = upload_started_response("a", "s9");
    assert_eq!(p.status, 202);
    assert_eq!(headers(&p)[0], ("location", "/v2/a/blobs/uploads/s9"));
    let p = upload_progress_response("a", "s9", 99);
    assert_eq!(p.status, 202);
    assert_eq!(headers(&p)[2], ("range", "0-98"));
    let p = blob_stream_response(D, 0);
    assert_eq!(headers(&p), vec![("content-type", "application/octet-stream"), ("docker-content-digest", D)]);
}

#[test]
fn locations_name_their_objects_again() {
    let session = "123e4567-e89b-12d3-a456-426614174000";
    let p = upload_started_response("library/nginx", session);
    let loc = p.headers[0].1.clone();
    match parse_registry_path(&loc["/v2/".len()..]) {
        Some(RegistryRequest::Upload { name, session_id }) => {
            assert_eq!(name, "library/nginx");
            assert_eq!(session_id, session);
        },
        _ => panic!("expected the upload again"),
    }
    let p = manifest_created_response("a/manifests/b", D);
    let loc = p.headers[0].1.clone();
    match parse_registry_path(&loc["/v2/".len()..]) {
        Some(RegistryRequest::Manifest { name, reference }) => {
            assert_eq!(name, "a/manifests/b");
            assert_eq!(reference, D);
        },
        _ => panic!("expected the manifest again"),
    }
    // A repository named like a manifest path does not survive the trip.
    let p = upload_started_response("a/manifests", session);
    let loc = p.headers[0].1.clone();
    assert!(matches!(parse_registry_path(&loc["/v2/".len()..]), Some(RegistryRequest::Manifest { .. })));
}

#[test]
fn blob_redirect_or_stream() {
    assert!(wants_presigned_url(true, Ok(true)));
    assert!(!wants_presigned_url(true, Ok(false)));
    assert!(!wants_presigned_url(true, Err(StorageError::Io("down".to_string()))));
    assert!(!wants_presigned_url(false, Ok(true)));
    match blob_delivery(Ok(Some("https://s3/x?sig=1".to_string()))) {
        BlobDelivery::Redirect(u) => assert_eq!(u, "https://s3/x?sig=1"),
        BlobDelivery::Stream => panic!("expected a redirect"),
    }
    assert!(matches!(blob_delivery(Ok(None)), BlobDelivery::Stream));
    assert!(matches!(blob_delivery(Err(StorageError::Backend("no".to_string()))), BlobDelivery::Stream));
}
