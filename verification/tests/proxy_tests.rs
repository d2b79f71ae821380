use harbor_cache::errors::ProxyError;
use harbor_cache::proxy::{
    announced_length, bearer_header, blob_fetch_failure, blob_url, manifest_accept, manifest_content_type,
    manifest_fetch_failure, manifest_url, parse_bearer_challenge, parse_u64, ping_url, push_failure,
    reported_digest, retry_with_token, split_unquoted_pieces, token_credentials, token_request_failure, token_url, upload_location, upload_completion_url, uploads_url, HarborClientConfig,
    TokenRequest,
};

fn config() -> HarborClientConfig {
    HarborClientConfig {
        url: "https://harbor.example.com".to_string(),
        registry: "library".to_string(),
        username: None,
        password: None,
        skip_tls_verify: false,
    }
}

#[test]
fn request_urls() {
    let c = config();
    assert_eq!(ping_url(&c), "https://harbor.example.com/v2/");
    assert_eq!(manifest_url(&c, "nginx", "latest"), "https://harbor.example.com/v2/library/nginx/manifests/latest");
    assert_eq!(blob_url(&c, "nginx", "sha256:ab"), "https://harbor.example.com/v2/library/nginx/blobs/sha256:ab");
    assert_eq!(uploads_url(&c, "nginx"), "https://harbor.example.com/v2/library/nginx/blobs/uploads/");
    assert_eq!(
        upload_completion_url(&c, "/v2/library/nginx/blobs/uploads/u1", "sha256:ab"),
        "https://harbor.example.com/v2/library/nginx/blobs/uploads/u1?digest=sha256:ab"
    );
    assert_eq!(
        upload_completion_url(&c, "https://other/up/u1", "sha256:ab"),
        "https://other/up/u1?digest=sha256:ab"
    );
    assert!(manifest_accept().starts_with("application/vnd.oci.image.manifest.v1+json"));
}

#[test]
fn bearer_challenges() {
    let t = parse_bearer_challenge(
        "Bearer realm=\"https://auth.example.com/token\", service=\"harbor-registry\", scope=\"repository:library/nginx:pull\"",
    )
    .unwrap();
    assert_eq!(t.realm, "https://auth.example.com/token");
    assert_eq!(t.service, Some("harbor-registry".to_string()));
    assert_eq!(t.scope, Some("repository:library/nginx:pull".to_string()));
    assert_eq!(
        token_url(&t),
        "https://auth.example.com/token?service=harbor-registry&scope=repository:library/nginx:pull"
    );
    let bare = parse_bearer_challenge("Bearer realm=r").unwrap();
    assert_eq!(bare.realm, "r");
    assert!(bare.service.is_none() && bare.scope.is_none());
    assert_eq!(token_url(&bare), "r");
    match parse_bearer_challenge("Basic realm=x") {
        Err(ProxyError::InvalidResponse(m)) => assert_eq!(m, "Expected Bearer authentication"),
        _ => panic!("expected a refusal"),
    }
    match parse_bearer_challenge("Bearer service=x") {
        Err(ProxyError::InvalidResponse(m)) => assert_eq!(m, "Missing realm in WWW-Authenticate"),
        _ => panic!("expected a refusal"),
    }
    let only_scope = TokenRequest { realm: "r".to_string(), service: None, scope: Some("s".to_string()) };
    assert_eq!(token_url(&only_scope), "r?scope=s");
    assert_eq!(bearer_header("tok"), "Bearer tok");
}

#[test]
fn quoted_scope_keeps_its_commas() {
    let t = parse_bearer_challenge(
        "Bearer realm=\"https://h/token\",service=\"harbor-registry\",scope=\"repository:p/r:pull,push\"",
    )
    .unwrap();
    assert_eq!(t.realm, "https://h/token");
    assert_eq!(t.service, Some("harbor-registry".to_string()));
    assert_eq!(t.scope, Some("repository:p/r:pull,push".to_string()));
    assert_eq!(token_url(&t), "https://h/token?service=harbor-registry&scope=repository:p/r:pull,push");
    let pieces = split_unquoted_pieces("a=\"x,y\",b=z,c", ',');
    assert_eq!(pieces, vec!["a=\"x,y\"".to_string(), "b=z".to_string(), "c".to_string()]);
}

#[test]
fn retries() {
    assert!(matches!(retry_with_token(200, None), Ok(None)));
    assert!(matches!(retry_with_token(403, Some("Bearer realm=x")), Ok(None)));
    assert!(matches!(retry_with_token(401, None), Err(ProxyError::Unauthorized)));
    match retry_with_token(401, Some("Bearer realm=\"x\"")) {
        Ok(Some(t)) => assert_eq!(t.realm, "x"),
        _ => panic!("expected a token request"),
    }
    assert!(matches!(retry_with_token(401, Some("Digest")), Err(ProxyError::InvalidResponse(_))));
}

#[test]
fn upstream_answers() {
    match manifest_fetch_failure(404, "nginx", "latest", String::new()) {
        Some(ProxyError::NotFound(m)) => assert_eq!(m, "nginx:latest"),
        _ => panic!("expected not found"),
    }
    match manifest_fetch_failure(500, "nginx", "latest", "oops".to_string()) {
        Some(ProxyError::UpstreamError { status, message }) => assert_eq!((status, message.as_str()), (500, "oops")),
        _ => panic!("expected an upstream error"),
    }
    assert!(manifest_fetch_failure(200, "n", "r", String::new()).is_none());
    assert!(matches!(blob_fetch_failure(404, "d", String::new()), Some(ProxyError::NotFound(_))));
    assert!(blob_fetch_failure(204, "d", String::new()).is_none());
    assert!(push_failure(202, 202, String::new()).is_none());
    assert!(push_failure(307, 307, String::new()).is_none());
    assert!(matches!(push_failure(400, 201, "no".to_string()), Some(ProxyError::UpstreamError { status: 400, .. })));
    assert_eq!(manifest_content_type(None), "application/vnd.oci.image.manifest.v1+json");
    assert_eq!(manifest_content_type(Some("x/y")), "x/y");
    assert_eq!(reported_digest(None), "");
    assert_eq!(reported_digest(Some("sha256:1")), "sha256:1");
}

#[test]
fn numbers_as_std_reads_them() {
    for s in ["0", "42", "+7", "18446744073709551615", "18446744073709551616", "", "+", "-1", "1a", " 1", "007"] {
        assert_eq!(parse_u64(s), s.parse::<u64>().ok(), "input {:?}", s);
    }
    assert_eq!(announced_length(Some("1234")), 1234);
    assert_eq!(announced_length(Some("abc")), 0);
    assert_eq!(announced_length(None), 0);
}

#[test]
fn token_requests() {
    assert!(token_request_failure(200, String::new()).is_none());
    match token_request_failure(401, "denied".to_string()) {
        Some(ProxyError::UpstreamError { status, message }) => {
            assert_eq!((status, message.as_str()), (401, "Token request failed: denied"))
        },
        _ => panic!("expected a failure"),
    }
    let mut c = config();
    assert!(token_credentials(&c).is_none());
    c.username = Some("u".to_string());
    assert!(token_credentials(&c).is_none());
    c.password = Some("p".to_string());
    assert_eq!(token_credentials(&c), Some(("u".to_string(), "p".to_string())));
}

#[test]
fn upload_locations() {
    assert_eq!(upload_location(Some("/v2/x/blobs/uploads/1")).unwrap(), "/v2/x/blobs/uploads/1");
    match upload_location(None) {
        Err(ProxyError::InvalidResponse(m)) => assert_eq!(m, "Missing Location header"),
        _ => panic!("expected a refusal"),
    }
}
