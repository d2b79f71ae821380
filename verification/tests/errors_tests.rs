use harbor_cache::errors::{ApiError, AuthError, CoreError, DbError, ProxyError};
use harbor_cache::storage::StorageError;

fn reply(e: ApiError) -> (u16, String, String) {
    let r = e.into_response();
    (r.status, r.code, r.message)
}

#[test]
fn api_error_replies() {
    assert_eq!(reply(ApiError::NotFound("x".into())), (404, "NOT_FOUND".into(), "x".into()));
    assert_eq!(reply(ApiError::BadRequest("y".into())), (400, "BAD_REQUEST".into(), "y".into()));
    assert_eq!(reply(ApiError::Unauthorized), (401, "UNAUTHORIZED".into(), "Unauthorized".into()));
    assert_eq!(reply(ApiError::Forbidden), (403, "FORBIDDEN".into(), "Forbidden".into()));
    assert_eq!(
        reply(ApiError::MethodNotAllowed),
        (405, "METHOD_NOT_ALLOWED".into(), "Method not allowed".into())
    );
    assert_eq!(reply(ApiError::Internal("z".into())), (500, "INTERNAL_ERROR".into(), "z".into()));
    assert_eq!(
        reply(ApiError::Core(CoreError::InvalidDigest("d".into()))),
        (400, "DIGEST_INVALID".into(), "d".into())
    );
    assert_eq!(
        reply(ApiError::Core(CoreError::NotFound("m".into()))),
        (404, "NOT_FOUND".into(), "m".into())
    );
    assert_eq!(
        reply(ApiError::Core(CoreError::CacheMiss)),
        (500, "INTERNAL_ERROR".into(), "Cache miss".into())
    );
    assert_eq!(
        reply(ApiError::Database(DbError::Duplicate("k".into()))),
        (500, "DATABASE_ERROR".into(), "Duplicate entry: k".into())
    );
    assert_eq!(
        reply(ApiError::Database(DbError::NotFound("k".into()))),
        (404, "NOT_FOUND".into(), "k".into())
    );
    assert_eq!(
        reply(ApiError::Auth(AuthError::InsufficientPermissions)),
        (403, "AUTH_ERROR".into(), "Insufficient permissions".into())
    );
    assert_eq!(
        reply(ApiError::Auth(AuthError::TokenExpired)),
        (401, "AUTH_ERROR".into(), "Token expired".into())
    );
    assert_eq!(
        reply(ApiError::Storage(StorageError::Io("disk".into()))),
        (500, "STORAGE_ERROR".into(), "IO error: disk".into())
    );
    assert_eq!(
        reply(ApiError::Storage(StorageError::NotFound("b".into()))),
        (404, "NOT_FOUND".into(), "b".into())
    );
}

#[test]
fn error_messages() {
    let e = CoreError::Proxy(ProxyError::UpstreamError { status: 502, message: "bad gateway".into() });
    assert_eq!(e.message(), "Proxy error: Upstream returned error: 502 - bad gateway");
    assert_eq!(ProxyError::Unauthorized.message(), "Upstream unauthorized");
    assert_eq!(ProxyError::TokenRefreshFailed.message(), "Token refresh failed");
    assert_eq!(
        StorageError::DigestMismatch { expected: "a".into(), actual: "b".into() }.message(),
        "Digest mismatch: expected a, got b"
    );
    assert_eq!(ApiError::Auth(AuthError::Jwt("bad".into())).message(), "Auth error: JWT error: bad");
    assert_eq!(CoreError::BadRequest("q".into()).message(), "Bad request: q");
}

#[test]
fn auth_error_replies() {
    let r = AuthError::PasswordHash("x".into()).into_response();
    assert_eq!((r.status, r.message.as_str()), (500, "Internal error"));
    let r = AuthError::Jwt("x".into()).into_response();
    assert_eq!((r.status, r.message.as_str()), (401, "Invalid token"));
    let r = AuthError::UserNotFound.into_response();
    assert_eq!((r.status, r.message.as_str()), (404, "User not found"));
    let r = AuthError::InsufficientPermissions.into_response();
    assert_eq!((r.status, r.message.as_str()), (403, "Insufficient permissions"));
    let r = AuthError::MissingAuthHeader.into_response();
    assert_eq!((r.status, r.message.as_str()), (401, "Missing authorization header"));
}
