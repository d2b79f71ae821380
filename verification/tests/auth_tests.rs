use harbor_cache::auth::{
    anonymous_user, check_expiry, extract_bearer_token, issue_claims, login_response, middleware_token,
    parse_i64, require_admin_user, require_role, required_token, AuthUser, LOGIN_TOKEN_LIFETIME_SECS,
};
use harbor_cache::db::UserRole;
use harbor_cache::errors::{ApiError, AuthError};

#[test]
fn claims_and_expiry() {
    let c = issue_claims(42, "testuser", "admin", 1_700_000_000, 24);
    assert_eq!(c.sub, "42");
    assert_eq!(c.username, "testuser");
    assert_eq!(c.role, "admin");
    assert_eq!(c.iat, 1_700_000_000);
    assert_eq!(c.exp, 1_700_000_000 + 24 * 3600);
    let fresh = check_expiry(c, 1_700_000_000 + 3600).unwrap();
    let u = AuthUser::from_claims(&fresh);
    assert_eq!(u.id, 42);
    assert_eq!(u.username, "testuser");
    assert_eq!(u.role, UserRole::Admin);
    let old = issue_claims(1, "u", "read-only", 0, 1);
    assert!(matches!(check_expiry(old, 3601), Err(AuthError::TokenExpired)));
    let edge = issue_claims(1, "u", "read-only", 0, 1);
    assert!(check_expiry(edge, 3600).is_ok());
}

#[test]
fn users_from_claims() {
    let rw = AuthUser::from_claims(&issue_claims(-5, "w", "read-write", 0, 1));
    assert_eq!((rw.id, rw.role), (-5, UserRole::ReadWrite));
    let ro = AuthUser::from_claims(&issue_claims(7, "r", "guest", 0, 1));
    assert_eq!(ro.role, UserRole::ReadOnly);
    let mut odd = issue_claims(7, "r", "admin", 0, 1);
    odd.sub = "not-a-number".to_string();
    assert_eq!(AuthUser::from_claims(&odd).id, 0);
    let anon = anonymous_user();
    assert_eq!((anon.id, anon.username.as_str(), anon.role), (0, "anonymous", UserRole::Admin));
}

#[test]
fn decimal_round_trip() {
    for n in [0i64, 1, -1, 42, i64::MAX, i64::MIN, 1234567890123] {
        assert_eq!(parse_i64(&n.to_string()), Some(n));
    }
    for s in ["", "-", "+", "1.5", "9223372036854775808", "-9223372036854775809", "+12", "0x1"] {
        assert_eq!(parse_i64(s), s.parse::<i64>().ok(), "input {:?}", s);
    }
}

#[test]
fn bearer_headers() {
    assert_eq!(extract_bearer_token("Bearer abc").unwrap(), "abc");
    assert!(matches!(extract_bearer_token("Basic abc"), Err(AuthError::InvalidAuthHeader)));
    assert!(matches!(required_token(false, None), Ok(None)));
    assert!(matches!(required_token(true, None), Err(ApiError::Unauthorized)));
    assert!(matches!(required_token(true, Some("Bearer t")), Ok(Some("t"))));
    assert!(matches!(required_token(true, Some("Token t")), Err(_)));
    assert!(matches!(middleware_token(None), Ok(None)));
    assert!(matches!(middleware_token(Some("Bearer x")), Ok(Some("x"))));
    assert!(matches!(middleware_token(Some("bearer x")), Err(AuthError::InvalidAuthHeader)));
}

#[test]
fn roles_required() {
    let admin = AuthUser { id: 1, username: "a".into(), role: UserRole::Admin };
    let writer = AuthUser { id: 2, username: "w".into(), role: UserRole::ReadWrite };
    let reader = AuthUser { id: 3, username: "r".into(), role: UserRole::ReadOnly };
    assert!(require_role(Some(&admin), true).is_ok());
    assert!(matches!(require_role(Some(&writer), true), Err(AuthError::InsufficientPermissions)));
    assert!(require_role(Some(&writer), false).is_ok());
    assert!(matches!(require_role(Some(&reader), false), Err(AuthError::InsufficientPermissions)));
    assert!(matches!(require_role(None, false), Err(AuthError::MissingAuthHeader)));
    assert!(require_admin_user(admin).is_ok());
    assert!(matches!(require_admin_user(reader), Err(ApiError::Forbidden)));
    let r = login_response("tok".to_string());
    assert_eq!((r.token.as_str(), r.expires_in), ("tok", 86400));
    assert_eq!(LOGIN_TOKEN_LIFETIME_SECS, 86400);
}
