//! Authentication: the claims a token carries, when a token has expired,
//! who a token names, how a bearer token is found, and which roles may act.

use vstd::prelude::*;

use crate::db::UserRole;
use crate::errors::{ApiError, AuthError};
use crate::numfmt::{dec_signed, format_i64};
use crate::text::{chars_of, has_prefix, starts_with};

verus! {

/// JWT claims.
pub struct Claims {
    /// Subject (the user's id, in decimal).
    pub sub: String,
    pub username: String,
    pub role: String,
    /// Expiration time (seconds since the Unix epoch).
    pub exp: i64,
    /// Issue time (seconds since the Unix epoch).
    pub iat: i64,
}

/// The claims of a token issued at `now_secs` to a user, valid for
/// `expiry_hours`.
pub fn issue_claims(user_id: i64, username: &str, role: &str, now_secs: i64, expiry_hours: i64) -> (c:
    Claims)
    requires
        i64::MIN <= expiry_hours * 3600 <= i64::MAX,
        i64::MIN <= now_secs + expiry_hours * 3600 <= i64::MAX,
    ensures
        c.sub@ == dec_signed(user_id as int),
        c.username@ == username@,
        c.role@ == role@,
        c.iat == now_secs,
        c.exp == now_secs + expiry_hours * 3600,
{
    let lifetime = expiry_hours * 3600;
    Claims {
        sub: format_i64(user_id),
        username: username.to_string(),
        role: role.to_string(),
        exp: now_secs + lifetime,
        iat: now_secs,
    }
}

/// Decoded claims are accepted only if they have not expired at `now_secs`.
pub fn check_expiry(claims: Claims, now_secs: i64) -> (r: Result<Claims, AuthError>)
    ensures
        claims.exp < now_secs ==> r matches Err(AuthError::TokenExpired),
        claims.exp >= now_secs ==> r == Ok::<Claims, AuthError>(claims),
{
    if claims.exp < now_secs {
        return Err(AuthError::TokenExpired);
    }
    Ok(claims)
}

// ==================== Decimal integers ====================

/// An ASCII digit.
pub open spec fn is_digit(c: char) -> bool {
    '0' <= c && c <= '9'
}

/// The value of a string of ASCII digits.
pub open spec fn digits_value(s: Seq<char>) -> nat
    decreases s.len(),
{
    if s.len() == 0 {
        0
    } else {
        digits_value(s.drop_last()) * 10 + ((s.last() as u32) - 48) as nat
    }
}

/// `s` begins with a sign.
pub open spec fn has_sign(s: Seq<char>) -> bool {
    s.len() > 0 && (s[0] == '+' || s[0] == '-')
}

/// `s` without its sign.
pub open spec fn unsigned_part(s: Seq<char>) -> Seq<char> {
    if has_sign(s) {
        s.skip(1)
    } else {
        s
    }
}

/// All characters of `s` are ASCII digits.
pub open spec fn all_digits(s: Seq<char>) -> bool {
    forall|i: int| 0 <= i < s.len() ==> is_digit(#[trigger] s[i])
}

/// The integer written in `s`: an optional `+` or `-`, then one or more
/// ASCII digits.
pub open spec fn int_value(s: Seq<char>) -> Option<int> {
    let body = unsigned_part(s);
    if body.len() > 0 && all_digits(body) {
        Some(
            if has_sign(s) && s[0] == '-' {
                -digits_value(body)
            } else {
                digits_value(body) as int
            },
        )
    } else {
        None
    }
}

/// The `i64` written in `s`, as `str::parse::<i64>` reads it.
pub open spec fn i64_value(s: Seq<char>) -> Option<i64> {
    match int_value(s) {
        Some(v) => if i64::MIN <= v <= i64::MAX {
            Some(v as i64)
        } else {
            None
        },
        None => None,
    }
}

proof fn lemma_digits_value_grows(s: Seq<char>, k: int)
    requires
        0 <= k <= s.len(),
        forall|i: int| 0 <= i < s.len() ==> is_digit(#[trigger] s[i]),
    ensures
        digits_value(s.take(k)) <= digits_value(s),
    decreases s.len() - k,
{
    if k < s.len() {
        lemma_digits_value_grows(s, k + 1);
        assert(s.take(k + 1).drop_last() =~= s.take(k));
        assert(is_digit(s[k]));
    } else {
        assert(s.take(k) =~= s);
    }
}

/// Parses a decimal `i64` (see [`i64_value`]).
pub fn parse_i64(s: &str) -> (r: Option<i64>)
    ensures
        r == i64_value(s@),
{
    let v = chars_of(s);
    let n = v.len();
    if n == 0 {
        return None;
    }
    let negative = v[0] == '-';
    let start: usize = if v[0] == '+' || v[0] == '-' {
        1
    } else {
        0
    };
    if start == n {
        return None;
    }
    let ghost body = v@.skip(start as int);
    assert(body == unsigned_part(s@)) by {
        if !has_sign(s@) {
            assert(v@.skip(0) =~= v@);
        }
    }
    let mut magnitude: u64 = 0;
    let mut k: usize = start;
    let mut overflow = false;
    assert(body.take(0) =~= Seq::<char>::empty());
    #[verifier::loop_isolation(false)]
    while k < n
        invariant
            v@ == s@,
            n == v@.len(),
            start <= k <= n,
            body == v@.skip(start as int),
            forall|i: int| 0 <= i < k - start ==> is_digit(#[trigger] body[i]),
            !overflow ==> magnitude == digits_value(body.take(k - start)),
            overflow ==> digits_value(body.take(k - start)) > u64::MAX,
        decreases n - k,
    {
        let c = v[k];
        if !('0' <= c && c <= '9') {
            assert(!is_digit(body[k - start]));
            return None;
        }
        let d = ((c as u32) - 48) as u64;
        proof {
            assert(body.take(k - start + 1).drop_last() =~= body.take(k - start));
            assert(body.take(k - start + 1).last() == c);
        }
        if !overflow {
            match magnitude.checked_mul(10) {
                Some(m10) => match m10.checked_add(d) {
                    Some(m) => {
                        magnitude = m;
                    },
                    None => {
                        overflow = true;
                    },
                },
                None => {
                    overflow = true;
                },
            }
        } else {
            proof {
                assert(digits_value(body.take(k - start + 1)) >= digits_value(body.take(k - start)) * 10);
            }
        }
        k = k + 1;
    }
    assert(body.take(n - start) =~= body);
    if overflow {
        assert(digits_value(body) > u64::MAX);
        return None;
    }
    if negative {
        if magnitude > 9223372036854775808 {
            return None;
        }
        let value: i128 = 0 - (magnitude as i128);
        Some(value as i64)
    } else {
        if magnitude > 9223372036854775807 {
            return None;
        }
        Some(magnitude as i64)
    }
}

// ==================== Users and roles ====================

/// An authenticated user.
pub struct AuthUser {
    pub id: i64,
    pub username: String,
    pub role: UserRole,
}

impl AuthUser {
    /// The user a token's claims name: the subject read as an id (0 when it
    /// is not one), and the role (read-only when it is not one).
    pub fn from_claims(claims: &Claims) -> (u: AuthUser)
        ensures
            u.id == match i64_value(claims.sub@) {
                Some(v) => v,
                None => 0,
            },
            u.username == claims.username,
            claims.role@ == "admin"@ ==> u.role == UserRole::Admin,
            claims.role@ == "read-write"@ ==> u.role == UserRole::ReadWrite,
            claims.role@ != "admin"@ && claims.role@ != "read-write"@ ==> u.role == UserRole::ReadOnly,
    {
        proof {
            reveal_strlit("admin");
            reveal_strlit("read-write");
            reveal_strlit("read-only");
        }
        let id = match parse_i64(claims.sub.as_str()) {
            Some(v) => v,
            None => 0,
        };
        let rs = claims.role.as_str();
        assert(rs@ == claims.role@);
        let role = match UserRole::from_str(rs) {
            Ok(r) => {
                assert(r.name() == claims.role@);
                assert(claims.role@ == "admin"@ ==> r == UserRole::Admin);
                r
            },
            Err(_) => UserRole::ReadOnly,
        };
        AuthUser { id, username: claims.username.clone(), role }
    }
}

/// A request's authenticated user.
pub struct RequireAuth(pub AuthUser);

/// A request's authenticated administrator.
pub struct RequireAdmin(pub AuthUser);

/// The user every request acts as when authentication is disabled.
pub fn anonymous_user() -> (u: AuthUser)
    ensures
        u.id == 0,
        u.username@ == "anonymous"@,
        u.role == UserRole::Admin,
{
    AuthUser { id: 0, username: "anonymous".to_string(), role: UserRole::Admin }
}

/// The token of an `Authorization` header: what follows `Bearer `.
pub fn extract_bearer_token(header: &str) -> (r: Result<&str, AuthError>)
    ensures
        has_prefix(header@, "Bearer "@) ==> (r matches Ok(t) && t@ == header@.skip(7)),
        !has_prefix(header@, "Bearer "@) ==> r matches Err(AuthError::InvalidAuthHeader),
{
    if !starts_with(header, "Bearer ") {
        return Err(AuthError::InvalidAuthHeader);
    }
    proof {
        reveal_strlit("Bearer ");
    }
    let n = chars_of(header).len();
    let t = header.substring_char(7, n);
    assert(header@.subrange(7, n as int) =~= header@.skip(7));
    Ok(t)
}

/// The token a request must carry for the management API: none needed when
/// authentication is disabled; else the bearer token of its
/// `Authorization` header, which must be there.
pub fn required_token<'a>(auth_enabled: bool, header: Option<&'a str>) -> (r: Result<
    Option<&'a str>,
    ApiError,
>)
    ensures
        !auth_enabled ==> r matches Ok(None),
        auth_enabled ==> match header {
            None => r matches Err(ApiError::Unauthorized),
            Some(h) => if has_prefix(h@, "Bearer "@) {
                r matches Ok(Some(t)) && t@ == h@.skip(7)
            } else {
                r matches Err(ApiError::Unauthorized)
            },
        },
{
    if !auth_enabled {
        return Ok(None);
    }
    match header {
        None => Err(ApiError::Unauthorized),
        Some(h) => match extract_bearer_token(h) {
            Ok(t) => Ok(Some(t)),
            Err(_) => Err(ApiError::Unauthorized),
        },
    }
}

/// The token the authentication middleware reads: none without an
/// `Authorization` header; refused when the header is not a bearer token.
pub fn middleware_token<'a>(header: Option<&'a str>) -> (r: Result<Option<&'a str>, AuthError>)
    ensures
        match header {
            None => r matches Ok(None),
            Some(h) => if has_prefix(h@, "Bearer "@) {
                r matches Ok(Some(t)) && t@ == h@.skip(7)
            } else {
                r matches Err(AuthError::InvalidAuthHeader)
            },
        },
{
    match header {
        None => Ok(None),
        Some(h) => match extract_bearer_token(h) {
            Ok(t) => Ok(Some(t)),
            Err(e) => Err(e),
        },
    }
}

/// Only administrators pass the management API's admin check.
pub fn require_admin_user(user: AuthUser) -> (r: Result<AuthUser, ApiError>)
    ensures
        user.role == UserRole::Admin ==> r == Ok::<AuthUser, ApiError>(user),
        user.role != UserRole::Admin ==> r matches Err(ApiError::Forbidden),
{
    if !user.role.is_admin() {
        return Err(ApiError::Forbidden);
    }
    Ok(user)
}

/// The middleware's role check: a user must be known, and an administrator
/// (`admin_only`) or able to write.
pub fn require_role(user: Option<&AuthUser>, admin_only: bool) -> (r: Result<(), AuthError>)
    ensures
        match user {
            None => r matches Err(AuthError::MissingAuthHeader),
            Some(u) => if (admin_only && u.role == UserRole::Admin) || (!admin_only && (u.role
                == UserRole::Admin || u.role == UserRole::ReadWrite)) {
                r is Ok
            } else {
                r matches Err(AuthError::InsufficientPermissions)
            },
        },
{
    let u = match user {
        None => {
            return Err(AuthError::MissingAuthHeader);
        },
        Some(u) => u,
    };
    let allowed = if admin_only {
        u.role.is_admin()
    } else {
        u.role.can_write()
    };
    if !allowed {
        return Err(AuthError::InsufficientPermissions);
    }
    Ok(())
}

/// Seconds a login token is announced to last (24 hours).
pub const LOGIN_TOKEN_LIFETIME_SECS: i64 = 86400;

/// The answer to a successful login.
pub fn login_response(token: String) -> (r: crate::api_types::LoginResponse)
    ensures
        r.token == token,
        r.expires_in == 86400,
{
    crate::api_types::LoginResponse { token, expires_in: LOGIN_TOKEN_LIFETIME_SECS }
}

/// The decimal text of a natural number is made of digits, is not empty,
/// and reads back as the number.
proof fn lemma_dec_reads_back(m: nat)
    ensures
        crate::numfmt::dec(m).len() > 0,
        all_digits(crate::numfmt::dec(m)),
        digits_value(crate::numfmt::dec(m)) == m,
    decreases m,
{
    let d = crate::numfmt::dec(m);
    if m < 10 {
        assert(((48 + m) as u8) as char as u32 == 48 + m);
        assert(d.drop_last() =~= Seq::<char>::empty());
        assert(d.last() == ((48 + m) as u8) as char);
        assert(digits_value(d) == digits_value(d.drop_last()) * 10 + ((d.last() as u32) - 48) as nat);
    } else {
        lemma_dec_reads_back(m / 10);
        let r = (m % 10) as nat;
        assert(((48 + r) as u8) as char as u32 == 48 + r);
        assert(d.drop_last() =~= crate::numfmt::dec(m / 10));
        assert(d.last() == ((48 + r) as u8) as char);
        assert(is_digit(d.last()));
        assert((m / 10) * 10 + m % 10 == m) by (nonlinear_arith);
        assert(digits_value(d) == digits_value(d.drop_last()) * 10 + ((d.last() as u32) - 48) as nat);
    }
}

/// Reading back the decimal text of an `i64` gives the same number: a
/// token's subject, written from a user's id, names that id.
pub proof fn lemma_decimal_round_trip(n: i64)
    ensures
        i64_value(dec_signed(n as int)) == Some(n),
{
    let t = dec_signed(n as int);
    if n < 0 {
        let m = (-n) as nat;
        lemma_dec_reads_back(m);
        assert(t.skip(1) =~= crate::numfmt::dec(m));
        assert(has_sign(t));
    } else {
        lemma_dec_reads_back(n as nat);
        let d = crate::numfmt::dec(n as nat);
        assert(is_digit(d[0]));
        assert(!has_sign(t));
    }
}

/// Claims issued at some time are accepted at that time, when the token's
/// lifetime is not negative.
pub proof fn lemma_fresh_claims_accepted(issued: Claims, now_secs: i64, expiry_hours: i64)
    requires
        issued.iat == now_secs,
        issued.exp == now_secs + expiry_hours * 3600,
        expiry_hours >= 0,
    ensures
        !(issued.exp < now_secs),
{
    assert(expiry_hours * 3600 >= 0) by (nonlinear_arith)
        requires
            expiry_hours >= 0,
    ;
}

} // verus!
