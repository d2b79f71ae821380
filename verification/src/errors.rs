//! Error types of the stores, the upstream client, the registry service and
//! the API, their messages, and how the API answers each of them.

use vstd::prelude::*;

use crate::numfmt::{dec, push_decimal};
use crate::storage::StorageError;

verus! {

/// Database layer errors.
#[derive(Debug)]
pub enum DbError {
    /// A query failed, with the database's message.
    Database(String),
    /// No such record.
    NotFound(String),
    /// A uniqueness constraint was violated.
    Duplicate(String),
}

impl DbError {
    /// The text of the error's message.
    pub open spec fn message_text(&self) -> Seq<char> {
        match self {
            DbError::Database(m) => "Database error: "@ + m@,
            DbError::NotFound(m) => "Not found: "@ + m@,
            DbError::Duplicate(m) => "Duplicate entry: "@ + m@,
        }
    }

    /// The error's message.
    pub fn message(&self) -> (s: String)
        ensures
            s@ == self.message_text(),
    {
        let (mut s, m) = match self {
            DbError::Database(m) => ("Database error: ".to_string(), m),
            DbError::NotFound(m) => ("Not found: ".to_string(), m),
            DbError::Duplicate(m) => ("Duplicate entry: ".to_string(), m),
        };
        s.append(m.as_str());
        s
    }
}

/// Upstream client errors.
#[derive(Debug)]
pub enum ProxyError {
    /// The HTTP exchange failed, with the transport's message.
    Http(String),
    /// The upstream has no such object.
    NotFound(String),
    /// The upstream refused our credentials.
    Unauthorized,
    /// The upstream answered with an error status.
    UpstreamError { status: u16, message: String },
    /// The upstream's answer could not be understood.
    InvalidResponse(String),
    /// No bearer token could be obtained.
    TokenRefreshFailed,
}

impl ProxyError {
    /// The text of the error's message.
    pub open spec fn message_text(&self) -> Seq<char> {
        match self {
            ProxyError::Http(m) => "HTTP error: "@ + m@,
            ProxyError::NotFound(m) => "Upstream not found: "@ + m@,
            ProxyError::Unauthorized => "Upstream unauthorized"@,
            ProxyError::UpstreamError { status, message } => "Upstream returned error: "@ + dec(
                *status as nat,
            ) + " - "@ + message@,
            ProxyError::InvalidResponse(m) => "Invalid response: "@ + m@,
            ProxyError::TokenRefreshFailed => "Token refresh failed"@,
        }
    }

    /// The error's message.
    pub fn message(&self) -> (s: String)
        ensures
            s@ == self.message_text(),
    {
        match self {
            ProxyError::Http(m) => {
                let mut s = "HTTP error: ".to_string();
                s.append(m.as_str());
                s
            },
            ProxyError::NotFound(m) => {
                let mut s = "Upstream not found: ".to_string();
                s.append(m.as_str());
                s
            },
            ProxyError::Unauthorized => "Upstream unauthorized".to_string(),
            ProxyError::UpstreamError { status, message } => {
                let mut s = "Upstream returned error: ".to_string();
                push_decimal(&mut s, *status as u64);
                s.append(" - ");
                s.append(message.as_str());
                s
            },
            ProxyError::InvalidResponse(m) => {
                let mut s = "Invalid response: ".to_string();
                s.append(m.as_str());
                s
            },
            ProxyError::TokenRefreshFailed => "Token refresh failed".to_string(),
        }
    }
}

/// Registry service errors.
#[derive(Debug)]
pub enum CoreError {
    /// A database failure.
    Database(DbError),
    /// A storage failure.
    Storage(StorageError),
    /// An upstream failure.
    Proxy(ProxyError),
    /// The object does not exist.
    NotFound(String),
    /// A digest is malformed or does not match.
    InvalidDigest(String),
    /// The request is malformed.
    BadRequest(String),
    /// The object is not cached.
    CacheMiss,
}

impl CoreError {
    /// The text of the error's message.
    pub open spec fn message_text(&self) -> Seq<char> {
        match self {
            CoreError::Database(e) => "Database error: "@ + e.message_text(),
            CoreError::Storage(e) => "Storage error: "@ + e.message_text(),
            CoreError::Proxy(e) => "Proxy error: "@ + e.message_text(),
            CoreError::NotFound(m) => "Not found: "@ + m@,
            CoreError::InvalidDigest(m) => "Invalid digest: "@ + m@,
            CoreError::BadRequest(m) => "Bad request: "@ + m@,
            CoreError::CacheMiss => "Cache miss"@,
        }
    }

    /// The error's message.
    pub fn message(&self) -> (s: String)
        ensures
            s@ == self.message_text(),
    {
        let (mut s, m) = match self {
            CoreError::Database(e) => ("Database error: ".to_string(), e.message()),
            CoreError::Storage(e) => ("Storage error: ".to_string(), e.message()),
            CoreError::Proxy(e) => ("Proxy error: ".to_string(), e.message()),
            CoreError::NotFound(m) => ("Not found: ".to_string(), m.clone()),
            CoreError::InvalidDigest(m) => ("Invalid digest: ".to_string(), m.clone()),
            CoreError::BadRequest(m) => ("Bad request: ".to_string(), m.clone()),
            CoreError::CacheMiss => {
                return "Cache miss".to_string();
            },
        };
        s.append(m.as_str());
        s
    }
}

/// Authentication errors.
#[derive(Debug)]
pub enum AuthError {
    InvalidCredentials,
    InvalidToken,
    TokenExpired,
    MissingAuthHeader,
    InvalidAuthHeader,
    InsufficientPermissions,
    UserNotFound,
    /// Password hashing failed, with its message.
    PasswordHash(String),
    /// A token could not be encoded or decoded, with the JWT library's message.
    Jwt(String),
}

impl AuthError {
    /// The text of the error's message.
    pub open spec fn message_text(&self) -> Seq<char> {
        match self {
            AuthError::InvalidCredentials => "Invalid credentials"@,
            AuthError::InvalidToken => "Invalid token"@,
            AuthError::TokenExpired => "Token expired"@,
            AuthError::MissingAuthHeader => "Missing authorization header"@,
            AuthError::InvalidAuthHeader => "Invalid authorization header format"@,
            AuthError::InsufficientPermissions => "Insufficient permissions"@,
            AuthError::UserNotFound => "User not found"@,
            AuthError::PasswordHash(m) => "Password hashing error: "@ + m@,
            AuthError::Jwt(m) => "JWT error: "@ + m@,
        }
    }

    /// The error's message.
    pub fn message(&self) -> (s: String)
        ensures
            s@ == self.message_text(),
    {
        match self {
            AuthError::InvalidCredentials => "Invalid credentials".to_string(),
            AuthError::InvalidToken => "Invalid token".to_string(),
            AuthError::TokenExpired => "Token expired".to_string(),
            AuthError::MissingAuthHeader => "Missing authorization header".to_string(),
            AuthError::InvalidAuthHeader => "Invalid authorization header format".to_string(),
            AuthError::InsufficientPermissions => "Insufficient permissions".to_string(),
            AuthError::UserNotFound => "User not found".to_string(),
            AuthError::PasswordHash(m) => {
                let mut s = "Password hashing error: ".to_string();
                s.append(m.as_str());
                s
            },
            AuthError::Jwt(m) => {
                let mut s = "JWT error: ".to_string();
                s.append(m.as_str());
                s
            },
        }
    }

    /// The HTTP status and the `error` text with which an authentication
    /// failure is answered.
    pub open spec fn reply(&self) -> (u16, Seq<char>) {
        match self {
            AuthError::InvalidCredentials => (401, "Invalid credentials"@),
            AuthError::InvalidToken => (401, "Invalid token"@),
            AuthError::TokenExpired => (401, "Token expired"@),
            AuthError::MissingAuthHeader => (401, "Missing authorization header"@),
            AuthError::InvalidAuthHeader => (401, "Invalid authorization header format"@),
            AuthError::InsufficientPermissions => (403, "Insufficient permissions"@),
            AuthError::UserNotFound => (404, "User not found"@),
            AuthError::PasswordHash(_) => (500, "Internal error"@),
            AuthError::Jwt(_) => (401, "Invalid token"@),
        }
    }

    /// The answer to an authentication failure: a status and a JSON body
    /// `{"error": message}`.
    pub fn into_response(self) -> (r: AuthErrorResponse)
        ensures
            (r.status, r.message@) == self.reply(),
    {
        let (status, message) = match self {
            AuthError::InvalidCredentials => (401u16, "Invalid credentials"),
            AuthError::InvalidToken => (401u16, "Invalid token"),
            AuthError::TokenExpired => (401u16, "Token expired"),
            AuthError::MissingAuthHeader => (401u16, "Missing authorization header"),
            AuthError::InvalidAuthHeader => (401u16, "Invalid authorization header format"),
            AuthError::InsufficientPermissions => (403u16, "Insufficient permissions"),
            AuthError::UserNotFound => (404u16, "User not found"),
            AuthError::PasswordHash(_) => (500u16, "Internal error"),
            AuthError::Jwt(_) => (401u16, "Invalid token"),
        };
        AuthErrorResponse { status, message: message.to_string() }
    }
}

/// How an authentication failure is answered: the HTTP status and the text
/// of the body's `error` member.
#[derive(Debug)]
pub struct AuthErrorResponse {
    pub status: u16,
    pub message: String,
}

/// API errors.
#[derive(Debug)]
pub enum ApiError {
    NotFound(String),
    BadRequest(String),
    Unauthorized,
    Forbidden,
    MethodNotAllowed,
    Internal(String),
    Core(CoreError),
    Database(DbError),
    Auth(AuthError),
    Storage(StorageError),
}

/// How an API error is answered: the HTTP status, and the `code` and
/// `message` of the single entry of the body's `errors` list (OCI
/// distribution error format, with a null `detail`).
#[derive(Debug)]
pub struct ErrorResponse {
    pub status: u16,
    pub code: String,
    pub message: String,
}

impl ApiError {
    /// The text of the error's message.
    pub open spec fn message_text(&self) -> Seq<char> {
        match self {
            ApiError::NotFound(m) => "Not found: "@ + m@,
            ApiError::BadRequest(m) => "Bad request: "@ + m@,
            ApiError::Unauthorized => "Unauthorized"@,
            ApiError::Forbidden => "Forbidden"@,
            ApiError::MethodNotAllowed => "Method not allowed"@,
            ApiError::Internal(m) => "Internal error: "@ + m@,
            ApiError::Core(e) => "Core error: "@ + e.message_text(),
            ApiError::Database(e) => "Database error: "@ + e.message_text(),
            ApiError::Auth(e) => "Auth error: "@ + e.message_text(),
            ApiError::Storage(e) => "Storage error: "@ + e.message_text(),
        }
    }

    /// The error's message.
    pub fn message(&self) -> (s: String)
        ensures
            s@ == self.message_text(),
    {
        let (mut s, m) = match self {
            ApiError::NotFound(m) => ("Not found: ".to_string(), m.clone()),
            ApiError::BadRequest(m) => ("Bad request: ".to_string(), m.clone()),
            ApiError::Unauthorized => {
                return "Unauthorized".to_string();
            },
            ApiError::Forbidden => {
                return "Forbidden".to_string();
            },
            ApiError::MethodNotAllowed => {
                return "Method not allowed".to_string();
            },
            ApiError::Internal(m) => ("Internal error: ".to_string(), m.clone()),
            ApiError::Core(e) => ("Core error: ".to_string(), e.message()),
            ApiError::Database(e) => ("Database error: ".to_string(), e.message()),
            ApiError::Auth(e) => ("Auth error: ".to_string(), e.message()),
            ApiError::Storage(e) => ("Storage error: ".to_string(), e.message()),
        };
        s.append(m.as_str());
        s
    }

    /// The status, code and message with which the error is answered.
    pub open spec fn reply(&self) -> (u16, Seq<char>, Seq<char>) {
        match self {
            ApiError::NotFound(m) => (404, "NOT_FOUND"@, m@),
            ApiError::BadRequest(m) => (400, "BAD_REQUEST"@, m@),
            ApiError::Unauthorized => (401, "UNAUTHORIZED"@, "Unauthorized"@),
            ApiError::Forbidden => (403, "FORBIDDEN"@, "Forbidden"@),
            ApiError::MethodNotAllowed => (405, "METHOD_NOT_ALLOWED"@, "Method not allowed"@),
            ApiError::Internal(m) => (500, "INTERNAL_ERROR"@, m@),
            ApiError::Core(e) => match e {
                CoreError::NotFound(m) => (404, "NOT_FOUND"@, m@),
                CoreError::BadRequest(m) => (400, "BAD_REQUEST"@, m@),
                CoreError::InvalidDigest(m) => (400, "DIGEST_INVALID"@, m@),
                _ => (500, "INTERNAL_ERROR"@, e.message_text()),
            },
            ApiError::Database(e) => match e {
                DbError::NotFound(m) => (404, "NOT_FOUND"@, m@),
                _ => (500, "DATABASE_ERROR"@, e.message_text()),
            },
            ApiError::Auth(e) => (
                if e is InsufficientPermissions {
                    403
                } else {
                    401
                },
                "AUTH_ERROR"@,
                e.message_text(),
            ),
            ApiError::Storage(e) => match e {
                StorageError::NotFound(m) => (404, "NOT_FOUND"@, m@),
                _ => (500, "STORAGE_ERROR"@, e.message_text()),
            },
        }
    }

    /// The answer to the error.
    pub fn into_response(self) -> (r: ErrorResponse)
        ensures
            (r.status, r.code@, r.message@) == self.reply(),
    {
        let (status, code, message): (u16, &str, String) = match self {
            ApiError::NotFound(m) => (404, "NOT_FOUND", m),
            ApiError::BadRequest(m) => (400, "BAD_REQUEST", m),
            ApiError::Unauthorized => (401, "UNAUTHORIZED", "Unauthorized".to_string()),
            ApiError::Forbidden => (403, "FORBIDDEN", "Forbidden".to_string()),
            ApiError::MethodNotAllowed => (
                405,
                "METHOD_NOT_ALLOWED",
                "Method not allowed".to_string(),
            ),
            ApiError::Internal(m) => (500, "INTERNAL_ERROR", m),
            ApiError::Core(e) => match e {
                CoreError::NotFound(m) => (404, "NOT_FOUND", m),
                CoreError::BadRequest(m) => (400, "BAD_REQUEST", m),
                CoreError::InvalidDigest(m) => (400, "DIGEST_INVALID", m),
                other => {
                    let m = other.message();
                    (500, "INTERNAL_ERROR", m)
                },
            },
            ApiError::Database(e) => match e {
                DbError::NotFound(m) => (404, "NOT_FOUND", m),
                other => {
                    let m = other.message();
                    (500, "DATABASE_ERROR", m)
                },
            },
            ApiError::Auth(e) => {
                let status: u16 = match e {
                    AuthError::InsufficientPermissions => 403,
                    _ => 401,
                };
                let m = e.message();
                (status, "AUTH_ERROR", m)
            },
            ApiError::Storage(e) => match e {
                StorageError::NotFound(m) => (404, "NOT_FOUND", m),
                other => {
                    let m = other.message();
                    (500, "STORAGE_ERROR", m)
                },
            },
        };
        ErrorResponse { status, code: code.to_string(), message }
    }
}

/// Client errors are answered as client errors, with their own message:
/// a bad request, from the API or from the core, is `400 BAD_REQUEST`; a
/// missing object, wherever it is found missing, is `404 NOT_FOUND`; an
/// invalid digest is `400 DIGEST_INVALID`. None of them becomes a server
/// error.
pub proof fn lemma_client_errors_answered_as_such(m: String)
    ensures
        ApiError::BadRequest(m).reply() == (400u16, "BAD_REQUEST"@, m@),
        ApiError::Core(CoreError::BadRequest(m)).reply() == (400u16, "BAD_REQUEST"@, m@),
        ApiError::NotFound(m).reply() == (404u16, "NOT_FOUND"@, m@),
        ApiError::Core(CoreError::NotFound(m)).reply() == (404u16, "NOT_FOUND"@, m@),
        ApiError::Database(DbError::NotFound(m)).reply() == (404u16, "NOT_FOUND"@, m@),
        ApiError::Storage(StorageError::NotFound(m)).reply() == (404u16, "NOT_FOUND"@, m@),
        ApiError::Core(CoreError::InvalidDigest(m)).reply() == (400u16, "DIGEST_INVALID"@, m@),
        ApiError::Unauthorized.reply().0 == 401,
        ApiError::Forbidden.reply().0 == 403,
        ApiError::MethodNotAllowed.reply().0 == 405,
        ApiError::Auth(AuthError::InsufficientPermissions).reply().0 == 403,
        ApiError::Internal(m).reply() == (500u16, "INTERNAL_ERROR"@, m@),
{
}

/// Only failures of the server are answered with a 5xx status: an error
/// answered so is an internal one, or a core, database or storage failure
/// that is not a missing object, bad request or invalid digest.
pub proof fn lemma_server_errors_only(e: ApiError)
    ensures
        e.reply().0 >= 500 ==> match e {
            ApiError::Internal(_) => true,
            ApiError::Core(c) => !(c is NotFound || c is BadRequest || c is InvalidDigest),
            ApiError::Database(d) => !(d is NotFound),
            ApiError::Storage(st) => !(st is NotFound),
            _ => false,
        },
{
}

} // verus!
