//! The management API's requests and answers for users, cache entries,
//! activity logs and configuration entries.

use vstd::prelude::*;

use crate::api_types::{
    ActivityLogResponse, ActivityLogsQuery, CacheEntriesQuery, CacheEntryResponse,
    ConfigEntryResponse, UserResponse,
};
use crate::db::{ActivityLog, ActivityLogQuery, CacheEntry, CacheEntryQuery, ConfigEntry, User, UserRole};
use crate::errors::ApiError;
use crate::numfmt::{bytes_text, dec_signed, format_bytes};

verus! {

/// The largest page a listing asks the database for.
pub const MAX_PAGE: i64 = 100;

/// How a user is reported (never with the password hash).
pub fn user_response(user: User) -> (r: UserResponse)
    ensures
        r.id == user.id,
        r.username == user.username,
        r.role@ == user.role.name(),
        r.created_at == user.created_at,
        r.updated_at == user.updated_at,
{
    UserResponse {
        id: user.id,
        username: user.username,
        role: user.role.as_str().to_string(),
        created_at: user.created_at,
        updated_at: user.updated_at,
    }
}

/// The role a request names; refused when it is not a role.
pub fn requested_role(role: &str) -> (r: Result<UserRole, ApiError>)
    ensures
        match r {
            Ok(x) => x.name() == role@,
            Err(e) => (e matches ApiError::BadRequest(m) && m@ == "Invalid role: "@ + role@) && role@
                != "admin"@ && role@ != "read-write"@ && role@ != "read-only"@,
        },
{
    match UserRole::from_str(role) {
        Ok(x) => Ok(x),
        Err(_) => {
            let mut m = "Invalid role: ".to_string();
            m.append(role);
            Err(ApiError::BadRequest(m))
        },
    }
}

/// The error for a user that does not exist.
pub fn user_not_found(id: i64) -> (e: ApiError)
    ensures
        e matches ApiError::NotFound(m) && m@ == "User: "@ + dec_signed(id as int),
{
    let mut m = "User: ".to_string();
    let d = crate::numfmt::format_i64(id);
    m.append(d.as_str());
    ApiError::NotFound(m)
}

/// The error for a configuration key that does not exist.
pub fn config_key_not_found(key: &str) -> (e: ApiError)
    ensures
        e matches ApiError::NotFound(m) && m@ == "Config key: "@ + key@,
{
    let mut m = "Config key: ".to_string();
    m.append(key);
    ApiError::NotFound(m)
}

/// How a configuration entry is reported.
pub fn config_entry_response(e: ConfigEntry) -> (r: ConfigEntryResponse)
    ensures
        r.key == e.key,
        r.value == e.value,
        r.updated_at == e.updated_at,
{
    ConfigEntryResponse { key: e.key, value: e.value, updated_at: e.updated_at }
}

/// How a cache entry is reported: with its size also in human-readable form.
pub fn cache_entry_response(e: CacheEntry) -> (r: CacheEntryResponse)
    ensures
        r.id == e.id,
        r.entry_type@ == e.entry_type.name(),
        r.repository == e.repository,
        r.reference == e.reference,
        r.digest == e.digest,
        r.content_type == e.content_type,
        r.size == e.size,
        r.size_human@ == bytes_text(e.size as int),
        r.created_at == e.created_at,
        r.last_accessed_at == e.last_accessed_at,
        r.access_count == e.access_count,
{
    CacheEntryResponse {
        id: e.id,
        entry_type: e.entry_type.as_str().to_string(),
        repository: e.repository,
        reference: e.reference,
        digest: e.digest,
        content_type: e.content_type,
        size: e.size,
        size_human: format_bytes(e.size),
        created_at: e.created_at,
        last_accessed_at: e.last_accessed_at,
        access_count: e.access_count,
    }
}

/// The smaller of a requested page size and [`MAX_PAGE`].
pub open spec fn capped(limit: i64) -> i64 {
    if limit < MAX_PAGE {
        limit
    } else {
        MAX_PAGE
    }
}

/// The database query of a cache listing request: its filters, its offset,
/// and its page size capped at 100.
pub fn cache_entries_request(q: CacheEntriesQuery) -> (r: CacheEntryQuery)
    ensures
        r.entry_type == q.entry_type,
        r.repository == q.repository,
        r.digest == q.digest,
        r.offset == q.offset,
        r.limit == capped(q.limit),
        r.sort_by == q.sort_by,
        r.sort_order == q.sort_order,
{
    CacheEntryQuery {
        entry_type: q.entry_type,
        repository: q.repository,
        digest: q.digest,
        offset: q.offset,
        limit: if q.limit < MAX_PAGE {
            q.limit
        } else {
            MAX_PAGE
        },
        sort_by: q.sort_by,
        sort_order: q.sort_order,
    }
}

/// How an activity log entry is reported.
pub fn activity_log_response(log: ActivityLog) -> (r: ActivityLogResponse)
    ensures
        r.id == log.id,
        r.timestamp == log.timestamp,
        r.action == log.action,
        r.resource_type == log.resource_type,
        r.resource_id == log.resource_id,
        r.user_id == log.user_id,
        r.username == log.username,
        r.details == log.details,
        r.ip_address == log.ip_address,
{
    ActivityLogResponse {
        id: log.id,
        timestamp: log.timestamp,
        action: log.action,
        resource_type: log.resource_type,
        resource_id: log.resource_id,
        user_id: log.user_id,
        username: log.username,
        details: log.details,
        ip_address: log.ip_address,
    }
}

/// The database query of an activity log request: its filters, its offset,
/// and its page size capped at 100.
pub fn activity_logs_request(q: ActivityLogsQuery) -> (r: ActivityLogQuery)
    ensures
        r.action == q.action,
        r.resource_type == q.resource_type,
        r.user_id == q.user_id,
        r.start_date == q.start_date,
        r.end_date == q.end_date,
        r.offset == q.offset,
        r.limit == capped(q.limit),
{
    ActivityLogQuery {
        action: q.action,
        resource_type: q.resource_type,
        user_id: q.user_id,
        start_date: q.start_date,
        end_date: q.end_date,
        offset: q.offset,
        limit: if q.limit < MAX_PAGE {
            q.limit
        } else {
            MAX_PAGE
        },
    }
}

} // verus!

verus! {

// ==================== Configuration entries and file ====================

/// Index of the first entry with this key.
pub open spec fn entry_with_key(es: Seq<ConfigEntry>, key: Seq<char>) -> Option<int> {
    if exists|i: int| 0 <= i < es.len() && (#[trigger] es[i]).key@ == key {
        Some(choose|i: int| 0 <= i < es.len() && (#[trigger] es[i]).key@ == key && forall|j: int| 0 <= j < i ==> es[j].key@ != key)
    } else {
        None
    }
}

/// The configuration entry with this key, as reported; refused when no
/// entry has it.
pub fn config_entry_by_key(entries: Vec<ConfigEntry>, key: &str) -> (r: Result<ConfigEntryResponse, ApiError>)
    ensures
        match entry_with_key(entries@, key@) {
            Some(i) => r matches Ok(e) && e.key == entries@[i].key && e.value == entries@[i].value
                && e.updated_at == entries@[i].updated_at,
            None => r matches Err(ApiError::NotFound(m)) && m@ == "Config key: "@ + key@,
        },
{
    let ghost es = entries@;
    let mut rest = entries;
    let mut k: usize = 0;
    let n = rest.len();
    #[verifier::loop_isolation(false)]
    while k < n
        invariant
            n == es.len(),
            k <= n,
            rest@ == es.subrange(k as int, n as int),
            forall|j: int| 0 <= j < k ==> es[j].key@ != key@,
        decreases n - k,
    {
        let e = rest.remove(0);
        proof {
            assert(e == es[k as int]);
        }
        if crate::text::str_eq(e.key.as_str(), key) {
            proof {
                let w = choose|i: int| 0 <= i < es.len() && (#[trigger] es[i]).key@ == key@ && forall|j: int| 0 <= j < i ==> es[j].key@ != key@;
                assert(0 <= k < es.len() && es[k as int].key@ == key@ && forall|j: int| 0 <= j < k ==> es[j].key@ != key@);
                assert(w == k) by {
                    if w < k {
                        assert(es[w].key@ != key@);
                    } else if w > k {
                        assert(es[k as int].key@ != key@);
                    }
                }
            }
            return Ok(config_entry_response(e));
        }
        k = k + 1;
        proof {
            assert(rest@ =~= es.subrange(k as int, n as int));
        }
    }
    proof {
        assert forall|i: int| 0 <= i < es.len() implies (#[trigger] es[i]).key@ != key@ by {}
    }
    Err(config_key_not_found(key))
}

/// The syntax error `toml` reports for a text read as a TOML document, or
/// none when it reads.
pub uninterp spec fn toml_syntax_error(text: Seq<char>) -> Option<Seq<char>>;

/// Reads `text` as a TOML document (`toml::from_str` into `toml::Value`),
/// keeping only the error's text.
#[verifier::external_body]
fn toml_syntax_check(text: &str) -> (r: Option<String>)
    ensures
        match r {
            Some(e) => toml_syntax_error(text@) == Some(e@),
            None => toml_syntax_error(text@) is None,
        },
{
    match toml::from_str::<toml::Value>(text) {
        Ok(_) => None,
        Err(e) => Some(e.to_string()),
    }
}

/// The answer to a configuration file check.
pub struct ConfigValidationResponse {
    pub valid: bool,
    pub message: String,
}

/// Whether a configuration file's text is valid TOML, and why not.
pub fn validate_config_content(content: &str) -> (r: ConfigValidationResponse)
    ensures
        match toml_syntax_error(content@) {
            None => r.valid && r.message@ == "Configuration is valid"@,
            Some(e) => !r.valid && r.message@ == "Invalid TOML syntax: "@ + e,
        },
{
    match toml_syntax_check(content) {
        None => ConfigValidationResponse { valid: true, message: "Configuration is valid".to_string() },
        Some(e) => {
            let mut m = "Invalid TOML syntax: ".to_string();
            m.append(e.as_str());
            ConfigValidationResponse { valid: false, message: m }
        },
    }
}

/// Whether a new configuration file may be written: the file's location
/// must be known and the text must be valid TOML.
pub fn config_file_update_check(path_known: bool, content: &str) -> (r: Result<(), ApiError>)
    ensures
        !path_known ==> (r matches Err(ApiError::BadRequest(m)) && m@ == "Config path not available"@),
        path_known ==> match toml_syntax_error(content@) {
            None => r is Ok,
            Some(e) => r matches Err(ApiError::BadRequest(m)) && m@ == "Invalid TOML syntax: "@ + e,
        },
{
    if !path_known {
        return Err(ApiError::BadRequest("Config path not available".to_string()));
    }
    match toml_syntax_check(content) {
        None => Ok(()),
        Some(e) => {
            let mut m = "Invalid TOML syntax: ".to_string();
            m.append(e.as_str());
            Err(ApiError::BadRequest(m))
        },
    }
}

} // verus!
