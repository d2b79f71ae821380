//! Records of the cache database, the queries that list them, and the SQL
//! statements built from those queries and from partial updates.

use vstd::prelude::*;

use crate::numfmt::{dec_signed, format_i64};
use crate::text::{ascii_lower, chars_of, lower_text, lowered, opt_view, str_eq};

verus! {

// ==================== Enumerations stored as text ====================

/// Error of parsing a stored enumeration.
#[derive(Debug)]
pub enum ParseError {
    InvalidEntryType(String),
    InvalidUserRole(String),
}

impl ParseError {
    /// The text of the error's message.
    pub open spec fn message_text(&self) -> Seq<char> {
        match self {
            ParseError::InvalidEntryType(s) => "Invalid entry type: "@ + s@,
            ParseError::InvalidUserRole(s) => "Invalid user role: "@ + s@,
        }
    }

    /// The error's message.
    pub fn message(&self) -> (m: String)
        ensures
            m@ == self.message_text(),
    {
        let (mut m, s) = match self {
            ParseError::InvalidEntryType(s) => ("Invalid entry type: ".to_string(), s),
            ParseError::InvalidUserRole(s) => ("Invalid user role: ".to_string(), s),
        };
        m.append(s.as_str());
        m
    }
}

/// Cache entry type.
#[derive(Clone, Copy, Debug, PartialEq, Eq, Structural)]
pub enum EntryType {
    Manifest,
    Blob,
}

impl EntryType {
    /// The stored name.
    pub open spec fn name(&self) -> Seq<char> {
        match self {
            EntryType::Manifest => "manifest"@,
            EntryType::Blob => "blob"@,
        }
    }

    /// The stored name.
    pub fn as_str(&self) -> (s: &'static str)
        ensures
            s@ == self.name(),
    {
        match self {
            EntryType::Manifest => "manifest",
            EntryType::Blob => "blob",
        }
    }

    /// The entry type stored as `s`.
    pub fn from_str(s: &str) -> (r: Result<EntryType, ParseError>)
        ensures
            match r {
                Ok(t) => t.name() == s@,
                Err(e) => (e matches ParseError::InvalidEntryType(x) && x@ == s@) && s@ != "manifest"@
                    && s@ != "blob"@,
            },
    {
        if str_eq(s, "manifest") {
            Ok(EntryType::Manifest)
        } else if str_eq(s, "blob") {
            Ok(EntryType::Blob)
        } else {
            Err(ParseError::InvalidEntryType(s.to_string()))
        }
    }
}

/// User role.
#[derive(Clone, Copy, Debug, PartialEq, Eq, Structural)]
pub enum UserRole {
    Admin,
    ReadWrite,
    ReadOnly,
}

impl UserRole {
    /// The stored name.
    pub open spec fn name(&self) -> Seq<char> {
        match self {
            UserRole::Admin => "admin"@,
            UserRole::ReadWrite => "read-write"@,
            UserRole::ReadOnly => "read-only"@,
        }
    }

    /// The stored name.
    pub fn as_str(&self) -> (s: &'static str)
        ensures
            s@ == self.name(),
    {
        match self {
            UserRole::Admin => "admin",
            UserRole::ReadWrite => "read-write",
            UserRole::ReadOnly => "read-only",
        }
    }

    /// Administrators and read-write users may write.
    pub fn can_write(&self) -> (b: bool)
        ensures
            b == (*self is Admin || *self is ReadWrite),
    {
        match self {
            UserRole::Admin | UserRole::ReadWrite => true,
            UserRole::ReadOnly => false,
        }
    }

    /// Whether the role is the administrator's.
    pub fn is_admin(&self) -> (b: bool)
        ensures
            b == (*self is Admin),
    {
        match self {
            UserRole::Admin => true,
            _ => false,
        }
    }

    /// The role stored as `s`.
    pub fn from_str(s: &str) -> (r: Result<UserRole, ParseError>)
        ensures
            match r {
                Ok(t) => t.name() == s@,
                Err(e) => (e matches ParseError::InvalidUserRole(x) && x@ == s@) && s@ != "admin"@
                    && s@ != "read-write"@ && s@ != "read-only"@,
            },
    {
        if str_eq(s, "admin") {
            Ok(UserRole::Admin)
        } else if str_eq(s, "read-write") {
            Ok(UserRole::ReadWrite)
        } else if str_eq(s, "read-only") {
            Ok(UserRole::ReadOnly)
        } else {
            Err(ParseError::InvalidUserRole(s.to_string()))
        }
    }
}

/// Cache isolation mode of an upstream.
#[derive(Clone, Copy, Debug, PartialEq, Eq, Structural)]
pub enum CacheIsolation {
    /// Share the cache across all upstreams (deduplicate by digest).
    Shared,
    /// Keep a cache per upstream.
    Isolated,
}

impl Default for CacheIsolation {
    fn default() -> (c: Self)
        ensures
            c == CacheIsolation::Shared,
    {
        CacheIsolation::Shared
    }
}

impl CacheIsolation {
    /// The stored name.
    pub open spec fn name(&self) -> Seq<char> {
        match self {
            CacheIsolation::Shared => "shared"@,
            CacheIsolation::Isolated => "isolated"@,
        }
    }

    /// The stored name.
    pub fn as_str(&self) -> (s: &'static str)
        ensures
            s@ == self.name(),
    {
        match self {
            CacheIsolation::Shared => "shared",
            CacheIsolation::Isolated => "isolated",
        }
    }

    /// The mode named by `s`, in any case.
    pub fn from_str(s: &str) -> (r: Result<CacheIsolation, ParseError>)
        ensures
            match r {
                Ok(t) => t.name() == lowered(s@),
                Err(e) => (e matches ParseError::InvalidEntryType(x) && x@ == s@) && lowered(s@)
                    != "shared"@ && lowered(s@) != "isolated"@,
            },
    {
        let lower = lower_text(s);
        if str_eq(lower.as_str(), "shared") {
            Ok(CacheIsolation::Shared)
        } else if str_eq(lower.as_str(), "isolated") {
            Ok(CacheIsolation::Isolated)
        } else {
            Err(ParseError::InvalidEntryType(s.to_string()))
        }
    }
}

// ==================== Records for insertion ====================

/// New cache entry (for insertion).
pub struct NewCacheEntry {
    pub entry_type: EntryType,
    pub repository: Option<String>,
    pub reference: Option<String>,
    pub digest: String,
    pub content_type: String,
    pub size: i64,
    pub storage_path: String,
    /// Upstream of an isolated cache.
    pub upstream_id: Option<i64>,
}

/// New user (for insertion).
pub struct NewUser {
    pub username: String,
    pub password_hash: String,
    pub role: UserRole,
}

/// New upload session (for insertion).
pub struct NewUploadSession {
    pub id: String,
    pub repository: String,
    pub temp_path: String,
}

/// New activity log entry (for insertion).
pub struct NewActivityLog {
    pub action: String,
    pub resource_type: String,
    pub resource_id: Option<String>,
    pub user_id: Option<i64>,
    pub username: Option<String>,
    pub details: Option<String>,
    pub ip_address: Option<String>,
}

/// New upstream (for insertion).
pub struct NewUpstream {
    pub name: String,
    pub display_name: String,
    pub url: String,
    pub registry: String,
    pub username: Option<String>,
    pub password: Option<String>,
    pub skip_tls_verify: bool,
    pub priority: i32,
    pub enabled: bool,
    pub cache_isolation: CacheIsolation,
    pub is_default: bool,
}

/// Partial update of an upstream: each field present is set; for the
/// credentials, `Some(None)` clears them.
pub struct UpdateUpstream {
    pub display_name: Option<String>,
    pub url: Option<String>,
    pub registry: Option<String>,
    pub username: Option<Option<String>>,
    pub password: Option<Option<String>>,
    pub skip_tls_verify: Option<bool>,
    pub priority: Option<i32>,
    pub enabled: Option<bool>,
    pub cache_isolation: Option<CacheIsolation>,
    pub is_default: Option<bool>,
}

impl Default for UpdateUpstream {
    fn default() -> (u: Self)
        ensures
            u.display_name is None && u.url is None && u.registry is None && u.username is None
                && u.password is None && u.skip_tls_verify is None && u.priority is None
                && u.enabled is None && u.cache_isolation is None && u.is_default is None,
    {
        UpdateUpstream {
            display_name: None,
            url: None,
            registry: None,
            username: None,
            password: None,
            skip_tls_verify: None,
            priority: None,
            enabled: None,
            cache_isolation: None,
            is_default: None,
        }
    }
}

/// New upstream route (for insertion).
pub struct NewUpstreamRoute {
    pub upstream_id: i64,
    pub pattern: String,
    pub priority: i32,
}

/// Cache statistics.
pub struct CacheStats {
    pub total_size: i64,
    pub entry_count: i64,
    pub manifest_count: i64,
    pub blob_count: i64,
    /// Hits counted in memory (not stored).
    pub hit_count: i64,
    /// Misses counted in memory (not stored).
    pub miss_count: i64,
}

impl Default for CacheStats {
    fn default() -> (s: Self)
        ensures
            s.total_size == 0 && s.entry_count == 0 && s.manifest_count == 0 && s.blob_count == 0
                && s.hit_count == 0 && s.miss_count == 0,
    {
        CacheStats {
            total_size: 0,
            entry_count: 0,
            manifest_count: 0,
            blob_count: 0,
            hit_count: 0,
            miss_count: 0,
        }
    }
}

// ==================== Listing queries ====================

/// An offset made non-negative.
pub open spec fn page_offset(offset: i64) -> i64 {
    if offset < 0 {
        0
    } else {
        offset
    }
}

/// A page size made positive (50 by default) and at most 100.
pub open spec fn page_limit(limit: i64) -> i64 {
    if limit <= 0 {
        50
    } else if limit > 100 {
        100
    } else {
        limit
    }
}

/// The sort fields a cache listing accepts.
pub open spec fn is_cache_sort_field(s: Seq<char>) -> bool {
    s == "last_accessed_at"@ || s == "created_at"@ || s == "size"@ || s == "access_count"@
}

/// The sort directions a cache listing accepts, in any case.
pub open spec fn is_sort_direction(s: Seq<char>) -> bool {
    lowered(s) == "asc"@ || lowered(s) == "desc"@
}

/// Query parameters for listing cache entries.
pub struct CacheEntryQuery {
    /// Filter by entry type.
    pub entry_type: Option<String>,
    /// Filter by repository (partial match).
    pub repository: Option<String>,
    /// Filter by digest (partial match).
    pub digest: Option<String>,
    /// Pagination offset.
    pub offset: i64,
    /// Page size.
    pub limit: i64,
    /// Sort field: "last_accessed_at", "created_at", "size" or "access_count".
    pub sort_by: Option<String>,
    /// Sort direction: "asc" or "desc".
    pub sort_order: Option<String>,
}

impl Default for CacheEntryQuery {
    fn default() -> (q: Self)
        ensures
            q.entry_type is None && q.repository is None && q.digest is None && q.offset == 0
                && q.limit == 0 && q.sort_by is None && q.sort_order is None,
    {
        CacheEntryQuery {
            entry_type: None,
            repository: None,
            digest: None,
            offset: 0,
            limit: 0,
            sort_by: None,
            sort_order: None,
        }
    }
}

impl CacheEntryQuery {
    /// The query with its offset and page size brought into range and an
    /// unknown sort field or direction dropped.
    pub open spec fn validated_spec(self) -> Self {
        CacheEntryQuery {
            entry_type: self.entry_type,
            repository: self.repository,
            digest: self.digest,
            offset: page_offset(self.offset),
            limit: page_limit(self.limit),
            sort_by: match self.sort_by {
                Some(f) => if is_cache_sort_field(f@) {
                    Some(f)
                } else {
                    None
                },
                None => None,
            },
            sort_order: match self.sort_order {
                Some(o) => if is_sort_direction(o@) {
                    Some(o)
                } else {
                    None
                },
                None => None,
            },
        }
    }

    /// The query with its offset and page size brought into range and an
    /// unknown sort field or direction dropped.
    pub fn validated(self) -> (q: Self)
        ensures
            q == self.validated_spec(),
    {
        let CacheEntryQuery { entry_type, repository, digest, offset, limit, sort_by, sort_order } =
            self;
        let offset = if offset < 0 {
            0
        } else {
            offset
        };
        let limit = if limit <= 0 {
            50
        } else if limit > 100 {
            100
        } else {
            limit
        };
        let sort_by = match sort_by {
            Some(f) => {
                let fs = f.as_str();
                if str_eq(fs, "last_accessed_at") || str_eq(fs, "created_at") || str_eq(fs, "size")
                    || str_eq(fs, "access_count") {
                    Some(f)
                } else {
                    None
                }
            },
            None => None,
        };
        let sort_order = match sort_order {
            Some(o) => {
                let lower = lower_text(o.as_str());
                if str_eq(lower.as_str(), "asc") || str_eq(lower.as_str(), "desc") {
                    Some(o)
                } else {
                    None
                }
            },
            None => None,
        };
        CacheEntryQuery { entry_type, repository, digest, offset, limit, sort_by, sort_order }
    }
}

/// Query parameters for listing activity logs.
pub struct ActivityLogQuery {
    /// Filter by action.
    pub action: Option<String>,
    /// Filter by resource type.
    pub resource_type: Option<String>,
    /// Filter by user.
    pub user_id: Option<i64>,
    /// Earliest time (RFC 3339).
    pub start_date: Option<String>,
    /// Latest time (RFC 3339).
    pub end_date: Option<String>,
    /// Pagination offset.
    pub offset: i64,
    /// Page size.
    pub limit: i64,
}

impl Default for ActivityLogQuery {
    fn default() -> (q: Self)
        ensures
            q.action is None && q.resource_type is None && q.user_id is None && q.start_date is None
                && q.end_date is None && q.offset == 0 && q.limit == 0,
    {
        ActivityLogQuery {
            action: None,
            resource_type: None,
            user_id: None,
            start_date: None,
            end_date: None,
            offset: 0,
            limit: 0,
        }
    }
}

impl ActivityLogQuery {
    /// The query with its offset and page size brought into range.
    pub fn validated(self) -> (q: Self)
        ensures
            q.offset == page_offset(self.offset),
            q.limit == page_limit(self.limit),
            q.action == self.action,
            q.resource_type == self.resource_type,
            q.user_id == self.user_id,
            q.start_date == self.start_date,
            q.end_date == self.end_date,
    {
        let ActivityLogQuery { action, resource_type, user_id, start_date, end_date, offset, limit } =
            self;
        let offset = if offset < 0 {
            0
        } else {
            offset
        };
        let limit = if limit <= 0 {
            50
        } else if limit > 100 {
            100
        } else {
            limit
        };
        ActivityLogQuery { action, resource_type, user_id, start_date, end_date, offset, limit }
    }
}

/// The statements that list one page of records: one counts all matching
/// rows, the other selects the page. Both take `params` for their filter
/// placeholders; the select then takes `limit` and `offset`.
pub struct ListQueryPlan {
    pub count_sql: String,
    pub select_sql: String,
    pub params: Vec<String>,
    pub limit: i64,
    pub offset: i64,
}

/// `WHERE` and the conditions joined by `AND`, or nothing without conditions.
pub open spec fn where_clause(conds: Seq<Seq<char>>) -> Seq<char> {
    if conds.len() == 0 {
        Seq::empty()
    } else {
        "WHERE "@ + crate::text::join(conds, " AND "@)
    }
}

fn where_text(conds: &Vec<String>) -> (s: String)
    ensures
        s@ == where_clause(crate::text::views_of(conds@)),
{
    if conds.len() == 0 {
        String::new()
    } else {
        let mut s = "WHERE ".to_string();
        let j = crate::text::join_strings(conds, " AND ");
        s.append(j.as_str());
        s
    }
}

/// A filter: a condition and the parameter it binds.
pub open spec fn filter_if(o: Option<Seq<char>>, cond: Seq<char>, param: spec_fn(Seq<char>) -> Seq<char>) -> Seq<
    (Seq<char>, Seq<char>),
> {
    match o {
        Some(v) => seq![(cond, param(v))],
        None => Seq::empty(),
    }
}

/// `%s%`: a `LIKE` pattern matching any text that holds `s`.
pub open spec fn like_any(s: Seq<char>) -> Seq<char> {
    "%"@ + s + "%"@
}

/// The filters of a cache listing, in order.
pub open spec fn cache_filters(q: CacheEntryQuery) -> Seq<(Seq<char>, Seq<char>)> {
    filter_if(opt_view(q.entry_type), "entry_type = ?"@, |v: Seq<char>| v) + filter_if(
        opt_view(q.repository),
        "repository LIKE ?"@,
        |v: Seq<char>| like_any(v),
    ) + filter_if(opt_view(q.digest), "digest LIKE ?"@, |v: Seq<char>| like_any(v))
}

/// The column a cache listing is sorted by.
pub open spec fn cache_sort_column(sort_by: Option<Seq<char>>) -> Seq<char> {
    match sort_by {
        Some(f) => if f == "created_at"@ || f == "size"@ || f == "access_count"@ {
            f
        } else {
            "last_accessed_at"@
        },
        None => "last_accessed_at"@,
    }
}

/// `a` and `b` are equal ignoring ASCII case.
pub open spec fn eq_ignore_ascii_case(a: Seq<char>, b: Seq<char>) -> bool {
    a.len() == b.len() && forall|i: int| 0 <= i < a.len() ==> ascii_lower(#[trigger] a[i]) == ascii_lower(b[i])
}

fn ascii_lower_exec(c: char) -> (r: char)
    ensures
        r == ascii_lower(c),
{
    if 'A' <= c && c <= 'Z' {
        ((c as u8) + 32) as char
    } else {
        c
    }
}

/// Whether `a` equals `b` ignoring ASCII case (std's `eq_ignore_ascii_case`).
pub fn same_ignoring_ascii_case(a: &str, b: &str) -> (r: bool)
    ensures
        r == eq_ignore_ascii_case(a@, b@),
{
    let av = chars_of(a);
    let bv = chars_of(b);
    if av.len() != bv.len() {
        return false;
    }
    let mut i: usize = 0;
    while i < av.len()
        invariant
            av@ == a@,
            bv@ == b@,
            av.len() == bv.len(),
            i <= av.len(),
            forall|j: int| 0 <= j < i ==> ascii_lower(#[trigger] av@[j]) == ascii_lower(bv@[j]),
        decreases av.len() - i,
    {
        if ascii_lower_exec(av[i]) != ascii_lower_exec(bv[i]) {
            return false;
        }
        i = i + 1;
    }
    true
}

/// The direction a cache listing is sorted in: ascending only when asked.
pub open spec fn cache_sort_direction(sort_order: Option<Seq<char>>) -> Seq<char> {
    match sort_order {
        Some(s) => if eq_ignore_ascii_case(s, "asc"@) {
            "ASC"@
        } else {
            "DESC"@
        },
        None => "DESC"@,
    }
}

/// Appends a filter's condition and parameter.
fn push_filter(conds: &mut Vec<String>, params: &mut Vec<String>, cond: &str, param: String)
    ensures
        crate::text::views_of(final(conds)@) == crate::text::views_of(old(conds)@).push(cond@),
        crate::text::views_of(final(params)@) == crate::text::views_of(old(params)@).push(param@),
{
    conds.push(cond.to_string());
    params.push(param);
    assert(crate::text::views_of(conds@) =~= crate::text::views_of(old(conds)@).push(cond@));
    assert(crate::text::views_of(params@) =~= crate::text::views_of(old(params)@).push(param@));
}

/// `%s%`.
fn like_text(s: &String) -> (r: String)
    ensures
        r@ == like_any(s@),
{
    let mut r = "%".to_string();
    r.append(s.as_str());
    r.append("%");
    r
}

/// The statements that list a page of cache entries, from the query after
/// [`CacheEntryQuery::validated`].
pub fn cache_entries_listing(query: CacheEntryQuery) -> (p: ListQueryPlan)
    ensures
        ({
            let q = query.validated_spec();
            let f = cache_filters(q);
            let w = where_clause(f.map_values(|c: (Seq<char>, Seq<char>)| c.0));
            &&& crate::text::views_of(p.params@) == f.map_values(|c: (Seq<char>, Seq<char>)| c.1)
            &&& p.count_sql@ == "SELECT COUNT(*) as count FROM cache_entries "@ + w
            &&& p.select_sql@ == "SELECT id, entry_type, repository, reference, digest, content_type, size, created_at, last_accessed_at, access_count, storage_path FROM cache_entries "@
                + w + " ORDER BY "@ + cache_sort_column(opt_view(q.sort_by)) + " "@
                + cache_sort_direction(opt_view(q.sort_order)) + " LIMIT ? OFFSET ?"@
            &&& p.limit == q.limit
            &&& p.offset == q.offset
        }),
{
    let q = query.validated();
    let mut conds: Vec<String> = Vec::new();
    let mut params: Vec<String> = Vec::new();
    if let Some(entry_type) = &q.entry_type {
        push_filter(&mut conds, &mut params, "entry_type = ?", entry_type.clone());
    }
    let ghost c1 = crate::text::views_of(conds@);
    let ghost p1 = crate::text::views_of(params@);
    if let Some(repository) = &q.repository {
        push_filter(&mut conds, &mut params, "repository LIKE ?", like_text(repository));
    }
    let ghost c2 = crate::text::views_of(conds@);
    let ghost p2 = crate::text::views_of(params@);
    if let Some(digest) = &q.digest {
        push_filter(&mut conds, &mut params, "digest LIKE ?", like_text(digest));
    }
    proof {
        let f = cache_filters(q);
        assert(crate::text::views_of(conds@) =~= f.map_values(|c: (Seq<char>, Seq<char>)| c.0));
        assert(crate::text::views_of(params@) =~= f.map_values(|c: (Seq<char>, Seq<char>)| c.1));
    }
    let where_clause = where_text(&conds);
    let mut count_sql = "SELECT COUNT(*) as count FROM cache_entries ".to_string();
    count_sql.append(where_clause.as_str());
    let sort_field: &str = match &q.sort_by {
        Some(f) => {
            if str_eq(f.as_str(), "created_at") {
                "created_at"
            } else if str_eq(f.as_str(), "size") {
                "size"
            } else if str_eq(f.as_str(), "access_count") {
                "access_count"
            } else {
                "last_accessed_at"
            }
        },
        None => "last_accessed_at",
    };
    let sort_dir: &str = match &q.sort_order {
        Some(s) => if same_ignoring_ascii_case(s.as_str(), "asc") {
            "ASC"
        } else {
            "DESC"
        },
        None => "DESC",
    };
    let mut select_sql =
        "SELECT id, entry_type, repository, reference, digest, content_type, size, created_at, last_accessed_at, access_count, storage_path FROM cache_entries ".to_string();
    select_sql.append(where_clause.as_str());
    select_sql.append(" ORDER BY ");
    select_sql.append(sort_field);
    select_sql.append(" ");
    select_sql.append(sort_dir);
    select_sql.append(" LIMIT ? OFFSET ?");
    ListQueryPlan { count_sql, select_sql, params, limit: q.limit, offset: q.offset }
}

/// The filters of an activity log listing, in order.
pub open spec fn activity_filters(q: ActivityLogQuery) -> Seq<(Seq<char>, Seq<char>)> {
    filter_if(opt_view(q.action), "action = ?"@, |v: Seq<char>| v) + filter_if(
        opt_view(q.resource_type),
        "resource_type = ?"@,
        |v: Seq<char>| v,
    ) + filter_if(
        match q.user_id {
            Some(u) => Some(dec_signed(u as int)),
            None => None,
        },
        "user_id = ?"@,
        |v: Seq<char>| v,
    ) + filter_if(opt_view(q.start_date), "timestamp >= ?"@, |v: Seq<char>| v) + filter_if(
        opt_view(q.end_date),
        "timestamp <= ?"@,
        |v: Seq<char>| v,
    )
}

impl ActivityLogQuery {
    /// The query with its offset and page size brought into range.
    pub open spec fn validated_spec(self) -> Self {
        ActivityLogQuery { offset: page_offset(self.offset), limit: page_limit(self.limit), ..self }
    }
}

/// The statements that list a page of activity logs, newest first, from
/// the query after [`ActivityLogQuery::validated`].
pub fn activity_logs_listing(query: ActivityLogQuery) -> (p: ListQueryPlan)
    ensures
        ({
            let q = query.validated_spec();
            let f = activity_filters(q);
            let w = where_clause(f.map_values(|c: (Seq<char>, Seq<char>)| c.0));
            &&& crate::text::views_of(p.params@) == f.map_values(|c: (Seq<char>, Seq<char>)| c.1)
            &&& p.count_sql@ == "SELECT COUNT(*) as count FROM activity_logs "@ + w
            &&& p.select_sql@ == "SELECT id, timestamp, action, resource_type, resource_id, user_id, username, details, ip_address FROM activity_logs "@
                + w + " ORDER BY timestamp DESC LIMIT ? OFFSET ?"@
            &&& p.limit == q.limit
            &&& p.offset == q.offset
        }),
{
    let q = query.validated();
    let mut conds: Vec<String> = Vec::new();
    let mut params: Vec<String> = Vec::new();
    if let Some(action) = &q.action {
        push_filter(&mut conds, &mut params, "action = ?", action.clone());
    }
    if let Some(resource_type) = &q.resource_type {
        push_filter(&mut conds, &mut params, "resource_type = ?", resource_type.clone());
    }
    if let Some(user_id) = q.user_id {
        push_filter(&mut conds, &mut params, "user_id = ?", format_i64(user_id));
    }
    if let Some(start_date) = &q.start_date {
        push_filter(&mut conds, &mut params, "timestamp >= ?", start_date.clone());
    }
    if let Some(end_date) = &q.end_date {
        push_filter(&mut conds, &mut params, "timestamp <= ?", end_date.clone());
    }
    proof {
        let f = activity_filters(q);
        assert(crate::text::views_of(conds@) =~= f.map_values(|c: (Seq<char>, Seq<char>)| c.0));
        assert(crate::text::views_of(params@) =~= f.map_values(|c: (Seq<char>, Seq<char>)| c.1));
    }
    let where_clause = where_text(&conds);
    let mut count_sql = "SELECT COUNT(*) as count FROM activity_logs ".to_string();
    count_sql.append(where_clause.as_str());
    let mut select_sql =
        "SELECT id, timestamp, action, resource_type, resource_id, user_id, username, details, ip_address FROM activity_logs ".to_string();
    select_sql.append(where_clause.as_str());
    select_sql.append(" ORDER BY timestamp DESC LIMIT ? OFFSET ?");
    ListQueryPlan { count_sql, select_sql, params, limit: q.limit, offset: q.offset }
}

// ==================== Upstream updates ====================

/// A value bound to an SQL parameter.
pub enum SqlValue {
    Text(String),
    Null,
    Int(i64),
    Bool(bool),
}

/// [`SqlValue`] over character sequences.
pub enum SqlValueView {
    Text(Seq<char>),
    Null,
    Int(i64),
    Bool(bool),
}

impl View for SqlValue {
    type V = SqlValueView;

    open spec fn view(&self) -> SqlValueView {
        match self {
            SqlValue::Text(s) => SqlValueView::Text(s@),
            SqlValue::Null => SqlValueView::Null,
            SqlValue::Int(i) => SqlValueView::Int(*i),
            SqlValue::Bool(b) => SqlValueView::Bool(*b),
        }
    }
}

/// The views of a sequence of values.
pub open spec fn values_view(v: Seq<SqlValue>) -> Seq<SqlValueView> {
    v.map_values(|x: SqlValue| x@)
}

/// How an upstream is updated: the statement, if any, by which every other
/// upstream first loses its default flag, and the `UPDATE` with its
/// parameters, or none when the update sets nothing (the upstream is then
/// only read back).
pub struct UpstreamUpdatePlan {
    /// When the update makes the upstream the default: the statement that
    /// takes the mark from every other upstream, with the id it spares.
    pub clear_other_defaults: Option<(String, Vec<SqlValue>)>,
    pub statement: Option<(String, Vec<SqlValue>)>,
}

/// `acc` with a column set to a value, when `present`.
#[verifier::opaque]
pub open spec fn set_if(
    acc: Seq<(Seq<char>, SqlValueView)>,
    present: bool,
    column: Seq<char>,
    value: SqlValueView,
) -> Seq<(Seq<char>, SqlValueView)> {
    if present {
        acc.push((column, value))
    } else {
        acc
    }
}

/// A nullable text value.
pub open spec fn nullable(o: Option<String>) -> SqlValueView {
    match o {
        Some(s) => SqlValueView::Text(s@),
        None => SqlValueView::Null,
    }
}

/// The columns an update sets and their values, in column order:
/// display_name, url, registry, username, password, skip_tls_verify,
/// priority, enabled, cache_isolation, is_default.
pub open spec fn upstream_assignments(u: UpdateUpstream) -> Seq<(Seq<char>, SqlValueView)> {
    let a0 = Seq::empty();
    let a1 = set_if(a0, u.display_name is Some, "display_name"@, SqlValueView::Text(u.display_name->0@));
    let a2 = set_if(a1, u.url is Some, "url"@, SqlValueView::Text(u.url->0@));
    let a3 = set_if(a2, u.registry is Some, "registry"@, SqlValueView::Text(u.registry->0@));
    let a4 = set_if(a3, u.username is Some, "username"@, nullable(u.username->0));
    let a5 = set_if(a4, u.password is Some, "password"@, nullable(u.password->0));
    let a6 = set_if(a5, u.skip_tls_verify is Some, "skip_tls_verify"@, SqlValueView::Bool(u.skip_tls_verify->0));
    let a7 = set_if(a6, u.priority is Some, "priority"@, SqlValueView::Int(u.priority->0 as i64));
    let a8 = set_if(a7, u.enabled is Some, "enabled"@, SqlValueView::Bool(u.enabled->0));
    let a9 = set_if(
        a8,
        u.cache_isolation is Some,
        "cache_isolation"@,
        SqlValueView::Text(u.cache_isolation->0.name()),
    );
    set_if(a9, u.is_default is Some, "is_default"@, SqlValueView::Bool(u.is_default->0))
}

/// The `SET` items of assignments.
pub open spec fn assignment_items(a: Seq<(Seq<char>, SqlValueView)>) -> Seq<Seq<char>> {
    a.map_values(|c: (Seq<char>, SqlValueView)| assignment(c.0))
}

/// The values of assignments.
pub open spec fn assignment_values(a: Seq<(Seq<char>, SqlValueView)>) -> Seq<SqlValueView> {
    a.map_values(|c: (Seq<char>, SqlValueView)| c.1)
}

/// `column = ?`.
pub open spec fn assignment(column: Seq<char>) -> Seq<char> {
    column + " = ?"@
}

/// Appends `column = ?` and its value, when present.
fn set_column(
    cols: &mut Vec<String>,
    vals: &mut Vec<SqlValue>,
    column: &str,
    v: Option<SqlValue>,
    Ghost(acc): Ghost<Seq<(Seq<char>, SqlValueView)>>,
    Ghost(value): Ghost<SqlValueView>,
    Ghost(now): Ghost<Seq<char>>,
)
    requires
        crate::text::views_of(old(cols)@) == seq!["updated_at = ?"@] + assignment_items(acc),
        values_view(old(vals)@) == seq![SqlValueView::Text(now)] + assignment_values(acc),
        v matches Some(x) ==> x@ == value,
    ensures
        ({
            let next = set_if(acc, v is Some, column@, value);
            &&& crate::text::views_of(final(cols)@) == seq!["updated_at = ?"@] + assignment_items(next)
            &&& values_view(final(vals)@) == seq![SqlValueView::Text(now)] + assignment_values(next)
        }),
{
    reveal(set_if);
    match v {
        Some(x) => {
            let mut a = column.to_string();
            a.append(" = ?");
            cols.push(a);
            vals.push(x);
            let ghost next = acc.push((column@, value));
            assert(crate::text::views_of(cols@) =~= crate::text::views_of(old(cols)@).push(assignment(column@)));
            assert(values_view(vals@) =~= values_view(old(vals)@).push(value));
            assert(assignment_items(next) =~= assignment_items(acc).push(assignment(column@)));
            assert(assignment_values(next) =~= assignment_values(acc).push(value));
            assert(crate::text::views_of(cols@) =~= seq!["updated_at = ?"@] + assignment_items(next));
            assert(values_view(vals@) =~= seq![SqlValueView::Text(now)] + assignment_values(next));
        },
        None => {},
    }
}

fn nullable_value(o: &Option<String>) -> (v: SqlValue)
    ensures
        v@ == nullable(*o),
{
    match o {
        Some(s) => SqlValue::Text(s.clone()),
        None => SqlValue::Null,
    }
}

/// The `SET` items and their values for an update at time `now`:
/// `updated_at` first, then each column the update sets.
#[verifier::spinoff_prover]
#[verifier::rlimit(60)]
fn upstream_update_columns(update: &UpdateUpstream, now: String) -> (r: (Vec<String>, Vec<SqlValue>))
    ensures
        crate::text::views_of(r.0@) == seq!["updated_at = ?"@] + assignment_items(upstream_assignments(*update)),
        values_view(r.1@) == seq![SqlValueView::Text(now@)] + assignment_values(upstream_assignments(*update)),
{
    let ghost u = *update;
    let ghost t = now@;
    let mut cols: Vec<String> = Vec::new();
    let mut vals: Vec<SqlValue> = Vec::new();
    cols.push("updated_at = ?".to_string());
    vals.push(SqlValue::Text(now));
    proof {
        reveal(set_if);
        assert(crate::text::views_of(cols@) =~= seq!["updated_at = ?"@] + assignment_items(Seq::empty()));
        assert(values_view(vals@) =~= seq![SqlValueView::Text(t)] + assignment_values(Seq::empty()));
    }
    let ghost a0: Seq<(Seq<char>, SqlValueView)> = Seq::empty();
    let v = match &update.display_name {
        Some(x) => Some(SqlValue::Text(x.clone())),
        None => None,
    };
    set_column(&mut cols, &mut vals, "display_name", v, Ghost(a0), Ghost(SqlValueView::Text(u.display_name->0@)), Ghost(t));
    let ghost a1 = set_if(a0, u.display_name is Some, "display_name"@, SqlValueView::Text(u.display_name->0@));
    let v = match &update.url {
        Some(x) => Some(SqlValue::Text(x.clone())),
        None => None,
    };
    set_column(&mut cols, &mut vals, "url", v, Ghost(a1), Ghost(SqlValueView::Text(u.url->0@)), Ghost(t));
    let ghost a2 = set_if(a1, u.url is Some, "url"@, SqlValueView::Text(u.url->0@));
    let v = match &update.registry {
        Some(x) => Some(SqlValue::Text(x.clone())),
        None => None,
    };
    set_column(&mut cols, &mut vals, "registry", v, Ghost(a2), Ghost(SqlValueView::Text(u.registry->0@)), Ghost(t));
    let ghost a3 = set_if(a2, u.registry is Some, "registry"@, SqlValueView::Text(u.registry->0@));
    let v = match &update.username {
        Some(x) => Some(nullable_value(x)),
        None => None,
    };
    set_column(&mut cols, &mut vals, "username", v, Ghost(a3), Ghost(nullable(u.username->0)), Ghost(t));
    let ghost a4 = set_if(a3, u.username is Some, "username"@, nullable(u.username->0));
    let v = match &update.password {
        Some(x) => Some(nullable_value(x)),
        None => None,
    };
    set_column(&mut cols, &mut vals, "password", v, Ghost(a4), Ghost(nullable(u.password->0)), Ghost(t));
    let ghost a5 = set_if(a4, u.password is Some, "password"@, nullable(u.password->0));
    let v = match update.skip_tls_verify {
        Some(x) => Some(SqlValue::Bool(x)),
        None => None,
    };
    set_column(&mut cols, &mut vals, "skip_tls_verify", v, Ghost(a5), Ghost(SqlValueView::Bool(u.skip_tls_verify->0)), Ghost(t));
    let ghost a6 = set_if(a5, u.skip_tls_verify is Some, "skip_tls_verify"@, SqlValueView::Bool(u.skip_tls_verify->0));
    let v = match update.priority {
        Some(x) => Some(SqlValue::Int(x as i64)),
        None => None,
    };
    set_column(&mut cols, &mut vals, "priority", v, Ghost(a6), Ghost(SqlValueView::Int(u.priority->0 as i64)), Ghost(t));
    let ghost a7 = set_if(a6, u.priority is Some, "priority"@, SqlValueView::Int(u.priority->0 as i64));
    let v = match update.enabled {
        Some(x) => Some(SqlValue::Bool(x)),
        None => None,
    };
    set_column(&mut cols, &mut vals, "enabled", v, Ghost(a7), Ghost(SqlValueView::Bool(u.enabled->0)), Ghost(t));
    let ghost a8 = set_if(a7, u.enabled is Some, "enabled"@, SqlValueView::Bool(u.enabled->0));
    let v = match &update.cache_isolation {
        Some(x) => Some(SqlValue::Text(x.as_str().to_string())),
        None => None,
    };
    set_column(&mut cols, &mut vals, "cache_isolation", v, Ghost(a8), Ghost(SqlValueView::Text(u.cache_isolation->0.name())), Ghost(t));
    let ghost a9 = set_if(
        a8,
        u.cache_isolation is Some,
        "cache_isolation"@,
        SqlValueView::Text(u.cache_isolation->0.name()),
    );
    let v = match update.is_default {
        Some(x) => Some(SqlValue::Bool(x)),
        None => None,
    };
    set_column(&mut cols, &mut vals, "is_default", v, Ghost(a9), Ghost(SqlValueView::Bool(u.is_default->0)), Ghost(t));
    (cols, vals)
}

/// The statement that takes the default mark from every upstream but `id`.
fn clear_other_defaults_statement(id: i64) -> (r: (String, Vec<SqlValue>))
    ensures
        r.0@ == "UPDATE upstreams SET is_default = 0 WHERE is_default = 1 AND id != ?"@,
        values_view(r.1@) == seq![SqlValueView::Int(id)],
{
    let mut params: Vec<SqlValue> = Vec::new();
    params.push(SqlValue::Int(id));
    assert(values_view(params@) =~= seq![SqlValueView::Int(id)]);
    ("UPDATE upstreams SET is_default = 0 WHERE is_default = 1 AND id != ?".to_string(), params)
}

/// Plan the update of upstream `id` at time `now` (RFC 3339): first, when
/// the update marks it the default, clearing the mark elsewhere; then
/// `updated_at` and each column the update sets, bound in column order,
/// then the id.
pub fn upstream_update_plan(id: i64, update: &UpdateUpstream, now: String) -> (p: UpstreamUpdatePlan)
    ensures
        update.is_default == Some(true) ==> (p.clear_other_defaults matches Some((sql, params)) && sql@
            == "UPDATE upstreams SET is_default = 0 WHERE is_default = 1 AND id != ?"@ && values_view(params@)
            == seq![SqlValueView::Int(id)]),
        update.is_default != Some(true) ==> p.clear_other_defaults is None,
        ({
            let a = upstream_assignments(*update);
            if a.len() == 0 {
                p.statement is None
            } else {
                p.statement matches Some((sql, params)) && sql@ == "UPDATE upstreams SET "@ + crate::text::join(
                    seq!["updated_at = ?"@] + assignment_items(a),
                    ", "@,
                ) + " WHERE id = ?"@ && values_view(params@) == seq![SqlValueView::Text(now@)]
                    + assignment_values(a) + seq![SqlValueView::Int(id)]
            }
        }),
{
    let (cols, mut vals) = upstream_update_columns(update, now);
    let clear_other_defaults = match update.is_default {
        Some(true) => Some(clear_other_defaults_statement(id)),
        _ => None,
    };
    if cols.len() == 1 {
        assert(crate::text::views_of(cols@).len() == cols@.len());
        assert(assignment_items(upstream_assignments(*update)).len() == upstream_assignments(*update).len());
        return UpstreamUpdatePlan { clear_other_defaults, statement: None };
    }
    let mut sql = "UPDATE upstreams SET ".to_string();
    let j = crate::text::join_strings(&cols, ", ");
    sql.append(j.as_str());
    sql.append(" WHERE id = ?");
    let ghost before = values_view(vals@);
    vals.push(SqlValue::Int(id));
    assert(values_view(vals@) =~= before.push(SqlValueView::Int(id)));
    UpstreamUpdatePlan { clear_other_defaults, statement: Some((sql, vals)) }
}

// ==================== Stored records ====================

/// A cached object, as stored. Times are RFC 3339 text.
pub struct CacheEntry {
    pub id: i64,
    pub entry_type: EntryType,
    pub repository: Option<String>,
    pub reference: Option<String>,
    pub digest: String,
    pub content_type: String,
    pub size: i64,
    pub created_at: String,
    pub last_accessed_at: String,
    pub access_count: i64,
    pub storage_path: String,
    /// Upstream of an isolated cache.
    pub upstream_id: Option<i64>,
}

/// An upstream registry, as stored. Times are RFC 3339 text.
pub struct Upstream {
    pub id: i64,
    /// Unique identifier for the upstream (used in the API)
    pub name: String,
    /// Display name for the UI
    pub display_name: String,
    /// URL of the upstream Harbor registry
    pub url: String,
    /// Registry/project name
    pub registry: String,
    pub username: Option<String>,
    pub password: Option<String>,
    pub skip_tls_verify: bool,
    /// Priority for route matching (lower = higher priority)
    pub priority: i32,
    pub enabled: bool,
    pub cache_isolation: CacheIsolation,
    /// Whether this is the default upstream
    pub is_default: bool,
    pub created_at: String,
    pub updated_at: String,
}

/// A user, as stored. Times are RFC 3339 text.
pub struct User {
    pub id: i64,
    pub username: String,
    pub password_hash: String,
    pub role: UserRole,
    pub created_at: String,
    pub updated_at: String,
}

/// An activity log entry, as stored. The time is RFC 3339 text.
pub struct ActivityLog {
    pub id: i64,
    pub timestamp: String,
    pub action: String,
    pub resource_type: String,
    pub resource_id: Option<String>,
    pub user_id: Option<i64>,
    pub username: Option<String>,
    pub details: Option<String>,
    pub ip_address: Option<String>,
}

/// A configuration entry, as stored. The time is RFC 3339 text.
pub struct ConfigEntry {
    pub key: String,
    pub value: String,
    pub updated_at: String,
}

/// An upload session, as stored. Times are RFC 3339 text.
pub struct UploadSession {
    pub id: String,
    pub repository: String,
    pub started_at: String,
    pub last_chunk_at: String,
    pub bytes_received: i64,
    pub temp_path: String,
}

/// The entry type stored as `s`, or a blob when the text is not one.
pub fn stored_entry_type(s: &str) -> (t: EntryType)
    ensures
        s@ == "manifest"@ ==> t == EntryType::Manifest,
        s@ != "manifest"@ ==> t == EntryType::Blob,
{
    proof {
        reveal_strlit("manifest");
        reveal_strlit("blob");
    }
    match EntryType::from_str(s) {
        Ok(t) => {
            assert(t.name() == s@);
            assert(s@ == "manifest"@ ==> t == EntryType::Manifest);
            assert(s@ != "manifest"@ ==> t == EntryType::Blob);
            t
        },
        Err(_) => EntryType::Blob,
    }
}

/// The role stored as `s`, or read-only when the text is not one.
pub fn stored_user_role(s: &str) -> (r: UserRole)
    ensures
        s@ == "admin"@ ==> r == UserRole::Admin,
        s@ == "read-write"@ ==> r == UserRole::ReadWrite,
        s@ != "admin"@ && s@ != "read-write"@ ==> r == UserRole::ReadOnly,
{
    proof {
        reveal_strlit("admin");
        reveal_strlit("read-write");
        reveal_strlit("read-only");
    }
    match UserRole::from_str(s) {
        Ok(r) => {
            assert(r.name() == s@);
            assert(s@ == "admin"@ ==> r == UserRole::Admin);
            assert(s@ == "read-write"@ ==> r == UserRole::ReadWrite);
            assert(s@ != "admin"@ && s@ != "read-write"@ ==> r == UserRole::ReadOnly);
            r
        },
        Err(_) => UserRole::ReadOnly,
    }
}

/// The isolation mode stored as `s`, or shared when the text is not one.
pub fn stored_cache_isolation(s: &str) -> (c: CacheIsolation)
    ensures
        lowered(s@) == "isolated"@ ==> c == CacheIsolation::Isolated,
        lowered(s@) != "isolated"@ ==> c == CacheIsolation::Shared,
{
    proof {
        reveal_strlit("shared");
        reveal_strlit("isolated");
    }
    match CacheIsolation::from_str(s) {
        Ok(c) => {
            assert(c.name() == lowered(s@));
            assert(lowered(s@) == "isolated"@ ==> c == CacheIsolation::Isolated);
            assert(lowered(s@) != "isolated"@ ==> c == CacheIsolation::Shared);
            c
        },
        Err(_) => CacheIsolation::Shared,
    }
}

/// A cache listing sorts by the field it is asked for when that field is
/// one of `last_accessed_at`, `created_at`, `size` and `access_count`: the
/// field survives validation and is the listing's sort column. Any other
/// field is dropped, and the listing then sorts by last access.
pub proof fn lemma_listing_sorts_by_requested_field(q: CacheEntryQuery)
    ensures
        match q.sort_by {
            Some(f) => if f@ == "last_accessed_at"@ || f@ == "created_at"@ || f@ == "size"@ || f@
                == "access_count"@ {
                &&& q.validated_spec().sort_by == q.sort_by
                &&& cache_sort_column(opt_view(q.validated_spec().sort_by)) == f@
            } else {
                &&& q.validated_spec().sort_by is None
                &&& cache_sort_column(opt_view(q.validated_spec().sort_by)) == "last_accessed_at"@
            },
            None => q.validated_spec().sort_by is None,
        },
{
}

// ==================== Schema migration ====================

/// The statement that adds the `upstream_id` column of cache entries.
pub open spec fn add_upstream_id_column() -> Seq<char> {
    "ALTER TABLE cache_entries ADD COLUMN upstream_id INTEGER"@
}

/// The statements that bring in the `upstream_id` column of cache entries
/// and its index: none when the column is `present`.
pub open spec fn upstream_id_statements(present: bool) -> Seq<Seq<char>> {
    if present {
        Seq::empty()
    } else {
        seq![
            add_upstream_id_column(),
            "CREATE INDEX IF NOT EXISTS idx_cache_entries_upstream_id ON cache_entries(upstream_id)"@,
        ]
    }
}

/// The statements that bring in the `upstream_id` column, from the count
/// of columns of that name (none when the count could not be read): the
/// column is taken as present only when the count is positive.
pub fn upstream_id_migration(column_count: Option<i64>) -> (v: Vec<String>)
    ensures
        crate::text::views_of(v@) == upstream_id_statements((column_count matches Some(c) && c > 0)),
{
    let mut v: Vec<String> = Vec::new();
    let present = match column_count {
        Some(c) => c > 0,
        None => false,
    };
    if !present {
        v.push("ALTER TABLE cache_entries ADD COLUMN upstream_id INTEGER".to_string());
        v.push("CREATE INDEX IF NOT EXISTS idx_cache_entries_upstream_id ON cache_entries(upstream_id)".to_string());
    }
    assert(crate::text::views_of(v@) =~= upstream_id_statements(present));
    v
}

/// The migration is idempotent: after it the column is present, and run
/// again it has nothing to do.
pub proof fn lemma_upstream_id_migration_idempotent(present: bool)
    ensures
        ({
            let after = present || upstream_id_statements(present).contains(add_upstream_id_column());
            &&& after
            &&& upstream_id_statements(after) == Seq::<Seq<char>>::empty()
        }),
{
    if !present {
        assert(upstream_id_statements(present)[0] == add_upstream_id_column());
    }
}

// ==================== Laws ====================

/// Reading back the stored name of an isolation mode gives the mode: each
/// name is its own lowercase form, and the two differ, so
/// `CacheIsolation::from_str(c.as_str())` is `Ok(c)`.
pub proof fn lemma_isolation_name_round_trip(c: CacheIsolation)
    ensures
        lowered(c.name()) == c.name(),
        forall|d: CacheIsolation| #[trigger] d.name() == c.name() ==> d == c,
{
    reveal_strlit("shared");
    reveal_strlit("isolated");
    crate::text::lemma_lowered_of_small_ascii(c.name());
    assert("shared"@.len() != "isolated"@.len());
}

/// A sort direction passes in any ASCII case: text equal to `asc` or
/// `desc` ignoring case is a sort direction (so `"DESC"` is kept).
pub proof fn lemma_sort_direction_any_case(s: Seq<char>)
    requires
        eq_ignore_ascii_case(s, "asc"@) || eq_ignore_ascii_case(s, "desc"@),
    ensures
        is_sort_direction(s),
{
    reveal_strlit("asc");
    reveal_strlit("desc");
    let t = if eq_ignore_ascii_case(s, "asc"@) {
        "asc"@
    } else {
        "desc"@
    };
    assert(eq_ignore_ascii_case(s, t));
    assert forall|i: int| 0 <= i < s.len() implies (#[trigger] s[i] as u32) < 128
        && ascii_lower(s[i]) == t[i] by {
        assert(ascii_lower(s[i]) == ascii_lower(t[i]));
        assert('a' <= t[i] && t[i] <= 'z');
    }
    assert(crate::text::ascii_lowered(s) =~= t);
}


/// A validated page starts at a non-negative offset and holds between 1
/// and 100 records.
pub proof fn lemma_page_in_range(offset: i64, limit: i64)
    ensures
        page_offset(offset) >= 0,
        1 <= page_limit(limit) <= 100,
{
}

/// Validating a cache listing query twice changes nothing more than
/// validating it once.
pub proof fn lemma_cache_query_validation_idempotent(q: CacheEntryQuery)
    ensures
        q.validated_spec().validated_spec() == q.validated_spec(),
{
}

/// Validating an activity log query twice changes nothing more than
/// validating it once.
pub proof fn lemma_activity_query_validation_idempotent(q: ActivityLogQuery)
    ensures
        q.validated_spec().validated_spec() == q.validated_spec(),
{
}

/// Distinct user roles are stored under distinct names, so a stored name
/// reads back as the role it was written from.
pub proof fn lemma_role_names_distinct(a: UserRole, b: UserRole)
    requires
        a.name() == b.name(),
    ensures
        a == b,
{
    reveal_strlit("admin");
    reveal_strlit("read-write");
    reveal_strlit("read-only");
    assert("admin"@.len() == 5 && "read-write"@.len() == 10 && "read-only"@.len() == 9);
}

/// Distinct entry types are stored under distinct names.
pub proof fn lemma_entry_type_names_distinct(a: EntryType, b: EntryType)
    requires
        a.name() == b.name(),
    ensures
        a == b,
{
    reveal_strlit("manifest");
    reveal_strlit("blob");
    assert("manifest"@.len() == 8 && "blob"@.len() == 4);
}

/// Distinct isolation modes are stored under distinct names.
pub proof fn lemma_isolation_names_distinct(a: CacheIsolation, b: CacheIsolation)
    requires
        a.name() == b.name(),
    ensures
        a == b,
{
    reveal_strlit("shared");
    reveal_strlit("isolated");
    assert("shared"@.len() == 6 && "isolated"@.len() == 8);
}

} // verus!

verus! {

// ==================== Stored times ====================

/// An instant in UTC: seconds since the Unix epoch and the nanoseconds
/// within that second.
#[derive(Clone, Copy, Debug, PartialEq, Eq, Structural)]
pub struct UtcTime {
    pub secs: i64,
    pub nanos: u32,
}

/// The instant an RFC 3339 text denotes, as `chrono` reads it (seconds
/// since the Unix epoch and nanoseconds), or none when it does not read it.
pub uninterp spec fn rfc3339_instant(s: Seq<char>) -> Option<(i64, u32)>;

/// `chrono::DateTime::parse_from_rfc3339`, taken as a UTC instant.
#[verifier::external_body]
fn parse_rfc3339(s: &str) -> (r: Option<UtcTime>)
    ensures
        match r {
            Some(t) => rfc3339_instant(s@) == Some((t.secs, t.nanos)),
            None => rfc3339_instant(s@) is None,
        },
{
    match chrono::DateTime::parse_from_rfc3339(s) {
        Ok(dt) => Some(UtcTime { secs: dt.timestamp(), nanos: dt.timestamp_subsec_nanos() }),
        Err(_) => None,
    }
}

/// The current time (`chrono::Utc::now`). Nothing is promised of it.
#[verifier::external_body]
fn now_utc() -> (t: UtcTime) {
    let now = chrono::Utc::now();
    UtcTime { secs: now.timestamp(), nanos: now.timestamp_subsec_nanos() }
}

/// Parse a stored RFC 3339 time; a text that does not read as one stands
/// for the current time.
pub fn parse_datetime_or_now(s: &str) -> (t: UtcTime)
    ensures
        rfc3339_instant(s@) matches Some((secs, nanos)) ==> t.secs == secs && t.nanos == nanos,
{
    match parse_rfc3339(s) {
        Some(t) => t,
        None => now_utc(),
    }
}

} // verus!
