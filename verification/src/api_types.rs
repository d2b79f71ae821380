//! Request and response bodies of the management API, the defaults their
//! optional members take, and the blob serving settings of the API.

use vstd::prelude::*;

verus! {

/// Health status response.
pub struct HealthResponse {
    pub status: String,
    pub version: String,
}

/// Login request
pub struct LoginRequest {
    pub username: String,
    pub password: String,
}

/// Login response
pub struct LoginResponse {
    pub token: String,
    pub expires_in: i64,
}

/// Create user request
pub struct CreateUserRequest {
    pub username: String,
    pub password: String,
    pub role: String,
}

/// Update user request
pub struct UpdateUserRequest {
    pub role: Option<String>,
    pub password: Option<String>,
}

/// User response (without password)
pub struct UserResponse {
    pub id: i64,
    pub username: String,
    pub role: String,
    pub created_at: String,
    pub updated_at: String,
}

/// Cache entry response
pub struct CacheEntryResponse {
    pub id: i64,
    pub entry_type: String,
    pub repository: Option<String>,
    pub reference: Option<String>,
    pub digest: String,
    pub content_type: String,
    pub size: i64,
    pub size_human: String,
    pub created_at: String,
    pub last_accessed_at: String,
    pub access_count: i64,
}

/// Paginated cache entries response
pub struct CacheEntriesListResponse {
    pub entries: Vec<CacheEntryResponse>,
    pub total: i64,
    pub offset: i64,
    pub limit: i64,
}

/// Cache entries query parameters
pub struct CacheEntriesQuery {
    pub entry_type: Option<String>,
    pub repository: Option<String>,
    pub digest: Option<String>,
    pub offset: i64,
    pub limit: i64,
    pub sort_by: Option<String>,
    pub sort_order: Option<String>,
}

/// List of cached repositories
pub struct CachedRepositoriesResponse {
    pub repositories: Vec<String>,
}

/// Config entry response
pub struct ConfigEntryResponse {
    pub key: String,
    pub value: String,
    pub updated_at: String,
}

/// Update config request
pub struct UpdateConfigRequest {
    pub entries: Vec<ConfigUpdateEntry>,
}

/// Single config update entry
pub struct ConfigUpdateEntry {
    pub key: String,
    pub value: String,
}

/// Configuration schema field
pub struct ConfigSchemaField {
    pub key: String,
    pub label: String,
    pub description: String,
    pub field_type: String,
    pub default_value: Option<String>,
    pub required: bool,
    pub options: Option<Vec<ConfigOption>>,
    pub group: String,
}

/// Configuration option for select fields
pub struct ConfigOption {
    pub value: String,
    pub label: String,
}

/// Configuration schema response
pub struct ConfigSchemaResponse {
    pub fields: Vec<ConfigSchemaField>,
    pub groups: Vec<ConfigGroup>,
}

/// Configuration group
pub struct ConfigGroup {
    pub id: String,
    pub label: String,
    pub description: String,
}

/// Full configuration response (TOML format)
pub struct ConfigFileResponse {
    pub content: String,
    pub format: String,
}

/// Update configuration file request
pub struct UpdateConfigFileRequest {
    pub content: String,
}

/// Activity log entry response
pub struct ActivityLogResponse {
    pub id: i64,
    pub timestamp: String,
    pub action: String,
    pub resource_type: String,
    pub resource_id: Option<String>,
    pub user_id: Option<i64>,
    pub username: Option<String>,
    pub details: Option<String>,
    pub ip_address: Option<String>,
}

/// Paginated activity logs response
pub struct ActivityLogsListResponse {
    pub logs: Vec<ActivityLogResponse>,
    pub total: i64,
    pub offset: i64,
    pub limit: i64,
}

/// Activity logs query parameters
pub struct ActivityLogsQuery {
    pub action: Option<String>,
    pub resource_type: Option<String>,
    pub user_id: Option<i64>,
    pub start_date: Option<String>,
    pub end_date: Option<String>,
    pub offset: i64,
    pub limit: i64,
}

/// Project configuration response
pub struct UpstreamProjectResponse {
    /// Project/registry name in Harbor (e.g., "library", "team-a")
    pub name: String,
    /// Pattern to match repository paths for this project
    pub pattern: Option<String>,
    /// Effective pattern (computed if pattern is None)
    pub effective_pattern: String,
    /// Priority for this project route (lower = higher priority)
    pub priority: i32,
    /// Whether this is the default project for this upstream
    pub is_default: bool,
}

/// Upstream response
pub struct UpstreamResponse {
    pub id: i64,
    pub name: String,
    pub display_name: String,
    pub url: String,
    /// Registry/project name (legacy single-project mode)
    pub registry: String,
    /// Multiple projects configuration (multi-project mode)
    pub projects: Vec<UpstreamProjectResponse>,
    /// Whether this upstream uses multi-project mode
    pub uses_multi_project: bool,
    pub skip_tls_verify: bool,
    pub priority: i32,
    pub enabled: bool,
    pub cache_isolation: String,
    pub is_default: bool,
    pub has_credentials: bool,
    pub created_at: String,
    pub updated_at: String,
}

/// Create upstream request
pub struct CreateUpstreamRequest {
    pub name: String,
    pub display_name: String,
    pub url: String,
    pub registry: String,
    pub username: Option<String>,
    pub password: Option<String>,
    pub skip_tls_verify: bool,
    pub priority: i32,
    pub enabled: bool,
    pub cache_isolation: String,
    pub is_default: bool,
    /// Route patterns for this upstream
    pub routes: Vec<CreateRouteRequest>,
}

/// Create route request
pub struct CreateRouteRequest {
    pub pattern: String,
    pub priority: i32,
}

/// Update upstream request
pub struct UpdateUpstreamRequest {
    pub display_name: Option<String>,
    pub url: Option<String>,
    pub registry: Option<String>,
    pub username: Option<String>,
    pub password: Option<String>,
    pub skip_tls_verify: Option<bool>,
    pub priority: Option<i32>,
    pub enabled: Option<bool>,
    pub cache_isolation: Option<String>,
    pub is_default: Option<bool>,
}

/// Upstream health response
pub struct UpstreamHealthResponse {
    pub upstream_id: i64,
    pub name: String,
    pub healthy: bool,
    pub last_check: String,
    pub last_error: Option<String>,
    pub consecutive_failures: u32,
}

/// Upstream route response
pub struct UpstreamRouteResponse {
    pub id: i64,
    pub upstream_id: i64,
    pub pattern: String,
    pub priority: i32,
    pub created_at: String,
}

/// Test upstream connection request
pub struct TestUpstreamRequest {
    pub url: String,
    pub registry: String,
    pub username: Option<String>,
    pub password: Option<String>,
    pub skip_tls_verify: bool,
}

/// Test upstream connection response
pub struct TestUpstreamResponse {
    pub success: bool,
    pub message: String,
}

/// Default pagination offset.
pub fn default_offset() -> (v: i64)
    ensures
        v == 0,
{
    0
}

/// Default page size.
pub fn default_limit() -> (v: i64)
    ensures
        v == 50,
{
    50
}

/// Default priority of an upstream or route.
pub fn default_priority() -> (v: i32)
    ensures
        v == 100,
{
    100
}

/// Upstreams are enabled by default.
pub fn default_enabled() -> (v: bool)
    ensures
        v,
{
    true
}

/// Upstreams share the cache by default.
pub fn default_cache_isolation() -> (s: String)
    ensures
        s@ == "shared"@,
{
    "shared".to_string()
}

impl Default for CacheEntriesQuery {
    fn default() -> (q: Self)
        ensures
            q.entry_type is None && q.repository is None && q.digest is None && q.offset == 0
                && q.limit == 0 && q.sort_by is None && q.sort_order is None,
    {
        CacheEntriesQuery {
            entry_type: None,
            repository: None,
            digest: None,
            offset: 0,
            limit: 0,
            sort_by: None,
            sort_order: None,
        }
    }
}

impl Default for ActivityLogsQuery {
    fn default() -> (q: Self)
        ensures
            q.action is None && q.resource_type is None && q.user_id is None && q.start_date is None
                && q.end_date is None && q.offset == 0 && q.limit == 0,
    {
        ActivityLogsQuery {
            action: None,
            resource_type: None,
            user_id: None,
            start_date: None,
            end_date: None,
            offset: 0,
            limit: 0,
        }
    }
}

// ==================== Blob serving ====================

/// Shortest lifetime of a presigned URL, in seconds (one minute).
pub const MIN_PRESIGNED_URL_TTL_SECS: u64 = 60;

/// Longest lifetime of a presigned URL, in seconds (one day).
pub const MAX_PRESIGNED_URL_TTL_SECS: u64 = 86400;

/// How the API serves blobs: by redirect to a presigned URL, or streamed.
pub struct BlobServingConfig {
    /// Whether blobs may be served by redirect to a presigned URL.
    pub enable_presigned_redirects: bool,
    /// Lifetime of a presigned URL, in seconds, within 60..=86400.
    pub presigned_url_ttl_secs: u64,
}

impl BlobServingConfig {
    /// The settings, with the URL lifetime clamped to 60..=86400 seconds.
    pub fn new(enable_presigned_redirects: bool, presigned_url_ttl_secs: u64) -> (c: Self)
        ensures
            c.enable_presigned_redirects == enable_presigned_redirects,
            c.presigned_url_ttl_secs == crate::config::clamp_spec(
                presigned_url_ttl_secs as int,
                MIN_PRESIGNED_URL_TTL_SECS as int,
                MAX_PRESIGNED_URL_TTL_SECS as int,
            ),
    {
        let validated_ttl = if presigned_url_ttl_secs < MIN_PRESIGNED_URL_TTL_SECS {
            MIN_PRESIGNED_URL_TTL_SECS
        } else if presigned_url_ttl_secs > MAX_PRESIGNED_URL_TTL_SECS {
            MAX_PRESIGNED_URL_TTL_SECS
        } else {
            presigned_url_ttl_secs
        };
        BlobServingConfig { enable_presigned_redirects, presigned_url_ttl_secs: validated_ttl }
    }
}

impl Default for BlobServingConfig {
    /// Redirects off; presigned URLs would last 15 minutes.
    fn default() -> (c: Self)
        ensures
            !c.enable_presigned_redirects,
            c.presigned_url_ttl_secs == 900,
    {
        BlobServingConfig { enable_presigned_redirects: false, presigned_url_ttl_secs: 900 }
    }
}

} // verus!
