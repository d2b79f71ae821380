//! Configuration model of the cache server: the settings it reads at start-up
//! and the list of upstream registries, which can be changed at run time.
//!
//! Reading and writing the configuration file (TOML) is done outside this
//! crate; here are the types, their defaults and the upstream list operations.

use vstd::prelude::*;

use crate::text::{chars_eq, chars_of};

verus! {

/// Main configuration structure.
pub struct Config {
    pub server: ServerConfig,
    pub cache: CacheConfig,
    /// Legacy single upstream configuration (for backwards compatibility)
    pub upstream: Option<LegacyUpstreamConfig>,
    /// Multi-upstream configuration
    pub upstreams: Vec<UpstreamConfig>,
    pub storage: StorageConfig,
    pub database: DatabaseConfig,
    pub auth: AuthConfig,
    pub logging: LoggingConfig,
    pub tls: TlsConfig,
    pub blob_serving: BlobServingConfig,
}

/// Server configuration.
pub struct ServerConfig {
    pub bind_address: String,
    pub port: u16,
}

/// Cache configuration.
pub struct CacheConfig {
    pub max_size: u64,
    pub retention_days: u32,
    pub eviction_policy: String,
}

/// Legacy upstream Harbor configuration (for backwards compatibility).
pub struct LegacyUpstreamConfig {
    pub url: String,
    pub registry: String,
    pub username: Option<String>,
    pub password: Option<String>,
    pub skip_tls_verify: bool,
}

/// Upstream route pattern configuration.
pub struct UpstreamRouteConfig {
    /// Pattern to match repository paths (supports glob patterns)
    pub pattern: String,
    /// Priority for this route (lower = higher priority)
    pub priority: i32,
}

/// Project configuration within an upstream.
pub struct UpstreamProjectConfig {
    /// Project/registry name in Harbor (e.g., "library", "team-a")
    pub name: String,
    /// Pattern to match repository paths for this project
    pub pattern: Option<String>,
    /// Priority for this project route (lower = higher priority)
    pub priority: i32,
    /// Whether this is the default project for this upstream
    pub is_default: bool,
}

/// Upstream Harbor configuration.
pub struct UpstreamConfig {
    /// Unique identifier for the upstream
    pub name: String,
    /// Display name for UI (defaults to name if not set)
    pub display_name: Option<String>,
    /// URL of the upstream Harbor registry
    pub url: String,
    /// Registry/project name (single-project mode)
    pub registry: String,
    /// Multiple projects configuration; when non-empty, takes precedence over `registry`
    pub projects: Vec<UpstreamProjectConfig>,
    /// Username for authentication
    pub username: Option<String>,
    /// Password for authentication
    pub password: Option<String>,
    /// Skip TLS certificate verification
    pub skip_tls_verify: bool,
    /// Priority for route matching (lower = higher priority)
    pub priority: i32,
    /// Whether this upstream is enabled
    pub enabled: bool,
    /// Cache isolation mode: "shared" or "isolated"
    pub cache_isolation: String,
    /// Whether this is the default upstream (fallback)
    pub is_default: bool,
    /// Route patterns for this upstream
    pub routes: Vec<UpstreamRouteConfig>,
}

/// Storage configuration.
pub struct StorageConfig {
    pub backend: String,
    pub local: LocalStorageConfig,
    pub s3: S3StorageConfig,
}

/// Local storage configuration.
pub struct LocalStorageConfig {
    pub path: String,
}

/// S3 storage configuration.
pub struct S3StorageConfig {
    pub bucket: Option<String>,
    pub region: Option<String>,
    pub endpoint: Option<String>,
    pub access_key: Option<String>,
    pub secret_key: Option<String>,
    pub prefix: Option<String>,
    pub allow_http: bool,
}

/// Database configuration.
pub struct DatabaseConfig {
    pub path: String,
}

/// Authentication configuration.
pub struct AuthConfig {
    pub jwt_secret: String,
    pub enabled: bool,
}

/// Logging configuration.
pub struct LoggingConfig {
    pub level: String,
    pub format: String,
}

/// TLS configuration.
pub struct TlsConfig {
    /// Enable TLS/HTTPS
    pub enabled: bool,
    /// Path to TLS certificate file (PEM format)
    pub cert_path: Option<String>,
    /// Path to TLS private key file (PEM format)
    pub key_path: Option<String>,
}

/// Minimum allowed TTL for presigned URLs (1 minute).
pub const MIN_PRESIGNED_URL_TTL_SECS: u64 = 60;

/// Maximum allowed TTL for presigned URLs (24 hours).
pub const MAX_PRESIGNED_URL_TTL_SECS: u64 = 86400;

/// Blob serving configuration (presigned URL redirects for S3 storage).
pub struct BlobServingConfig {
    /// Enable presigned URL redirects for blob downloads
    pub enable_presigned_redirects: bool,
    /// Time-to-live for presigned URLs in seconds (valid range 60-86400)
    pub presigned_url_ttl_secs: u64,
}

/// `v` clamped to `[lo, hi]`.
pub open spec fn clamp_spec(v: int, lo: int, hi: int) -> int {
    if v < lo {
        lo
    } else if v > hi {
        hi
    } else {
        v
    }
}

impl BlobServingConfig {
    /// The TTL clamped to the valid range [60, 86400] seconds.
    pub fn validated_ttl_secs(&self) -> (ttl: u64)
        ensures
            ttl == clamp_spec(
                self.presigned_url_ttl_secs as int,
                MIN_PRESIGNED_URL_TTL_SECS as int,
                MAX_PRESIGNED_URL_TTL_SECS as int,
            ),
    {
        if self.presigned_url_ttl_secs < MIN_PRESIGNED_URL_TTL_SECS {
            MIN_PRESIGNED_URL_TTL_SECS
        } else if self.presigned_url_ttl_secs > MAX_PRESIGNED_URL_TTL_SECS {
            MAX_PRESIGNED_URL_TTL_SECS
        } else {
            self.presigned_url_ttl_secs
        }
    }
}

impl Default for BlobServingConfig {
    fn default() -> (c: Self)
        ensures
            !c.enable_presigned_redirects,
            c.presigned_url_ttl_secs == 900,
    {
        BlobServingConfig {
            enable_presigned_redirects: false,
            presigned_url_ttl_secs: default_presigned_url_ttl_secs(),
        }
    }
}

impl Default for LoggingConfig {
    fn default() -> (c: Self)
        ensures
            c.level@ == "info"@,
            c.format@ == "pretty"@,
    {
        LoggingConfig { level: default_log_level(), format: "pretty".to_string() }
    }
}

impl Default for TlsConfig {
    fn default() -> (c: Self)
        ensures
            !c.enabled,
            c.cert_path is None,
            c.key_path is None,
    {
        TlsConfig { enabled: false, cert_path: None, key_path: None }
    }
}

impl Default for LocalStorageConfig {
    fn default() -> (c: Self)
        ensures
            c.path@ == Seq::<char>::empty(),
    {
        LocalStorageConfig { path: String::new() }
    }
}

impl Default for S3StorageConfig {
    fn default() -> (c: Self)
        ensures
            c.bucket is None,
            c.region is None,
            c.endpoint is None,
            c.access_key is None,
            c.secret_key is None,
            c.prefix is None,
            !c.allow_http,
    {
        S3StorageConfig {
            bucket: None,
            region: None,
            endpoint: None,
            access_key: None,
            secret_key: None,
            prefix: None,
            allow_http: false,
        }
    }
}

/// Default presigned URL TTL: 15 minutes.
pub fn default_presigned_url_ttl_secs() -> (v: u64)
    ensures
        v == 900,
{
    900
}

/// Default bind address.
pub fn default_bind_address() -> (s: String)
    ensures
        s@ == "0.0.0.0"@,
{
    "0.0.0.0".to_string()
}

/// Default port.
pub fn default_port() -> (p: u16)
    ensures
        p == 5000,
{
    5000
}

/// Default maximum cache size: 10 GiB.
pub fn default_max_size() -> (v: u64)
    ensures
        v == 10 * 1024 * 1024 * 1024,
{
    10 * 1024 * 1024 * 1024
}

/// Default retention period in days.
pub fn default_retention_days() -> (v: u32)
    ensures
        v == 30,
{
    30
}

/// Default eviction policy name.
pub fn default_eviction_policy() -> (s: String)
    ensures
        s@ == "lru"@,
{
    "lru".to_string()
}

/// Default registry/project name.
pub fn default_registry() -> (s: String)
    ensures
        s@ == "library"@,
{
    "library".to_string()
}

/// Default storage backend.
pub fn default_backend() -> (s: String)
    ensures
        s@ == "local"@,
{
    "local".to_string()
}

/// Default local storage path.
pub fn default_local_path() -> (s: String)
    ensures
        s@ == "./data/cache"@,
{
    "./data/cache".to_string()
}

/// Default database path.
pub fn default_db_path() -> (s: String)
    ensures
        s@ == "./data/harbor-cache.db"@,
{
    "./data/harbor-cache.db".to_string()
}

/// Default JWT signing secret.
pub fn default_jwt_secret() -> (s: String)
    ensures
        s@ == "change-me-in-production"@,
{
    "change-me-in-production".to_string()
}

/// Authentication is enabled by default.
pub fn default_auth_enabled() -> (b: bool)
    ensures
        b,
{
    true
}

/// Default log level.
pub fn default_log_level() -> (s: String)
    ensures
        s@ == "info"@,
{
    "info".to_string()
}

/// Default route/upstream priority.
pub fn default_priority() -> (p: i32)
    ensures
        p == 100,
{
    100
}

/// Upstreams are enabled by default.
pub fn default_enabled() -> (b: bool)
    ensures
        b,
{
    true
}

/// Default cache isolation mode.
pub fn default_cache_isolation() -> (s: String)
    ensures
        s@ == "shared"@,
{
    "shared".to_string()
}

} // verus!

verus! {

// ==================== Upstream configuration ====================

/// The display name of an upstream: its own, or else its name.
pub open spec fn display_name_spec(u: UpstreamConfig) -> Seq<char> {
    match u.display_name {
        Some(d) => d@,
        None => u.name@,
    }
}

/// Index of the first project of `ps[k..]` marked as default.
pub open spec fn first_default_project_from(ps: Seq<UpstreamProjectConfig>, k: int) -> Option<int>
    decreases ps.len() - k,
{
    if k < 0 || k >= ps.len() {
        None
    } else if ps[k].is_default {
        Some(k)
    } else {
        first_default_project_from(ps, k + 1)
    }
}

/// The default project of an upstream: the registry in single-project mode,
/// else the first project marked as default, else the first project.
pub open spec fn default_project_spec(u: UpstreamConfig) -> Seq<char> {
    if u.projects@.len() == 0 {
        u.registry@
    } else {
        match first_default_project_from(u.projects@, 0) {
            Some(i) => u.projects@[i].name@,
            None => u.projects@[0].name@,
        }
    }
}

impl UpstreamConfig {
    /// Get the display name, falling back to name if not set.
    pub fn display_name(&self) -> (s: &str)
        ensures
            s@ == display_name_spec(*self),
    {
        match &self.display_name {
            Some(d) => d.as_str(),
            None => self.name.as_str(),
        }
    }

    /// Whether this upstream keeps a cache of its own.
    pub fn uses_isolated_cache(&self) -> (b: bool)
        ensures
            b == (self.cache_isolation@ == "isolated"@),
    {
        crate::text::str_eq(self.cache_isolation.as_str(), "isolated")
    }

    /// Check if this upstream uses multi-project mode.
    pub fn uses_multi_project(&self) -> (b: bool)
        ensures
            b == (self.projects@.len() > 0),
    {
        self.projects.len() > 0
    }

    /// Get the default project for this upstream.
    pub fn get_default_project(&self) -> (s: &str)
        ensures
            s@ == default_project_spec(*self),
    {
        if self.projects.len() == 0 {
            return self.registry.as_str();
        }
        let mut k: usize = 0;
        while k < self.projects.len()
            invariant
                k <= self.projects@.len(),
                first_default_project_from(self.projects@, 0) == first_default_project_from(self.projects@, k as int),
            decreases self.projects.len() - k,
        {
            if self.projects[k].is_default {
                return self.projects[k].name.as_str();
            }
            k = k + 1;
        }
        self.projects[0].name.as_str()
    }
}

// ==================== Upstream list ====================

/// Index of the first upstream of `us[k..]` named `name`.
pub open spec fn find_name_from(us: Seq<UpstreamConfig>, name: Seq<char>, k: int) -> Option<int>
    decreases us.len() - k,
{
    if k < 0 || k >= us.len() {
        None
    } else if us[k].name@ == name {
        Some(k)
    } else {
        find_name_from(us, name, k + 1)
    }
}

/// Index of the first upstream named `name`.
pub open spec fn find_name(us: Seq<UpstreamConfig>, name: Seq<char>) -> Option<int> {
    find_name_from(us, name, 0)
}

/// Some upstream is named `name`.
pub open spec fn has_name(us: Seq<UpstreamConfig>, name: Seq<char>) -> bool {
    exists|i: int| 0 <= i < us.len() && #[trigger] us[i].name@ == name
}

/// Index of the first enabled upstream of `us[k..]` marked as default.
pub open spec fn first_enabled_default_from(us: Seq<UpstreamConfig>, k: int) -> Option<int>
    decreases us.len() - k,
{
    if k < 0 || k >= us.len() {
        None
    } else if us[k].is_default && us[k].enabled {
        Some(k)
    } else {
        first_enabled_default_from(us, k + 1)
    }
}

/// Index of the first enabled upstream of `us[k..]`.
pub open spec fn first_enabled_from(us: Seq<UpstreamConfig>, k: int) -> Option<int>
    decreases us.len() - k,
{
    if k < 0 || k >= us.len() {
        None
    } else if us[k].enabled {
        Some(k)
    } else {
        first_enabled_from(us, k + 1)
    }
}

/// The default upstream: the first enabled one marked as default, else the
/// first enabled one.
pub open spec fn default_upstream_index(us: Seq<UpstreamConfig>) -> Option<int> {
    match first_enabled_default_from(us, 0) {
        Some(i) => Some(i),
        None => first_enabled_from(us, 0),
    }
}

/// `u` with its default mark cleared.
pub open spec fn without_default(u: UpstreamConfig) -> UpstreamConfig {
    UpstreamConfig { is_default: false, ..u }
}

/// Every upstream of `us` except the one at `keep` with its default mark cleared.
pub open spec fn clear_defaults_except(us: Seq<UpstreamConfig>, keep: int) -> Seq<UpstreamConfig> {
    Seq::new(us.len(), |i: int| if i == keep { us[i] } else { without_default(us[i]) })
}

/// The list after adding `u` (which must have a fresh name).
pub open spec fn add_spec(us: Seq<UpstreamConfig>, u: UpstreamConfig) -> Seq<UpstreamConfig> {
    if u.is_default {
        clear_defaults_except(us, us.len() as int).push(u)
    } else {
        us.push(u)
    }
}

/// The list after replacing the upstream at `idx` by `u`.
pub open spec fn update_spec(us: Seq<UpstreamConfig>, idx: int, u: UpstreamConfig) -> Seq<UpstreamConfig> {
    if u.is_default {
        clear_defaults_except(us, idx).update(idx, u)
    } else {
        us.update(idx, u)
    }
}

/// Errors of the upstream list operations.
#[derive(Debug)]
pub enum ConfigError {
    /// An upstream with this name already exists.
    UpstreamExists(String),
    /// No upstream has this name.
    UpstreamNotFound(String),
}

impl ConfigError {
    /// The error's message.
    pub fn message(&self) -> (s: String)
        ensures
            s@ == match self {
                ConfigError::UpstreamExists(n) => "Upstream with name '"@ + n@ + "' already exists"@,
                ConfigError::UpstreamNotFound(n) => "Upstream '"@ + n@ + "' not found"@,
            },
    {
        match self {
            ConfigError::UpstreamExists(n) => {
                let mut s = "Upstream with name '".to_string();
                s.append(n.as_str());
                s.append("' already exists");
                s
            },
            ConfigError::UpstreamNotFound(n) => {
                let mut s = "Upstream '".to_string();
                s.append(n.as_str());
                s.append("' not found");
                s
            },
        }
    }
}

/// Position of the first upstream named `name`.
fn position_by_name(us: &Vec<UpstreamConfig>, name: &str) -> (r: Option<usize>)
    ensures
        match find_name(us@, name@) {
            Some(i) => r == Some(i as usize),
            None => r is None,
        },
        r is None <==> !has_name(us@, name@),
        r matches Some(i) ==> i < us@.len() && us@[i as int].name@ == name@,
{
    let target = chars_of(name);
    let mut k: usize = 0;
    while k < us.len()
        invariant
            k <= us@.len(),
            target@ == name@,
            find_name(us@, name@) == find_name_from(us@, name@, k as int),
            forall|j: int| 0 <= j < k ==> us@[j].name@ != name@,
        decreases us.len() - k,
    {
        let candidate = chars_of(us[k].name.as_str());
        if chars_eq(&candidate, &target) {
            proof {
                lemma_find_name_from(us@, name@, k as int);
            }
            return Some(k);
        }
        k = k + 1;
    }
    None
}

/// What `find_name_from` answers: the first matching index from `k` on.
pub proof fn lemma_find_name_from(us: Seq<UpstreamConfig>, name: Seq<char>, k: int)
    requires
        0 <= k,
    ensures
        match find_name_from(us, name, k) {
            Some(i) => k <= i < us.len() && us[i].name@ == name && forall|j: int|
                k <= j < i ==> #[trigger] us[j].name@ != name,
            None => forall|j: int| k <= j < us.len() ==> #[trigger] us[j].name@ != name,
        },
    decreases us.len() - k,
{
    if k < us.len() && us[k].name@ != name {
        lemma_find_name_from(us, name, k + 1);
    }
}

/// The first upstream named `name`.
fn upstream_named<'a>(us: &'a Vec<UpstreamConfig>, name: &str) -> (r: Option<&'a UpstreamConfig>)
    ensures
        match find_name(us@, name@) {
            Some(i) => r matches Some(u) && *u == us@[i],
            None => r is None,
        },
{
    proof {
        lemma_find_name_from(us@, name@, 0);
    }
    match position_by_name(us, name) {
        Some(i) => Some(&us[i]),
        None => None,
    }
}

/// The first enabled upstream marked as default, or else the first enabled
/// upstream.
fn default_upstream(us: &Vec<UpstreamConfig>) -> (r: Option<&UpstreamConfig>)
    ensures
        match default_upstream_index(us@) {
            Some(i) => r matches Some(u) && *u == us@[i],
            None => r is None,
        },
{
    let mut k: usize = 0;
    while k < us.len()
        invariant
            k <= us@.len(),
            first_enabled_default_from(us@, 0) == first_enabled_default_from(us@, k as int),
        decreases us.len() - k,
    {
        if us[k].is_default && us[k].enabled {
            return Some(&us[k]);
        }
        k = k + 1;
    }
    let mut k: usize = 0;
    while k < us.len()
        invariant
            k <= us@.len(),
            first_enabled_default_from(us@, 0) is None,
            first_enabled_from(us@, 0) == first_enabled_from(us@, k as int),
        decreases us.len() - k,
    {
        if us[k].enabled {
            return Some(&us[k]);
        }
        k = k + 1;
    }
    None
}

impl Config {
    /// Get all upstreams.
    pub fn get_upstreams(&self) -> (s: &[UpstreamConfig])
        ensures
            s@ == self.upstreams@,
    {
        self.upstreams.as_slice()
    }

    /// Get an upstream by name (the first one with that name).
    pub fn get_upstream_by_name(&self, name: &str) -> (r: Option<&UpstreamConfig>)
        ensures
            match find_name(self.upstreams@, name@) {
                Some(i) => r matches Some(u) && *u == self.upstreams@[i],
                None => r is None,
            },
    {
        upstream_named(&self.upstreams, name)
    }

    /// Get the default upstream: the first enabled upstream marked as
    /// default, or else the first enabled upstream.
    pub fn get_default_upstream(&self) -> (r: Option<&UpstreamConfig>)
        ensures
            match default_upstream_index(self.upstreams@) {
                Some(i) => r matches Some(u) && *u == self.upstreams@[i],
                None => r is None,
            },
    {
        default_upstream(&self.upstreams)
    }

    /// Clears the default mark of every upstream except the one at `keep`.
    fn clear_defaults(&mut self, keep: usize)
        ensures
            final(self).upstreams@ == clear_defaults_except(old(self).upstreams@, keep as int),
            *final(self) == (Config { upstreams: final(self).upstreams, ..*old(self) }),
    {
        let ghost us = self.upstreams@;
        let mut i: usize = 0;
        while i < self.upstreams.len()
            invariant
                i <= self.upstreams@.len(),
                self.upstreams@.len() == us.len(),
                forall|j: int| 0 <= j < i ==> self.upstreams@[j] == clear_defaults_except(us, keep as int)[j],
                forall|j: int| i <= j < us.len() ==> self.upstreams@[j] == us[j],
                *self == (Config { upstreams: self.upstreams, ..*old(self) }),
                us == old(self).upstreams@,
            decreases self.upstreams.len() - i,
        {
            if i != keep {
                self.upstreams[i].is_default = false;
            }
            i = i + 1;
        }
        assert(self.upstreams@ =~= clear_defaults_except(us, keep as int));
    }

    /// Add a new upstream; if it is marked as default, every other upstream
    /// loses its default mark. Refused when the name is already taken.
    pub fn add_upstream(&mut self, upstream: UpstreamConfig) -> (r: Result<(), ConfigError>)
        ensures
            match r {
                Ok(()) => {
                    &&& !has_name(old(self).upstreams@, upstream.name@)
                    &&& final(self).upstreams@ == add_spec(old(self).upstreams@, upstream)
                    &&& *final(self) == (Config { upstreams: final(self).upstreams, ..*old(self) })
                },
                Err(e) => {
                    &&& has_name(old(self).upstreams@, upstream.name@)
                    &&& e matches ConfigError::UpstreamExists(n) && n@ == upstream.name@
                    &&& *final(self) == *old(self)
                },
            },
    {
        // Check for duplicate name
        if position_by_name(&self.upstreams, upstream.name.as_str()).is_some() {
            return Err(ConfigError::UpstreamExists(upstream.name.clone()));
        }
        let ghost us = self.upstreams@;
        // If this is marked as default, unmark others
        if upstream.is_default {
            let n = self.upstreams.len();
            self.clear_defaults(n);
        }
        self.upstreams.push(upstream);
        Ok(())
    }

    /// Update the upstream named `name` (the first one with that name); if
    /// the new value is marked as default, every other upstream loses its
    /// default mark. Refused when no upstream has that name.
    pub fn update_upstream(&mut self, name: &str, updated: UpstreamConfig) -> (r: Result<(), ConfigError>)
        ensures
            match find_name(old(self).upstreams@, name@) {
                Some(idx) => {
                    &&& r is Ok
                    &&& final(self).upstreams@ == update_spec(old(self).upstreams@, idx, updated)
                    &&& *final(self) == (Config { upstreams: final(self).upstreams, ..*old(self) })
                },
                None => {
                    &&& r matches Err(ConfigError::UpstreamNotFound(n)) && n@ == name@
                    &&& *final(self) == *old(self)
                },
            },
    {
        let idx = match position_by_name(&self.upstreams, name) {
            Some(i) => i,
            None => {
                return Err(ConfigError::UpstreamNotFound(name.to_string()));
            },
        };
        proof {
            lemma_find_name_from(self.upstreams@, name@, 0);
        }
        if updated.is_default {
            self.clear_defaults(idx);
        }
        self.upstreams.set(idx, updated);
        Ok(())
    }

    /// Remove the upstream named `name` (the first one with that name) and
    /// return it. Refused when no upstream has that name.
    pub fn remove_upstream(&mut self, name: &str) -> (r: Result<UpstreamConfig, ConfigError>)
        ensures
            match find_name(old(self).upstreams@, name@) {
                Some(idx) => {
                    &&& r matches Ok(u) && u == old(self).upstreams@[idx]
                    &&& final(self).upstreams@ == old(self).upstreams@.remove(idx)
                    &&& *final(self) == (Config { upstreams: final(self).upstreams, ..*old(self) })
                },
                None => {
                    &&& r matches Err(ConfigError::UpstreamNotFound(n)) && n@ == name@
                    &&& *final(self) == *old(self)
                },
            },
    {
        let idx = match position_by_name(&self.upstreams, name) {
            Some(i) => i,
            None => {
                return Err(ConfigError::UpstreamNotFound(name.to_string()));
            },
        };
        proof {
            lemma_find_name_from(self.upstreams@, name@, 0);
        }
        Ok(self.upstreams.remove(idx))
    }
}

} // verus!

verus! {

/// The upstream made from a legacy `[upstream]` section.
pub open spec fn migrated_upstream_ok(u: UpstreamConfig, legacy: LegacyUpstreamConfig) -> bool {
    &&& u.name@ == "default"@
    &&& u.display_name matches Some(d) && d@ == "Default Upstream"@
    &&& u.url == legacy.url
    &&& u.registry == legacy.registry
    &&& u.projects@.len() == 0
    &&& u.username == legacy.username
    &&& u.password == legacy.password
    &&& u.skip_tls_verify == legacy.skip_tls_verify
    &&& u.priority == 100
    &&& u.enabled
    &&& u.cache_isolation@ == "shared"@
    &&& u.is_default
    &&& u.routes@.len() == 0
}

impl Config {
    /// Migrate a legacy `[upstream]` section to the `[[upstreams]]` list: the
    /// legacy section is always dropped, and becomes the only upstream when
    /// the list is empty.
    pub fn migrate_legacy_upstream(&mut self)
        ensures
            final(self).upstream is None,
            final(self).server == old(self).server,
            final(self).cache == old(self).cache,
            final(self).storage == old(self).storage,
            final(self).database == old(self).database,
            final(self).auth == old(self).auth,
            final(self).logging == old(self).logging,
            final(self).tls == old(self).tls,
            final(self).blob_serving == old(self).blob_serving,
            match old(self).upstream {
                Some(legacy) => if old(self).upstreams@.len() == 0 {
                    final(self).upstreams@.len() == 1 && migrated_upstream_ok(final(self).upstreams@[0], legacy)
                } else {
                    final(self).upstreams@ == old(self).upstreams@
                },
                None => final(self).upstreams@ == old(self).upstreams@,
            },
    {
        let legacy = self.upstream.take();
        if let Some(legacy) = legacy {
            if self.upstreams.len() == 0 {
                self.upstreams.push(
                    UpstreamConfig {
                        name: "default".to_string(),
                        display_name: Some("Default Upstream".to_string()),
                        url: legacy.url,
                        registry: legacy.registry,
                        projects: Vec::new(),
                        username: legacy.username,
                        password: legacy.password,
                        skip_tls_verify: legacy.skip_tls_verify,
                        priority: default_priority(),
                        enabled: true,
                        cache_isolation: default_cache_isolation(),
                        is_default: true,
                        routes: Vec::new(),
                    },
                );
            }
        }
    }
}

impl Default for Config {
    /// The configuration used when no configuration file exists.
    fn default() -> (c: Self)
        ensures
            c.server.bind_address@ == "0.0.0.0"@,
            c.server.port == 5000,
            c.cache.max_size == 10737418240,
            c.cache.retention_days == 30,
            c.cache.eviction_policy@ == "lru"@,
            c.upstream is None,
            c.upstreams@.len() == 1,
            c.upstreams@[0].name@ == "default"@,
            c.upstreams@[0].display_name matches Some(d) && d@ == "Default Upstream"@,
            c.upstreams@[0].url@ == "http://localhost:8880"@,
            c.upstreams@[0].registry@ == "library"@,
            c.upstreams@[0].projects@.len() == 0,
            c.upstreams@[0].username matches Some(n) && n@ == "admin"@,
            c.upstreams@[0].password matches Some(p) && p@ == "Harbor12345"@,
            !c.upstreams@[0].skip_tls_verify,
            c.upstreams@[0].priority == 100,
            c.upstreams@[0].enabled,
            c.upstreams@[0].cache_isolation@ == "shared"@,
            c.upstreams@[0].is_default,
            c.upstreams@[0].routes@.len() == 0,
            c.storage.backend@ == "local"@,
            c.storage.local.path@ == "./data/cache"@,
            c.storage.s3.bucket is None && c.storage.s3.region is None && c.storage.s3.endpoint is None,
            c.storage.s3.access_key is None && c.storage.s3.secret_key is None && c.storage.s3.prefix is None,
            !c.storage.s3.allow_http,
            c.database.path@ == "./data/harbor-cache.db"@,
            c.auth.jwt_secret@ == "change-me-in-production"@,
            c.auth.enabled,
            c.logging.level@ == "info"@,
            c.logging.format@ == "pretty"@,
            !c.tls.enabled && c.tls.cert_path is None && c.tls.key_path is None,
            !c.blob_serving.enable_presigned_redirects,
            c.blob_serving.presigned_url_ttl_secs == 900,
    {
        let mut upstreams: Vec<UpstreamConfig> = Vec::new();
        upstreams.push(
            UpstreamConfig {
                name: "default".to_string(),
                display_name: Some("Default Upstream".to_string()),
                url: "http://localhost:8880".to_string(),
                registry: default_registry(),
                projects: Vec::new(),
                username: Some("admin".to_string()),
                password: Some("Harbor12345".to_string()),
                skip_tls_verify: false,
                priority: default_priority(),
                enabled: true,
                cache_isolation: default_cache_isolation(),
                is_default: true,
                routes: Vec::new(),
            },
        );
        Config {
            server: ServerConfig { bind_address: default_bind_address(), port: default_port() },
            cache: CacheConfig {
                max_size: default_max_size(),
                retention_days: default_retention_days(),
                eviction_policy: default_eviction_policy(),
            },
            upstream: None,
            upstreams,
            storage: StorageConfig {
                backend: default_backend(),
                local: LocalStorageConfig { path: default_local_path() },
                s3: S3StorageConfig::default(),
            },
            database: DatabaseConfig { path: default_db_path() },
            auth: AuthConfig { jwt_secret: default_jwt_secret(), enabled: default_auth_enabled() },
            logging: LoggingConfig::default(),
            tls: TlsConfig::default(),
            blob_serving: BlobServingConfig::default(),
        }
    }
}

} // verus!

verus! {

// ==================== Laws ====================

/// No two upstreams are marked as default.
pub open spec fn at_most_one_default(us: Seq<UpstreamConfig>) -> bool {
    forall|i: int, j: int| 0 <= i < us.len() && 0 <= j < us.len() && i != j && #[trigger] us[i].is_default ==> !#[trigger] us[j].is_default
}

/// No two upstreams share a name.
pub open spec fn names_unique(us: Seq<UpstreamConfig>) -> bool {
    forall|i: int, j: int| 0 <= i < us.len() && 0 <= j < us.len() && i != j ==> #[trigger] us[i].name@ != #[trigger] us[j].name@
}

proof fn lemma_clear_defaults_except(us: Seq<UpstreamConfig>, keep: int)
    ensures
        clear_defaults_except(us, keep).len() == us.len(),
        forall|i: int| 0 <= i < us.len() ==> (#[trigger] clear_defaults_except(us, keep)[i]).name == us[i].name,
        forall|i: int| 0 <= i < us.len() && i != keep ==> !(#[trigger] clear_defaults_except(us, keep)[i]).is_default,
{
}

/// Adding an upstream under a fresh name keeps both list invariants: at
/// most one default, and unique names.
pub proof fn lemma_add_keeps_invariants(us: Seq<UpstreamConfig>, u: UpstreamConfig)
    requires
        !has_name(us, u.name@),
    ensures
        at_most_one_default(us) ==> at_most_one_default(add_spec(us, u)),
        names_unique(us) ==> names_unique(add_spec(us, u)),
{
    lemma_clear_defaults_except(us, us.len() as int);
    let r = add_spec(us, u);
    assert(r.len() == us.len() + 1);
    assert forall|i: int| 0 <= i < us.len() implies #[trigger] r[i].name == us[i].name by {}
    if names_unique(us) {
        assert forall|i: int, j: int| 0 <= i < r.len() && 0 <= j < r.len() && i != j implies #[trigger] r[i].name@
            != #[trigger] r[j].name@ by {
            if i == us.len() {
                assert(us[j].name@ != u.name@);
            } else if j == us.len() {
                assert(us[i].name@ != u.name@);
            }
        }
    }
}

/// Replacing an upstream keeps at most one default; it keeps names unique
/// when the new value's name is not used by another upstream.
pub proof fn lemma_update_keeps_invariants(us: Seq<UpstreamConfig>, idx: int, u: UpstreamConfig)
    requires
        0 <= idx < us.len(),
    ensures
        at_most_one_default(us) ==> at_most_one_default(update_spec(us, idx, u)),
        names_unique(us) && (forall|j: int| 0 <= j < us.len() && j != idx ==> #[trigger] us[j].name@ != u.name@)
            ==> names_unique(update_spec(us, idx, u)),
{
    lemma_clear_defaults_except(us, idx);
    let r = update_spec(us, idx, u);
    assert forall|i: int| 0 <= i < us.len() && i != idx implies #[trigger] r[i].name == us[i].name by {}
}

/// Removing an upstream keeps both list invariants.
pub proof fn lemma_remove_keeps_invariants(us: Seq<UpstreamConfig>, idx: int)
    requires
        0 <= idx < us.len(),
    ensures
        at_most_one_default(us) ==> at_most_one_default(us.remove(idx)),
        names_unique(us) ==> names_unique(us.remove(idx)),
{
    let r = us.remove(idx);
    if at_most_one_default(us) {
        assert forall|i: int, j: int| 0 <= i < r.len() && 0 <= j < r.len() && i != j && #[trigger] r[i].is_default
            implies !#[trigger] r[j].is_default by {
            let a = if i < idx { i } else { i + 1 };
            let b = if j < idx { j } else { j + 1 };
            assert(r[i] == us[a] && r[j] == us[b]);
        }
    }
    if names_unique(us) {
        assert forall|i: int, j: int| 0 <= i < r.len() && 0 <= j < r.len() && i != j implies #[trigger] r[i].name@
            != #[trigger] r[j].name@ by {
            let a = if i < idx { i } else { i + 1 };
            let b = if j < idx { j } else { j + 1 };
            assert(r[i] == us[a] && r[j] == us[b]);
        }
    }
}

/// After adding an upstream under a fresh name, looking that name up finds
/// exactly the added upstream, at the end of the list.
pub proof fn lemma_add_then_find(us: Seq<UpstreamConfig>, u: UpstreamConfig)
    requires
        !has_name(us, u.name@),
    ensures
        find_name(add_spec(us, u), u.name@) == Some(us.len() as int),
        add_spec(us, u)[us.len() as int] == u,
{
    lemma_clear_defaults_except(us, us.len() as int);
    let r = add_spec(us, u);
    lemma_find_name_from(r, u.name@, 0);
    match find_name(r, u.name@) {
        Some(i) => {
            if i < us.len() {
                assert(r[i].name == us[i].name);
                assert(us[i].name@ == u.name@);
            }
        },
        None => {
            assert(r[us.len() as int].name@ == u.name@);
        },
    }
}

/// Adding an upstream and then removing it by name leaves the other
/// upstreams as they were, except that they lost their default mark when the
/// added one was a default.
pub proof fn lemma_add_then_remove(us: Seq<UpstreamConfig>, u: UpstreamConfig)
    requires
        !has_name(us, u.name@),
    ensures
        find_name(add_spec(us, u), u.name@) == Some(us.len() as int),
        add_spec(us, u).remove(us.len() as int) == if u.is_default {
            clear_defaults_except(us, us.len() as int)
        } else {
            us
        },
{
    lemma_add_then_find(us, u);
    let r = add_spec(us, u);
    if u.is_default {
        assert(r.remove(us.len() as int) =~= clear_defaults_except(us, us.len() as int));
    } else {
        assert(r.remove(us.len() as int) =~= us);
    }
}

proof fn lemma_first_enabled_default_from(us: Seq<UpstreamConfig>, k: int)
    requires
        0 <= k,
    ensures
        match first_enabled_default_from(us, k) {
            Some(i) => k <= i < us.len() && us[i].is_default && us[i].enabled,
            None => forall|j: int| k <= j < us.len() ==> !(#[trigger] us[j].is_default && us[j].enabled),
        },
    decreases us.len() - k,
{
    if k < us.len() && !(us[k].is_default && us[k].enabled) {
        lemma_first_enabled_default_from(us, k + 1);
    }
}

proof fn lemma_first_enabled_from(us: Seq<UpstreamConfig>, k: int)
    requires
        0 <= k,
    ensures
        match first_enabled_from(us, k) {
            Some(i) => k <= i < us.len() && us[i].enabled,
            None => forall|j: int| k <= j < us.len() ==> !(#[trigger] us[j].enabled),
        },
    decreases us.len() - k,
{
    if k < us.len() && !us[k].enabled {
        lemma_first_enabled_from(us, k + 1);
    }
}

/// The default upstream is always enabled; it is one marked as default
/// whenever some enabled upstream is so marked; and there is none exactly
/// when no upstream is enabled.
pub proof fn lemma_default_upstream_choice(us: Seq<UpstreamConfig>)
    ensures
        match default_upstream_index(us) {
            Some(i) => {
                &&& 0 <= i < us.len()
                &&& us[i].enabled
                &&& (exists|j: int| 0 <= j < us.len() && #[trigger] us[j].is_default && us[j].enabled)
                    ==> us[i].is_default
            },
            None => forall|j: int| 0 <= j < us.len() ==> !(#[trigger] us[j].enabled),
        },
{
    lemma_first_enabled_default_from(us, 0);
    lemma_first_enabled_from(us, 0);
}

} // verus!

verus! {

/// A source of upstream configurations that can be read and changed: a
/// configuration file, or memory only.
pub trait UpstreamConfigProvider {
    /// The upstreams held, in order.
    spec fn upstreams_spec(&self) -> Seq<UpstreamConfig>;

    /// All upstreams.
    fn get_upstreams(&self) -> (s: &[UpstreamConfig])
        ensures
            s@ == self.upstreams_spec(),
    ;

    /// The first upstream named `name`.
    fn get_upstream_by_name(&self, name: &str) -> (r: Option<&UpstreamConfig>)
        ensures
            match find_name(self.upstreams_spec(), name@) {
                Some(i) => r matches Some(u) && *u == self.upstreams_spec()[i],
                None => r is None,
            },
    ;

    /// The first enabled upstream marked as default, or else the first
    /// enabled upstream.
    fn get_default_upstream(&self) -> (r: Option<&UpstreamConfig>)
        ensures
            match default_upstream_index(self.upstreams_spec()) {
                Some(i) => r matches Some(u) && *u == self.upstreams_spec()[i],
                None => r is None,
            },
    ;

    /// Append an upstream; refused when the name is already taken.
    fn add_upstream(&mut self, upstream: UpstreamConfig) -> (r: Result<(), ConfigError>)
        ensures
            has_name(old(self).upstreams_spec(), upstream.name@) ==> (r matches Err(ConfigError::UpstreamExists(n))
                && n@ == upstream.name@ && final(self).upstreams_spec() == old(self).upstreams_spec()),
            !has_name(old(self).upstreams_spec(), upstream.name@) ==> (r is Ok
                && final(self).upstreams_spec() == old(self).upstreams_spec().push(upstream)),
    ;

    /// Replace the first upstream named `name`; refused when there is none.
    fn update_upstream(&mut self, name: &str, updated: UpstreamConfig) -> (r: Result<(), ConfigError>)
        ensures
            match find_name(old(self).upstreams_spec(), name@) {
                Some(idx) => r is Ok && final(self).upstreams_spec() == old(self).upstreams_spec().update(idx, updated),
                None => (r matches Err(ConfigError::UpstreamNotFound(n)) && n@ == name@)
                    && final(self).upstreams_spec() == old(self).upstreams_spec(),
            },
    ;

    /// Remove the first upstream named `name` and return it; refused when
    /// there is none.
    fn remove_upstream(&mut self, name: &str) -> (r: Result<UpstreamConfig, ConfigError>)
        ensures
            match find_name(old(self).upstreams_spec(), name@) {
                Some(idx) => (r matches Ok(u) && u == old(self).upstreams_spec()[idx])
                    && final(self).upstreams_spec() == old(self).upstreams_spec().remove(idx),
                None => (r matches Err(ConfigError::UpstreamNotFound(n)) && n@ == name@)
                    && final(self).upstreams_spec() == old(self).upstreams_spec(),
            },
    ;

    /// The path of the configuration file behind the provider.
    fn get_config_path(&self) -> (s: String);
}

/// Upstream configurations held in memory only, without a file behind them.
/// Unlike [`Config`], adding or replacing an upstream leaves the default
/// marks of the others as they are.
pub struct InMemoryConfigProvider {
    upstreams: Vec<UpstreamConfig>,
}

impl InMemoryConfigProvider {
    /// A provider holding `upstreams`.
    pub fn new(upstreams: Vec<UpstreamConfig>) -> (p: Self)
        ensures
            p.upstreams_spec() == upstreams@,
    {
        InMemoryConfigProvider { upstreams }
    }
}

impl UpstreamConfigProvider for InMemoryConfigProvider {
    closed spec fn upstreams_spec(&self) -> Seq<UpstreamConfig> {
        self.upstreams@
    }

    fn get_upstreams(&self) -> (s: &[UpstreamConfig]) {
        self.upstreams.as_slice()
    }

    fn get_upstream_by_name(&self, name: &str) -> (r: Option<&UpstreamConfig>) {
        upstream_named(&self.upstreams, name)
    }

    fn get_default_upstream(&self) -> (r: Option<&UpstreamConfig>) {
        default_upstream(&self.upstreams)
    }

    fn add_upstream(&mut self, upstream: UpstreamConfig) -> (r: Result<(), ConfigError>) {
        if position_by_name(&self.upstreams, upstream.name.as_str()).is_some() {
            return Err(ConfigError::UpstreamExists(upstream.name.clone()));
        }
        self.upstreams.push(upstream);
        Ok(())
    }

    fn update_upstream(&mut self, name: &str, updated: UpstreamConfig) -> (r: Result<(), ConfigError>) {
        let idx = match position_by_name(&self.upstreams, name) {
            Some(i) => i,
            None => {
                return Err(ConfigError::UpstreamNotFound(name.to_string()));
            },
        };
        proof {
            lemma_find_name_from(self.upstreams@, name@, 0);
        }
        self.upstreams.set(idx, updated);
        Ok(())
    }

    fn remove_upstream(&mut self, name: &str) -> (r: Result<UpstreamConfig, ConfigError>) {
        let idx = match position_by_name(&self.upstreams, name) {
            Some(i) => i,
            None => {
                return Err(ConfigError::UpstreamNotFound(name.to_string()));
            },
        };
        proof {
            lemma_find_name_from(self.upstreams@, name@, 0);
        }
        Ok(self.upstreams.remove(idx))
    }

    /// There is no configuration file: the empty path.
    fn get_config_path(&self) -> (s: String)
        ensures
            s@ == Seq::<char>::empty(),
    {
        String::new()
    }
}

} // verus!
