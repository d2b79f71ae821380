//! What the server takes from its configuration when it starts: the
//! database URL, the storage backend, the cache limits, the default
//! upstream's client settings, blob serving and the address it listens on.

use vstd::prelude::*;

use crate::cache_policy::{CacheConfig as CacheLimits, EvictionPolicy};
use crate::config::{BlobServingConfig, CacheConfig, ServerConfig, StorageConfig, TlsConfig, UpstreamConfig};
use crate::proxy::HarborClientConfig;
use crate::storage::S3Config;
use crate::text::{lowered, str_eq};

verus! {

/// The password the first administrator starts with.
pub fn default_admin_password() -> (s: &'static str)
    ensures
        s@ == "admin"@,
{
    "admin"
}

/// The administrator created when the database holds no user: `admin`,
/// with the hash of [`default_admin_password`]; none when users exist.
pub fn default_admin_user(has_users: bool, password_hash: String) -> (r: Option<crate::db::NewUser>)
    ensures
        has_users ==> (r is None),
        !has_users ==> (r matches Some(u) && u.username@ == "admin"@ && u.password_hash == password_hash
            && u.role == crate::db::UserRole::Admin),
{
    if has_users {
        None
    } else {
        Some(crate::db::NewUser { username: "admin".to_string(), password_hash, role: crate::db::UserRole::Admin })
    }
}

/// The SQLite URL of the database file, created when missing.
pub fn database_url(path: &str) -> (u: String)
    ensures
        u@ == "sqlite:"@ + path@ + "?mode=rwc"@,
{
    let mut u = "sqlite:".to_string();
    u.append(path);
    u.append("?mode=rwc");
    u
}

/// Whether blobs are kept in S3 (backend `s3`); any other backend means
/// local storage.
pub fn uses_s3(storage: &StorageConfig) -> (b: bool)
    ensures
        b == (storage.backend@ == "s3"@),
{
    str_eq(storage.backend.as_str(), "s3")
}

fn text_or(o: &Option<String>, d: &str) -> (s: String)
    ensures
        match o {
            Some(v) => s == v,
            None => s@ == d@,
        },
{
    match o {
        Some(v) => v.clone(),
        None => d.to_string(),
    }
}

fn opt_copy(o: &Option<String>) -> (r: Option<String>)
    ensures
        r == *o,
{
    match o {
        Some(v) => Some(v.clone()),
        None => None,
    }
}

/// The S3 settings of a configuration: bucket `harbor-cache` and region
/// `us-east-1` unless given.
pub fn s3_config_of(storage: &StorageConfig) -> (c: S3Config)
    ensures
        match storage.s3.bucket {
            Some(b) => c.bucket == b,
            None => c.bucket@ == "harbor-cache"@,
        },
        match storage.s3.region {
            Some(r) => c.region == r,
            None => c.region@ == "us-east-1"@,
        },
        c.endpoint == storage.s3.endpoint,
        c.access_key_id == storage.s3.access_key,
        c.secret_access_key == storage.s3.secret_key,
        c.prefix == storage.s3.prefix,
        c.allow_http == storage.s3.allow_http,
{
    S3Config {
        bucket: text_or(&storage.s3.bucket, "harbor-cache"),
        region: text_or(&storage.s3.region, "us-east-1"),
        endpoint: opt_copy(&storage.s3.endpoint),
        access_key_id: opt_copy(&storage.s3.access_key),
        secret_access_key: opt_copy(&storage.s3.secret_key),
        prefix: opt_copy(&storage.s3.prefix),
        allow_http: storage.s3.allow_http,
    }
}

/// The cache limits of a configuration; an unknown eviction policy means
/// least recently used.
pub fn cache_limits_of(cache: &CacheConfig) -> (c: CacheLimits)
    ensures
        c.max_size == cache.max_size,
        c.retention_days == cache.retention_days,
        lowered(cache.eviction_policy@) == "lfu"@ ==> c.eviction_policy == EvictionPolicy::Lfu,
        lowered(cache.eviction_policy@) == "fifo"@ ==> c.eviction_policy == EvictionPolicy::Fifo,
        lowered(cache.eviction_policy@) != "lfu"@ && lowered(cache.eviction_policy@) != "fifo"@
            ==> c.eviction_policy == EvictionPolicy::Lru,
{
    proof {
        reveal_strlit("lru");
        reveal_strlit("lfu");
        reveal_strlit("fifo");
        assert("lru"@.len() == 3 && "lfu"@.len() == 3 && "fifo"@.len() == 4);
        assert("lru"@[1] == 'r' && "lfu"@[1] == 'f');
    }
    let eviction_policy = match EvictionPolicy::from_str(cache.eviction_policy.as_str()) {
        Ok(p) => {
            assert(p.name() == lowered(cache.eviction_policy@));
            assert(lowered(cache.eviction_policy@) == "lfu"@ ==> p == EvictionPolicy::Lfu);
            assert(lowered(cache.eviction_policy@) == "fifo"@ ==> p == EvictionPolicy::Fifo);
            assert(lowered(cache.eviction_policy@) != "lfu"@ && lowered(cache.eviction_policy@) != "fifo"@
                ==> p == EvictionPolicy::Lru);
            p
        },
        Err(_) => EvictionPolicy::Lru,
    };
    CacheLimits { max_size: cache.max_size, retention_days: cache.retention_days, eviction_policy }
}

/// The client settings for an upstream.
pub fn client_config_of(u: &UpstreamConfig) -> (c: HarborClientConfig)
    ensures
        c.url == u.url,
        c.registry == u.registry,
        c.username == u.username,
        c.password == u.password,
        c.skip_tls_verify == u.skip_tls_verify,
{
    HarborClientConfig {
        url: u.url.clone(),
        registry: u.registry.clone(),
        username: opt_copy(&u.username),
        password: opt_copy(&u.password),
        skip_tls_verify: u.skip_tls_verify,
    }
}

/// The API's blob serving settings from the configuration, as given.
pub fn blob_serving_of(b: &BlobServingConfig) -> (c: crate::api_types::BlobServingConfig)
    ensures
        c.enable_presigned_redirects == b.enable_presigned_redirects,
        c.presigned_url_ttl_secs == b.presigned_url_ttl_secs,
{
    crate::api_types::BlobServingConfig {
        enable_presigned_redirects: b.enable_presigned_redirects,
        presigned_url_ttl_secs: b.presigned_url_ttl_secs,
    }
}

/// The address the server listens on, `<host>:<port>`: the command line's
/// host and port where given, else the configuration's.
pub fn listen_address(bind: Option<String>, port: Option<u16>, server: &ServerConfig) -> (a: String)
    ensures
        a@ == (match bind {
            Some(b) => b@,
            None => server.bind_address@,
        }) + ":"@ + crate::numfmt::dec(
            (match port {
                Some(p) => p,
                None => server.port,
            }) as nat,
        ),
{
    let mut a = match bind {
        Some(b) => b,
        None => server.bind_address.clone(),
    };
    a.append(":");
    let p = match port {
        Some(p) => p,
        None => server.port,
    };
    crate::numfmt::push_decimal(&mut a, p as u64);
    a
}

/// The certificate and key files of the TLS settings; refused, naming what
/// is missing, when either is not set (the certificate first).
pub fn tls_paths(tls: &TlsConfig) -> (r: Result<(String, String), String>)
    ensures
        match (tls.cert_path, tls.key_path) {
            (None, _) => r matches Err(m) && m@ == "TLS certificate path not configured"@,
            (Some(_), None) => r matches Err(m) && m@ == "TLS key path not configured"@,
            (Some(c), Some(k)) => r matches Ok((a, b)) && a == c && b == k,
        },
{
    let cert = match &tls.cert_path {
        Some(c) => c.clone(),
        None => {
            return Err("TLS certificate path not configured".to_string());
        },
    };
    let key = match &tls.key_path {
        Some(k) => k.clone(),
        None => {
            return Err("TLS key path not configured".to_string());
        },
    };
    Ok((cert, key))
}

} // verus!
