use harbor_cache::api_types::{
    default_cache_isolation, default_enabled, default_limit, default_offset, default_priority, ActivityLogsQuery,
    BlobServingConfig, CacheEntriesQuery,
};
use harbor_cache::config::{
    BlobServingConfig as ConfiguredBlobServing, CacheConfig, Config, ServerConfig, TlsConfig,
};
use harbor_cache::config_schema::build_config_schema;
use harbor_cache::db::{ActivityLog, CacheEntry, ConfigEntry, EntryType, User, UserRole};
use harbor_cache::errors::ApiError;
use harbor_cache::management::{
    activity_log_response, activity_logs_request, cache_entries_request, cache_entry_response,
    config_entry_by_key, config_entry_response, config_file_update_check, config_key_not_found, requested_role,
    user_not_found, user_response, validate_config_content, MAX_PAGE,
};
use harbor_cache::cache_policy::EvictionPolicy;
use harbor_cache::startup::{
    blob_serving_of, cache_limits_of, client_config_of, database_url, default_admin_password, default_admin_user, listen_address, s3_config_of, tls_paths,
    uses_s3,
};

#[test]
fn users_and_roles() {
    let r = user_response(User {
        id: 3,
        username: "alice".into(),
        password_hash: "secret-hash".into(),
        role: UserRole::ReadWrite,
        created_at: "c".into(),
        updated_at: "u".into(),
    });
    assert_eq!((r.id, r.username.as_str(), r.role.as_str()), (3, "alice", "read-write"));
    assert_eq!(requested_role("read-only").ok(), Some(UserRole::ReadOnly));
    match requested_role("root") {
        Err(ApiError::BadRequest(m)) => assert_eq!(m, "Invalid role: root"),
        _ => panic!("accepted"),
    }
    match user_not_found(-2) {
        ApiError::NotFound(m) => assert_eq!(m, "User: -2"),
        _ => panic!("expected not found"),
    }
    match config_key_not_found("k") {
        ApiError::NotFound(m) => assert_eq!(m, "Config key: k"),
        _ => panic!("expected not found"),
    }
    let c = config_entry_response(ConfigEntry { key: "a".into(), value: "b".into(), updated_at: "t".into() });
    assert_eq!((c.key.as_str(), c.value.as_str(), c.updated_at.as_str()), ("a", "b", "t"));
}

#[test]
fn cache_entries() {
    let r = cache_entry_response(CacheEntry {
        id: 1,
        entry_type: EntryType::Blob,
        repository: Some("library/nginx".into()),
        reference: None,
        digest: "sha256:x".into(),
        content_type: "application/octet-stream".into(),
        size: 1536,
        created_at: "c".into(),
        last_accessed_at: "l".into(),
        access_count: 4,
        storage_path: "/p".into(),
        upstream_id: None,
    });
    assert_eq!(r.entry_type, "blob");
    assert_eq!(r.size_human, "1.50 KB");
    assert_eq!(r.access_count, 4);
    let q = cache_entries_request(CacheEntriesQuery { limit: 500, ..CacheEntriesQuery::default() });
    assert_eq!(q.limit, MAX_PAGE);
    let q = cache_entries_request(CacheEntriesQuery::default());
    assert_eq!((q.offset, q.limit), (0, 0));
    let a = activity_logs_request(ActivityLogsQuery { limit: 7, ..ActivityLogsQuery::default() });
    assert_eq!(a.limit, 7);
    let l = activity_log_response(ActivityLog {
        id: 9,
        timestamp: "t".into(),
        action: "login".into(),
        resource_type: "user".into(),
        resource_id: None,
        user_id: Some(1),
        username: Some("a".into()),
        details: None,
        ip_address: Some("1.2.3.4".into()),
    });
    assert_eq!((l.id, l.action.as_str(), l.user_id), (9, "login", Some(1)));
}

#[test]
fn api_defaults() {
    assert_eq!(default_offset(), 0);
    assert_eq!(default_limit(), 50);
    assert_eq!(default_priority(), 100);
    assert!(default_enabled());
    assert_eq!(default_cache_isolation(), "shared");
    let b = BlobServingConfig::default();
    assert!(!b.enable_presigned_redirects);
    assert_eq!(b.presigned_url_ttl_secs, 900);
    assert_eq!(BlobServingConfig::new(true, 5).presigned_url_ttl_secs, 60);
    assert_eq!(BlobServingConfig::new(true, 1_000_000).presigned_url_ttl_secs, 86400);
    assert_eq!(BlobServingConfig::new(true, 3600).presigned_url_ttl_secs, 3600);
    let configured = ConfiguredBlobServing { enable_presigned_redirects: true, presigned_url_ttl_secs: 10 };
    assert_eq!(configured.validated_ttl_secs(), 60);
}

#[test]
fn config_schema() {
    let s = build_config_schema();
    assert_eq!(s.groups.len(), 8);
    assert_eq!(s.fields.len(), 27);
    assert!(s.fields.iter().all(|f| s.groups.iter().any(|g| g.id == f.group)));
    let policy = s.fields.iter().find(|f| f.key == "cache.eviction_policy").unwrap();
    assert_eq!(policy.field_type, "select");
    assert_eq!(policy.options.as_ref().unwrap().len(), 3);
}

#[test]
fn startup_settings() {
    let c = Config::default();
    assert_eq!(database_url("./data/x.db"), "sqlite:./data/x.db?mode=rwc");
    assert!(!uses_s3(&c.storage));
    let s3 = s3_config_of(&c.storage);
    assert_eq!((s3.bucket.as_str(), s3.region.as_str()), ("harbor-cache", "us-east-1"));
    let limits = cache_limits_of(&CacheConfig { max_size: 5, retention_days: 2, eviction_policy: "FIFO".into() });
    assert_eq!((limits.max_size, limits.retention_days, limits.eviction_policy), (5, 2, EvictionPolicy::Fifo));
    let fallback = cache_limits_of(&CacheConfig { max_size: 5, retention_days: 2, eviction_policy: "mru".into() });
    assert_eq!(fallback.eviction_policy, EvictionPolicy::Lru);
    let client = client_config_of(&c.upstreams[0]);
    assert_eq!((client.url.as_str(), client.registry.as_str()), ("http://localhost:8880", "library"));
    let b = blob_serving_of(&c.blob_serving);
    assert_eq!(b.presigned_url_ttl_secs, 900);
    let server = ServerConfig { bind_address: "0.0.0.0".into(), port: 5000 };
    assert_eq!(listen_address(None, None, &server), "0.0.0.0:5000");
    assert_eq!(listen_address(Some("127.0.0.1".into()), Some(8080), &server), "127.0.0.1:8080");
}

#[test]
fn configuration_entries_and_file() {
    let entries = vec![
        ConfigEntry { key: "a".into(), value: "1".into(), updated_at: "t1".into() },
        ConfigEntry { key: "b".into(), value: "2".into(), updated_at: "t2".into() },
        ConfigEntry { key: "a".into(), value: "3".into(), updated_at: "t3".into() },
    ];
    let e = config_entry_by_key(entries, "a").unwrap();
    assert_eq!((e.value.as_str(), e.updated_at.as_str()), ("1", "t1"));
    match config_entry_by_key(vec![], "zz") {
        Err(ApiError::NotFound(m)) => assert_eq!(m, "Config key: zz"),
        _ => panic!("expected not found"),
    }
    let ok = validate_config_content("[server]\nport = 5000\n");
    assert!(ok.valid);
    assert_eq!(ok.message, "Configuration is valid");
    let bad_text = "[server\nport = ";
    let bad = validate_config_content(bad_text);
    assert!(!bad.valid);
    let expected = format!("Invalid TOML syntax: {}", toml::from_str::<toml::Value>(bad_text).unwrap_err());
    assert_eq!(bad.message, expected);
    match config_file_update_check(false, "x = 1") {
        Err(ApiError::BadRequest(m)) => assert_eq!(m, "Config path not available"),
        _ => panic!("expected a refusal"),
    }
    assert!(config_file_update_check(true, "x = 1").is_ok());
    match config_file_update_check(true, bad_text) {
        Err(ApiError::BadRequest(m)) => assert_eq!(m, expected),
        _ => panic!("expected a refusal"),
    }
}

#[test]
fn tls_settings() {
    let none = TlsConfig { enabled: true, cert_path: None, key_path: Some("k".into()) };
    assert_eq!(tls_paths(&none).unwrap_err(), "TLS certificate path not configured");
    let no_key = TlsConfig { enabled: true, cert_path: Some("c".into()), key_path: None };
    assert_eq!(tls_paths(&no_key).unwrap_err(), "TLS key path not configured");
    let both = TlsConfig { enabled: true, cert_path: Some("c".into()), key_path: Some("k".into()) };
    assert_eq!(tls_paths(&both).unwrap(), ("c".to_string(), "k".to_string()));
}

#[test]
fn default_admin_only_without_users() {
    assert_eq!(default_admin_password(), "admin");
    assert!(default_admin_user(true, "h".to_string()).is_none());
    let u = default_admin_user(false, "hash".to_string()).unwrap();
    assert_eq!(u.username, "admin");
    assert_eq!(u.password_hash, "hash");
    assert_eq!(u.role, harbor_cache::db::UserRole::Admin);
}
