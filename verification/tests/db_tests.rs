use harbor_cache::db::{
    activity_logs_listing, cache_entries_listing, same_ignoring_ascii_case, stored_cache_isolation,
    stored_entry_type, stored_user_role, upstream_id_migration, upstream_update_plan, ActivityLogQuery, CacheEntryQuery, CacheIsolation,
    CacheStats, EntryType, ParseError, SqlValue, UpdateUpstream, UserRole, parse_datetime_or_now, UtcTime,
};

fn param_texts(p: &[SqlValue]) -> Vec<String> {
    p.iter()
        .map(|v| match v {
            SqlValue::Text(s) => format!("T:{}", s),
            SqlValue::Null => "NULL".to_string(),
            SqlValue::Int(i) => format!("I:{}", i),
            SqlValue::Bool(b) => format!("B:{}", b),
        })
        .collect()
}

#[test]
fn enum_names_round_trip() {
    for t in [EntryType::Manifest, EntryType::Blob] {
        assert_eq!(EntryType::from_str(t.as_str()).ok(), Some(t));
    }
    for r in [UserRole::Admin, UserRole::ReadWrite, UserRole::ReadOnly] {
        assert_eq!(UserRole::from_str(r.as_str()).ok(), Some(r));
    }
    for c in [CacheIsolation::Shared, CacheIsolation::Isolated] {
        assert_eq!(CacheIsolation::from_str(c.as_str()).ok(), Some(c));
    }
    assert_eq!(CacheIsolation::from_str("ISOLATED").ok(), Some(CacheIsolation::Isolated));
    assert_eq!(CacheIsolation::from_str("Shared").ok(), Some(CacheIsolation::Shared));
    assert_eq!(CacheIsolation::default(), CacheIsolation::Shared);
}

#[test]
fn parse_errors() {
    match EntryType::from_str("tag") {
        Err(e) => assert_eq!(e.message(), "Invalid entry type: tag"),
        Ok(_) => panic!("accepted"),
    }
    match UserRole::from_str("root") {
        Err(ParseError::InvalidUserRole(s)) => assert_eq!(s, "root"),
        _ => panic!("accepted"),
    }
    assert!(CacheIsolation::from_str("private").is_err());
}

#[test]
fn roles() {
    assert!(UserRole::Admin.is_admin() && UserRole::Admin.can_write());
    assert!(!UserRole::ReadWrite.is_admin() && UserRole::ReadWrite.can_write());
    assert!(!UserRole::ReadOnly.is_admin() && !UserRole::ReadOnly.can_write());
}

#[test]
fn stored_values_fall_back() {
    assert_eq!(stored_entry_type("manifest"), EntryType::Manifest);
    assert_eq!(stored_entry_type("garbage"), EntryType::Blob);
    assert_eq!(stored_user_role("admin"), UserRole::Admin);
    assert_eq!(stored_user_role("read-write"), UserRole::ReadWrite);
    assert_eq!(stored_user_role("who"), UserRole::ReadOnly);
    assert_eq!(stored_cache_isolation("Isolated"), CacheIsolation::Isolated);
    assert_eq!(stored_cache_isolation("x"), CacheIsolation::Shared);
}

#[test]
fn query_validation() {
    let q = CacheEntryQuery {
        entry_type: None,
        repository: None,
        digest: None,
        offset: -5,
        limit: 1000,
        sort_by: Some("name".to_string()),
        sort_order: Some("ASC".to_string()),
    }
    .validated();
    assert_eq!(q.offset, 0);
    assert_eq!(q.limit, 100);
    assert!(q.sort_by.is_none());
    assert_eq!(q.sort_order, Some("ASC".to_string()));
    let q = CacheEntryQuery::default().validated();
    assert_eq!(q.limit, 50);
    let again = CacheEntryQuery { ..CacheEntryQuery::default() }.validated().validated();
    assert_eq!((again.offset, again.limit), (0, 50));
    let a = ActivityLogQuery { limit: 7, offset: 3, ..ActivityLogQuery::default() }.validated();
    assert_eq!((a.offset, a.limit), (3, 7));
    let stats = CacheStats::default();
    assert_eq!(stats.total_size + stats.entry_count + stats.hit_count + stats.miss_count, 0);
}

#[test]
fn cache_listing_sql() {
    let p = cache_entries_listing(CacheEntryQuery {
        entry_type: Some("blob".to_string()),
        repository: Some("library".to_string()),
        digest: None,
        offset: 10,
        limit: 20,
        sort_by: Some("size".to_string()),
        sort_order: Some("asc".to_string()),
    });
    assert_eq!(
        p.count_sql,
        "SELECT COUNT(*) as count FROM cache_entries WHERE entry_type = ? AND repository LIKE ?"
    );
    assert_eq!(
        p.select_sql,
        "SELECT id, entry_type, repository, reference, digest, content_type, size, created_at, last_accessed_at, access_count, storage_path FROM cache_entries WHERE entry_type = ? AND repository LIKE ? ORDER BY size ASC LIMIT ? OFFSET ?"
    );
    assert_eq!(p.params, vec!["blob".to_string(), "%library%".to_string()]);
    assert_eq!((p.limit, p.offset), (20, 10));

    let p = cache_entries_listing(CacheEntryQuery::default());
    assert_eq!(p.count_sql, "SELECT COUNT(*) as count FROM cache_entries ");
    assert!(p.select_sql.ends_with("ORDER BY last_accessed_at DESC LIMIT ? OFFSET ?"));
    assert!(p.params.is_empty());
    assert_eq!(p.limit, 50);
}

#[test]
fn activity_listing_sql() {
    let p = activity_logs_listing(ActivityLogQuery {
        action: Some("login".to_string()),
        resource_type: None,
        user_id: Some(-3),
        start_date: Some("2024-01-01".to_string()),
        end_date: None,
        offset: 0,
        limit: 0,
    });
    assert_eq!(
        p.count_sql,
        "SELECT COUNT(*) as count FROM activity_logs WHERE action = ? AND user_id = ? AND timestamp >= ?"
    );
    assert_eq!(p.params, vec!["login".to_string(), "-3".to_string(), "2024-01-01".to_string()]);
    assert!(p.select_sql.ends_with(" ORDER BY timestamp DESC LIMIT ? OFFSET ?"));
    assert_eq!(p.limit, 50);
}

#[test]
fn upstream_update_sql() {
    let empty = upstream_update_plan(9, &UpdateUpstream::default(), "now".to_string());
    assert!(empty.statement.is_none());
    assert!(empty.clear_other_defaults.is_none());

    let mut u = UpdateUpstream::default();
    u.url = Some("https://h".to_string());
    u.username = Some(None);
    u.priority = Some(5);
    u.cache_isolation = Some(CacheIsolation::Isolated);
    u.is_default = Some(true);
    let p = upstream_update_plan(9, &u, "2024-01-01T00:00:00Z".to_string());
    let (clear_sql, clear_params) = p.clear_other_defaults.unwrap();
    assert_eq!(clear_sql, "UPDATE upstreams SET is_default = 0 WHERE is_default = 1 AND id != ?");
    assert_eq!(param_texts(&clear_params), vec!["I:9"]);
    let (sql, params) = p.statement.unwrap();
    assert_eq!(
        sql,
        "UPDATE upstreams SET updated_at = ?, url = ?, username = ?, priority = ?, cache_isolation = ?, is_default = ? WHERE id = ?"
    );
    assert_eq!(
        param_texts(&params),
        vec!["T:2024-01-01T00:00:00Z", "T:https://h", "NULL", "I:5", "T:isolated", "B:true", "I:9"]
    );
}

#[test]
fn default_mark_cleared_only_when_set() {
    let mut u = UpdateUpstream::default();
    u.is_default = Some(false);
    let p = upstream_update_plan(3, &u, "now".to_string());
    assert!(p.clear_other_defaults.is_none());
    let (sql, params) = p.statement.unwrap();
    assert_eq!(sql, "UPDATE upstreams SET updated_at = ?, is_default = ? WHERE id = ?");
    assert_eq!(param_texts(&params), vec!["T:now", "B:false", "I:3"]);
}

#[test]
fn ascii_case() {
    assert!(same_ignoring_ascii_case("AsC", "asc"));
    assert!(!same_ignoring_ascii_case("asc", "as"));
    assert!(!same_ignoring_ascii_case("é", "É"));
}

#[test]
fn test_parse_datetime_or_now() {
    let valid_time = "2024-01-01T12:00:00Z";
    let parsed = parse_datetime_or_now(valid_time);
    let back = chrono::DateTime::from_timestamp(parsed.secs, parsed.nanos).unwrap();
    assert_eq!(back.to_rfc3339(), "2024-01-01T12:00:00+00:00");
    assert_eq!(parsed, UtcTime { secs: 1704110400, nanos: 0 });

    // Invalid time should return current time
    let invalid_time = "invalid";
    let now_before = chrono::Utc::now();
    let parsed = parse_datetime_or_now(invalid_time);
    let now_after = chrono::Utc::now();
    let before = (now_before.timestamp(), now_before.timestamp_subsec_nanos());
    let after = (now_after.timestamp(), now_after.timestamp_subsec_nanos());
    assert!((parsed.secs, parsed.nanos) >= before && (parsed.secs, parsed.nanos) <= after);

    let offset = parse_datetime_or_now("2024-01-01T14:30:00.5+02:00");
    assert_eq!(offset, UtcTime { secs: 1704112200, nanos: 500_000_000 });
}

#[test]
fn sort_direction_in_any_case() {
    for o in ["DESC", "desc", "Asc", "aSc"] {
        let q = CacheEntryQuery { sort_order: Some(o.to_string()), ..CacheEntryQuery::default() }.validated();
        assert_eq!(q.sort_order, Some(o.to_string()));
    }
    let q = CacheEntryQuery { sort_order: Some("down".to_string()), ..CacheEntryQuery::default() }.validated();
    assert_eq!(q.sort_order, None);
}

#[test]
fn upstream_id_column_added_once() {
    let first = upstream_id_migration(Some(0));
    assert_eq!(
        first,
        vec![
            "ALTER TABLE cache_entries ADD COLUMN upstream_id INTEGER".to_string(),
            "CREATE INDEX IF NOT EXISTS idx_cache_entries_upstream_id ON cache_entries(upstream_id)".to_string(),
        ]
    );
    assert_eq!(upstream_id_migration(None), first);
    assert!(upstream_id_migration(Some(1)).is_empty());
}
