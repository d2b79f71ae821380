use harbor_cache::config::{UpstreamConfig, UpstreamRouteConfig};
use harbor_cache::upstream_manager::{enabled_upstreams, upstreams_with_clients, MatchReason, UpstreamManager};

fn upstream(name: &str, is_default: bool, routes: &[(&str, i32)]) -> UpstreamConfig {
    UpstreamConfig {
        name: name.to_string(),
        display_name: None,
        url: format!("https://{}.example.com", name),
        registry: "library".to_string(),
        projects: Vec::new(),
        username: None,
        password: None,
        skip_tls_verify: false,
        priority: 100,
        enabled: true,
        cache_isolation: if name == "iso" { "isolated".to_string() } else { "shared".to_string() },
        is_default,
        routes: routes
            .iter()
            .map(|(p, prio)| UpstreamRouteConfig { pattern: p.to_string(), priority: *prio })
            .collect(),
    }
}

fn loaded() -> UpstreamManager {
    let mut m = UpstreamManager::new();
    m.reload(
        vec![
            upstream("main", true, &[]),
            upstream("iso", false, &[("team-a/**", 10)]),
            upstream("lib", false, &[("library/*", 20)]),
        ],
        "2024-01-01T00:00:00Z",
        1704067200,
    );
    m
}

#[test]
fn empty_manager() {
    let m = UpstreamManager::new();
    assert_eq!(m.upstream_count(), 0);
    assert!(m.find_upstream("library/nginx").is_none());
    assert!(m.get_default_upstream().is_none());
}

#[test]
fn route_match_then_default() {
    let m = loaded();
    assert_eq!(m.upstream_count(), 3);
    let info = m.find_upstream("team-a/x/y").unwrap();
    assert_eq!(info.config.name, "iso");
    match info.match_reason {
        MatchReason::RouteMatch { pattern, priority } => {
            assert_eq!(pattern, "team-a/**");
            assert_eq!(priority, 10);
        },
        _ => panic!("expected a route match"),
    }
    assert_eq!(m.find_upstream("library/nginx").unwrap().config.name, "lib");
    let fallback = m.find_upstream("other/image").unwrap();
    assert_eq!(fallback.config.name, "main");
    assert!(matches!(fallback.match_reason, MatchReason::DefaultFallback));
}

#[test]
fn lookups_by_name() {
    let m = loaded();
    let info = m.get_upstream_by_name("lib").unwrap();
    assert!(matches!(info.match_reason, MatchReason::ExplicitName(ref n) if n == "lib"));
    assert!(m.get_upstream_by_name("nope").is_none());
    assert_eq!(m.get_default_upstream().unwrap().config.name, "main");
    assert!(m.uses_isolated_cache("iso"));
    assert!(!m.uses_isolated_cache("main"));
    assert_eq!(m.get_cache_upstream_name("iso"), Some("iso".to_string()));
    assert_eq!(m.get_cache_upstream_name("main"), None);
    let names: Vec<&str> = m.list_upstreams().iter().map(|c| c.name.as_str()).collect();
    assert_eq!(names, vec!["main", "iso", "lib"]);
}

#[test]
fn health_tracking_and_recovery() {
    let mut m = loaded();
    let h = m.get_upstream_health("lib").unwrap();
    assert!(h.healthy);
    assert_eq!(h.consecutive_failures, 0);
    assert_eq!(h.last_check, "2024-01-01T00:00:00Z");

    m.mark_unhealthy("lib", "boom");
    m.mark_unhealthy("lib", "boom again");
    m.mark_unhealthy("lib", "still down");
    let h = m.get_upstream_health("lib").unwrap();
    assert!(!h.healthy);
    assert_eq!(h.consecutive_failures, 3);
    assert_eq!(h.last_error, Some("still down".to_string()));
    // Three failures in a row: no longer chosen by its route.
    assert_eq!(m.find_upstream("library/nginx").unwrap().config.name, "main");

    m.mark_healthy("lib");
    let h = m.get_upstream_health("lib").unwrap();
    assert!(h.healthy);
    assert_eq!(h.consecutive_failures, 0);
    assert!(h.last_error.is_none());
    assert_eq!(m.find_upstream("library/nginx").unwrap().config.name, "lib");
}

#[test]
fn health_check_outcomes() {
    let mut m = loaded();
    assert!(m.record_health_check("iso", Ok(false), "t1").is_ok());
    let h = m.get_upstream_health("iso").unwrap();
    assert!(!h.healthy);
    assert_eq!(h.last_error, Some("Ping returned false".to_string()));
    assert_eq!(h.last_check, "t1");
    assert!(m.record_health_check("iso", Err("refused".to_string()), "t2").is_ok());
    assert_eq!(m.get_upstream_health("iso").unwrap().consecutive_failures, 2);
    assert!(m.record_health_check("iso", Ok(true), "t3").is_ok());
    let h = m.get_upstream_health("iso").unwrap();
    assert!(h.healthy && h.consecutive_failures == 0 && h.last_error.is_none());
    match m.record_health_check("ghost", Ok(true), "t4") {
        Err(e) => assert_eq!(e.message(), "Not found: Upstream ghost"),
        Ok(()) => panic!("unknown upstream accepted"),
    }
}

#[test]
fn reload_replaces_same_names_and_skips_disabled() {
    let mut off = upstream("off", false, &[]);
    off.enabled = false;
    let kept = enabled_upstreams(vec![upstream("a", false, &[]), off, upstream("b", true, &[])]);
    let names: Vec<&str> = kept.iter().map(|c| c.name.as_str()).collect();
    assert_eq!(names, vec!["a", "b"]);

    let mut m = UpstreamManager::new();
    let mut second = upstream("a", false, &[]);
    second.priority = 7;
    m.reload(vec![upstream("a", true, &[]), second], "now", 0);
    assert_eq!(m.upstream_count(), 1);
    assert_eq!(m.get_upstream_by_name("a").unwrap().config.priority, 7);
    assert_eq!(m.get_health_status().len(), 1);
}

#[test]
fn upstreams_whose_client_failed_are_skipped() {
    let kept = upstreams_with_clients(
        vec![upstream("a", false, &[]), upstream("b", true, &[("x/*", 1)]), upstream("c", false, &[])],
        vec![true, false, true],
    );
    let names: Vec<&str> = kept.iter().map(|c| c.name.as_str()).collect();
    assert_eq!(names, vec!["a", "c"]);
    let mut m = UpstreamManager::new();
    m.reload(kept, "now", 0);
    assert_eq!(m.upstream_count(), 2);
    assert!(m.get_upstream_by_name("b").is_none());
}
