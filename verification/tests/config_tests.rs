use harbor_cache::config::{
    Config, ConfigError, InMemoryConfigProvider, UpstreamConfigProvider, LegacyUpstreamConfig, UpstreamConfig, UpstreamProjectConfig, UpstreamRouteConfig,
};

fn upstream(name: &str, is_default: bool) -> UpstreamConfig {
    UpstreamConfig {
        name: name.to_string(),
        display_name: None,
        url: format!("https://{}.example.com", name),
        registry: "library".to_string(),
        projects: Vec::new(),
        username: None,
        password: None,
        skip_tls_verify: false,
        priority: 100,
        enabled: true,
        cache_isolation: "shared".to_string(),
        is_default,
        routes: Vec::new(),
    }
}

fn names(c: &Config) -> Vec<String> {
    c.get_upstreams().iter().map(|u| u.name.clone()).collect()
}

fn default_names(c: &Config) -> Vec<String> {
    c.get_upstreams().iter().filter(|u| u.is_default).map(|u| u.name.clone()).collect()
}

#[test]
fn default_config_values() {
    let c = Config::default();
    assert_eq!(c.server.bind_address, "0.0.0.0");
    assert_eq!(c.server.port, 5000);
    assert_eq!(c.cache.max_size, 10737418240);
    assert_eq!(c.cache.retention_days, 30);
    assert_eq!(c.cache.eviction_policy, "lru");
    assert_eq!(names(&c), vec!["default".to_string()]);
    assert_eq!(c.get_default_upstream().unwrap().name, "default");
    assert_eq!(c.blob_serving.presigned_url_ttl_secs, 900);
    assert_eq!(c.storage.backend, "local");
    assert_eq!(c.database.path, "./data/harbor-cache.db");
}

#[test]
fn add_then_find_and_default_moves() {
    let mut c = Config::default();
    assert!(c.add_upstream(upstream("second", true)).is_ok());
    assert_eq!(names(&c), vec!["default".to_string(), "second".to_string()]);
    assert_eq!(default_names(&c), vec!["second".to_string()]);
    assert_eq!(c.get_upstream_by_name("second").unwrap().url, "https://second.example.com");
    assert_eq!(c.get_default_upstream().unwrap().name, "second");
}

#[test]
fn duplicate_name_is_refused_and_nothing_changes() {
    let mut c = Config::default();
    match c.add_upstream(upstream("default", false)) {
        Err(e) => assert_eq!(e.message(), "Upstream with name 'default' already exists"),
        Ok(()) => panic!("duplicate accepted"),
    }
    assert_eq!(names(&c), vec!["default".to_string()]);
}

#[test]
fn update_and_remove() {
    let mut c = Config::default();
    c.add_upstream(upstream("b", false)).ok().unwrap();
    let mut changed = upstream("b", true);
    changed.priority = 5;
    assert!(c.update_upstream("b", changed).is_ok());
    assert_eq!(c.get_upstream_by_name("b").unwrap().priority, 5);
    assert_eq!(default_names(&c), vec!["b".to_string()]);
    match c.update_upstream("missing", upstream("missing", false)) {
        Err(ConfigError::UpstreamNotFound(n)) => assert_eq!(n, "missing"),
        _ => panic!("expected not found"),
    }
    let removed = c.remove_upstream("b").ok().unwrap();
    assert_eq!(removed.priority, 5);
    assert_eq!(names(&c), vec!["default".to_string()]);
    match c.remove_upstream("b") {
        Err(e) => assert_eq!(e.message(), "Upstream 'b' not found"),
        Ok(_) => panic!("removed twice"),
    }
}

#[test]
fn default_falls_back_to_first_upstream() {
    let mut c = Config::default();
    c.upstreams = vec![upstream("x", false), upstream("y", false)];
    assert_eq!(c.get_default_upstream().unwrap().name, "x");
    c.upstreams.clear();
    assert!(c.get_default_upstream().is_none());
}

#[test]
fn legacy_section_migrates_only_into_an_empty_list() {
    let legacy = LegacyUpstreamConfig {
        url: "http://old:80".to_string(),
        registry: "proj".to_string(),
        username: Some("u".to_string()),
        password: None,
        skip_tls_verify: true,
    };
    let mut c = Config::default();
    c.upstreams.clear();
    c.upstream = Some(legacy);
    c.migrate_legacy_upstream();
    assert!(c.upstream.is_none());
    let u = &c.get_upstreams()[0];
    assert_eq!(u.name, "default");
    assert_eq!(u.display_name(), "Default Upstream");
    assert_eq!(u.url, "http://old:80");
    assert_eq!(u.registry, "proj");
    assert!(u.skip_tls_verify && u.is_default && u.enabled);

    let mut c2 = Config::default();
    c2.upstream = Some(LegacyUpstreamConfig {
        url: "http://old:80".to_string(),
        registry: "proj".to_string(),
        username: None,
        password: None,
        skip_tls_verify: false,
    });
    c2.migrate_legacy_upstream();
    assert!(c2.upstream.is_none());
    assert_eq!(c2.get_upstreams()[0].url, "http://localhost:8880");
}

#[test]
fn projects_and_display_names() {
    let mut u = upstream("multi", false);
    assert!(!u.uses_multi_project());
    assert_eq!(u.get_default_project(), "library");
    assert_eq!(u.display_name(), "multi");
    u.display_name = Some("Multi".to_string());
    assert_eq!(u.display_name(), "Multi");
    u.projects = vec![
        UpstreamProjectConfig { name: "a".to_string(), pattern: None, priority: 1, is_default: false },
        UpstreamProjectConfig { name: "b".to_string(), pattern: None, priority: 2, is_default: true },
    ];
    assert!(u.uses_multi_project());
    assert_eq!(u.get_default_project(), "b");
    u.projects[1].is_default = false;
    assert_eq!(u.get_default_project(), "a");
    u.cache_isolation = "isolated".to_string();
    assert!(u.uses_isolated_cache());
    u.routes.push(UpstreamRouteConfig { pattern: "x/*".to_string(), priority: 1 });
    assert_eq!(u.routes.len(), 1);
}

#[test]
fn in_memory_provider_keeps_other_defaults() {
    let mut p = InMemoryConfigProvider::new(vec![upstream("a", true)]);
    assert!(p.add_upstream(upstream("b", true)).is_ok());
    assert_eq!(p.get_upstreams().iter().filter(|u| u.is_default).count(), 2);
    assert_eq!(p.get_default_upstream().unwrap().name, "a");
    assert!(matches!(p.add_upstream(upstream("a", false)), Err(ConfigError::UpstreamExists(_))));
    assert!(p.update_upstream("b", upstream("c", false)).is_ok());
    assert_eq!(p.get_upstream_by_name("c").unwrap().name, "c");
    assert!(p.get_upstream_by_name("b").is_none());
    assert_eq!(p.remove_upstream("a").ok().unwrap().name, "a");
    assert!(matches!(p.remove_upstream("a"), Err(ConfigError::UpstreamNotFound(_))));
    assert_eq!(p.get_config_path(), "");
    assert_eq!(p.get_upstreams().len(), 1);
}
