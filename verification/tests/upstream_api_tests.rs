use harbor_cache::api_types::{CreateRouteRequest, CreateUpstreamRequest, UpdateUpstreamRequest};
use harbor_cache::config::{UpstreamConfig, UpstreamProjectConfig, UpstreamRouteConfig};
use harbor_cache::errors::ApiError;
use harbor_cache::upstream_manager::UpstreamHealth;
use harbor_cache::upstream_api::{
    check_new_upstream, check_new_upstream_rest, check_resolved_addresses, check_upstream_update,
    check_upstream_update_rest, config_change_failure, connection_test_response, dns_lookup_target,
    health_check_failure, health_response,
    is_private_or_reserved_ip, new_upstream_config, project_response, reload_cooldown, remove_route,
    route_config_to_response, updated_upstream_config, upstream_config_to_response, upstream_not_found,
    validate_display_name, validate_projects, validate_registry_name, validate_route_pattern, validate_upstream_name,
    validate_upstream_url, IpAddress,
};

fn refusal(r: Result<(), ApiError>) -> String {
    match r {
        Ok(()) => "ok".to_string(),
        Err(ApiError::BadRequest(m)) => m,
        Err(e) => panic!("unexpected {:?}", e),
    }
}

fn request(name: &str, url: &str) -> CreateUpstreamRequest {
    CreateUpstreamRequest {
        name: name.to_string(),
        display_name: "Display".to_string(),
        url: url.to_string(),
        registry: "library".to_string(),
        username: Some("u".to_string()),
        password: None,
        skip_tls_verify: false,
        priority: 10,
        enabled: true,
        cache_isolation: "shared".to_string(),
        is_default: false,
        routes: vec![CreateRouteRequest { pattern: "library/*".to_string(), priority: 5 }],
    }
}

#[test]
fn names_and_patterns() {
    assert_eq!(refusal(validate_upstream_name("harbor-1_a")), "ok");
    assert_eq!(refusal(validate_upstream_name("")), "Upstream name cannot be empty");
    assert_eq!(
        refusal(validate_upstream_name(&"a".repeat(65))),
        "Upstream name exceeds maximum length of 64 characters"
    );
    assert_eq!(
        refusal(validate_upstream_name("a b")),
        "Upstream name must contain only alphanumeric characters, dashes, and underscores"
    );
    assert_eq!(
        refusal(validate_upstream_name("-ab")),
        "Upstream name must start with an alphanumeric character"
    );
    assert_eq!(refusal(validate_display_name("My Harbor")), "ok");
    assert_eq!(refusal(validate_display_name("")), "Display name cannot be empty");
    assert_eq!(
        refusal(validate_display_name("x<SCRIPT>")),
        "Display name contains disallowed characters"
    );
    assert_eq!(refusal(validate_display_name("JavaScript:alert")), "Display name contains disallowed characters");
    assert_eq!(refusal(validate_registry_name("")), "Registry name cannot be empty");
    assert_eq!(refusal(validate_registry_name("library")), "ok");
    assert_eq!(refusal(validate_route_pattern("team/**")), "ok");
    assert_eq!(refusal(validate_route_pattern("")), "Route pattern cannot be empty");
    assert_eq!(
        refusal(validate_route_pattern(&"*".repeat(11))),
        "Route pattern contains too many wildcards (max 10)"
    );
    assert_eq!(
        refusal(validate_route_pattern("a/../b")),
        "Route pattern cannot contain path traversal sequences"
    );
}

#[test]
fn urls() {
    assert_eq!(refusal(validate_upstream_url("https://harbor.example.com")), "ok");
    assert_eq!(refusal(validate_upstream_url("http://harbor.example.com:8080/x")), "ok");
    assert_eq!(
        refusal(validate_upstream_url("not a url")),
        "Invalid URL format: relative URL without a base"
    );
    assert_eq!(
        refusal(validate_upstream_url("ftp://example.com")),
        "URL scheme 'ftp' is not allowed. Only http and https are permitted"
    );
    assert_eq!(
        refusal(validate_upstream_url("http://localhost")),
        "Localhost URLs are not allowed for security reasons"
    );
    assert_eq!(
        refusal(validate_upstream_url("http://127.0.0.1:5000")),
        "Localhost URLs are not allowed for security reasons"
    );
    assert_eq!(
        refusal(validate_upstream_url("http://Metadata.Google.Internal")),
        "Internal hostnames are not allowed for security reasons"
    );
    assert_eq!(
        refusal(validate_upstream_url("http://printer.local")),
        "Internal hostnames are not allowed for security reasons"
    );
    assert_eq!(
        refusal(validate_upstream_url("http://10.1.2.3")),
        "Private or reserved IP addresses are not allowed for security reasons"
    );
    assert_eq!(
        refusal(validate_upstream_url("http://169.1.2.3")),
        "Private or reserved IP addresses are not allowed for security reasons"
    );
    assert_eq!(refusal(validate_upstream_url("http://8.8.8.8")), "ok");
    assert_eq!(
        refusal(validate_upstream_url(&format!("https://{}", "a".repeat(2050)))),
        "URL exceeds maximum length of 2048 characters"
    );
}

#[test]
fn addresses() {
    assert!(is_private_or_reserved_ip(&IpAddress::V4([192, 168, 1, 1])));
    assert!(is_private_or_reserved_ip(&IpAddress::V4([172, 20, 0, 1])));
    assert!(!is_private_or_reserved_ip(&IpAddress::V4([172, 32, 0, 1])));
    assert!(is_private_or_reserved_ip(&IpAddress::V4([203, 0, 113, 9])));
    assert!(!is_private_or_reserved_ip(&IpAddress::V4([1, 1, 1, 1])));
    assert!(is_private_or_reserved_ip(&IpAddress::V6([0, 0, 0, 0, 0, 0, 0, 1])));
    assert!(is_private_or_reserved_ip(&IpAddress::V6([0, 0, 0, 0, 0, 0xffff, 0x0a00, 0x0001])));
    assert!(!is_private_or_reserved_ip(&IpAddress::V6([0, 0, 0, 0, 0, 0xffff, 0x0808, 0x0808])));
    assert!(!is_private_or_reserved_ip(&IpAddress::V6([0x2001, 0xdb8, 0, 0, 0, 0, 0, 1])));

    match dns_lookup_target("https://harbor.example.com/x") {
        Ok(Some((h, p))) => assert_eq!((h.as_str(), p), ("harbor.example.com", 443)),
        _ => panic!("expected a lookup"),
    }
    match dns_lookup_target("http://harbor.example.com:8080") {
        Ok(Some((h, p))) => assert_eq!((h.as_str(), p), ("harbor.example.com", 8080)),
        _ => panic!("expected a lookup"),
    }
    assert!(matches!(dns_lookup_target("http://8.8.8.8"), Ok(None)));
    match dns_lookup_target("::") {
        Err(ApiError::BadRequest(m)) => assert!(m.starts_with("Invalid URL: ")),
        _ => panic!("expected a refusal"),
    }
    assert_eq!(
        refusal(check_resolved_addresses("h", Err("no such host".to_string()))),
        "Failed to resolve hostname 'h': no such host"
    );
    assert_eq!(
        refusal(check_resolved_addresses("h", Ok(vec![]))),
        "Hostname 'h' did not resolve to any IP addresses"
    );
    assert_eq!(
        refusal(check_resolved_addresses("h", Ok(vec![IpAddress::V4([8, 8, 8, 8]), IpAddress::V4([10, 0, 0, 1])]))),
        "Hostname 'h' resolves to a private or reserved IP address, which is not allowed for security reasons"
    );
    assert_eq!(refusal(check_resolved_addresses("h", Ok(vec![IpAddress::V4([8, 8, 8, 8])]))), "ok");
}

#[test]
fn creating_upstreams() {
    assert_eq!(refusal(check_new_upstream(&request("ok-name", "https://h.example.com"))), "ok");
    assert_eq!(refusal(check_new_upstream(&request("", "http://localhost"))), "Upstream name cannot be empty");
    assert_eq!(
        refusal(check_new_upstream(&request("x", "http://localhost"))),
        "Localhost URLs are not allowed for security reasons"
    );
    let mut r = request("x", "https://h.example.com");
    assert_eq!(refusal(check_new_upstream_rest(&r, false)), "ok");
    assert_eq!(refusal(check_new_upstream_rest(&r, true)), "Upstream with name 'x' already exists");
    r.routes.push(CreateRouteRequest { pattern: "../x".to_string(), priority: 1 });
    assert_eq!(
        refusal(check_new_upstream_rest(&r, true)),
        "Route pattern cannot contain path traversal sequences"
    );
    let c = new_upstream_config(request("x", "https://h.example.com"));
    assert_eq!(c.name, "x");
    assert_eq!(c.display_name, Some("Display".to_string()));
    assert_eq!(c.routes.len(), 1);
    assert_eq!(c.routes[0].pattern, "library/*");
    assert_eq!(c.routes[0].priority, 5);
    assert!(c.projects.is_empty());
}

fn existing() -> UpstreamConfig {
    UpstreamConfig {
        name: "h".to_string(),
        display_name: None,
        url: "https://old.example.com".to_string(),
        registry: "library".to_string(),
        projects: Vec::new(),
        username: Some("old".to_string()),
        password: Some("pw".to_string()),
        skip_tls_verify: false,
        priority: 100,
        enabled: true,
        cache_isolation: "shared".to_string(),
        is_default: false,
        routes: vec![
            UpstreamRouteConfig { pattern: "a/*".to_string(), priority: 1 },
            UpstreamRouteConfig { pattern: "b/*".to_string(), priority: 2 },
        ],
    }
}

#[test]
fn updating_upstreams() {
    let none = UpdateUpstreamRequest {
        display_name: None,
        url: None,
        registry: None,
        username: None,
        password: None,
        skip_tls_verify: None,
        priority: None,
        enabled: None,
        cache_isolation: None,
        is_default: None,
    };
    assert_eq!(refusal(check_upstream_update(&none)), "ok");
    assert_eq!(refusal(check_upstream_update_rest(&none)), "ok");
    let c = updated_upstream_config(existing(), none, None);
    assert_eq!(c.display_name, Some("h".to_string()));
    assert_eq!(c.url, "https://old.example.com");
    assert_eq!(c.username, Some("old".to_string()));
    assert_eq!(c.routes.len(), 2);

    let change = UpdateUpstreamRequest {
        display_name: Some("New".to_string()),
        url: Some("https://new.example.com".to_string()),
        registry: Some("proj".to_string()),
        username: Some("new".to_string()),
        password: None,
        skip_tls_verify: Some(true),
        priority: Some(3),
        enabled: Some(false),
        cache_isolation: Some("isolated".to_string()),
        is_default: Some(true),
    };
    assert_eq!(refusal(check_upstream_update(&change)), "ok");
    let projects = vec![UpstreamProjectConfig { name: "p".to_string(), pattern: None, priority: 1, is_default: true }];
    let c = updated_upstream_config(existing(), change, Some(projects));
    assert_eq!(c.display_name, Some("New".to_string()));
    assert_eq!((c.url.as_str(), c.registry.as_str()), ("https://new.example.com", "proj"));
    assert_eq!(c.username, Some("new".to_string()));
    assert_eq!(c.password, Some("pw".to_string()));
    assert!(c.skip_tls_verify && !c.enabled && c.is_default);
    assert_eq!((c.priority, c.cache_isolation.as_str()), (3, "isolated"));
    assert_eq!(c.projects.len(), 1);

    let bad = UpdateUpstreamRequest { display_name: Some(String::new()), ..none_request() };
    assert_eq!(refusal(check_upstream_update(&bad)), "Display name cannot be empty");
    let bad = UpdateUpstreamRequest { url: Some("http://localhost".to_string()), ..none_request() };
    assert_eq!(refusal(check_upstream_update(&bad)), "Localhost URLs are not allowed for security reasons");
    let bad = UpdateUpstreamRequest { registry: Some(String::new()), ..none_request() };
    assert_eq!(refusal(check_upstream_update_rest(&bad)), "Registry name cannot be empty");
}

fn none_request() -> UpdateUpstreamRequest {
    UpdateUpstreamRequest {
        display_name: None,
        url: None,
        registry: None,
        username: None,
        password: None,
        skip_tls_verify: None,
        priority: None,
        enabled: None,
        cache_isolation: None,
        is_default: None,
    }
}

#[test]
fn responses_and_other_decisions() {
    let mut u = existing();
    u.projects = vec![
        UpstreamProjectConfig { name: "team-a".to_string(), pattern: None, priority: 1, is_default: false },
        UpstreamProjectConfig { name: "b".to_string(), pattern: Some("b/**".to_string()), priority: 2, is_default: true },
    ];
    let r = upstream_config_to_response(&u, 4, "2024-01-01T00:00:00Z");
    assert_eq!(r.id, 4);
    assert_eq!(r.display_name, "h");
    assert!(r.uses_multi_project);
    assert!(r.has_credentials);
    assert_eq!(r.projects[0].effective_pattern, "team-a/*");
    assert_eq!(r.projects[1].effective_pattern, "b/**");
    assert_eq!(r.created_at, "2024-01-01T00:00:00Z");
    assert_eq!(project_response(&u.projects[0]).effective_pattern, "team-a/*");
    let rr = route_config_to_response(&u.routes[1], 1, "now");
    assert_eq!((rr.id, rr.upstream_id, rr.pattern.as_str(), rr.priority), (1, 0, "b/*", 2));

    assert_eq!(refusal(reload_cooldown(100, 98)), "Rate limit exceeded. Please wait 3 seconds before reloading again.");
    assert_eq!(refusal(reload_cooldown(100, 95)), "ok");
    match upstream_not_found("h") {
        ApiError::NotFound(m) => assert_eq!(m, "Upstream: h"),
        _ => panic!("expected not found"),
    }
    assert!(matches!(config_change_failure("Upstream 'h' not found".to_string(), "h"), ApiError::NotFound(_)));
    match config_change_failure("disk full".to_string(), "h") {
        ApiError::Internal(m) => assert_eq!(m, "disk full"),
        _ => panic!("expected internal"),
    }
    let mut u = existing();
    assert!(remove_route(&mut u, 0).is_ok());
    assert_eq!(u.routes.len(), 1);
    assert_eq!(u.routes[0].pattern, "b/*");
    match remove_route(&mut u, 5) {
        Err(ApiError::NotFound(m)) => assert_eq!(m, "Route: 5"),
        _ => panic!("expected not found"),
    }
    let t = connection_test_response(Ok(Ok(true)));
    assert!(t.success && t.message == "Connection successful");
    let t = connection_test_response(Ok(Ok(false)));
    assert!(!t.success && t.message == "Ping returned false");
    let t = connection_test_response(Ok(Err("timeout".to_string())));
    assert_eq!(t.message, "Connection failed: timeout");
    let t = connection_test_response(Err("bad tls".to_string()));
    assert_eq!(t.message, "Failed to create client: bad tls");
}

#[test]
fn health_reports() {
    assert!(matches!(health_check_failure("Upstream NotFound".to_string(), "h"), ApiError::NotFound(_)));
    assert!(matches!(health_check_failure("upstream not found".to_string(), "h"), ApiError::NotFound(_)));
    match health_check_failure("timeout".to_string(), "h") {
        ApiError::Internal(m) => assert_eq!(m, "timeout"),
        _ => panic!("expected internal"),
    }
    let h = UpstreamHealth {
        upstream_name: "h".to_string(),
        name: "Harbor".to_string(),
        healthy: false,
        last_check: "t".to_string(),
        last_error: Some("down".to_string()),
        consecutive_failures: 2,
    };
    let r = health_response(&h);
    assert_eq!((r.upstream_id, r.name.as_str(), r.healthy, r.consecutive_failures), (0, "Harbor", false, 2));
    assert_eq!(r.last_error, Some("down".to_string()));
}

fn project(name: &str, is_default: bool) -> UpstreamProjectConfig {
    UpstreamProjectConfig { name: name.to_string(), pattern: None, priority: 100, is_default }
}

#[test]
fn project_lists() {
    assert!(validate_projects(&vec![], 10).is_ok());
    assert!(validate_projects(&vec![project("library", true), project("team-a", false)], 10).is_ok());
    assert_eq!(
        refusal(validate_projects(&vec![project("a", false), project("b", false), project("c", false)], 2)),
        "Too many projects (max 2)"
    );
    assert_eq!(
        refusal(validate_projects(&vec![project("a", false), project("b", false), project("a", false)], 10)),
        "Duplicate project name: 'a'"
    );
    assert_eq!(
        refusal(validate_projects(&vec![project("a", true), project("b", true)], 10)),
        "Only one project can be marked as default"
    );
}
