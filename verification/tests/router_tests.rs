use harbor_cache::models::UpstreamRoute;
use harbor_cache::router::RouteMatcher;

fn make_route(upstream_id: i64, pattern: &str, priority: i32) -> UpstreamRoute {
    UpstreamRoute { id: 0, upstream_id, pattern: pattern.to_string(), priority, created_at: 0 }
}

#[test]
fn test_exact_match() {
    let matcher = RouteMatcher::new(vec![make_route(1, "library/nginx", 100)]);

    let result = matcher.find_match("library/nginx");
    assert!(result.is_some());
    assert_eq!(result.unwrap().upstream_id, 1);

    assert!(matcher.find_match("library/alpine").is_none());
}

#[test]
fn test_single_wildcard() {
    let matcher = RouteMatcher::new(vec![make_route(1, "library/*", 100)]);

    let result = matcher.find_match("library/nginx");
    assert!(result.is_some());
    assert_eq!(result.unwrap().upstream_id, 1);

    let result = matcher.find_match("library/alpine");
    assert!(result.is_some());

    // Should not match nested paths
    assert!(matcher.find_match("other/nginx").is_none());
}

#[test]
fn test_multi_wildcard() {
    let matcher = RouteMatcher::new(vec![make_route(1, "team-a/**", 100)]);

    let result = matcher.find_match("team-a/project/image");
    assert!(result.is_some());
    assert_eq!(result.unwrap().upstream_id, 1);

    let result = matcher.find_match("team-a/image");
    assert!(result.is_some());

    assert!(matcher.find_match("team-b/image").is_none());
}

#[test]
fn test_priority_ordering() {
    let matcher = RouteMatcher::new(vec![
        make_route(1, "library/*", 100),
        make_route(2, "library/nginx", 50), // Higher priority (lower number)
    ]);

    // Specific match should win due to lower priority number
    let result = matcher.find_match("library/nginx");
    assert!(result.is_some());
    assert_eq!(result.unwrap().upstream_id, 2);

    // Generic match still works for other paths
    let result = matcher.find_match("library/alpine");
    assert!(result.is_some());
    assert_eq!(result.unwrap().upstream_id, 1);
}

#[test]
fn single_wildcard_does_not_cross_segments() {
    let matcher = RouteMatcher::new(vec![make_route(3, "library/*", 10)]);
    assert!(matcher.find_match("library/a/b").is_none());
    assert!(matcher.find_match("library/").is_some());
}

#[test]
fn wildcards_inside_segments_and_equal_priorities() {
    let matcher = RouteMatcher::new(vec![
        make_route(4, "lib*/x", 10),
        make_route(5, "**", 10),
        make_route(6, "a/**/z", 1),
    ]);
    // The earliest of equal priorities wins.
    assert_eq!(matcher.find_match("library/x").unwrap().upstream_id, 4);
    assert_eq!(matcher.find_match("anything/else").unwrap().upstream_id, 5);
    let m = matcher.find_match("a/b/c/z").unwrap();
    assert_eq!(m.upstream_id, 6);
    assert_eq!(m.pattern, "a/**/z");
    assert_eq!(m.priority, 1);
}

#[test]
fn empty_matcher_matches_nothing() {
    let matcher = RouteMatcher::new(Vec::new());
    assert!(matcher.find_match("library/nginx").is_none());
}

#[test]
fn wildcards_follow_segment_rules() {
    let single = RouteMatcher::new(vec![make_route(7, "team/*", 1)]);
    assert!(single.find_match("team/x").is_some());
    assert!(single.find_match("team/").is_some());
    assert!(single.find_match("team/x/y").is_none());
    let multi = RouteMatcher::new(vec![make_route(8, "team/**", 1)]);
    assert!(multi.find_match("team/").is_some());
    assert!(multi.find_match("team/x/y/z").is_some());
    let exact = RouteMatcher::new(vec![make_route(9, "team/x", 1)]);
    assert!(exact.find_match("team/x").is_some());
    assert!(exact.find_match("team/xy").is_none());
    assert!(exact.find_match("team/").is_none());
}
