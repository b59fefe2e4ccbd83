use ultiproxy::router::RouterError;
use ultiproxy::{ForwardingRule, LoadBalancingStrategy, ProxyRouter};

fn create_test_rule(name: &str, path: &str) -> ForwardingRule {
    ForwardingRule {
        name: name.to_string(),
        path: path.to_string(),
        target_urls: vec!["http://example.com".to_string()],
        load_balancing: LoadBalancingStrategy::RoundRobin,
        header_replacements: Vec::new(),
        body_replacements: Vec::new(),
    }
}

#[test]
fn test_exact_path_matching() {
    let mut router = ProxyRouter::new();
    let rule = create_test_rule("test", "/api/users");
    router.add_rule(rule).unwrap();

    assert!(router.find_matching_rule("/api/users").is_some());
    assert!(router.find_matching_rule("/api/user").is_none());
    assert!(router.find_matching_rule("/api/users/123").is_none());
}

#[test]
fn test_wildcard_matching() {
    let mut router = ProxyRouter::new();
    let rule = create_test_rule("test", "/api/*");
    router.add_rule(rule).unwrap();

    assert!(router.find_matching_rule("/api/users").is_some());
    assert!(router.find_matching_rule("/api/posts").is_some());
    assert!(router.find_matching_rule("/api/").is_some());
    assert!(router.find_matching_rule("/api/users/123").is_none());
}

#[test]
fn test_double_wildcard_matching() {
    let mut router = ProxyRouter::new();
    let rule = create_test_rule("test", "/api/**");
    router.add_rule(rule).unwrap();

    assert!(router.find_matching_rule("/api/users").is_some());
    assert!(router.find_matching_rule("/api/users/123").is_some());
    assert!(router.find_matching_rule("/api/users/123/posts").is_some());
    assert!(router.find_matching_rule("/api/").is_some());
    assert!(router.find_matching_rule("/other").is_none());
}

#[test]
fn test_path_to_regex() {
    let router = ProxyRouter::new();

    assert_eq!(router.path_to_regex("/api/users").unwrap(), "^/api/users$");
    assert_eq!(router.path_to_regex("/api/*").unwrap(), "^/api/[^/]*$");
    assert_eq!(router.path_to_regex("/api/**").unwrap(), "^/api/.*$");
    assert_eq!(router.path_to_regex("/api/user?").unwrap(), "^/api/user.$");
}

#[test]
fn glob_operators_are_escaped_and_stars_scan_left_to_right() {
    let router = ProxyRouter::default();
    assert_eq!(router.path_to_regex("/a.b+(c)").unwrap(), "^/a\\.b\\+\\(c\\)$");
    assert_eq!(router.path_to_regex("[x]{y}|z\\$^").unwrap(), "^\\[x\\]\\{y\\}\\|z\\\\\\$\\^$");
    assert_eq!(router.path_to_regex("/***").unwrap(), "^/.*[^/]*$");
    assert_eq!(router.path_to_regex("").unwrap(), "^$");
}

#[test]
fn escaped_dot_matches_only_a_dot() {
    let mut router = ProxyRouter::new();
    router.add_rule(create_test_rule("file", "/static/app.js")).unwrap();
    assert!(router.find_matching_rule("/static/app.js").is_some());
    assert!(router.find_matching_rule("/static/appxjs").is_none());
}

#[test]
fn first_declared_rule_wins_every_time() {
    let mut router = ProxyRouter::new();
    router.add_rule(create_test_rule("broad", "/api/**")).unwrap();
    router.add_rule(create_test_rule("narrow", "/api/users")).unwrap();
    for _ in 0..3 {
        assert_eq!(router.find_matching_rule("/api/users").unwrap().name, "broad");
    }
    let mut other = ProxyRouter::new();
    other.add_rule(create_test_rule("narrow", "/api/users")).unwrap();
    other.add_rule(create_test_rule("broad", "/api/**")).unwrap();
    assert_eq!(other.find_matching_rule("/api/users").unwrap().name, "narrow");
    assert_eq!(other.find_matching_rule("/api/x").unwrap().name, "broad");
}

#[test]
fn update_rules_replaces_the_whole_set() {
    let mut router = ProxyRouter::new();
    router.add_rule(create_test_rule("old", "/api/**")).unwrap();
    router
        .update_rules(vec![create_test_rule("a", "/v2/**"), create_test_rule("b", "/v3")])
        .unwrap();
    assert!(router.find_matching_rule("/api/x").is_none());
    assert_eq!(router.find_matching_rule("/v2/x").unwrap().name, "a");
    let names: Vec<String> = router.get_all_rules().iter().map(|r| r.name.clone()).collect();
    assert_eq!(names, vec!["a".to_string(), "b".to_string()]);
}

#[test]
fn a_pattern_the_regex_engine_refuses_leaves_the_router_unchanged() {
    let mut router = ProxyRouter::new();
    router.add_rule(create_test_rule("keep", "/api/**")).unwrap();
    let huge = "?".repeat(300_000);
    match router.add_rule(create_test_rule("huge", &huge)) {
        Err(RouterError::InvalidPattern { rule, pattern }) => {
            assert_eq!(rule, "huge");
            assert_eq!(pattern.len(), 300_002);
        }
        Ok(()) => panic!("the regex engine accepted an oversized pattern"),
    }
    assert!(router
        .update_rules(vec![create_test_rule("a", "/v2/**"), create_test_rule("huge", &huge)])
        .is_err());
    assert_eq!(router.get_all_rules().len(), 1);
    assert_eq!(router.find_matching_rule("/api/x").unwrap().name, "keep");
}
