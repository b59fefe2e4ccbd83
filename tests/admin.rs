use ultiproxy::admin::{create_rule, delete_rule, list_sources, test_rule, update_rule, validate_config, AdminError};
use ultiproxy::config::{ConfigError, ReplacementPlace, SourceError};
use ultiproxy::{
    default_cache_ttl, ApiResponse, Config, ContentSource, ForwardingRule, LoadBalancingStrategy,
    LoggingConfig, ServerConfig, SourceType, SplitStrategy,
};

fn rule(name: &str, path: &str, targets: &[&str]) -> ForwardingRule {
    ForwardingRule {
        name: name.to_string(),
        path: path.to_string(),
        target_urls: targets.iter().map(|s| s.to_string()).collect(),
        load_balancing: LoadBalancingStrategy::default(),
        header_replacements: Vec::new(),
        body_replacements: Vec::new(),
    }
}

fn source(kind: SourceType, path: Option<&str>, url: Option<&str>) -> ContentSource {
    ContentSource {
        source: kind,
        path: path.map(|s| s.to_string()),
        url: url.map(|s| s.to_string()),
        split_by: SplitStrategy::Comma,
        cache_ttl: default_cache_ttl(),
    }
}

fn config(rules: Vec<ForwardingRule>) -> Config {
    Config { server: ServerConfig::default(), logging: LoggingConfig::default(), forwarding_rules: rules }
}

#[test]
fn defaults() {
    let s = ServerConfig::default();
    assert_eq!((s.host.as_str(), s.port, s.web_ui_port), ("0.0.0.0", 8080, 3000));
    let l = LoggingConfig::default();
    assert_eq!(l.level, "info");
    assert!(l.file.is_none());
    assert_eq!(default_cache_ttl(), 300);
    assert_eq!(LoadBalancingStrategy::default(), LoadBalancingStrategy::RoundRobin);
}

#[test]
fn validation_reports_the_first_defect() {
    let e = config(vec![]).validate().unwrap_err();
    assert!(matches!(e, ConfigError::NoRules));
    assert_eq!(e.message(), "At least one forwarding rule is required");

    let e = config(vec![rule("ok", "/a", &["http://u"]), rule("bare", "/b", &[])]).validate().unwrap_err();
    assert_eq!(e.message(), "Rule 'bare' must have at least one target URL");

    let mut r = rule("r", "/a", &["http://u"]);
    r.header_replacements.push(("X-A".to_string(), source(SourceType::File, None, None)));
    let e = config(vec![r]).validate().unwrap_err();
    assert!(matches!(e, ConfigError::InvalidSource { place: ReplacementPlace::Header, error: SourceError::MissingPath, .. }));
    assert_eq!(e.message(), "header replacement 'X-A': file source requires 'path' field");

    let mut r = rule("r", "/a", &["http://u"]);
    r.body_replacements.push(("{{x}}".to_string(), source(SourceType::Remote, Some("p"), None)));
    let e = config(vec![r]).validate().unwrap_err();
    assert_eq!(e.message(), "body replacement '{{x}}': remote source requires 'url' field");

    let mut r = rule("r", "/a", &["http://u"]);
    r.header_replacements.push(("X".to_string(), source(SourceType::Remote, None, Some("http://t"))));
    r.body_replacements.push(("y".to_string(), source(SourceType::File, Some("f"), None)));
    assert!(config(vec![r]).validate().is_ok());
}

#[test]
fn content_source_validation() {
    assert_eq!(source(SourceType::File, None, Some("u")).validate(), Err(SourceError::MissingPath));
    assert_eq!(source(SourceType::Remote, Some("p"), None).validate(), Err(SourceError::MissingUrl));
    assert_eq!(source(SourceType::File, Some("p"), None).validate(), Ok(()));
}

#[test]
fn validation_result_for_the_admin_surface() {
    let bad = validate_config(&config(vec![]));
    assert!(!bad.is_valid);
    assert_eq!(bad.errors, vec!["At least one forwarding rule is required".to_string()]);
    let good = validate_config(&config(vec![rule("r", "/a", &["http://u"])]));
    assert!(good.is_valid);
    assert!(good.errors.is_empty() && good.warnings.is_empty());
}

#[test]
fn api_response_envelopes() {
    let ok = ApiResponse::success(5);
    assert!(ok.success && ok.data == Some(5) && ok.error.is_none());
    let err: ApiResponse<u8> = ApiResponse::error("boom".to_string());
    assert!(!err.success && err.data.is_none());
    assert_eq!(err.error.as_deref(), Some("boom"));
}

#[test]
fn create_update_delete_rules_by_name() {
    let mut rules = vec![rule("a", "/a", &["http://u"])];
    assert!(matches!(create_rule(&mut rules, rule("a", "/x", &[])), Err(AdminError::AlreadyExists { name }) if name == "a"));
    create_rule(&mut rules, rule("b", "/b", &["http://v"])).unwrap();
    assert_eq!(rules.len(), 2);

    let previous = update_rule(&mut rules, "a", rule("a", "/a2", &["http://u"])).unwrap();
    assert_eq!(previous.path, "/a");
    assert_eq!(rules[0].path, "/a2");
    assert!(matches!(update_rule(&mut rules, "zz", rule("zz", "/", &[])), Err(AdminError::NotFound { name }) if name == "zz"));

    let (pos, removed) = delete_rule(&mut rules, "a").unwrap();
    assert_eq!((pos, removed.name.as_str()), (0, "a"));
    assert_eq!(rules.len(), 1);
    rules.insert(pos, removed);
    assert_eq!(rules[0].name, "a");
    assert!(delete_rule(&mut rules, "nope").is_err());
}

#[test]
fn testing_a_rule_against_a_path() {
    let rules = vec![rule("r", "/api/*", &["http://u1", "http://u2"])];
    let hit = test_rule(&rules, "r", "/api/users").unwrap();
    assert!(hit.matched);
    assert_eq!(hit.rule_name.as_deref(), Some("r"));
    assert_eq!(hit.target_url.as_deref(), Some("http://u1"));
    assert!(hit.applied_replacements.is_empty());
    let miss = test_rule(&rules, "r", "/api/users/1").unwrap();
    assert!(!miss.matched && miss.rule_name.is_none() && miss.target_url.is_none());
    assert!(matches!(test_rule(&rules, "q", "/"), Err(AdminError::NotFound { .. })));
}

#[test]
fn listing_sources_names_each_replacement() {
    let mut r = rule("r", "/a", &["http://u"]);
    r.header_replacements.push(("X-Tok".to_string(), source(SourceType::File, Some("t"), None)));
    r.body_replacements.push(("{{n}}".to_string(), source(SourceType::Remote, None, Some("http://n"))));
    let mut s = rule("s", "/b", &["http://u"]);
    s.header_replacements.push(("Y".to_string(), source(SourceType::Remote, None, Some("http://y"))));
    let listed = list_sources(&config(vec![r, s]));
    let ids: Vec<(&str, &str)> = listed.iter().map(|i| (i.source_type.as_str(), i.identifier.as_str())).collect();
    assert_eq!(ids, vec![("File", "r:header:X-Tok"), ("Remote", "r:body:{{n}}"), ("Remote", "s:header:Y")]);
    assert!(listed.iter().all(|i| i.cache_ttl == 300 && i.content_count == 0 && i.last_updated.is_none()));
}
