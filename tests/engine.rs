use ultiproxy::content::FetchPlan;
use ultiproxy::session::{socket_action, SocketAction, SocketEvent};
use ultiproxy::engine::{parse_method, upstream_url, HttpMethod, ProxyError, MAX_BODY_BYTES};
use ultiproxy::{ContentSource, ForwardingRule, LoadBalancingStrategy, ProxyEngine, SourceType, SplitStrategy};

fn strings(v: &[&str]) -> Vec<String> {
    v.iter().map(|s| s.to_string()).collect()
}

fn rule(name: &str, path: &str, targets: &[&str]) -> ForwardingRule {
    ForwardingRule {
        name: name.to_string(),
        path: path.to_string(),
        target_urls: strings(targets),
        load_balancing: LoadBalancingStrategy::RoundRobin,
        header_replacements: Vec::new(),
        body_replacements: Vec::new(),
    }
}

fn file_source(path: &str) -> ContentSource {
    ContentSource {
        source: SourceType::File,
        path: Some(path.to_string()),
        url: None,
        split_by: SplitStrategy::Line,
        cache_ttl: 300,
    }
}

fn plan_for(engine: &mut ProxyEngine, method: &str, path: &str) -> Result<ultiproxy::engine::ForwardPlan, ProxyError> {
    let r = engine.match_request(path)?.clone();
    let h: Vec<Vec<String>> = r.header_replacements.iter().map(|_| Vec::new()).collect();
    let b: Vec<Vec<String>> = r.body_replacements.iter().map(|_| Vec::new()).collect();
    engine.prepare_forward(&r, method, path, &h, &b, "")
}

#[test]
fn matched_requests_go_to_alternate_upstreams_and_others_get_404() {
    let mut engine = ProxyEngine::new();
    engine.update_rules(vec![rule("r", "/api/**", &["http://u1", "http://u2"])]).unwrap();
    let first = plan_for(&mut engine, "GET", "/api/x").unwrap();
    assert_eq!(first.url, "http://u1/api/x");
    assert_eq!(first.method, HttpMethod::Get);
    assert!(first.body.is_none());
    let second = plan_for(&mut engine, "GET", "/api/x/y").unwrap();
    assert_eq!(second.url, "http://u2/api/x/y");
    let third = plan_for(&mut engine, "GET", "/other");
    assert_eq!(third.unwrap_err(), ProxyError::NoRule);
    assert_eq!(ProxyError::NoRule.status_code(), 404);
}

#[test]
fn header_tokens_rotate_per_request() {
    let mut engine = ProxyEngine::new();
    let mut r = rule("r", "/api/**", &["http://u1"]);
    r.header_replacements.push(("X-Tok".to_string(), file_source("toks.txt")));
    engine.update_rules(vec![r.clone()]).unwrap();
    let src = &r.header_replacements[0].1;
    assert!(matches!(engine.get_content(src, 0), FetchPlan::ReadFile(p) if p == "toks.txt"));
    let toks = engine.complete_fetch(src, Ok("a\nb\nc\n".to_string()), 0).unwrap();
    let contents = vec![toks];
    let first = engine.prepare_forward(&r, "GET", "/api/x", &contents, &vec![], "").unwrap();
    assert_eq!(first.header_values, vec![Some("a".to_string())]);
    let cached = match engine.get_content(src, 10) {
        FetchPlan::Cached(v) => v,
        other => panic!("expected cached tokens, got {:?}", other),
    };
    let second = engine.prepare_forward(&r, "GET", "/api/x", &vec![cached], &vec![], "").unwrap();
    assert_eq!(second.header_values, vec![Some("b".to_string())]);
    let none = engine.apply_header_replacements(&r, &vec![Vec::new()]);
    assert_eq!(none, vec![None]);
}

#[test]
fn one_body_token_per_request_for_every_occurrence() {
    let mut engine = ProxyEngine::new();
    let mut r = rule("r", "/api/**", &["http://u1"]);
    r.body_replacements.push(("{{name}}".to_string(), file_source("names.txt")));
    engine.update_rules(vec![r.clone()]).unwrap();
    let names = vec![strings(&["Alice", "Bob"])];
    let body = "hello {{name}} and {{name}}";
    let first = engine.prepare_forward(&r, "POST", "/api/x", &vec![], &names, body).unwrap();
    assert_eq!(first.body.as_deref(), Some("hello Alice and Alice"));
    let second = engine.prepare_forward(&r, "POST", "/api/x", &vec![], &names, body).unwrap();
    assert_eq!(second.body.as_deref(), Some("hello Bob and Bob"));
    assert_eq!(engine.apply_body_replacements(&r, &vec![Vec::new()], body), body);
}

#[test]
fn body_and_header_cursors_are_distinct() {
    let mut engine = ProxyEngine::new();
    let mut r = rule("r", "/**", &["http://u1"]);
    r.header_replacements.push(("k".to_string(), file_source("a")));
    r.body_replacements.push(("k".to_string(), file_source("b")));
    let toks = vec![strings(&["1", "2"])];
    let plan = engine.prepare_forward(&r, "PUT", "/x", &toks, &toks, "k").unwrap();
    assert_eq!(plan.header_values, vec![Some("1".to_string())]);
    assert_eq!(plan.body.as_deref(), Some("1"));
}

#[test]
fn unsupported_method_is_a_bad_gateway() {
    let mut engine = ProxyEngine::new();
    engine.update_rules(vec![rule("r", "/api/**", &["http://u1"])]).unwrap();
    assert_eq!(plan_for(&mut engine, "TRACE", "/api/x").unwrap_err(), ProxyError::UnsupportedMethod);
    assert_eq!(ProxyError::UnsupportedMethod.status_code(), 502);
    assert_eq!(parse_method("get"), Err(ProxyError::UnsupportedMethod));
    assert_eq!(parse_method("DELETE"), Ok(HttpMethod::Delete));
    assert_eq!(parse_method("PATCH"), Ok(HttpMethod::Patch));
    assert_eq!(parse_method("HEAD"), Ok(HttpMethod::Head));
    assert_eq!(parse_method("PUT"), Ok(HttpMethod::Put));
    assert_eq!(parse_method("POST"), Ok(HttpMethod::Post));
}

#[test]
fn a_rule_without_targets_is_unavailable() {
    let mut engine = ProxyEngine::new();
    let r = rule("r", "/**", &[]);
    assert_eq!(engine.select_target(&r), Err(ProxyError::UpstreamUnavailable));
    let plan = engine.prepare_forward(&r, "GET", "/x", &vec![], &vec![], "");
    assert_eq!(plan.unwrap_err(), ProxyError::UpstreamUnavailable);
    assert_eq!(ProxyError::UpstreamUnavailable.status_code(), 503);
}

#[test]
fn status_codes_of_the_remaining_failures() {
    assert_eq!(ProxyError::ContentFetch.status_code(), 500);
    assert_eq!(ProxyError::UpstreamTransport.status_code(), 502);
    assert_eq!(ProxyError::BodyTooLarge.status_code(), 413);
    assert_eq!(MAX_BODY_BYTES, 16 * 1024 * 1024);
}

#[test]
fn reconfiguration_switches_rule_sets_and_restarts_token_cursors() {
    let mut engine = ProxyEngine::new();
    let mut old = rule("r", "/api/**", &["http://u1"]);
    old.header_replacements.push(("X".to_string(), file_source("t")));
    engine.update_rules(vec![old.clone()]).unwrap();
    let toks = vec![strings(&["a", "b"])];
    assert_eq!(engine.apply_header_replacements(&old, &toks), vec![Some("a".to_string())]);
    let mut new = rule("r", "/v2/**", &["http://u1"]);
    new.header_replacements.push(("X".to_string(), file_source("t")));
    engine.update_rules(vec![new.clone()]).unwrap();
    assert_eq!(plan_for(&mut engine, "GET", "/api/x").unwrap_err(), ProxyError::NoRule);
    assert_eq!(engine.match_request("/v2/x").unwrap().path, "/v2/**");
    assert_eq!(engine.apply_header_replacements(&new, &toks), vec![Some("a".to_string())]);
    let rules = engine.get_rules();
    assert_eq!(rules.len(), 1);
    assert_eq!(rules[0].path, "/v2/**");
}

#[test]
fn refused_reconfiguration_keeps_the_old_rules() {
    let mut engine = ProxyEngine::new();
    engine.update_rules(vec![rule("r", "/api/**", &["http://u1"])]).unwrap();
    let huge = "?".repeat(300_000);
    assert!(engine.update_rules(vec![rule("x", "/v2/**", &["http://u"]), rule("y", &huge, &["http://u"])]).is_err());
    assert_eq!(engine.match_request("/api/x").unwrap().name, "r");
    assert!(engine.match_request("/v2/x").is_err());
}

#[test]
fn engine_cache_operations() {
    let mut engine = ProxyEngine::default();
    let src = file_source("t");
    engine.complete_fetch(&src, Ok("a".to_string()), 0).unwrap();
    assert!(matches!(engine.get_content(&src, 1), FetchPlan::Cached(_)));
    engine.remove_content_from_cache(&src);
    assert!(matches!(engine.get_content(&src, 1), FetchPlan::ReadFile(_)));
    engine.complete_fetch(&src, Ok("a".to_string()), 0).unwrap();
    engine.clear_cache();
    assert!(matches!(engine.get_content(&src, 1), FetchPlan::ReadFile(_)));
}

#[test]
fn upstream_url_drops_trailing_slashes_of_the_target() {
    assert_eq!(upstream_url("http://u1/", "/api/x?q=1"), "http://u1/api/x?q=1");
    assert_eq!(upstream_url("http://u1//", "/a"), "http://u1/a");
    assert_eq!(upstream_url("http://u1", ""), "http://u1");
}

#[test]
fn event_session_decisions() {
    assert_eq!(socket_action(SocketEvent::Tick), SocketAction::SendMetrics);
    assert_eq!(socket_action(SocketEvent::Message), SocketAction::Continue);
    assert_eq!(socket_action(SocketEvent::CloseFrame), SocketAction::Close);
    assert_eq!(socket_action(SocketEvent::Failed), SocketAction::Close);
    assert_eq!(socket_action(SocketEvent::Ended), SocketAction::Close);
    assert_eq!(socket_action(SocketEvent::SendFailed), SocketAction::Close);
}
