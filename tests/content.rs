use ultiproxy::content::{check_status, FetchError, FetchPlan};
use ultiproxy::text::replace_all_occurrences;
use ultiproxy::{ContentCache, ContentManager, ContentSource, SourceType, SplitStrategy};

fn strings(v: &[&str]) -> Vec<String> {
    v.iter().map(|s| s.to_string()).collect()
}

fn file_source(path: &str, split_by: SplitStrategy, ttl: u64) -> ContentSource {
    ContentSource {
        source: SourceType::File,
        path: Some(path.to_string()),
        url: None,
        split_by,
        cache_ttl: ttl,
    }
}

fn remote_source(url: &str, ttl: u64) -> ContentSource {
    ContentSource {
        source: SourceType::Remote,
        path: None,
        url: Some(url.to_string()),
        split_by: SplitStrategy::Line,
        cache_ttl: ttl,
    }
}

#[test]
fn line_split_trims_and_drops_empty_lines() {
    let m = ContentManager::new();
    assert_eq!(m.split_content("a\nb\nc\n", &SplitStrategy::Line), strings(&["a", "b", "c"]));
    assert_eq!(
        m.split_content("  one \r\n\n two\t\n\n", &SplitStrategy::Line),
        strings(&["one", "two"])
    );
}

#[test]
fn comma_split_trims_and_drops_empty_parts() {
    let m = ContentManager::new();
    assert_eq!(m.split_content(" a, b ,,c ,", &SplitStrategy::Comma), strings(&["a", "b", "c"]));
    assert_eq!(m.split_content("x y,z", &SplitStrategy::Comma), strings(&["x y", "z"]));
}

#[test]
fn space_split_cuts_at_every_whitespace_run() {
    let m = ContentManager::new();
    assert_eq!(
        m.split_content(" a\tb \n c\u{3000}d ", &SplitStrategy::Space),
        strings(&["a", "b", "c", "d"])
    );
}

#[test]
fn blank_content_gives_no_tokens() {
    let m = ContentManager::new();
    assert!(m.split_content("", &SplitStrategy::Line).is_empty());
    assert!(m.split_content(" \n\t ", &SplitStrategy::Comma).is_empty());
    assert!(m.split_content(",,,", &SplitStrategy::Comma).is_empty());
}

#[test]
fn splitting_the_joined_tokens_again_changes_nothing() {
    let m = ContentManager::new();
    let raw = "  alpha ,beta,, gamma delta ,";
    let first = m.split_content(raw, &SplitStrategy::Comma);
    let again = m.split_content(&first.join(","), &SplitStrategy::Comma);
    assert_eq!(again, first);
    let lines = m.split_content("\n x \r\n\ny\n", &SplitStrategy::Line);
    assert_eq!(m.split_content(&lines.join("\n"), &SplitStrategy::Line), lines);
}

#[test]
fn cache_keys_name_the_source() {
    let m = ContentManager::default();
    assert_eq!(m.generate_cache_key(&file_source("toks.txt", SplitStrategy::Line, 5)), "file:toks.txt");
    assert_eq!(m.generate_cache_key(&remote_source("http://h/t", 5)), "remote:http://h/t");
    let mut nameless = remote_source("x", 5);
    nameless.url = None;
    assert_eq!(m.generate_cache_key(&nameless), "remote:unknown");
}

#[test]
fn cache_serves_an_entry_until_its_ttl_runs_out() {
    let mut cache = ContentCache::new();
    cache.insert("k".to_string(), strings(&["a"]), 10, 1_000);
    assert_eq!(cache.get("k", 1_000), Some(strings(&["a"])));
    assert_eq!(cache.get("k", 10_999), Some(strings(&["a"])));
    assert_eq!(cache.size(), 1);
    assert_eq!(cache.get("k", 11_000), None);
    assert_eq!(cache.size(), 0);
    assert_eq!(cache.get("missing", 0), None);
}

#[test]
fn cache_remove_clear_and_cleanup() {
    let mut cache = ContentCache::default();
    cache.insert("a".to_string(), strings(&["1"]), 1, 0);
    cache.insert("b".to_string(), strings(&["2"]), 100, 0);
    cache.insert("c".to_string(), strings(&["3"]), 100, 0);
    cache.cleanup_expired(5_000);
    assert_eq!(cache.size(), 2);
    cache.remove("b");
    assert_eq!(cache.get("b", 5_000), None);
    assert_eq!(cache.get("c", 5_000), Some(strings(&["3"])));
    cache.clear();
    assert_eq!(cache.size(), 0);
}

#[test]
fn cache_ttl_saturates_instead_of_overflowing() {
    let mut cache = ContentCache::new();
    cache.insert("k".to_string(), strings(&["a"]), u64::MAX, 5);
    assert_eq!(cache.get("k", u64::MAX - 1), Some(strings(&["a"])));
}

#[test]
fn a_cache_miss_asks_for_the_right_fetch() {
    let mut m = ContentManager::new();
    match m.get_content(&file_source("toks.txt", SplitStrategy::Line, 300), 0) {
        FetchPlan::ReadFile(p) => assert_eq!(p, "toks.txt"),
        other => panic!("unexpected plan {:?}", other),
    }
    match m.get_content(&remote_source("http://h/t", 300), 0) {
        FetchPlan::GetUrl(u) => assert_eq!(u, "http://h/t"),
        other => panic!("unexpected plan {:?}", other),
    }
    let mut broken = file_source("x", SplitStrategy::Line, 300);
    broken.path = None;
    assert!(matches!(
        m.get_content(&broken, 0),
        FetchPlan::Refuse(ultiproxy::config::SourceError::MissingPath)
    ));
}

#[test]
fn fetched_content_is_split_cached_and_served_until_stale() {
    let mut m = ContentManager::new();
    let src = remote_source("http://h/t", 10);
    let toks = m.complete_fetch(&src, Ok("a\nb\n".to_string()), 0).unwrap();
    assert_eq!(toks, strings(&["a", "b"]));
    match m.get_content(&src, 1_000) {
        FetchPlan::Cached(v) => assert_eq!(v, strings(&["a", "b"])),
        other => panic!("expected a cache hit, got {:?}", other),
    }
    assert!(matches!(m.get_content(&src, 11_000), FetchPlan::GetUrl(_)));
}

#[test]
fn fetch_errors_are_passed_on_and_not_cached() {
    let mut m = ContentManager::new();
    let src = remote_source("http://h/t", 10);
    let r = m.complete_fetch(&src, Err(FetchError::Status { code: 503 }), 0);
    assert!(matches!(r, Err(FetchError::Status { code: 503 })));
    let r = m.complete_fetch(&src, Err(FetchError::Io { message: "refused".to_string() }), 0);
    assert!(matches!(r, Err(FetchError::Io { .. })));
    assert!(matches!(m.get_content(&src, 1), FetchPlan::GetUrl(_)));
}

#[test]
fn empty_content_is_cached_too() {
    let mut m = ContentManager::new();
    let src = file_source("blank.txt", SplitStrategy::Line, 10);
    assert!(m.complete_fetch(&src, Ok("  \n ".to_string()), 0).unwrap().is_empty());
    assert!(matches!(m.get_content(&src, 5), FetchPlan::Cached(v) if v.is_empty()));
    m.remove_from_cache(&src);
    assert!(matches!(m.get_content(&src, 5), FetchPlan::ReadFile(_)));
    m.complete_fetch(&src, Ok("x".to_string()), 0).unwrap();
    m.clear_cache();
    assert!(matches!(m.get_content(&src, 5), FetchPlan::ReadFile(_)));
}

#[test]
fn replacement_covers_every_occurrence() {
    assert_eq!(
        replace_all_occurrences("hello {{name}} and {{name}}", "{{name}}", "Alice"),
        "hello Alice and Alice"
    );
    assert_eq!(replace_all_occurrences("aaa", "aa", "b"), "ba");
    assert_eq!(replace_all_occurrences("ab", "", "x"), "xaxbx");
    assert_eq!(replace_all_occurrences("", "", "x"), "x");
    assert_eq!(replace_all_occurrences("héllo", "é", "e"), "hello");
    assert_eq!(replace_all_occurrences("abc", "zz", "y"), "abc");
}

#[test]
fn only_2xx_answers_are_usable() {
    assert!(check_status(200).is_ok());
    assert!(check_status(299).is_ok());
    assert!(matches!(check_status(199), Err(FetchError::Status { code: 199 })));
    assert!(matches!(check_status(404), Err(FetchError::Status { code: 404 })));
    assert!(matches!(check_status(500), Err(FetchError::Status { code: 500 })));
}
