use ultiproxy::{RoundRobinManager, RoundRobinSelector};

#[test]
fn test_round_robin_selector() {
    let mut selector = RoundRobinSelector::new();
    let items = vec!["a", "b", "c"];

    assert_eq!(selector.select(&items), Some(&"a"));
    assert_eq!(selector.select(&items), Some(&"b"));
    assert_eq!(selector.select(&items), Some(&"c"));
    assert_eq!(selector.select(&items), Some(&"a"));
}

#[test]
fn test_empty_items() {
    let mut selector = RoundRobinSelector::new();
    let items: Vec<&str> = vec![];
    assert_eq!(selector.select(&items), None);
}

#[test]
fn test_round_robin_manager() {
    let mut manager = RoundRobinManager::new();
    let urls = vec!["url1".to_string(), "url2".to_string()];

    assert_eq!(manager.select_target_url(&urls), Some("url1".to_string()));
    assert_eq!(manager.select_target_url(&urls), Some("url2".to_string()));
    assert_eq!(manager.select_target_url(&urls), Some("url1".to_string()));
}

#[test]
fn selections_spread_evenly_over_items() {
    let mut selector = RoundRobinSelector::new();
    let items = vec![0usize, 1, 2];
    let mut counts = [0usize; 3];
    for _ in 0..10 {
        let picked = *selector.select(&items).unwrap();
        counts[picked] += 1;
    }
    for c in counts {
        assert!(c == 10 / 3 || c == 10 / 3 + 1);
    }
    assert_eq!(counts, [4, 3, 3]);
}

#[test]
fn empty_selection_does_not_advance() {
    let mut selector = RoundRobinSelector::new();
    let none: Vec<u8> = vec![];
    let items = vec![7u8, 8];
    assert_eq!(selector.select(&none), None);
    assert_eq!(selector.select(&items), Some(&7));
    assert_eq!(selector.select_owned(&items), Some(8));
}

#[test]
fn reset_starts_over() {
    let mut selector = RoundRobinSelector::default();
    let items = vec!["x", "y", "z"];
    selector.select(&items);
    selector.select(&items);
    selector.reset();
    assert_eq!(selector.select(&items), Some(&"x"));
}

#[test]
fn token_cursors_are_per_key() {
    let mut manager = RoundRobinManager::new();
    let toks = vec!["a".to_string(), "b".to_string()];
    assert_eq!(manager.select_replacement_content("r:X", &toks), Some("a".to_string()));
    assert_eq!(manager.select_replacement_content("r:Y", &toks), Some("a".to_string()));
    assert_eq!(manager.select_replacement_content("r:X", &toks), Some("b".to_string()));
    assert_eq!(manager.select_replacement_content("r:X", &[]), None);
    manager.reset_content_selector("r:X");
    assert_eq!(manager.select_replacement_content("r:X", &toks), Some("a".to_string()));
    manager.clear_content_selectors();
    assert_eq!(manager.select_replacement_content("r:Y", &toks), Some("a".to_string()));
}

#[test]
fn url_cursor_is_shared_and_survives_clearing_tokens() {
    let mut manager = RoundRobinManager::default();
    let first = vec!["u1".to_string(), "u2".to_string()];
    let second = vec!["v1".to_string(), "v2".to_string()];
    assert_eq!(manager.select_target_url(&first), Some("u1".to_string()));
    manager.clear_content_selectors();
    assert_eq!(manager.select_target_url(&second), Some("v2".to_string()));
    assert_eq!(manager.select_target_url(&[]), None);
    manager.reset_url_selector();
    assert_eq!(manager.select_target_url(&first), Some("u1".to_string()));
}
