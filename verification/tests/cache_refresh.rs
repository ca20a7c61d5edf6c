use block_cache::cache::BlockCache;
use block_cache::outcome::LookupResult;

fn lines(raw: &[&str]) -> Vec<String> {
    raw.iter().map(|l| l.to_string()).collect()
}

#[test]
fn new_cache_serves_lookups_before_any_load() {
    let cache = BlockCache::new();
    assert_eq!(cache.lookup("10.0.0.1", ""), LookupResult::NotFound);
    assert_eq!(cache.get_block("10.0.0.1", "x"), Ok("0".to_string()));
}

#[test]
fn refresh_publishes_the_new_snapshot() {
    let cache = BlockCache::new();
    cache.refresh_from_lines(&lines(&["10.0.0.1,BLOCK_A", "192.168.1.1,BLOCK_B,Googlebot/2.1"]));
    assert_eq!(
        cache.lookup("10.0.0.1", "anyUA"),
        LookupResult::Found("BLOCK_A".to_string())
    );
    assert_eq!(
        cache.lookup("192.168.1.1", "Googlebot/2.1"),
        LookupResult::Found("BLOCK_B".to_string())
    );
    assert_eq!(cache.lookup("192.168.1.1", ""), LookupResult::NotFound);
}

#[test]
fn refresh_replaces_the_rule_set_wholesale() {
    let cache = BlockCache::new();
    cache.refresh_from_lines(&lines(&["old.host,OLD_A", "old.other,OLD_B,OldAgent"]));
    assert_eq!(
        cache.lookup("old.host", ""),
        LookupResult::Found("OLD_A".to_string())
    );
    cache.refresh_from_lines(&lines(&["new.host,NEW_A", "new.other,NEW_B,NewAgent"]));
    assert_eq!(cache.lookup("old.host", ""), LookupResult::NotFound);
    assert_eq!(
        cache.lookup("old.other", "OldAgent"),
        LookupResult::NotFound
    );
    assert_eq!(
        cache.lookup("new.host", ""),
        LookupResult::Found("NEW_A".to_string())
    );
    assert_eq!(
        cache.lookup("new.other", "NewAgent"),
        LookupResult::Found("NEW_B".to_string())
    );
}

#[test]
fn every_result_is_consistent_with_exactly_one_generation() {
    let feed_one = lines(&["a.one,A1", "a.two,A2,AgentA"]);
    let feed_two = lines(&["b.one,B1", "b.two,B2,AgentB"]);
    let cache = BlockCache::new();
    cache.refresh_from_lines(&feed_one);
    cache.refresh_from_lines(&feed_two);
    let probes = [
        ("a.one", ""),
        ("a.two", "AgentA"),
        ("b.one", ""),
        ("b.two", "AgentB"),
    ];
    for (p, s) in probes {
        let r = cache.lookup(p, s);
        let one = build_outcome(&feed_one, p, s);
        let two = build_outcome(&feed_two, p, s);
        assert!(
            r == one || r == two,
            "result {:?} for ({}, {}) mixes generations",
            r,
            p,
            s
        );
    }
}

fn build_outcome(feed: &Vec<String>, p: &str, s: &str) -> LookupResult {
    block_cache::loader::build_from_lines(feed).lookup(p, s)
}

#[test]
fn a_held_snapshot_outlives_a_later_publish() {
    let cache = BlockCache::new();
    cache.refresh_from_lines(&lines(&["old.host,OLD_A"]));
    let held = cache.snapshot();
    cache.refresh_from_lines(&lines(&["new.host,NEW_A"]));
    assert_eq!(
        held.lookup("old.host", ""),
        LookupResult::Found("OLD_A".to_string())
    );
    assert_eq!(held.lookup("new.host", ""), LookupResult::NotFound);
    assert_eq!(
        cache.lookup("new.host", ""),
        LookupResult::Found("NEW_A".to_string())
    );
}

#[test]
fn skipping_a_failed_load_keeps_the_previous_snapshot() {
    let cache = BlockCache::new();
    cache.refresh_from_lines(&lines(&["keep.host,KEEP"]));
    assert_eq!(
        cache.lookup("keep.host", ""),
        LookupResult::Found("KEEP".to_string())
    );
}
