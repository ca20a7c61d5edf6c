use std::collections::HashMap;

use block_cache::index::IdentifierIndex;
use block_cache::keys::encode_combined;
use block_cache::loader::build_from_lines;
use block_cache::outcome::LookupResult;
use block_cache::snapshot::CacheData;

fn lines(raw: &[&str]) -> Vec<String> {
    raw.iter().map(|l| l.to_string()).collect()
}

#[test]
fn concrete_scenario_two_records() {
    let cd = build_from_lines(&lines(&["10.0.0.1,BLOCK_A", "192.168.1.1,BLOCK_B,Googlebot/2.1"]));
    assert_eq!(
        cd.lookup("10.0.0.1", ""),
        LookupResult::Found("BLOCK_A".to_string())
    );
    assert_eq!(
        cd.lookup("10.0.0.1", "anyUA"),
        LookupResult::Found("BLOCK_A".to_string())
    );
    assert_eq!(
        cd.lookup("192.168.1.1", "Googlebot/2.1"),
        LookupResult::Found("BLOCK_B".to_string())
    );
    assert_eq!(cd.lookup("192.168.1.1", ""), LookupResult::NotFound);
    assert_eq!(cd.lookup("9.9.9.9", ""), LookupResult::NotFound);
}

#[test]
fn primary_only_rule_wins_over_any_secondary() {
    let cd = build_from_lines(&lines(&["1.1.1.1,V", "2.2.2.2,W,UA", "1.1.1.1,V,UA"]));
    assert_eq!(cd.lookup("1.1.1.1", "UA"), LookupResult::Found("V".to_string()));
    assert_eq!(
        cd.lookup("1.1.1.1", "NeverSeen"),
        LookupResult::Found("V".to_string())
    );
    assert_eq!(cd.lookup("1.1.1.1", ""), LookupResult::Found("V".to_string()));
}

#[test]
fn combined_rule_found_only_for_its_pair() {
    let cd = build_from_lines(&lines(&["0.0.0.0,Z", "2.2.2.2,W,UA", "3.3.3.3,X,OtherUA"]));
    assert_eq!(cd.lookup("2.2.2.2", "UA"), LookupResult::Found("W".to_string()));
    assert_eq!(cd.lookup("2.2.2.2", "NeverSeen"), LookupResult::NotFound);
    assert_eq!(cd.lookup("2.2.2.2", ""), LookupResult::NotFound);
}

#[test]
fn index_zero_collision_makes_bare_key_ambiguous() {
    // The combined key of index pair (0, 0) is numerically the bare primary
    // key 0, so a combined rule at those indices is found by the
    // primary-only tier as well.
    let cd = build_from_lines(&lines(&["2.2.2.2,W,UA"]));
    assert_eq!(encode_combined(0, 0), 0);
    assert_eq!(cd.lookup("2.2.2.2", ""), LookupResult::Found("W".to_string()));
}

#[test]
fn unknown_primary_is_not_found_never_anomalous() {
    let cd = build_from_lines(&lines(&["2.2.2.2,W,UA"]));
    assert_eq!(cd.lookup("8.8.8.8", "UA"), LookupResult::NotFound);
    assert_eq!(cd.lookup("8.8.8.8", ""), LookupResult::NotFound);
}

#[test]
fn later_record_overwrites_same_key() {
    let cd = build_from_lines(&lines(&["a,V1", "a,V2"]));
    assert_eq!(cd.lookup("a", ""), LookupResult::Found("V2".to_string()));
}

#[test]
fn malformed_lines_are_skipped_not_fatal() {
    let cd = build_from_lines(&lines(&["", "nocomma", ",missing", "a,GOOD", "b,"]));
    assert_eq!(cd.lookup("a", ""), LookupResult::Found("GOOD".to_string()));
    assert_eq!(cd.lookup("b", ""), LookupResult::NotFound);
    assert_eq!(cd.lookup("nocomma", ""), LookupResult::NotFound);
}

#[test]
fn get_block_returns_sentinel_on_miss() {
    let cd = build_from_lines(&lines(&["10.0.0.1,BLOCK_A"]));
    assert_eq!(cd.get_block("10.0.0.1", "x"), Ok("BLOCK_A".to_string()));
    assert_eq!(cd.get_block("9.9.9.9", ""), Ok("0".to_string()));
}

#[test]
fn reload_of_unchanged_feed_is_identical() {
    let feed = lines(&["10.0.0.1,BLOCK_A", "192.168.1.1,BLOCK_B,Googlebot/2.1", "10.0.0.2,C,UA2"]);
    let cd1 = build_from_lines(&feed);
    let cd2 = build_from_lines(&feed);
    assert_eq!(cd1.block_map, cd2.block_map);
    assert_eq!(cd1.ip_set.len(), cd2.ip_set.len());
    for i in 0..cd1.ip_set.len() {
        assert_eq!(cd1.ip_set.value_at(i), cd2.ip_set.value_at(i));
    }
    assert_eq!(cd1.user_agent_set.len(), cd2.user_agent_set.len());
    for i in 0..cd1.user_agent_set.len() {
        assert_eq!(cd1.user_agent_set.value_at(i), cd2.user_agent_set.value_at(i));
    }
}

#[test]
fn index_assigns_dense_first_seen_positions() {
    let mut idx = IdentifierIndex::new();
    assert_eq!(idx.insert_or_get("a".to_string()), 0);
    assert_eq!(idx.insert_or_get("b".to_string()), 1);
    assert_eq!(idx.insert_or_get("a".to_string()), 0);
    assert_eq!(idx.len(), 2);
    assert_eq!(idx.index_of("b"), Some(1));
    assert_eq!(idx.index_of("c"), None);
    assert_eq!(idx.value_at(0).as_deref(), Some("a"));
    assert_eq!(idx.value_at(1).as_deref(), Some("b"));
    assert_eq!(idx.value_at(2), None);
}

#[test]
fn inconsistent_snapshot_reports_anomaly() {
    let mut ip_set = IdentifierIndex::new();
    ip_set.insert_or_get("10.0.0.9".to_string());
    ip_set.insert_or_get("10.0.0.7".to_string());
    let mut user_agent_set = IdentifierIndex::new();
    user_agent_set.insert_or_get("curl".to_string());
    let cd = CacheData {
        block_map: HashMap::new(),
        ip_set,
        user_agent_set,
    };
    match cd.lookup("10.0.0.7", "curl") {
        LookupResult::Anomaly(d) => {
            assert_eq!(d.primary, "10.0.0.7");
            assert_eq!(d.primary_index, 1);
            assert_eq!(d.secondary, "curl");
            assert_eq!(d.secondary_index, 0);
            assert_eq!(d.key, encode_combined(1, 0));
            assert_eq!(d.key, 1u64 << 32);
        }
        other => panic!("expected an anomaly, got {:?}", other),
    }
    assert!(cd.get_block("10.0.0.7", "curl").is_err());
    assert_eq!(cd.lookup("10.0.0.7", ""), LookupResult::NotFound);
    assert_eq!(cd.lookup("10.0.0.7", "wget"), LookupResult::NotFound);
}

#[test]
fn value_for_key_reads_the_map() {
    let cd = build_from_lines(&lines(&["a,V1", "b,V2,ua"]));
    assert_eq!(cd.value_for_key(0).as_deref(), Some("V1"));
    assert_eq!(cd.value_for_key(encode_combined(1, 0)).as_deref(), Some("V2"));
    assert_eq!(cd.value_for_key(7), None);
    assert_eq!(cd.rule_count(), 2);
}
