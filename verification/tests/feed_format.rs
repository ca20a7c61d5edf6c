use block_cache::feed::{parse_record, split_fields, trim};

#[test]
fn trim_removes_surrounding_whitespace() {
    assert_eq!(trim("  a b \t"), "a b");
    assert_eq!(trim("abc"), "abc");
    assert_eq!(trim(""), "");
    assert_eq!(trim(" \t\r\n "), "");
    assert_eq!(trim("\u{a0}x\u{3000}"), "x");
}

#[test]
fn split_keeps_empty_fields() {
    let parts = split_fields("a,,b,");
    assert_eq!(
        parts,
        vec!["a".to_string(), "".to_string(), "b".to_string(), "".to_string()]
    );
    assert_eq!(split_fields(""), vec!["".to_string()]);
    assert_eq!(split_fields("one"), vec!["one".to_string()]);
}

#[test]
fn parse_accepts_two_fields() {
    let r = parse_record("10.0.0.1,BLOCK_A").unwrap();
    assert_eq!(r.primary, "10.0.0.1");
    assert_eq!(r.value, "BLOCK_A");
    assert!(r.secondary.is_none());
}

#[test]
fn parse_accepts_three_fields_trimmed() {
    let r = parse_record(" 192.168.1.1 , BLOCK_B , Googlebot/2.1 \n").unwrap();
    assert_eq!(r.primary, "192.168.1.1");
    assert_eq!(r.value, "BLOCK_B");
    assert_eq!(r.secondary.as_deref(), Some("Googlebot/2.1"));
}

#[test]
fn parse_skips_malformed_records() {
    assert!(parse_record(",BLOCK").is_none());
    assert!(parse_record("10.0.0.1,").is_none());
    assert!(parse_record("  ,  ").is_none());
    assert!(parse_record("justonefield").is_none());
    assert!(parse_record("").is_none());
}

#[test]
fn parse_ignores_fields_beyond_the_third() {
    let r = parse_record("a,b,c,d,e").unwrap();
    assert_eq!(r.primary, "a");
    assert_eq!(r.value, "b");
    assert_eq!(r.secondary.as_deref(), Some("c"));
}

#[test]
fn parse_empty_third_field_means_no_secondary() {
    let r = parse_record("a,b, ").unwrap();
    assert_eq!(r.primary, "a");
    assert_eq!(r.value, "b");
    assert!(r.secondary.is_none());
}
