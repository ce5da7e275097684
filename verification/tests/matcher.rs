use vanity_eth::patterns::PatternMatcher;

fn build(patterns: &[&str]) -> PatternMatcher {
    let owned: Vec<String> = patterns.iter().map(|p| p.to_string()).collect();
    PatternMatcher::try_new(owned).expect("patterns must compile")
}

#[test]
fn rejects_malformed_addresses_regardless_of_patterns() {
    let m = build(&["^aa", "bb$", "cc", ""]);
    assert!(!m.matches_any(""));
    assert!(!m.matches_any("0x"));
    assert!(!m.matches_any("deadbeef"));
    assert!(!m.matches_any("0xdeadbeef"));
    assert!(!m.matches_any("0xgg00000000000000000000000000000000000000"));
    assert!(!m.matches_any("0x00000000000000000000000000000000000000000"));
    assert!(!m.matches_any("0x000000000000000000000000000000000000000"));
    assert!(!m.matches_any("1x0000000000000000000000000000000000000000"));
}

#[test]
fn prefix_rule_matches_start_of_hex_body() {
    let m = build(&["^aa"]);
    assert!(m.matches_any("0xaa00000000000000000000000000000000000000"));
    assert!(!m.matches_any("0x00aa000000000000000000000000000000000000"));
    assert!(!m.matches_any("0x00000000000000000000000000000000000000aa"));
}

#[test]
fn suffix_rule_matches_end_of_hex_body() {
    let m = build(&["bb$"]);
    assert!(m.matches_any("0x00000000000000000000000000000000000000bb"));
    assert!(!m.matches_any("0xbb00000000000000000000000000000000000000"));
    assert!(!m.matches_any("0x000000000000000000000000000000000000bb00"));
}

#[test]
fn contains_rule_matches_anywhere_in_hex_body() {
    let m = build(&["cc"]);
    assert!(m.matches_any("0xcc00000000000000000000000000000000000000"));
    assert!(m.matches_any("0x0000000000000000000cc0000000000000000000"));
    assert!(m.matches_any("0x00000000000000000000000000000000000000cc"));
    assert!(!m.matches_any("0x0c0c0c0c0c0c0c0c0c0c0c0c0c0c0c0c0c0c0c0c"));
}

#[test]
fn classification_assigns_each_pattern_one_group() {
    // The same text behaves differently under each anchoring, so each
    // pattern must have landed in exactly its own group.
    let prefix = build(&["^ab"]);
    let suffix = build(&["ab$"]);
    let contains = build(&["ab"]);
    let at_start = "0xab00000000000000000000000000000000000000";
    let in_middle = "0x0000000000000000000ab0000000000000000000";
    let at_end = "0x00000000000000000000000000000000000000ab";
    assert!(prefix.matches_any(at_start));
    assert!(!prefix.matches_any(in_middle));
    assert!(!prefix.matches_any(at_end));
    assert!(!suffix.matches_any(at_start));
    assert!(!suffix.matches_any(in_middle));
    assert!(suffix.matches_any(at_end));
    assert!(contains.matches_any(at_start));
    assert!(contains.matches_any(in_middle));
    assert!(contains.matches_any(at_end));
}

#[test]
fn matching_is_case_insensitive() {
    let m = build(&["^DEAD", "BeEf$"]);
    assert!(m.matches_any("0xDEAD000000000000000000000000000000000000"));
    assert!(m.matches_any("0xdead000000000000000000000000000000000000"));
    assert!(m.matches_any("0x000000000000000000000000000000000000BEEF"));
}

#[test]
fn repeated_calls_agree() {
    let m = build(&["^dead", "beef$"]);
    let hit = "0xdeadbeef00000000000000000000000000000000";
    let miss = "0x0000000000000000000000000000000000beef00";
    let first = (m.matches_any(hit), m.matches_any(miss));
    for _ in 0..100 {
        assert_eq!(m.matches_any(hit), first.0);
        assert_eq!(m.matches_any(miss), first.1);
    }
}

#[test]
fn scenario_prefix_match() {
    let m = build(&["^dead", "beef$"]);
    assert!(m.matches_any("0xdeadbeef00000000000000000000000000000000"));
}

#[test]
fn scenario_exact_end_anchoring() {
    let m = build(&["^dead", "beef$"]);
    assert!(!m.matches_any("0x0000000000000000000000000000000000beef00"));
}

#[test]
fn patterns_keep_expression_semantics() {
    // A dot is a regex wildcard, not a literal character.
    let m = build(&["d.ad"]);
    assert!(m.matches_any("0xdead000000000000000000000000000000000000"));
    assert!(m.matches_any("0xd0ad000000000000000000000000000000000000"));
}

#[test]
fn anchored_patterns_keep_expression_semantics_too() {
    let m = build(&["be*f$"]);
    assert!(m.matches_any("0x00000000000000000000000000000000000000bf"));
    assert!(m.matches_any("0x0000000000000000000000000000000000beeeef"));
    assert!(!m.matches_any("0x0000000000000000000000000000000000bef000"));
}

#[test]
fn empty_pattern_matches_every_valid_address() {
    let m = build(&[""]);
    assert!(m.matches_any("0x0123456789abcdef0123456789abcdef01234567"));
    assert!(!m.matches_any("not an address"));
}

#[test]
fn malformed_pattern_is_a_fatal_construction_error() {
    let owned = vec!["[".to_string()];
    assert!(PatternMatcher::try_new(owned).is_none());
}

#[test]
fn no_pattern_matches_nothing() {
    let m = build(&[]);
    assert!(!m.matches_any("0x0123456789abcdef0123456789abcdef01234567"));
}
