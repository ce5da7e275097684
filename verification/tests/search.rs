use vanity_eth::counters::SearchCounters;
use vanity_eth::patterns::PatternMatcher;
use vanity_eth::scheduler::search_step;
use vanity_eth::storage::{format_wallet_entry, MatchRecord};

#[test]
fn counters_start_empty_and_stay_ordered() {
    let mut c = SearchCounters::new();
    assert_eq!(c.snapshot(), (0, 0));
    c.note_generated();
    let (g, m) = c.snapshot();
    assert_eq!((g, m), (1, 0));
    c.note_match();
    assert_eq!(c.snapshot(), (1, 1));
    c.note_generated();
    c.note_generated();
    let (g, m) = c.snapshot();
    assert!(m <= g);
    assert_eq!((g, m), (3, 1));
}

#[test]
fn a_match_is_never_recorded_ahead_of_its_candidate() {
    let mut c = SearchCounters::new();
    c.note_match();
    assert_eq!(c.snapshot(), (0, 0));
    c.note_generated();
    c.note_match();
    c.note_match();
    let (g, m) = c.snapshot();
    assert!(m <= g);
    assert_eq!((g, m), (1, 1));
}

#[test]
fn search_step_counts_every_candidate_and_returns_hits() {
    // The empty pattern matches every well-formed address, so every step
    // is a hit.
    let always = PatternMatcher::try_new(vec!["".to_string()]).unwrap();
    let mut c = SearchCounters::new();
    for i in 1..=5u64 {
        let hit = search_step(&always, &mut c);
        assert!(hit.is_some());
        assert_eq!(c.snapshot(), (i, i));
        let (address, private_key) = hit.unwrap();
        assert!(always.matches_any(&address));
        assert_eq!(address.len(), 42);
        assert_eq!(private_key.len(), 66);
    }
}

#[test]
fn search_step_counts_misses_without_matches() {
    // A hex body never holds the letter z.
    let never = PatternMatcher::try_new(vec!["zzzz".to_string()]).unwrap();
    let mut c = SearchCounters::new();
    for i in 1..=5u64 {
        let hit = search_step(&never, &mut c);
        assert!(hit.is_none());
        assert_eq!(c.snapshot(), (i, 0));
    }
}

#[test]
fn one_match_formats_as_one_well_formed_block() {
    let record = MatchRecord {
        address: "0xdeadbeef00000000000000000000000000000000".to_string(),
        private_key: "0x0101010101010101010101010101010101010101010101010101010101010101"
            .to_string(),
        timestamp: "2026-01-02 03:04:05".to_string(),
    };
    let block = format_wallet_entry(&record);
    assert_eq!(
        block,
        "Timestamp: 2026-01-02 03:04:05\n\
         Address: 0xdeadbeef00000000000000000000000000000000\n\
         Private key: 0x0101010101010101010101010101010101010101010101010101010101010101\n\
         ---\n\n"
    );
    assert_eq!(block.matches("---").count(), 1);
    assert!(block.ends_with("\n---\n\n"));
}
