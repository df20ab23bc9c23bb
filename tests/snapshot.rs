use gel_point::coordinator::prior_hashes;
use gel_point::snapshot::{parse_hash_snapshot, HashSnapshot};

fn snapshot(words: &str, puzzles: &str) -> HashSnapshot {
    HashSnapshot { words: words.to_string(), puzzles: puzzles.to_string() }
}

#[test]
fn snapshot_text_joins_hashes_with_comma() {
    assert_eq!(snapshot("abc123", "def456").to_text(), "abc123,def456");
    assert_eq!(snapshot("", "").to_text(), ",");
}

#[test]
fn snapshot_round_trip() {
    let written = snapshot("9f86d081884c7d65", "TEMP-HASH").to_text();
    let read = parse_hash_snapshot(&written).expect("a written snapshot reads back");
    assert_eq!(read.words, "9f86d081884c7d65");
    assert_eq!(read.puzzles, "TEMP-HASH");
}

#[test]
fn snapshot_without_comma_is_no_knowledge() {
    assert!(parse_hash_snapshot("").is_none());
    assert!(parse_hash_snapshot("9f86d081").is_none());
}

#[test]
fn snapshot_splits_at_first_comma() {
    let read = parse_hash_snapshot("a,b,c").unwrap();
    assert_eq!(read.words, "a");
    assert_eq!(read.puzzles, "b,c");
}

#[test]
fn priors_from_snapshot_text() {
    assert_eq!(
        prior_hashes(Some("wa,pa".to_string())),
        (Some("wa".to_string()), Some("pa".to_string()))
    );
    assert_eq!(prior_hashes(Some("truncated".to_string())), (None, None));
    assert_eq!(prior_hashes(Some(String::new())), (None, None));
    assert_eq!(prior_hashes(None), (None, None));
}
