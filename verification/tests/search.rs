use commit_similarity_search::commits::CommitInfo;
use commit_similarity_search::error::SearchError;
use commit_similarity_search::search::{BestMatchState, SearchDriver};
use commit_similarity_search::snapshot::FileSnapshot;

fn snapshot(entries: &[(&str, &str)]) -> FileSnapshot {
    let mut s = FileSnapshot::new();
    for (path, fingerprint) in entries {
        s.insert(path.to_string(), fingerprint.to_string());
    }
    s
}

fn commit(id: &str, seconds: i64) -> CommitInfo {
    CommitInfo { id: id.to_string(), seconds, offset_minutes: 0 }
}

/// A tree that matches `matching` of the ten files of `offline_ten` and holds nothing else.
fn tree_scoring(matching: usize) -> FileSnapshot {
    let mut s = FileSnapshot::new();
    for i in 0..matching {
        s.insert(format!("f{i}"), format!("h{i}"));
    }
    s
}

fn offline_ten() -> FileSnapshot {
    let mut s = FileSnapshot::new();
    for i in 0..10 {
        s.insert(format!("f{i}"), format!("h{i}"));
    }
    s
}

#[test]
fn best_match_starts_with_no_commit_at_the_lowest_score() {
    let state = BestMatchState::new();
    assert_eq!(state.best_score(), i64::MIN);
    assert_eq!(state.best_commit(), None);
}

#[test]
fn best_match_first_wins_on_tie() {
    let mut state = BestMatchState::new();
    assert!(state.update("c1", 5));
    assert!(state.update("c2", 7));
    assert!(!state.update("c3", 7));
    assert!(!state.update("c4", 3));
    assert_eq!(state.best_score(), 7);
    assert_eq!(state.best_commit(), Some("c2".to_string()));
}

#[test]
fn best_match_never_gets_worse() {
    let mut state = BestMatchState::new();
    let mut last: i64 = state.best_score();
    for (i, score) in [-4i64, -9, 0, -1, 12, 12, 3].iter().enumerate() {
        state.update(&format!("c{i}"), *score);
        assert!(state.best_score() >= last);
        last = state.best_score();
    }
    assert_eq!(last, 12);
    assert_eq!(state.best_commit(), Some("c4".to_string()));
}

#[test]
fn best_match_takes_a_negative_first_score() {
    let mut state = BestMatchState::new();
    assert!(state.update("only", -1000));
    assert_eq!(state.best_commit(), Some("only".to_string()));
    assert_eq!(state.best_score(), -1000);
}

#[test]
fn best_match_ignores_the_lowest_score_itself() {
    let mut state = BestMatchState::new();
    assert!(!state.update("c", i64::MIN));
    assert_eq!(state.best_commit(), None);
}

#[test]
fn scan_records_the_first_of_two_equal_best_scores() {
    // Scores against ten offline files: m matches and 10 - m one-sided give 2m - 10.
    // Trees with 5, 7, 7 and 3 matching files are scanned in that order.
    let candidates = vec![commit("c1", 40), commit("c2", 30), commit("c3", 20), commit("c4", 10)];
    let mut driver = SearchDriver::new(candidates, offline_ten(), None);
    let mut rows = Vec::new();
    for matching in [5usize, 7, 7, 3] {
        let row = driver.record(&tree_scoring(matching), true).unwrap();
        rows.push(row);
    }
    let scores: Vec<i64> = rows.iter().map(|r| r.score).collect();
    assert_eq!(scores, vec![0, 4, 4, -4]);
    let marks: Vec<bool> = rows.iter().map(|r| r.best).collect();
    assert_eq!(marks, vec![true, true, false, false]);
    assert_eq!(driver.finish(), (Some("c2".to_string()), 4));
}

#[test]
fn scan_numbers_its_records_from_one_in_scan_order() {
    let candidates = vec![commit("aaa", 3), commit("bbb", 2), commit("ccc", 1)];
    let mut driver = SearchDriver::new(candidates, offline_ten(), None);
    assert_eq!(driver.next_commit().map(|c| c.id.clone()), Some("aaa".to_string()));
    let first = driver.record(&tree_scoring(1), false).unwrap();
    assert_eq!(driver.next_commit().map(|c| c.id.clone()), Some("bbb".to_string()));
    let second = driver.record(&tree_scoring(2), false).unwrap();
    let third = driver.record(&tree_scoring(0), false).unwrap();
    assert!(driver.next_commit().is_none());
    assert_eq!((first.commit_number, first.commit_hash.as_str()), (1, "aaa"));
    assert_eq!((second.commit_number, second.commit_hash.as_str()), (2, "bbb"));
    assert_eq!((third.commit_number, third.commit_hash.as_str()), (3, "ccc"));
}

#[test]
fn scan_of_no_candidates_finds_nothing() {
    let driver = SearchDriver::new(Vec::new(), offline_ten(), None);
    assert!(driver.next_commit().is_none());
    assert_eq!(driver.finish(), (None, i64::MIN));
}

#[test]
fn record_after_the_last_candidate_is_refused() {
    let mut driver = SearchDriver::new(vec![commit("c1", 1)], offline_ten(), None);
    driver.record(&tree_scoring(4), true).unwrap();
    let before = driver.finish();
    let again = driver.record(&tree_scoring(10), true);
    assert_eq!(again.err(), Some(SearchError::ScanComplete));
    assert_eq!(driver.finish(), before);
}

#[test]
fn commit_off_the_trunk_is_reported_so_even_as_the_best() {
    let candidates = vec![commit("on-trunk", 20), commit("side-branch", 10)];
    let mut driver = SearchDriver::new(candidates, offline_ten(), None);
    let first = driver.record(&tree_scoring(2), true).unwrap();
    let second = driver.record(&tree_scoring(10), false).unwrap();
    assert!(first.in_master_lineage);
    assert!(second.best);
    assert_eq!(second.score, 10);
    assert!(!second.in_master_lineage);
    assert_eq!(driver.finish(), (Some("side-branch".to_string()), 10));
}

#[test]
fn record_reports_the_comparison_and_the_commit_time() {
    let git = snapshot(&[("a.txt", "h1"), ("b.txt", "h2")]);
    let offline = snapshot(&[("a.txt", "h1"), ("b.txt", "h3"), ("c.txt", "h2")]);
    let hints = vec!["a.txt".to_string(), "config.yml".to_string()];
    let candidates =
        vec![CommitInfo { id: "abc123".to_string(), seconds: 1_704_067_200, offset_minutes: 120 }];
    let mut driver = SearchDriver::new(candidates, offline, Some(hints));
    let row = driver.record(&git, true).unwrap();
    assert_eq!(row.commit_number, 1);
    assert_eq!(row.commit_hash, "abc123");
    assert_eq!(row.datetime, "2024-01-01T02:00:00+02:00");
    assert_eq!(row.score, -1);
    assert_eq!(row.matches, 1);
    assert_eq!(row.mismatches, 1);
    assert_eq!(row.one_sided_files, 1);
    assert_eq!(row.total_matched_hashes, 2);
    assert_eq!(row.matched_hint_files, Some(1));
    assert!(row.best);
    assert!(row.in_master_lineage);
}

#[test]
fn record_without_hints_reports_no_hint_count() {
    let mut driver = SearchDriver::new(vec![commit("c", 0)], offline_ten(), None);
    let row = driver.record(&tree_scoring(10), true).unwrap();
    assert_eq!(row.matched_hint_files, None);
    assert_eq!(row.datetime, "1970-01-01T00:00:00+00:00");
}

#[test]
fn commit_time_out_of_range_is_refused_and_nothing_is_recorded() {
    let candidates = vec![CommitInfo { id: "far".to_string(), seconds: i64::MAX, offset_minutes: 0 }];
    let mut driver = SearchDriver::new(candidates, offline_ten(), None);
    let r = driver.record(&tree_scoring(10), true);
    assert_eq!(r.err(), Some(SearchError::TimeOutOfRange));
    assert_eq!(driver.finish(), (None, i64::MIN));
    assert_eq!(driver.next_commit().map(|c| c.id.clone()), Some("far".to_string()));
}
