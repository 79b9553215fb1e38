use commit_similarity_search::commits::{
    commits_from, first_at_or_before, first_with_prefix, get_filtered_commits, CommitInfo,
};
use commit_similarity_search::error::SearchError;

fn history() -> Vec<CommitInfo> {
    // Newest first.
    vec![
        CommitInfo { id: "d4d4aaaa".to_string(), seconds: 1_704_240_000, offset_minutes: 0 },
        CommitInfo { id: "c3c3bbbb".to_string(), seconds: 1_704_153_600, offset_minutes: 60 },
        CommitInfo { id: "c3ffcccc".to_string(), seconds: 1_704_067_200, offset_minutes: -300 },
        CommitInfo { id: "a1a1dddd".to_string(), seconds: 1_703_980_800, offset_minutes: 0 },
    ]
}

fn ids(commits: &[CommitInfo]) -> Vec<&str> {
    commits.iter().map(|c| c.id.as_str()).collect()
}

#[test]
fn no_selector_keeps_the_whole_history() {
    let kept = get_filtered_commits(&history(), None, None).unwrap();
    assert_eq!(ids(&kept), vec!["d4d4aaaa", "c3c3bbbb", "c3ffcccc", "a1a1dddd"]);
}

#[test]
fn identifier_prefix_keeps_the_suffix_from_the_first_match() {
    let kept = get_filtered_commits(&history(), Some("c3"), None).unwrap();
    assert_eq!(ids(&kept), vec!["c3c3bbbb", "c3ffcccc", "a1a1dddd"]);
    let kept = get_filtered_commits(&history(), Some("c3f"), None).unwrap();
    assert_eq!(ids(&kept), vec!["c3ffcccc", "a1a1dddd"]);
}

#[test]
fn full_identifier_of_the_newest_keeps_everything() {
    let kept = get_filtered_commits(&history(), Some("d4d4aaaa"), None).unwrap();
    assert_eq!(kept.len(), 4);
}

#[test]
fn identifier_of_the_oldest_keeps_only_it() {
    let kept = get_filtered_commits(&history(), Some("a1"), None).unwrap();
    assert_eq!(ids(&kept), vec!["a1a1dddd"]);
    assert_eq!(kept[0].seconds, 1_703_980_800);
}

#[test]
fn empty_prefix_matches_the_newest_commit() {
    let kept = get_filtered_commits(&history(), Some(""), None).unwrap();
    assert_eq!(kept.len(), 4);
}

#[test]
fn unknown_identifier_is_refused() {
    let r = get_filtered_commits(&history(), Some("ffff"), None);
    assert_eq!(r.err(), Some(SearchError::StartCommitNotFound));
}

#[test]
fn identifier_that_is_not_a_prefix_is_refused() {
    let r = get_filtered_commits(&history(), Some("aaaa"), None);
    assert_eq!(r.err(), Some(SearchError::StartCommitNotFound));
}

#[test]
fn identifier_in_an_empty_history_is_refused() {
    let r = get_filtered_commits(&Vec::new(), Some("a"), None);
    assert_eq!(r.err(), Some(SearchError::StartCommitNotFound));
}

#[test]
fn bare_date_keeps_the_suffix_from_the_first_commit_at_or_before_midnight() {
    // 2024-01-02 is 1704153600 at midnight UTC: the second commit is exactly then.
    let kept = get_filtered_commits(&history(), None, Some("2024-01-02")).unwrap();
    assert_eq!(ids(&kept), vec!["c3c3bbbb", "c3ffcccc", "a1a1dddd"]);
}

#[test]
fn timestamp_with_offset_is_taken_at_its_instant() {
    // One second before 2024-01-02T00:00:00Z.
    let kept = get_filtered_commits(&history(), None, Some("2024-01-02T00:59:59+01:00")).unwrap();
    assert_eq!(ids(&kept), vec!["c3ffcccc", "a1a1dddd"]);
}

#[test]
fn timestamp_without_offset_is_taken_as_utc() {
    let kept = get_filtered_commits(&history(), None, Some("2024-01-01T00:00:00")).unwrap();
    assert_eq!(ids(&kept), vec!["c3ffcccc", "a1a1dddd"]);
}

#[test]
fn date_after_the_whole_history_keeps_everything() {
    let kept = get_filtered_commits(&history(), None, Some("2030-06-01")).unwrap();
    assert_eq!(kept.len(), 4);
}

#[test]
fn date_before_the_whole_history_is_refused() {
    let r = get_filtered_commits(&history(), None, Some("1999-12-31"));
    assert_eq!(r.err(), Some(SearchError::StartDateNotFound));
}

#[test]
fn date_that_cannot_be_read_is_refused() {
    let r = get_filtered_commits(&history(), None, Some("yesterday"));
    assert_eq!(r.err(), Some(SearchError::UnrecognizedDate));
}

#[test]
fn both_selectors_at_once_are_refused() {
    let r = get_filtered_commits(&history(), Some("c3"), Some("2024-01-02"));
    assert_eq!(r.err(), Some(SearchError::ConflictingSelectors));
    let r = get_filtered_commits(&history(), Some("nothing"), Some("not a date"));
    assert_eq!(r.err(), Some(SearchError::ConflictingSelectors));
}

#[test]
fn date_scan_stops_at_the_first_commit_even_if_an_older_one_is_later_by_the_clock() {
    let skewed = vec![
        CommitInfo { id: "n1".to_string(), seconds: 300, offset_minutes: 0 },
        CommitInfo { id: "n2".to_string(), seconds: 100, offset_minutes: 0 },
        CommitInfo { id: "n3".to_string(), seconds: 250, offset_minutes: 0 },
    ];
    assert_eq!(first_at_or_before(&skewed, 200), Some(1));
    assert_eq!(ids(&commits_from(&skewed, 1)), vec!["n2", "n3"]);
}

#[test]
fn first_places_are_found_or_not() {
    assert_eq!(first_with_prefix(&history(), "c3"), Some(1));
    assert_eq!(first_with_prefix(&history(), "zz"), None);
    assert_eq!(first_at_or_before(&history(), 1_704_067_200), Some(2));
    assert_eq!(first_at_or_before(&history(), 0), None);
    assert_eq!(commits_from(&history(), 4).len(), 0);
}

#[test]
fn kept_commits_are_copies_of_those_in_the_history() {
    let kept = get_filtered_commits(&history(), Some("c3c3"), None).unwrap();
    assert_eq!(kept[0].id, "c3c3bbbb");
    assert_eq!(kept[0].seconds, 1_704_153_600);
    assert_eq!(kept[0].offset_minutes, 60);
    let copy = kept[1].clone();
    assert_eq!(copy.id, "c3ffcccc");
    assert_eq!(copy.offset_minutes, -300);
}
