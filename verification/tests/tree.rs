use commit_similarity_search::tree::{
    collect_file_hashes, has_control_component, is_control_name, normalized_key, snapshot_key,
    FoundFile,
};

fn file(path: &str, fingerprint: &str) -> FoundFile {
    FoundFile {
        path: path.to_string(),
        components: path.split('/').filter(|c| !c.is_empty()).map(|c| c.to_string()).collect(),
        fingerprint: fingerprint.to_string(),
    }
}

#[test]
fn names_with_the_marker_are_pruned() {
    assert!(is_control_name(".git"));
    assert!(is_control_name(".github"));
    assert!(is_control_name(".gitignore"));
    assert!(is_control_name("project.git"));
    assert!(is_control_name("a.gitb"));
}

#[test]
fn names_without_the_marker_are_walked() {
    assert!(!is_control_name(""));
    assert!(!is_control_name("git"));
    assert!(!is_control_name(".gi"));
    assert!(!is_control_name(".gi.t"));
    assert!(!is_control_name("src"));
    assert!(!is_control_name(".GIT"));
    assert!(!is_control_name("tig."));
}

#[test]
fn paths_through_a_control_directory_are_skipped() {
    let through = vec!["home".to_string(), ".git".to_string(), "config".to_string()];
    let beside = vec!["home".to_string(), ".github".to_string(), "config".to_string()];
    assert!(has_control_component(&through));
    assert!(!has_control_component(&beside));
    assert!(!has_control_component(&Vec::new()));
    assert!(has_control_component(&vec![".git".to_string()]));
}

#[test]
fn key_is_the_path_from_the_root_of_the_tree() {
    assert_eq!(snapshot_key("/repo/src/main.rs", "/repo"), "src/main.rs");
    assert_eq!(snapshot_key("/repo/a.txt", "/repo/"), "a.txt");
    assert_eq!(snapshot_key("repo/dir/b.txt", "repo"), "dir/b.txt");
    assert_eq!(snapshot_key("./repo/dir/b.txt", "./repo"), "dir/b.txt");
}

#[test]
fn key_of_a_file_outside_the_tree_climbs_out_of_it() {
    assert_eq!(snapshot_key("/other/a.txt", "/repo"), "../other/a.txt");
}

#[test]
fn key_is_the_whole_path_where_none_leads_from_the_root() {
    // No path leads from an absolute root to a relative path.
    assert_eq!(snapshot_key("dir/a.txt", "/repo"), "dir/a.txt");
}

#[test]
fn key_has_slashes_for_backslashes() {
    assert_eq!(normalized_key(Some("dir\\sub\\a.txt".to_string()), "ignored"), "dir/sub/a.txt");
    assert_eq!(normalized_key(None, "c:\\x\\y"), "c:/x/y");
    assert_eq!(normalized_key(Some("plain/a.txt".to_string()), "x"), "plain/a.txt");
    assert_eq!(normalized_key(Some(String::new()), "x"), "");
}

#[test]
fn snapshot_holds_each_file_under_its_key() {
    let files = vec![file("/repo/a.txt", "h1"), file("/repo/dir/b.txt", "h2")];
    let hashes = collect_file_hashes("/repo", &files);
    assert_eq!(hashes.len(), 2);
    assert_eq!(hashes.get("a.txt"), Some(&"h1".to_string()));
    assert_eq!(hashes.get("dir/b.txt"), Some(&"h2".to_string()));
}

#[test]
fn snapshot_leaves_out_files_below_a_control_directory() {
    let files = vec![
        file("/repo/a.txt", "h1"),
        file("/repo/.git/HEAD", "h2"),
        file("/repo/sub/.git/objects/ab", "h3"),
        file("/repo/.github/workflow.yml", "h4"),
    ];
    let hashes = collect_file_hashes("/repo", &files);
    assert_eq!(hashes.len(), 2);
    assert_eq!(hashes.get("a.txt"), Some(&"h1".to_string()));
    assert_eq!(hashes.get(".github/workflow.yml"), Some(&"h4".to_string()));
    assert_eq!(hashes.get(".git/HEAD"), None);
}

#[test]
fn snapshot_of_a_tree_below_a_control_directory_is_empty() {
    let files = vec![file("/home/.git/copy/a.txt", "h1")];
    let hashes = collect_file_hashes("/home/.git/copy", &files);
    assert_eq!(hashes.len(), 0);
}

#[test]
fn snapshot_of_no_files_is_empty() {
    assert_eq!(collect_file_hashes("/repo", &Vec::new()).len(), 0);
}

#[test]
fn snapshot_does_not_depend_on_the_order_of_the_walk() {
    let forward = vec![file("/r/a", "1"), file("/r/b", "2"), file("/r/c/d", "3")];
    let backward = vec![file("/r/c/d", "3"), file("/r/b", "2"), file("/r/a", "1")];
    let x = collect_file_hashes("/r", &forward);
    let y = collect_file_hashes("/r", &backward);
    assert_eq!(x.len(), y.len());
    for path in ["a", "b", "c/d"] {
        assert_eq!(x.get(path), y.get(path));
        assert!(x.get(path).is_some());
    }
}
