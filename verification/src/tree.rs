//! Snapshots of directory trees: which entries of a walk are left out, and
//! under which key a file is recorded.
//!
//! Walking the directory and reading the files is the caller's part. What is
//! decided here is what the walk prunes, which files it skips, and how a
//! file's path becomes its key in the snapshot.

use crate::scorer::Tree;
use crate::snapshot::{views_of, FileSnapshot};
use crate::text::{contains_text, occurs_in, optional_text, replace_char, same_text, with_replaced};
use vstd::prelude::*;

verus! {

/// The path that leads from `base` to `path`, as `pathdiff` constructs it for
/// the path syntax of the platform; `None` where it constructs none.
pub uninterp spec fn relative_path(path: Seq<char>, base: Seq<char>) -> Option<Seq<char>>;

/// Constructs the path that leads from `base` to `path`.
///
/// Trusted: `pathdiff::diff_paths`. The result is named, not described.
#[verifier::external_body]
fn diff_paths(path: &str, base: &str) -> (r: Option<String>)
    ensures
        optional_text(r) == relative_path(path@, base@),
{
    pathdiff::diff_paths(path, base).map(|relative| relative.to_string_lossy().into_owned())
}

/// The name that marks a directory of version-control metadata.
pub open spec fn control_marker() -> Seq<char> {
    ".git"@
}

/// Whether a walk leaves out the entry with this file name, and with it
/// everything below it: it does when the marker occurs anywhere in the name.
pub fn is_control_name(file_name: &str) -> (r: bool)
    ensures
        r == occurs_in(control_marker(), file_name@),
{
    contains_text(file_name, ".git")
}

/// Whether one of the components of a path is the marker itself.
pub open spec fn under_control(components: Seq<Seq<char>>) -> bool {
    exists|i: int| 0 <= i < components.len() && #[trigger] components[i] == control_marker()
}

/// Whether a file is skipped because one of the components of its path is the
/// marker itself.
pub fn has_control_component(components: &Vec<String>) -> (r: bool)
    ensures
        r == under_control(views_of(components@)),
{
    let mut i: usize = 0;
    while i < components.len()
        invariant
            i <= components.len(),
            forall|j: int| 0 <= j < i ==> #[trigger] views_of(components@)[j] != control_marker(),
        decreases components.len() - i,
    {
        if same_text(components[i].as_str(), ".git") {
            assert(views_of(components@)[i as int] == control_marker());
            return true;
        }
        i += 1;
    }
    false
}

/// A path with every backslash turned into a slash.
pub open spec fn with_slashes(path: Seq<char>) -> Seq<char> {
    with_replaced(path, '\\', '/')
}

/// The key of a file in the snapshot of the tree under `base`: its path from
/// `base`, or its whole path where there is none, with slashes as separators.
pub open spec fn key_of(path: Seq<char>, base: Seq<char>) -> Seq<char> {
    with_slashes(
        match relative_path(path, base) {
            Some(relative) => relative,
            None => path,
        },
    )
}

/// The key of a file, given its path from the root of the tree if there is
/// one, and its whole path.
pub fn normalized_key(relative: Option<String>, path: &str) -> (key: String)
    ensures
        key@ == with_slashes(
            match relative {
                Some(text) => text@,
                None => path@,
            },
        ),
{
    match relative {
        Some(text) => replace_char(text.as_str(), '\\', '/'),
        None => replace_char(path, '\\', '/'),
    }
}

/// The key of the file at `path` in the snapshot of the tree under `base_dir`.
pub fn snapshot_key(path: &str, base_dir: &str) -> (key: String)
    ensures
        key@ == key_of(path@, base_dir@),
{
    normalized_key(diff_paths(path, base_dir), path)
}

/// A regular file that a walk came upon.
#[derive(Debug)]
pub struct FoundFile {
    /// The path of the file, as the walk gives it.
    pub path: String,
    /// The components of that path, in order.
    pub components: Vec<String>,
    /// The fingerprint of the file's content.
    pub fingerprint: String,
}

/// The snapshot that a walk of the tree under `base` gives, where `files` are
/// the regular files that it came upon: each file that is not skipped, under
/// its key. The order of the walk makes no difference but where two files
/// have the same key, of which the later stays.
pub open spec fn snapshot_of(base: Seq<char>, files: Seq<FoundFile>) -> Tree
    decreases files.len(),
{
    if files.len() == 0 {
        Map::empty()
    } else {
        let before = snapshot_of(base, files.drop_last());
        let file = files.last();
        if under_control(views_of(file.components@)) {
            before
        } else {
            before.insert(key_of(file.path@, base), file.fingerprint@)
        }
    }
}

/// Builds the snapshot of the tree under `base_dir` from the regular files
/// that a walk of it came upon.
pub fn collect_file_hashes(base_dir: &str, files: &Vec<FoundFile>) -> (hashes: FileSnapshot)
    ensures
        hashes@ == snapshot_of(base_dir@, files@),
{
    let mut hashes = FileSnapshot::new();
    let mut i: usize = 0;
    while i < files.len()
        invariant
            i <= files.len(),
            hashes@ == snapshot_of(base_dir@, files@.take(i as int)),
        decreases files.len() - i,
    {
        let file = &files[i];
        proof {
            assert(files@.take(i + 1).drop_last() =~= files@.take(i as int));
            assert(files@.take(i + 1).last() == files@[i as int]);
        }
        if !has_control_component(&file.components) {
            let key = snapshot_key(file.path.as_str(), base_dir);
            hashes.insert(key, file.fingerprint.clone());
        }
        i += 1;
    }
    assert(files@.take(i as int) =~= files@);
    hashes
}

} // verus!
