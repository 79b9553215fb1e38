//! Scoring of one tree against another by their file fingerprints.
//!
//! Two snapshots are compared path by path for the score, and by fingerprint
//! alone for the count of shared contents. Everything here is stated over the
//! snapshots' views, so that no result depends on the order in which either
//! tree was walked.

use crate::snapshot::{views_of, FileSnapshot};
use vstd::hash_set::StringHashSet;
use vstd::prelude::*;

verus! {

/// A snapshot as contracts see it: path to fingerprint.
pub type Tree = Map<Seq<char>, Seq<char>>;

/// The paths that both trees hold with the same fingerprint.
pub open spec fn matching_paths(git: Tree, offline: Tree) -> Set<Seq<char>> {
    Set::new(
        |p: Seq<char>| git.contains_key(p) && offline.contains_key(p) && git[p] == offline[p],
    )
}

/// The paths that both trees hold, with different fingerprints.
pub open spec fn mismatching_paths(git: Tree, offline: Tree) -> Set<Seq<char>> {
    Set::new(
        |p: Seq<char>| git.contains_key(p) && offline.contains_key(p) && git[p] != offline[p],
    )
}

/// The paths that both trees hold, whatever their fingerprints.
pub open spec fn common_paths(git: Tree, offline: Tree) -> Set<Seq<char>> {
    git.dom().intersect(offline.dom())
}

/// The paths that exactly one of the two trees holds.
pub open spec fn one_sided_paths(git: Tree, offline: Tree) -> Set<Seq<char>> {
    Set::new(|p: Seq<char>| git.contains_key(p) != offline.contains_key(p))
}

/// The fingerprints that occur in both trees, under whatever paths.
pub open spec fn shared_fingerprints(git: Tree, offline: Tree) -> Set<Seq<char>> {
    git.values().intersect(offline.values())
}

/// The similarity of two trees: matches, less mismatches, less one-sided files.
pub open spec fn tree_score(git: Tree, offline: Tree) -> int {
    matching_paths(git, offline).len() - mismatching_paths(git, offline).len()
        - one_sided_paths(git, offline).len()
}

/// The number of entries of `hints` that both trees hold with the same
/// fingerprint. An entry that occurs twice counts twice.
pub open spec fn matching_hints(hints: Seq<Seq<char>>, git: Tree, offline: Tree) -> nat {
    hints.filter(|h: Seq<char>| matching_paths(git, offline).contains(h)).len()
}

/// Adding one new element to `seen` adds it to the part of `s` inside `seen`
/// exactly when `s` holds it.
proof fn lemma_intersect_insert<T>(s: Set<T>, seen: Set<T>, x: T)
    requires
        seen.finite(),
        !seen.contains(x),
    ensures
        s.intersect(seen).finite(),
        s.intersect(seen.insert(x)).finite(),
        s.intersect(seen.insert(x)).len() == s.intersect(seen).len() + (if s.contains(x) {
            1int
        } else {
            0int
        }),
{
    if s.contains(x) {
        assert(s.intersect(seen.insert(x)) =~= s.intersect(seen).insert(x));
    } else {
        assert(s.intersect(seen.insert(x)) =~= s.intersect(seen));
    }
}

/// With finitely many paths on both sides, the four sets of a comparison are
/// finite, the common paths split into matches and mismatches, and the
/// one-sided paths into those of either side alone.
pub proof fn lemma_comparison_sets(git: Tree, offline: Tree)
    requires
        git.dom().finite(),
        offline.dom().finite(),
    ensures
        matching_paths(git, offline).finite(),
        mismatching_paths(git, offline).finite(),
        one_sided_paths(git, offline).finite(),
        matching_paths(git, offline).len() + mismatching_paths(git, offline).len()
            == common_paths(git, offline).len(),
        one_sided_paths(git, offline).len() == git.dom().len() + offline.dom().len() - 2
            * common_paths(git, offline).len(),
        common_paths(git, offline).len() <= git.dom().len(),
        common_paths(git, offline).len() <= offline.dom().len(),
{
    let m = matching_paths(git, offline);
    let x = mismatching_paths(git, offline);
    let c = common_paths(git, offline);
    let o = one_sided_paths(git, offline);
    let only_t = git.dom().difference(offline.dom());
    let only_o = offline.dom().difference(git.dom());
    assert(m.subset_of(c));
    assert(x.subset_of(c));
    vstd::set_lib::lemma_set_subset_finite(c, m);
    vstd::set_lib::lemma_set_subset_finite(c, x);
    assert(m.disjoint(x));
    assert(m.union(x) =~= c);
    vstd::set_lib::lemma_set_disjoint_lens(m, x);
    assert(only_t.disjoint(only_o));
    assert(only_t.union(only_o) =~= o);
    vstd::set_lib::lemma_set_disjoint_lens(only_t, only_o);
    vstd::set_lib::lemma_set_difference_len(git.dom(), offline.dom());
    vstd::set_lib::lemma_set_difference_len(offline.dom(), git.dom());
    assert(offline.dom().intersect(git.dom()) =~= c);
    vstd::set_lib::lemma_len_intersect(git.dom(), offline.dom());
    vstd::set_lib::lemma_len_intersect(offline.dom(), git.dom());
}

/// The set of the fingerprints that `snapshot` holds.
fn fingerprints_of(snapshot: &FileSnapshot) -> (r: StringHashSet)
    ensures
        r@ == snapshot@.values(),
        r@.finite(),
{
    let paths = snapshot.paths();
    let ghost order = snapshot.order();
    let mut prints = StringHashSet::new();
    let mut i: usize = 0;
    while i < paths.len()
        invariant
            i <= paths.len(),
            views_of(paths@) == order,
            order.to_set() == snapshot@.dom(),
            prints@.finite(),
            forall|v: Seq<char>|
                prints@.contains(v) <==> exists|j: int|
                    0 <= j < i && #[trigger] snapshot@[order[j]] == v,
        decreases paths.len() - i,
    {
        let path = &paths[i];
        assert(order[i as int] == path@);
        assert(order.to_set().contains(order[i as int]));
        match snapshot.get(path.as_str()) {
            Some(fingerprint) => {
                prints.insert(fingerprint.clone());
            },
            None => {},
        }
        i += 1;
    }
    proof {
        assert forall|v: Seq<char>| prints@.contains(v) == snapshot@.values().contains(v) by {
            if snapshot@.values().contains(v) {
                let k = choose|k: Seq<char>| snapshot@.contains_key(k) && snapshot@[k] == v;
                assert(order.to_set().contains(k));
                let j = choose|j: int| 0 <= j < order.len() && order[j] == k;
                assert(snapshot@[order[j]] == v);
            }
            if prints@.contains(v) {
                let j = choose|j: int| 0 <= j < i && #[trigger] snapshot@[order[j]] == v;
                assert(order.to_set().contains(order[j]));
            }
        }
        assert(prints@ =~= snapshot@.values());
    }
    prints
}

/// Compares the tree of a commit with the offline tree.
///
/// Returns, in this order: the number of paths that both hold with the same
/// fingerprint; the number that both hold with different fingerprints; the
/// number that only one of them holds; and the number of distinct fingerprints
/// that occur on both sides, under whatever paths.
pub fn compare_dirs(hashes_git: &FileSnapshot, hashes_offline: &FileSnapshot) -> (r: (
    usize,
    usize,
    usize,
    usize,
))
    requires
        hashes_git@.len() + hashes_offline@.len() <= usize::MAX,
    ensures
        r.0 == matching_paths(hashes_git@, hashes_offline@).len(),
        r.1 == mismatching_paths(hashes_git@, hashes_offline@).len(),
        r.2 == one_sided_paths(hashes_git@, hashes_offline@).len(),
        r.3 == shared_fingerprints(hashes_git@, hashes_offline@).len(),
        r.0 + r.1 == common_paths(hashes_git@, hashes_offline@).len(),
{
    let ghost git = hashes_git@;
    let ghost offline = hashes_offline@;
    let ghost order = hashes_git.order();
    let git_len = hashes_git.len();
    let offline_len = hashes_offline.len();
    let offline_prints = fingerprints_of(hashes_offline);
    let paths = hashes_git.paths();
    proof {
        order.unique_seq_to_set();
        lemma_comparison_sets(git, offline);
        assert(order.take(0).to_set() =~= Set::<Seq<char>>::empty());
        assert(matching_paths(git, offline).intersect(Set::<Seq<char>>::empty()) =~= Set::<
            Seq<char>,
        >::empty());
        assert(mismatching_paths(git, offline).intersect(Set::<Seq<char>>::empty()) =~= Set::<
            Seq<char>,
        >::empty());
        assert(offline.values().intersect(Set::<Seq<char>>::empty()) =~= Set::<Seq<char>>::empty());
    }
    let mut matches: usize = 0;
    let mut mismatches: usize = 0;
    let mut total_matched_hashes: usize = 0;
    let mut counted = StringHashSet::new();
    let mut i: usize = 0;
    while i < paths.len()
        invariant
            i <= paths.len(),
            paths.len() == git_len,
            git == hashes_git@,
            offline == hashes_offline@,
            views_of(paths@) == order,
            order.no_duplicates(),
            order.to_set() == git.dom(),
            offline_prints@ == offline.values(),
            order.take(i as int).to_set().finite(),
            matches == matching_paths(git, offline).intersect(order.take(i as int).to_set()).len(),
            mismatches == mismatching_paths(git, offline).intersect(
                order.take(i as int).to_set(),
            ).len(),
            matches + mismatches <= i,
            counted@.finite(),
            forall|v: Seq<char>|
                counted@.contains(v) <==> exists|j: int|
                    0 <= j < i && #[trigger] git[order[j]] == v,
            total_matched_hashes == offline.values().intersect(counted@).len(),
            total_matched_hashes <= i,
        decreases paths.len() - i,
    {
        let path = &paths[i];
        let ghost seen = order.take(i as int).to_set();
        proof {
            assert(order[i as int] == path@);
            assert(order.to_set().contains(order[i as int]));
            assert(order.take(i as int + 1) =~= order.take(i as int).push(path@));
            order.take(i as int).lemma_push_to_set_commute(path@);
            assert(!seen.contains(path@)) by {
                if seen.contains(path@) {
                    let j = choose|j: int|
                        0 <= j < order.take(i as int).len() && order.take(i as int)[j] == path@;
                    assert(order[j] == order[i as int]);
                }
            }
            lemma_intersect_insert(matching_paths(git, offline), seen, path@);
            lemma_intersect_insert(mismatching_paths(git, offline), seen, path@);
        }
        match hashes_git.get(path.as_str()) {
            Some(fingerprint) => {
                match hashes_offline.get(path.as_str()) {
                    Some(other) => {
                        if *fingerprint == *other {
                            matches += 1;
                        } else {
                            mismatches += 1;
                        }
                    },
                    None => {},
                }
                let ghost before = counted@;
                let fresh = counted.insert(fingerprint.clone());
                proof {
                    if fresh {
                        lemma_intersect_insert(offline.values(), before, fingerprint@);
                    } else {
                        assert(counted@ =~= before);
                    }
                }
                if fresh && offline_prints.contains(fingerprint.as_str()) {
                    total_matched_hashes += 1;
                }
            },
            None => {},
        }
        i += 1;
    }
    proof {
        assert(order.take(i as int) =~= order);
        assert(matching_paths(git, offline).intersect(git.dom()) =~= matching_paths(
            git,
            offline,
        ));
        assert(mismatching_paths(git, offline).intersect(git.dom()) =~= mismatching_paths(
            git,
            offline,
        ));
        assert forall|v: Seq<char>| counted@.contains(v) == git.values().contains(v) by {
            if git.values().contains(v) {
                let k = choose|k: Seq<char>| git.contains_key(k) && git[k] == v;
                assert(order.to_set().contains(k));
                let j = choose|j: int| 0 <= j < order.len() && order[j] == k;
                assert(git[order[j]] == v);
            }
            if counted@.contains(v) {
                let j = choose|j: int| 0 <= j < i && #[trigger] git[order[j]] == v;
                assert(order.to_set().contains(order[j]));
            }
        }
        assert(counted@ =~= git.values());
        assert(offline.values().intersect(counted@) =~= shared_fingerprints(git, offline));
    }
    let common = matches + mismatches;
    let one_sided_files = (git_len - common) + (offline_len - common);
    (matches, mismatches, one_sided_files, total_matched_hashes)
}

/// The score of a comparison: matches, less mismatches, less one-sided files.
pub fn similarity_score(matches: usize, mismatches: usize, one_sided_files: usize) -> (score: i64)
    requires
        matches + mismatches + one_sided_files <= i64::MAX,
    ensures
        score == matches - mismatches - one_sided_files,
{
    (matches as i64) - (mismatches as i64) - (one_sided_files as i64)
}

/// Counts the entries of `hint_list` that both trees hold with the same
/// fingerprint. An entry that either tree lacks is not counted, and is no
/// error.
pub fn matched_hint_files(
    hint_list: &Vec<String>,
    hashes_git: &FileSnapshot,
    hashes_offline: &FileSnapshot,
) -> (count: usize)
    ensures
        count == matching_hints(views_of(hint_list@), hashes_git@, hashes_offline@),
{
    let ghost hints = views_of(hint_list@);
    let ghost pred = |h: Seq<char>| matching_paths(hashes_git@, hashes_offline@).contains(h);
    let mut count: usize = 0;
    let mut i: usize = 0;
    proof {
        reveal(Seq::filter);
        assert(hints.take(0) =~= Seq::<Seq<char>>::empty());
    }
    while i < hint_list.len()
        invariant
            i <= hint_list.len(),
            hints == views_of(hint_list@),
            pred == |h: Seq<char>| matching_paths(hashes_git@, hashes_offline@).contains(h),
            count == hints.take(i as int).filter(pred).len(),
            count <= i,
        decreases hint_list.len() - i,
    {
        let hint = &hint_list[i];
        proof {
            reveal(Seq::filter);
            assert(hints.take(i as int + 1).drop_last() =~= hints.take(i as int));
            assert(hints.take(i as int + 1).last() == hint@);
        }
        let same = match (hashes_git.get(hint.as_str()), hashes_offline.get(hint.as_str())) {
            (Some(a), Some(b)) => *a == *b,
            _ => false,
        };
        if same {
            count += 1;
        }
        i += 1;
    }
    proof {
        assert(hints.take(i as int) =~= hints);
    }
    count
}

/// What comparing the tree of one commit with the offline tree gives.
#[derive(Debug)]
pub struct ComparisonResult {
    /// Paths on both sides with the same fingerprint.
    pub matches: usize,
    /// Paths on both sides with different fingerprints.
    pub mismatches: usize,
    /// Paths on exactly one side.
    pub one_sided_files: usize,
    /// Distinct fingerprints that occur on both sides, under whatever paths.
    pub total_matched_hashes: usize,
    /// Matches, less mismatches, less one-sided files.
    pub score: i64,
    /// How many entries of the hint list match, where a hint list was given.
    pub matched_hint_files: Option<usize>,
}

impl ComparisonResult {
    /// Whether this is the comparison of `git` with `offline`, with the hint
    /// list `hints` if one is given.
    pub open spec fn is_comparison_of(
        self,
        git: Tree,
        offline: Tree,
        hints: Option<Seq<Seq<char>>>,
    ) -> bool {
        &&& self.matches == matching_paths(git, offline).len()
        &&& self.mismatches == mismatching_paths(git, offline).len()
        &&& self.one_sided_files == one_sided_paths(git, offline).len()
        &&& self.total_matched_hashes == shared_fingerprints(git, offline).len()
        &&& self.score == tree_score(git, offline)
        &&& self.matched_hint_files == match hints {
            Some(list) => Some(matching_hints(list, git, offline) as usize),
            None => None,
        }
    }
}

/// Whether two trees are small enough for their comparison to be counted:
/// together they hold no more paths than fit in a `usize` and in an `i64`,
/// which keeps every count and the score within their types.
pub open spec fn comparable(git: Tree, offline: Tree) -> bool {
    git.len() + offline.len() <= usize::MAX && git.len() + offline.len() <= i64::MAX
}

/// Whether the two snapshots are small enough to be compared.
pub fn can_compare(hashes_git: &FileSnapshot, hashes_offline: &FileSnapshot) -> (ok: bool)
    ensures
        ok == comparable(hashes_git@, hashes_offline@),
{
    let a = hashes_git.len();
    let b = hashes_offline.len();
    match a.checked_add(b) {
        Some(total) => total as u128 <= i64::MAX as u128,
        None => false,
    }
}

/// Compares the tree of a commit with the offline tree and scores the result.
pub fn score_snapshots(
    hashes_git: &FileSnapshot,
    hashes_offline: &FileSnapshot,
    hint_list: Option<&Vec<String>>,
) -> (r: ComparisonResult)
    requires
        comparable(hashes_git@, hashes_offline@),
    ensures
        r.is_comparison_of(
            hashes_git@,
            hashes_offline@,
            match hint_list {
                Some(list) => Some(views_of(list@)),
                None => None,
            },
        ),
        r.score > i64::MIN,
{
    let git_len = hashes_git.len();
    let offline_len = hashes_offline.len();
    proof {
        lemma_comparison_sets(hashes_git@, hashes_offline@);
    }
    let (matches, mismatches, one_sided_files, total_matched_hashes) = compare_dirs(
        hashes_git,
        hashes_offline,
    );
    let score = similarity_score(matches, mismatches, one_sided_files);
    let matched = match hint_list {
        Some(list) => Some(matched_hint_files(list, hashes_git, hashes_offline)),
        None => None,
    };
    ComparisonResult {
        matches,
        mismatches,
        one_sided_files,
        total_matched_hashes,
        score,
        matched_hint_files: matched,
    }
}

/// Two identical trees have no mismatch and no one-sided file, and their score
/// is the number of their files.
pub proof fn lemma_identical_trees(tree: Tree)
    requires
        tree.dom().finite(),
    ensures
        matching_paths(tree, tree).len() == tree.len(),
        mismatching_paths(tree, tree).len() == 0,
        one_sided_paths(tree, tree).len() == 0,
        tree_score(tree, tree) == tree.len(),
{
    assert(matching_paths(tree, tree) =~= tree.dom());
    assert(mismatching_paths(tree, tree) =~= Set::<Seq<char>>::empty());
    assert(one_sided_paths(tree, tree) =~= Set::<Seq<char>>::empty());
}

/// Two trees that share no path have no match and no mismatch; every file of
/// either is one-sided, and the score is the negated number of all files.
pub proof fn lemma_disjoint_trees(git: Tree, offline: Tree)
    requires
        git.dom().finite(),
        offline.dom().finite(),
        git.dom().disjoint(offline.dom()),
    ensures
        matching_paths(git, offline).len() == 0,
        mismatching_paths(git, offline).len() == 0,
        one_sided_paths(git, offline).len() == git.len() + offline.len(),
        tree_score(git, offline) == -one_sided_paths(git, offline).len(),
{
    assert(matching_paths(git, offline) =~= Set::<Seq<char>>::empty());
    assert(mismatching_paths(git, offline) =~= Set::<Seq<char>>::empty());
    assert(one_sided_paths(git, offline) =~= git.dom().union(offline.dom()));
    vstd::set_lib::lemma_set_disjoint_lens(git.dom(), offline.dom());
}

/// A file that was renamed and not changed counts by its content and not by
/// its path: its fingerprint is among the shared fingerprints, while neither
/// its old path nor its new one is a match; both are one-sided.
pub proof fn lemma_renamed_file(git: Tree, offline: Tree, old_path: Seq<char>, new_path: Seq<char>)
    requires
        git.contains_key(old_path),
        !offline.contains_key(old_path),
        offline.contains_key(new_path),
        !git.contains_key(new_path),
        git[old_path] == offline[new_path],
    ensures
        shared_fingerprints(git, offline).contains(git[old_path]),
        !matching_paths(git, offline).contains(old_path),
        !matching_paths(git, offline).contains(new_path),
        one_sided_paths(git, offline).contains(old_path),
        one_sided_paths(git, offline).contains(new_path),
{
}

/// The shared fingerprints depend on the fingerprints of the two trees alone:
/// trees with the same fingerprints under other paths share the same ones.
pub proof fn lemma_shared_fingerprints_ignore_paths(a: Tree, b: Tree, c: Tree, d: Tree)
    requires
        a.values() == c.values(),
        b.values() == d.values(),
    ensures
        shared_fingerprints(a, b) == shared_fingerprints(c, d),
{
}

} // verus!
