//! Which commits lie on the trunk: the choice of the trunk reference, and the
//! classification of a commit against its tip.

use crate::error::SearchError;
use crate::snapshot::views_of;
use crate::text::same_text;
use vstd::prelude::*;

verus! {

/// The names under which the trunk is looked for, in the order in which they
/// are tried: the two local names, then the same two under the remote.
pub open spec fn trunk_candidates() -> Seq<Seq<char>> {
    seq![
        "refs/heads/master"@,
        "refs/heads/main"@,
        "refs/remotes/origin/master"@,
        "refs/remotes/origin/main"@,
    ]
}

/// The names under which the trunk is looked for, in the order in which they
/// are tried.
pub fn trunk_candidate_names() -> (names: Vec<String>)
    ensures
        views_of(names@) == trunk_candidates(),
{
    let mut names: Vec<String> = Vec::new();
    names.push("refs/heads/master".to_owned());
    names.push("refs/heads/main".to_owned());
    names.push("refs/remotes/origin/master".to_owned());
    names.push("refs/remotes/origin/main".to_owned());
    assert(views_of(names@) =~= trunk_candidates());
    names
}

/// Whether candidate `i` exists and none before it does, where `present[k]`
/// says whether candidate `k` does.
pub open spec fn is_first_existing(present: Seq<bool>, i: int) -> bool {
    &&& 0 <= i < trunk_candidates().len()
    &&& i < present.len()
    &&& present[i]
    &&& forall|j: int| 0 <= j < i ==> !#[trigger] present[j]
}

/// Chooses the trunk reference: the first candidate that exists.
///
/// `present[k]` says whether the repository resolves candidate `k` of
/// `trunk_candidate_names`; a candidate without an answer counts as missing.
/// Fails with `NoTrunkReference` exactly when no candidate exists.
pub fn resolve_master_like_ref(present: &Vec<bool>) -> (r: Result<String, SearchError>)
    ensures
        match r {
            Ok(name) => exists|i: int|
                is_first_existing(present@, i) && name@ == #[trigger] trunk_candidates()[i],
            Err(e) => {
                &&& e == SearchError::NoTrunkReference
                &&& forall|i: int|
                    0 <= i < trunk_candidates().len() && i < present.len() ==> !#[trigger] present[i]
            },
        },
{
    let names = trunk_candidate_names();
    let mut i: usize = 0;
    while i < names.len() && i < present.len()
        invariant
            views_of(names@) == trunk_candidates(),
            names.len() == trunk_candidates().len(),
            forall|j: int| 0 <= j < i ==> !#[trigger] present[j],
        decreases names.len() - i,
    {
        if present[i] {
            let name = names[i].clone();
            assert(is_first_existing(present@, i as int));
            assert(name@ == trunk_candidates()[i as int]);
            return Ok(name);
        }
        i += 1;
    }
    Err(SearchError::NoTrunkReference)
}

/// Whether a commit lies on the trunk: it is the tip of the trunk, or the tip
/// descends from it.
pub open spec fn on_trunk(commit: Seq<char>, trunk_tip: Seq<char>, tip_descends: Option<bool>) -> bool {
    commit == trunk_tip || tip_descends == Some(true)
}

/// Classifies a commit against the tip of the trunk.
///
/// `tip_descends` is the repository's answer to whether the tip is a proper
/// descendant of the commit, or `None` where it gave no answer. The commit is
/// on the trunk exactly when it is the tip itself or the answer is yes; it is
/// not when the repository gave no answer for a commit other than the tip.
pub fn is_commit_in_master_lineage(commit: &str, trunk_tip: &str, tip_descends: Option<bool>) -> (r:
    bool)
    ensures
        r == on_trunk(commit@, trunk_tip@, tip_descends),
{
    match tip_descends {
        Some(true) => true,
        _ => same_text(commit, trunk_tip),
    }
}

/// A commit that is not the tip of the trunk, and from which the tip does not
/// descend, is off the trunk: nothing else is asked, and its score least of
/// all.
pub proof fn lemma_unreachable_is_off_trunk(
    commit: Seq<char>,
    trunk_tip: Seq<char>,
    tip_descends: Option<bool>,
)
    requires
        commit != trunk_tip,
        tip_descends != Some(true),
    ensures
        !on_trunk(commit, trunk_tip, tip_descends),
{
}

} // verus!
