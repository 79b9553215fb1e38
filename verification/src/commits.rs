//! The candidate commits of a search: the history newest first, and the part
//! of it that a starting point selects.

use crate::dates::{iso_instant, parse_iso_to_unix};
use crate::error::SearchError;
use crate::text::{begins_with, chars_of};
use vstd::prelude::*;

verus! {

/// What the search reads of a commit.
#[derive(Debug)]
pub struct CommitInfo {
    /// The full identifier, in hexadecimal.
    pub id: String,
    /// The commit time, in seconds since the Unix epoch.
    pub seconds: i64,
    /// The offset of the commit time, in minutes east of UTC.
    pub offset_minutes: i32,
}

impl Clone for CommitInfo {
    fn clone(&self) -> (r: Self)
        ensures
            r == *self,
    {
        CommitInfo {
            id: self.id.clone(),
            seconds: self.seconds,
            offset_minutes: self.offset_minutes,
        }
    }
}

/// Where in the history a search starts.
pub ghost enum StartingPoint {
    /// At the first commit whose identifier begins with this text.
    Identifier(Seq<char>),
    /// At the first commit made at or before this Unix time.
    Instant(int),
}

/// Whether a search may start at `commit`.
pub open spec fn accepts(start: StartingPoint, commit: CommitInfo) -> bool {
    match start {
        StartingPoint::Identifier(prefix) => prefix.is_prefix_of(commit.id@),
        StartingPoint::Instant(instant) => commit.seconds <= instant,
    }
}

/// Whether `i` is the place of the first commit, scanning from the newest,
/// that a search may start at.
pub open spec fn is_first_accepted(commits: Seq<CommitInfo>, start: StartingPoint, i: int) -> bool {
    &&& 0 <= i < commits.len()
    &&& accepts(start, commits[i])
    &&& forall|j: int| 0 <= j < i ==> !accepts(start, #[trigger] commits[j])
}

/// The history from the first accepted commit on: that commit and every one
/// after it in the scan. `None` where no commit is accepted.
pub open spec fn from_first_accepted(commits: Seq<CommitInfo>, start: StartingPoint) -> Option<
    Seq<CommitInfo>,
> {
    if exists|i: int| is_first_accepted(commits, start, i) {
        Some(commits.skip(choose|i: int| is_first_accepted(commits, start, i)))
    } else {
        None
    }
}

/// The candidates that a starting identifier or a starting date selects from
/// the history, or the reason why there are none.
pub open spec fn filtered_commits(
    commits: Seq<CommitInfo>,
    latest_commit: Option<Seq<char>>,
    latest_date: Option<Seq<char>>,
) -> Result<Seq<CommitInfo>, SearchError> {
    match (latest_commit, latest_date) {
        (Some(_), Some(_)) => Err(SearchError::ConflictingSelectors),
        (Some(prefix), None) => match from_first_accepted(
            commits,
            StartingPoint::Identifier(prefix),
        ) {
            Some(kept) => Ok(kept),
            None => Err(SearchError::StartCommitNotFound),
        },
        (None, Some(date)) => match iso_instant(date) {
            None => Err(SearchError::UnrecognizedDate),
            Some(instant) => match from_first_accepted(commits, StartingPoint::Instant(instant)) {
                Some(kept) => Ok(kept),
                None => Err(SearchError::StartDateNotFound),
            },
        },
        (None, None) => Ok(commits),
    }
}

/// The text that an optional string holds.
pub open spec fn text_of(s: Option<&str>) -> Option<Seq<char>> {
    match s {
        Some(text) => Some(text@),
        None => None,
    }
}

/// The place of the first commit whose identifier begins with `prefix`.
pub fn first_with_prefix(commits: &Vec<CommitInfo>, prefix: &str) -> (r: Option<usize>)
    ensures
        match r {
            Some(i) => is_first_accepted(commits@, StartingPoint::Identifier(prefix@), i as int),
            None => forall|i: int|
                0 <= i < commits.len() ==> !accepts(
                    StartingPoint::Identifier(prefix@),
                    #[trigger] commits[i],
                ),
        },
{
    let wanted = chars_of(prefix);
    let mut i: usize = 0;
    while i < commits.len()
        invariant
            i <= commits.len(),
            wanted@ == prefix@,
            forall|j: int|
                0 <= j < i ==> !accepts(StartingPoint::Identifier(prefix@), #[trigger] commits[j]),
        decreases commits.len() - i,
    {
        let id = chars_of(commits[i].id.as_str());
        if begins_with(&id, &wanted) {
            return Some(i);
        }
        i += 1;
    }
    None
}

/// The place of the first commit made at or before `instant`.
pub fn first_at_or_before(commits: &Vec<CommitInfo>, instant: i64) -> (r: Option<usize>)
    ensures
        match r {
            Some(i) => is_first_accepted(commits@, StartingPoint::Instant(instant as int), i as int),
            None => forall|i: int|
                0 <= i < commits.len() ==> !accepts(
                    StartingPoint::Instant(instant as int),
                    #[trigger] commits[i],
                ),
        },
{
    let mut i: usize = 0;
    while i < commits.len()
        invariant
            i <= commits.len(),
            forall|j: int|
                0 <= j < i ==> !accepts(
                    StartingPoint::Instant(instant as int),
                    #[trigger] commits[j],
                ),
        decreases commits.len() - i,
    {
        if commits[i].seconds <= instant {
            return Some(i);
        }
        i += 1;
    }
    None
}

/// The commits from place `start` on; none where the history is shorter.
pub fn commits_from(commits: &Vec<CommitInfo>, start: usize) -> (r: Vec<CommitInfo>)
    ensures
        r@ == if start <= commits.len() {
            commits@.skip(start as int)
        } else {
            Seq::<CommitInfo>::empty()
        },
{
    let mut kept: Vec<CommitInfo> = Vec::new();
    if start > commits.len() {
        return kept;
    }
    let mut i: usize = start;
    while i < commits.len()
        invariant
            start <= i <= commits.len(),
            kept@ == commits@.subrange(start as int, i as int),
        decreases commits.len() - i,
    {
        kept.push(commits[i].clone());
        assert(kept@ =~= commits@.subrange(start as int, i + 1));
        i += 1;
    }
    assert(kept@ =~= commits@.skip(start as int));
    kept
}

/// What a search found for its starting point becomes the list of candidates.
proof fn lemma_first_accepted_decides(commits: Seq<CommitInfo>, start: StartingPoint, found: Option<int>)
    requires
        match found {
            Some(i) => is_first_accepted(commits, start, i),
            None => forall|i: int| 0 <= i < commits.len() ==> !accepts(start, #[trigger] commits[i]),
        },
    ensures
        from_first_accepted(commits, start) == match found {
            Some(i) => Some(commits.skip(i)),
            None => None,
        },
{
    match found {
        Some(i) => {
            let chosen = choose|k: int| is_first_accepted(commits, start, k);
            assert(is_first_accepted(commits, start, chosen));
            if chosen < i {
                assert(!accepts(start, commits[chosen]));
            }
            if i < chosen {
                assert(!accepts(start, commits[i]));
            }
        },
        None => {
            assert forall|i: int| !is_first_accepted(commits, start, i) by {
                if 0 <= i < commits.len() {
                    assert(!accepts(start, commits[i]));
                }
            }
        },
    }
}

/// Selects the candidates of a search from the history, which is given newest
/// first.
///
/// With a starting identifier, the candidates begin at the first commit whose
/// identifier has it as a prefix; with a starting date, at the first commit
/// made at or before that instant; with neither, they are the whole history.
/// In each case they run on to the oldest commit, in the order of the history.
/// Both at once are refused, and so is a starting point that no commit meets.
pub fn get_filtered_commits(
    commits_newest_first: &Vec<CommitInfo>,
    latest_commit: Option<&str>,
    latest_date_iso: Option<&str>,
) -> (r: Result<Vec<CommitInfo>, SearchError>)
    ensures
        match r {
            Ok(kept) => filtered_commits(
                commits_newest_first@,
                text_of(latest_commit),
                text_of(latest_date_iso),
            ) == Ok::<Seq<CommitInfo>, SearchError>(kept@),
            Err(e) => filtered_commits(
                commits_newest_first@,
                text_of(latest_commit),
                text_of(latest_date_iso),
            ) == Err::<Seq<CommitInfo>, SearchError>(e),
        },
{
    match (latest_commit, latest_date_iso) {
        (Some(_), Some(_)) => Err(SearchError::ConflictingSelectors),
        (Some(prefix), None) => {
            let found = first_with_prefix(commits_newest_first, prefix);
            proof {
                lemma_first_accepted_decides(
                    commits_newest_first@,
                    StartingPoint::Identifier(prefix@),
                    match found {
                        Some(i) => Some(i as int),
                        None => None,
                    },
                );
            }
            match found {
                Some(start) => Ok(commits_from(commits_newest_first, start)),
                None => Err(SearchError::StartCommitNotFound),
            }
        },
        (None, Some(date)) => {
            match parse_iso_to_unix(date) {
                Err(_) => Err(SearchError::UnrecognizedDate),
                Ok(instant) => {
                    let found = first_at_or_before(commits_newest_first, instant);
                    proof {
                        lemma_first_accepted_decides(
                            commits_newest_first@,
                            StartingPoint::Instant(instant as int),
                            match found {
                                Some(i) => Some(i as int),
                                None => None,
                            },
                        );
                    }
                    match found {
                        Some(start) => Ok(commits_from(commits_newest_first, start)),
                        None => Err(SearchError::StartDateNotFound),
                    }
                },
            }
        },
        (None, None) => {
            let all = commits_from(commits_newest_first, 0);
            assert(commits_newest_first@.skip(0) =~= commits_newest_first@);
            Ok(all)
        },
    }
}

/// Whatever the starting point, the candidates are an end piece of the
/// history; they begin with a commit that the starting point accepts, and no
/// commit before them is accepted.
pub proof fn lemma_candidates_are_a_suffix(commits: Seq<CommitInfo>, start: StartingPoint)
    ensures
        match from_first_accepted(commits, start) {
            Some(kept) => {
                &&& 0 < kept.len() <= commits.len()
                &&& kept == commits.skip(commits.len() - kept.len())
                &&& accepts(start, kept[0])
                &&& forall|j: int|
                    0 <= j < commits.len() - kept.len() ==> !accepts(start, #[trigger] commits[j])
            },
            None => forall|j: int| 0 <= j < commits.len() ==> !accepts(start, #[trigger] commits[j]),
        },
{
    if exists|i: int| is_first_accepted(commits, start, i) {
        let i = choose|i: int| is_first_accepted(commits, start, i);
        assert(commits.skip(i).len() == commits.len() - i);
        assert(commits.skip(i)[0] == commits[i]);
    } else {
        assert forall|j: int| 0 <= j < commits.len() implies !accepts(
            start,
            #[trigger] commits[j],
        ) by {
            if accepts(start, commits[j]) {
                lemma_accepted_has_first(commits, start, j);
            }
        }
    }
}

/// Where some commit is accepted, there is a first one.
proof fn lemma_accepted_has_first(commits: Seq<CommitInfo>, start: StartingPoint, j: int)
    requires
        0 <= j < commits.len(),
        accepts(start, commits[j]),
    ensures
        exists|i: int| is_first_accepted(commits, start, i),
    decreases j,
{
    if exists|k: int| 0 <= k < j && accepts(start, commits[k]) {
        let k = choose|k: int| 0 <= k < j && accepts(start, commits[k]);
        lemma_accepted_has_first(commits, start, k);
    } else {
        assert(is_first_accepted(commits, start, j));
    }
}

/// A starting identifier and a starting date together are refused, whatever
/// the history.
pub proof fn lemma_both_selectors_conflict(
    commits: Seq<CommitInfo>,
    latest_commit: Seq<char>,
    latest_date: Seq<char>,
)
    ensures
        filtered_commits(commits, Some(latest_commit), Some(latest_date)) == Err::<
            Seq<CommitInfo>,
            SearchError,
        >(SearchError::ConflictingSelectors),
{
}

} // verus!
