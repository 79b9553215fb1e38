//! The scan itself: candidate by candidate, score the commit's tree against
//! the offline tree, keep the best, and emit one record per commit.
//!
//! Putting a commit's tree on disk and reading it back is the caller's part.
//! The driver says which commit is next, takes the snapshot of its tree, and
//! decides everything else.

use crate::commits::CommitInfo;
use crate::dates::{commit_time_text, time_to_iso8601};
use crate::error::SearchError;
use crate::scorer::{can_compare, comparable, score_snapshots, ComparisonResult, Tree};
use crate::snapshot::{views_of, FileSnapshot};
use crate::text::optional_text;
use vstd::prelude::*;

verus! {

/// The best candidate of a scan so far, as contracts see it.
pub ghost struct Best {
    /// The highest score seen, or the lowest score there is where nothing
    /// was seen.
    pub score: int,
    /// The identifier of the first commit that reached that score.
    pub commit: Option<Seq<char>>,
}

/// The best before anything was scanned: no commit, at the lowest score that
/// there is.
pub open spec fn no_best() -> Best {
    Best { score: i64::MIN as int, commit: None }
}

/// The best after one more commit: the new one where its score is strictly
/// higher, else the one before.
pub open spec fn better_of(best: Best, commit: Seq<char>, score: int) -> Best {
    if score > best.score {
        Best { score, commit: Some(commit) }
    } else {
        best
    }
}

/// The best of a scan, given the identifier and the score of each commit in
/// the order of the scan.
pub open spec fn best_of(scanned: Seq<(Seq<char>, int)>) -> Best
    decreases scanned.len(),
{
    if scanned.len() == 0 {
        no_best()
    } else {
        better_of(best_of(scanned.drop_last()), scanned.last().0, scanned.last().1)
    }
}

/// The best of a scan is its first maximum: no commit scored higher, the
/// commit recorded is one that reached the best score, and every commit
/// before it scored strictly lower. Nothing is recorded exactly when no
/// commit scored above the lowest score that there is.
pub proof fn lemma_best_is_first_maximum(scanned: Seq<(Seq<char>, int)>)
    ensures
        best_of(scanned).score >= i64::MIN,
        forall|i: int| 0 <= i < scanned.len() ==> (#[trigger] scanned[i]).1 <= best_of(scanned).score,
        match best_of(scanned).commit {
            Some(commit) => exists|k: int|
                {
                    &&& 0 <= k < scanned.len()
                    &&& #[trigger] scanned[k] == (commit, best_of(scanned).score)
                    &&& forall|j: int| 0 <= j < k ==> (#[trigger] scanned[j]).1 < best_of(scanned).score
                },
            None => best_of(scanned).score == i64::MIN,
        },
    decreases scanned.len(),
{
    if scanned.len() > 0 {
        let before = scanned.drop_last();
        lemma_best_is_first_maximum(before);
        let last = scanned.last();
        assert forall|i: int| 0 <= i < scanned.len() implies (#[trigger] scanned[i]).1 <= best_of(
            scanned,
        ).score by {
            if i < before.len() {
                assert(before[i] == scanned[i]);
            }
        }
        if last.1 > best_of(before).score {
            assert(scanned[scanned.len() - 1] == (last.0, last.1));
            assert forall|j: int| 0 <= j < scanned.len() - 1 implies (#[trigger] scanned[j]).1
                < last.1 by {
                assert(before[j] == scanned[j]);
            }
        } else {
            match best_of(before).commit {
                Some(commit) => {
                    let k = choose|k: int|
                        {
                            &&& 0 <= k < before.len()
                            &&& #[trigger] before[k] == (commit, best_of(before).score)
                            &&& forall|j: int|
                                0 <= j < k ==> (#[trigger] before[j]).1 < best_of(before).score
                        };
                    assert(scanned[k] == before[k]);
                    assert forall|j: int| 0 <= j < k implies (#[trigger] scanned[j]).1 < best_of(
                        scanned,
                    ).score by {
                        assert(before[j] == scanned[j]);
                    }
                },
                None => {},
            }
        }
    }
}

/// Where every commit scored above the lowest score that there is, a scan of
/// at least one commit has a best commit: the first candidate always becomes
/// the best, and only a higher score replaces it.
pub proof fn lemma_scan_has_a_best(scanned: Seq<(Seq<char>, int)>)
    requires
        scanned.len() > 0,
        forall|i: int| 0 <= i < scanned.len() ==> (#[trigger] scanned[i]).1 > i64::MIN,
    ensures
        best_of(scanned).commit is Some,
        best_of(scanned.take(1)) == (Best { score: scanned[0].1, commit: Some(scanned[0].0) }),
{
    lemma_best_is_first_maximum(scanned);
    assert(scanned[0].1 <= best_of(scanned).score);
    assert(scanned.take(1).drop_last() =~= Seq::<(Seq<char>, int)>::empty());
    assert(best_of(scanned.take(1).drop_last()) == no_best());
    assert(scanned.take(1).last() == scanned[0]);
}

/// The best never gets worse as a scan goes on.
pub proof fn lemma_best_is_monotonic(scanned: Seq<(Seq<char>, int)>, commit: Seq<char>, score: int)
    ensures
        best_of(scanned.push((commit, score))).score >= best_of(scanned).score,
        best_of(scanned.push((commit, score))) == better_of(best_of(scanned), commit, score),
{
    assert(scanned.push((commit, score)).drop_last() =~= scanned);
}

/// The running best of a scan: the highest score so far and the commit that
/// first reached it.
pub struct BestMatchState {
    best_score: i64,
    best_commit: Option<String>,
}

impl View for BestMatchState {
    type V = Best;

    closed spec fn view(&self) -> Best {
        Best { score: self.best_score as int, commit: optional_text(self.best_commit) }
    }
}

impl BestMatchState {
    /// The state before anything was scanned.
    pub fn new() -> (state: Self)
        ensures
            state@ == no_best(),
    {
        BestMatchState { best_score: i64::MIN, best_commit: None }
    }

    /// Takes the score of one more commit into account, and says whether that
    /// commit is the new best. It is exactly when its score is strictly higher
    /// than the best so far: on a tie the earlier commit stays.
    pub fn update(&mut self, commit_hash: &str, score: i64) -> (improved: bool)
        ensures
            improved == (score > old(self)@.score),
            final(self)@ == better_of(old(self)@, commit_hash@, score as int),
            final(self)@.score >= old(self)@.score,
    {
        if score > self.best_score {
            self.best_score = score;
            self.best_commit = Some(commit_hash.to_owned());
            true
        } else {
            false
        }
    }

    /// The highest score so far.
    pub fn best_score(&self) -> (score: i64)
        ensures
            score == self@.score,
    {
        self.best_score
    }

    /// The commit that first reached the highest score, if any commit did.
    pub fn best_commit(&self) -> (commit: Option<String>)
        ensures
            optional_text(commit) == self@.commit,
    {
        match &self.best_commit {
            Some(id) => Some(id.clone()),
            None => None,
        }
    }
}

/// The record that a scan emits for one commit.
#[derive(Debug)]
pub struct DataRow {
    /// The place of the commit in the scan, counted from 1.
    pub commit_number: usize,
    /// The full identifier of the commit.
    pub commit_hash: String,
    /// The commit time as RFC 3339, with the commit's own offset.
    pub datetime: String,
    /// Matches, less mismatches, less one-sided files.
    pub score: i64,
    /// Whether the commit lies on the trunk.
    pub in_master_lineage: bool,
    /// Paths on both sides with the same fingerprint.
    pub matches: usize,
    /// Paths on both sides with different fingerprints.
    pub mismatches: usize,
    /// Paths on exactly one side.
    pub one_sided_files: usize,
    /// Distinct fingerprints that occur on both sides, under whatever paths.
    pub total_matched_hashes: usize,
    /// How many entries of the hint list match, where a hint list was given.
    pub matched_hint_files: Option<usize>,
    /// Whether this commit became the best of the scan.
    pub best: bool,
}

impl DataRow {
    /// The comparison that this record reports.
    pub open spec fn comparison(self) -> ComparisonResult {
        ComparisonResult {
            matches: self.matches,
            mismatches: self.mismatches,
            one_sided_files: self.one_sided_files,
            total_matched_hashes: self.total_matched_hashes,
            score: self.score,
            matched_hint_files: self.matched_hint_files,
        }
    }
}

/// The identifiers and scores of the commits scanned so far.
pub open spec fn scanned_so_far(candidates: Seq<CommitInfo>, scores: Seq<int>) -> Seq<
    (Seq<char>, int),
> {
    Seq::new(scores.len(), |i: int| (candidates[i].id@, scores[i]))
}

/// A scan over a list of candidate commits against one offline tree.
pub struct SearchDriver {
    candidates: Vec<CommitInfo>,
    offline: FileSnapshot,
    hint_list: Option<Vec<String>>,
    best: BestMatchState,
    position: usize,
    scores: Ghost<Seq<int>>,
}

impl SearchDriver {
    #[verifier::type_invariant]
    spec fn well_formed(&self) -> bool {
        &&& self.position <= self.candidates.len()
        &&& self.scores@.len() == self.position
        &&& forall|i: int| 0 <= i < self.scores@.len() ==> #[trigger] self.scores@[i] > i64::MIN
        &&& self.best@ == best_of(scanned_so_far(self.candidates@, self.scores@))
    }

    /// The candidates, in the order of the scan.
    pub closed spec fn candidates(&self) -> Seq<CommitInfo> {
        self.candidates@
    }

    /// The offline tree.
    pub closed spec fn offline(&self) -> Tree {
        self.offline@
    }

    /// The hint list, if there is one.
    pub closed spec fn hints(&self) -> Option<Seq<Seq<char>>> {
        match self.hint_list {
            Some(list) => Some(views_of(list@)),
            None => None,
        }
    }

    /// The scores of the commits recorded so far, in the order of the scan.
    pub closed spec fn scores(&self) -> Seq<int> {
        self.scores@
    }

    /// The best of the commits recorded so far.
    pub closed spec fn best(&self) -> Best {
        self.best@
    }

    /// The identifiers and scores of the commits recorded so far.
    pub open spec fn scanned(&self) -> Seq<(Seq<char>, int)> {
        scanned_so_far(self.candidates(), self.scores())
    }

    /// Whether every candidate has been recorded.
    pub open spec fn done(&self) -> bool {
        self.scores().len() == self.candidates().len()
    }

    /// The candidate that is recorded next, where the scan is not complete.
    pub open spec fn pending(&self) -> CommitInfo {
        self.candidates()[self.scores().len() as int]
    }

    /// Why the next candidate cannot be recorded with the tree `git`, if it
    /// cannot: every candidate has been recorded; else its time cannot be
    /// written; else the two trees hold more files than a score can count.
    pub open spec fn refusal(&self, git: Tree) -> Option<SearchError> {
        if self.done() {
            Some(SearchError::ScanComplete)
        } else if commit_time_text(
            self.pending().seconds as int,
            self.pending().offset_minutes as int,
        ) is None {
            Some(SearchError::TimeOutOfRange)
        } else if !comparable(git, self.offline()) {
            Some(SearchError::TreesTooLarge)
        } else {
            None
        }
    }

    /// A scan of `candidates`, in that order, against the tree `offline`.
    pub fn new(
        candidates: Vec<CommitInfo>,
        offline: FileSnapshot,
        hint_list: Option<Vec<String>>,
    ) -> (driver: Self)
        ensures
            driver.candidates() == candidates@,
            driver.offline() == offline@,
            driver.hints() == match hint_list {
                Some(list) => Some(views_of(list@)),
                None => None,
            },
            driver.scores() == Seq::<int>::empty(),
            driver.best() == no_best(),
    {
        let driver = SearchDriver {
            candidates,
            offline,
            hint_list,
            best: BestMatchState::new(),
            position: 0,
            scores: Ghost(Seq::empty()),
        };
        assert(scanned_so_far(driver.candidates@, driver.scores@) =~= Seq::empty());
        driver
    }

    /// The commit whose tree is to be put on disk and recorded next, or `None`
    /// when the scan is complete.
    pub fn next_commit(&self) -> (next: Option<&CommitInfo>)
        ensures
            self.scores().len() <= self.candidates().len(),
            match next {
                Some(commit) => !self.done() && *commit == self.pending(),
                None => self.done(),
            },
    {
        proof {
            use_type_invariant(self);
        }
        if self.position < self.candidates.len() {
            Some(&self.candidates[self.position])
        } else {
            None
        }
    }

    /// Records the next commit, given the snapshot of its tree and whether it
    /// lies on the trunk, and gives the record to emit for it.
    ///
    /// The commit is scored against the offline tree and becomes the best
    /// exactly when its score is strictly higher than every score before it.
    /// Whether it lies on the trunk is reported as given and plays no part in
    /// the score or in the choice of the best.
    ///
    /// Fails, and leaves the scan as it was: with `ScanComplete` when every
    /// candidate has been recorded; else with `TimeOutOfRange` when the
    /// commit's time cannot be written; else with `TreesTooLarge` when the two
    /// trees hold more files than a score can count.
    pub fn record(&mut self, hashes_git: &FileSnapshot, in_master_lineage: bool) -> (r: Result<
        DataRow,
        SearchError,
    >)
        ensures
            final(self).candidates() == old(self).candidates(),
            final(self).offline() == old(self).offline(),
            final(self).hints() == old(self).hints(),
            old(self).scores().len() <= old(self).candidates().len(),
            match r {
                Ok(row) => {
                    let commit = old(self).pending();
                    &&& old(self).refusal(hashes_git@) is None
                    &&& row.commit_number == old(self).scores().len() + 1
                    &&& row.commit_hash@ == commit.id@
                    &&& commit_time_text(commit.seconds as int, commit.offset_minutes as int)
                        == Some(row.datetime@)
                    &&& row.comparison().is_comparison_of(
                        hashes_git@,
                        old(self).offline(),
                        old(self).hints(),
                    )
                    &&& row.score > i64::MIN
                    &&& row.in_master_lineage == in_master_lineage
                    &&& row.best == (row.score > old(self).best().score)
                    &&& final(self).scores() == old(self).scores().push(row.score as int)
                    &&& final(self).best() == better_of(
                        old(self).best(),
                        commit.id@,
                        row.score as int,
                    )
                },
                Err(e) => {
                    &&& old(self).refusal(hashes_git@) == Some(e)
                    &&& final(self).scores() == old(self).scores()
                    &&& final(self).best() == old(self).best()
                },
            },
    {
        proof {
            use_type_invariant(&*self);
        }
        if self.position >= self.candidates.len() {
            return Err(SearchError::ScanComplete);
        }
        let commit = &self.candidates[self.position];
        let datetime = match time_to_iso8601(commit.seconds, commit.offset_minutes) {
            Some(text) => text,
            None => {
                return Err(SearchError::TimeOutOfRange);
            },
        };
        if !can_compare(hashes_git, &self.offline) {
            return Err(SearchError::TreesTooLarge);
        }
        let hint_list = match &self.hint_list {
            Some(list) => Some(list),
            None => None,
        };
        let comparison = score_snapshots(hashes_git, &self.offline, hint_list);
        let commit_hash = commit.id.clone();
        let commit_number = self.position + 1;

        let mut taken = SearchDriver::new(Vec::new(), FileSnapshot::new(), None);
        std::mem::swap(self, &mut taken);
        let SearchDriver { candidates, offline, hint_list, mut best, position, scores } = taken;
        let improved = best.update(commit_hash.as_str(), comparison.score);
        let ghost new_scores = scores@.push(comparison.score as int);
        proof {
            assert(scanned_so_far(candidates@, new_scores).drop_last() =~= scanned_so_far(
                candidates@,
                scores@,
            ));
        }
        *self =
        SearchDriver {
            candidates,
            offline,
            hint_list,
            best,
            position: position + 1,
            scores: Ghost(new_scores),
        };
        Ok(
            DataRow {
                commit_number,
                commit_hash,
                datetime,
                score: comparison.score,
                in_master_lineage,
                matches: comparison.matches,
                mismatches: comparison.mismatches,
                one_sided_files: comparison.one_sided_files,
                total_matched_hashes: comparison.total_matched_hashes,
                matched_hint_files: comparison.matched_hint_files,
                best: improved,
            },
        )
    }

    /// The best commit of the scan so far and its score: the first commit
    /// that reached the highest score. There is none, at the lowest score that
    /// there is, exactly when no commit was recorded.
    pub fn finish(&self) -> (r: (Option<String>, i64))
        ensures
            optional_text(r.0) == self.best().commit,
            r.1 == self.best().score,
            self.best() == best_of(self.scanned()),
            r.0 is None <==> self.scores().len() == 0,
            self.scores().len() == 0 ==> r.1 == i64::MIN,
    {
        proof {
            use_type_invariant(self);
            if self.scores@.len() > 0 {
                lemma_scan_has_a_best(scanned_so_far(self.candidates@, self.scores@));
            }
        }
        (self.best.best_commit(), self.best.best_score())
    }
}

} // verus!
