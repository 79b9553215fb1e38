//! A snapshot of a directory tree: which content fingerprint each relative
//! path carries.

use vstd::hash_map::StringHashMap;
use vstd::prelude::*;

verus! {

/// The character views of a sequence of strings.
pub open spec fn views_of(strings: Seq<String>) -> Seq<Seq<char>> {
    strings.map_values(|s: String| s@)
}

/// A mapping from normalized relative path to content fingerprint.
///
/// Every path occurs once. The paths are also kept in the order in which they
/// were first recorded, so that a snapshot can be walked; that order carries no
/// meaning, and nothing computed from a snapshot depends on it.
pub struct FileSnapshot {
    paths: Vec<String>,
    index: StringHashMap<String>,
}

impl View for FileSnapshot {
    type V = Map<Seq<char>, Seq<char>>;

    closed spec fn view(&self) -> Map<Seq<char>, Seq<char>> {
        self.index@.map_values(|fingerprint: String| fingerprint@)
    }
}

impl FileSnapshot {
    #[verifier::type_invariant]
    spec fn well_formed(&self) -> bool {
        &&& views_of(self.paths@).no_duplicates()
        &&& views_of(self.paths@).to_set() =~= self.index@.dom()
    }

    /// The recorded paths, in the order in which they were first recorded.
    pub closed spec fn order(&self) -> Seq<Seq<char>> {
        views_of(self.paths@)
    }

    /// A snapshot of an empty tree.
    pub fn new() -> (s: Self)
        ensures
            s@ == Map::<Seq<char>, Seq<char>>::empty(),
    {
        let s = FileSnapshot { paths: Vec::new(), index: StringHashMap::new() };
        assert(s@ =~= Map::<Seq<char>, Seq<char>>::empty());
        s
    }

    /// The number of recorded paths.
    pub fn len(&self) -> (n: usize)
        ensures
            n == self@.len(),
            self@.dom().finite(),
    {
        proof {
            use_type_invariant(self);
            views_of(self.paths@).unique_seq_to_set();
            vstd::seq_lib::seq_to_set_is_finite(views_of(self.paths@));
            assert(self@.dom() =~= self.index@.dom());
        }
        self.paths.len()
    }

    /// The fingerprint recorded for `path`, if there is one.
    pub fn get(&self, path: &str) -> (r: Option<&String>)
        ensures
            match r {
                Some(fingerprint) => self@.contains_key(path@) && fingerprint@ == self@[path@],
                None => !self@.contains_key(path@),
            },
    {
        self.index.get(path)
    }

    /// Records `fingerprint` for `path`, in place of what was recorded for it
    /// before, if anything.
    pub fn insert(&mut self, path: String, fingerprint: String)
        ensures
            final(self)@ == old(self)@.insert(path@, fingerprint@),
    {
        proof {
            use_type_invariant(&*self);
        }
        let mut taken = FileSnapshot::new();
        std::mem::swap(self, &mut taken);
        let FileSnapshot { mut paths, mut index } = taken;
        let ghost old_paths = views_of(paths@);
        if !index.contains_key(path.as_str()) {
            paths.push(path.clone());
            proof {
                assert(views_of(paths@) =~= old_paths.push(path@));
                old_paths.lemma_push_to_set_commute(path@);
            }
        } else {
            proof {
                assert(old_paths.to_set().insert(path@) =~= old_paths.to_set());
            }
        }
        let ghost before = index@;
        index.insert(path, fingerprint);
        proof {
            assert(index@.map_values(|f: String| f@) =~= before.map_values(|f: String| f@).insert(
                path@,
                fingerprint@,
            ));
        }
        *self = FileSnapshot { paths, index };
    }

    /// The recorded paths, each once.
    pub fn paths(&self) -> (r: &Vec<String>)
        ensures
            views_of(r@) == self.order(),
            self.order().no_duplicates(),
            self.order().to_set() == self@.dom(),
    {
        proof {
            use_type_invariant(self);
            assert(self@.dom() =~= self.index@.dom());
        }
        &self.paths
    }
}

} // verus!
