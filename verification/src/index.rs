//! The index from paths to places in the list: buckets of indices keyed by a
//! hash of the path, so that an entry is found without a walk through the
//! list.

use vstd::prelude::*;
use std::collections::HashMap;
use crate::entry::DirectoryInfo;

verus! {

/// The largest prime below 2^32: hashes are less than it.
pub const HASH_MODULUS: u64 = 4_294_967_291;

/// The hash of a path: its characters folded from the left, each step times
/// 31 plus the character, modulo the largest prime below 2^32.
pub open spec fn path_hash(path: Seq<char>) -> u64
    decreases path.len(),
{
    if path.len() == 0 {
        0
    } else {
        ((path_hash(path.drop_last()) * 31 + path.last() as u32 as u64) % (
        HASH_MODULUS as int)) as u64
    }
}

/// Computes the hash of a path.
pub fn hash_path(path: &str) -> (hash: u64)
    ensures
        hash == path_hash(path@),
{
    let mut hash: u64 = 0;
    proof {
        assert(path@.take(0) =~= Seq::<char>::empty());
    }
    for c in it: path.chars()
        invariant
            it.seq() == path@,
            hash < HASH_MODULUS,
            hash == path_hash(path@.take(it.index() as int)),
    {
        proof {
            let k = it.index() as int;
            assert(path@.take(k + 1).drop_last() =~= path@.take(k));
        }
        hash = (hash * 31 + (c as u32 as u64)) % HASH_MODULUS;
    }
    proof {
        assert(path@.take(path@.len() as int) =~= path@);
    }
    hash
}

/// The index: for each hash the places of the entries whose paths have that
/// hash, as far as they were recorded.
pub struct PathIndex {
    buckets: HashMap<u64, Vec<usize>>,
}

impl PathIndex {
    /// The places recorded for paths with the hash of `path`.
    pub closed spec fn candidates(&self, path: Seq<char>) -> Seq<usize> {
        if self.buckets@.contains_key(path_hash(path)) {
            self.buckets@[path_hash(path)]@
        } else {
            Seq::empty()
        }
    }

    /// Whether every place of `paths` is recorded for its path.
    pub open spec fn covers(&self, paths: Seq<Seq<char>>) -> bool {
        forall|i: int|
            0 <= i < paths.len() ==> self.candidates(#[trigger] paths[i]).contains(i as usize)
    }

    /// Whether this index holds all that `earlier` holds.
    pub open spec fn keeps(&self, earlier: PathIndex) -> bool {
        forall|path: Seq<char>, place: usize|
            earlier.candidates(path).contains(place) ==> #[trigger] self.candidates(
                path,
            ).contains(place)
    }

    /// An index with nothing recorded.
    pub fn new() -> (index: Self)
        ensures
            forall|path: Seq<char>| #[trigger] index.candidates(path).len() == 0,
    {
        PathIndex { buckets: HashMap::new() }
    }

    /// Records that the entry at `place` has the path `path`.
    pub fn record(&mut self, path: &str, place: usize)
        ensures
            forall|other: Seq<char>| #[trigger]
                final(self).candidates(other) == if path_hash(other) == path_hash(path@) {
                    old(self).candidates(other).push(place)
                } else {
                    old(self).candidates(other)
                },
            final(self).keeps(*old(self)),
            final(self).candidates(path@).contains(place),
    {
        broadcast use vstd::std_specs::hash::group_hash_axioms;

        let hash: u64 = hash_path(path);
        let mut bucket: Vec<usize> = match self.buckets.remove(&hash) {
            Some(bucket) => bucket,
            None => Vec::new(),
        };
        let ghost before = bucket@;
        bucket.push(place);
        self.buckets.insert(hash, bucket);
        proof {
            assert(before == old(self).candidates(path@));
            assert forall|other: Seq<char>| #[trigger]
                self.candidates(other) == if path_hash(other) == path_hash(path@) {
                    old(self).candidates(other).push(place)
                } else {
                    old(self).candidates(other)
                } by {}
            assert forall|other: Seq<char>, at: usize|
                old(self).candidates(other).contains(at) implies #[trigger] self.candidates(
                other,
            ).contains(at) by {
                if path_hash(other) == path_hash(path@) {
                    let k = choose|k: int|
                        0 <= k < old(self).candidates(other).len() && old(self).candidates(other)[k]
                            == at;
                    assert(self.candidates(other)[k] == at);
                }
            }
            assert(self.candidates(path@)[before.len() as int] == place);
        }
    }

    /// Whether `place` is the place of an entry with the path `path`.
    pub open spec fn is_place_of(entries: Seq<DirectoryInfo>, place: usize, path: Seq<char>) -> bool {
        place < entries.len() && entries[place as int].path@ == path
    }

    /// Finds the first place that is recorded for `path` and holds an entry
    /// of that path. What is recorded is checked against the list, so that a
    /// record that is out of date is passed over.
    pub fn lookup(&self, entries: &Vec<DirectoryInfo>, path: &str) -> (found: Option<usize>)
        ensures
            match found {
                Some(place) => {
                    &&& Self::is_place_of(entries@, place, path@)
                    &&& self.candidates(path@).contains(place)
                    &&& forall|k: int|
                        0 <= k < self.candidates(path@).len() && Self::is_place_of(
                            entries@,
                            #[trigger] self.candidates(path@)[k],
                            path@,
                        ) ==> place <= self.candidates(path@)[k]
                },
                None => forall|k: int|
                    0 <= k < self.candidates(path@).len() ==> !Self::is_place_of(
                        entries@,
                        #[trigger] self.candidates(path@)[k],
                        path@,
                    ),
            },
    {
        broadcast use vstd::std_specs::hash::group_hash_axioms;

        let hash: u64 = hash_path(path);
        let bucket = match self.buckets.get(&hash) {
            Some(bucket) => bucket,
            None => {
                return None;
            },
        };
        assert(bucket@ == self.candidates(path@));
        let mut found: Option<usize> = None;
        let mut k: usize = 0;
        while k < bucket.len()
            invariant
                k <= bucket@.len(),
                bucket@ == self.candidates(path@),
                match found {
                    Some(place) => {
                        &&& Self::is_place_of(entries@, place, path@)
                        &&& bucket@.contains(place)
                        &&& forall|j: int|
                            0 <= j < k && Self::is_place_of(entries@, #[trigger] bucket@[j], path@)
                                ==> place <= bucket@[j]
                    },
                    None => forall|j: int|
                        0 <= j < k ==> !Self::is_place_of(entries@, #[trigger] bucket@[j], path@),
                },
            decreases bucket@.len() - k,
        {
            let place: usize = bucket[k];
            if place < entries.len() && *entries[place].path.as_str() == *path {
                let better: bool = match found {
                    Some(best) => place < best,
                    None => true,
                };
                if better {
                    found = Some(place);
                }
            }
            k += 1;
        }
        found
    }
}

} // verus!
