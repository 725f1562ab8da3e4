//! Why size updates must be keyed by path: a model of the list as paths with
//! sizes, and the law that every entry ends with the size last computed for
//! its path, however admissions and updates interleave.

use vstd::prelude::*;
use crate::app::{first_at, lemma_first_at, lemma_first_at_splits, App};
use crate::entry::DirectoryInfo;

verus! {

/// What can happen to the list, as far as sizes go.
pub enum SizeEvent {
    /// A path is admitted: it gets an entry of size 0 at the end.
    Admitted(Seq<char>),
    /// A size computation for a path has ended with this size.
    Sized(Seq<char>, u64),
}

/// The entries as paths with sizes.
pub open spec fn sizes(entries: Seq<DirectoryInfo>) -> Seq<(Seq<char>, u64)> {
    Seq::new(entries.len(), |i: int| (entries[i].path@, entries[i].size))
}

/// The paths of a list of paths with sizes.
pub open spec fn paths_of(list: Seq<(Seq<char>, u64)>) -> Seq<Seq<char>> {
    Seq::new(list.len(), |i: int| list[i].0)
}

/// Whether the list has an entry for `path`.
pub open spec fn lists_path(list: Seq<(Seq<char>, u64)>, path: Seq<char>) -> bool {
    first_at(paths_of(list), path) < list.len()
}

/// The size of the first entry for `path`.
pub open spec fn size_of(list: Seq<(Seq<char>, u64)>, path: Seq<char>) -> u64
    recommends
        lists_path(list, path),
{
    list[first_at(paths_of(list), path) as int].1
}

/// Whether no path occurs twice.
pub open spec fn distinct(paths: Seq<Seq<char>>) -> bool {
    forall|i: int, j: int| 0 <= i < j < paths.len() ==> #[trigger] paths[i] != #[trigger] paths[j]
}

/// The list after one event: an admission adds an entry of size 0 at the
/// end; a size goes to the first entry of its path, and nowhere if the path
/// has no entry.
pub open spec fn after_event(list: Seq<(Seq<char>, u64)>, event: SizeEvent) -> Seq<
    (Seq<char>, u64),
> {
    match event {
        SizeEvent::Admitted(path) => list.push((path, 0u64)),
        SizeEvent::Sized(path, size) => {
            let at = first_at(paths_of(list), path);
            if at < list.len() {
                list.update(at as int, (path, size))
            } else {
                list
            }
        },
    }
}

/// The list after a run of events.
pub open spec fn after_events(list: Seq<(Seq<char>, u64)>, events: Seq<SizeEvent>) -> Seq<
    (Seq<char>, u64),
>
    decreases events.len(),
{
    if events.len() == 0 {
        list
    } else {
        after_event(after_events(list, events.drop_last()), events.last())
    }
}

/// Whether the events come as the session makes them: a path is admitted
/// once, and a size arrives only for a path that has its entry.
pub open spec fn orderly(list: Seq<(Seq<char>, u64)>, events: Seq<SizeEvent>) -> bool
    decreases events.len(),
{
    events.len() == 0 || {
        let before = after_events(list, events.drop_last());
        &&& orderly(list, events.drop_last())
        &&& match events.last() {
            SizeEvent::Admitted(path) => !lists_path(before, path),
            SizeEvent::Sized(path, _) => lists_path(before, path),
        }
    }
}

/// The size that the last computation for `path` among `events` gave.
pub open spec fn last_size(events: Seq<SizeEvent>, path: Seq<char>) -> Option<u64>
    decreases events.len(),
{
    if events.len() == 0 {
        None
    } else {
        match events.last() {
            SizeEvent::Sized(p, size) if p == path => Some(size),
            _ => last_size(events.drop_last(), path),
        }
    }
}

/// An orderly run keeps the paths of the list distinct.
pub proof fn lemma_run_keeps_distinct(list: Seq<(Seq<char>, u64)>, events: Seq<SizeEvent>)
    requires
        distinct(paths_of(list)),
        orderly(list, events),
    ensures
        distinct(paths_of(after_events(list, events))),
    decreases events.len(),
{
    if events.len() > 0 {
        lemma_run_keeps_distinct(list, events.drop_last());
        let before = after_events(list, events.drop_last());
        let after = after_events(list, events);
        match events.last() {
            SizeEvent::Admitted(path) => {
                lemma_first_at_splits(paths_of(before), path);
                assert forall|i: int, j: int| 0 <= i < j < after.len() implies #[trigger] paths_of(
                    after,
                )[i] != #[trigger] paths_of(after)[j] by {
                    assert(paths_of(after)[i] == paths_of(before)[i]);
                    if j < before.len() {
                        assert(paths_of(after)[j] == paths_of(before)[j]);
                    }
                }
            },
            SizeEvent::Sized(path, size) => {
                lemma_first_at_splits(paths_of(before), path);
                assert(paths_of(after) =~= paths_of(before));
            },
        }
    }
}

/// However admissions and size updates interleave, as long as every path is
/// admitted once and no size arrives before its entry: each entry ends with
/// the size that the last computation for its path gave. An entry for which
/// nothing was computed keeps the size it had, and a newly admitted one has
/// size 0.
pub proof fn lemma_sizes_follow_paths(
    list: Seq<(Seq<char>, u64)>,
    events: Seq<SizeEvent>,
    path: Seq<char>,
)
    requires
        distinct(paths_of(list)),
        orderly(list, events),
        lists_path(after_events(list, events), path),
    ensures
        size_of(after_events(list, events), path) == match last_size(events, path) {
            Some(size) => size,
            None => if lists_path(list, path) {
                size_of(list, path)
            } else {
                0
            },
        },
    decreases events.len(),
{
    if events.len() > 0 {
        let earlier = events.drop_last();
        let before = after_events(list, earlier);
        let after = after_events(list, events);
        lemma_run_keeps_distinct(list, earlier);
        lemma_first_at_splits(paths_of(before), path);
        lemma_first_at_splits(paths_of(after), path);
        let at = first_at(paths_of(after), path) as int;
        match events.last() {
            SizeEvent::Admitted(p) => {
                lemma_first_at_splits(paths_of(before), p);
                if lists_path(before, path) {
                    let was = first_at(paths_of(before), path) as int;
                    assert(paths_of(after)[was] == paths_of(before)[was]);
                    assert forall|i: int| 0 <= i < was implies #[trigger] paths_of(after)[i]
                        != path by {
                        assert(paths_of(after)[i] == paths_of(before)[i]);
                    }
                    lemma_first_at(paths_of(after), path, was);
                    lemma_sizes_follow_paths(list, earlier, path);
                } else {
                    assert forall|i: int| 0 <= i < before.len() implies #[trigger] paths_of(
                        after,
                    )[i] != path by {
                        assert(paths_of(after)[i] == paths_of(before)[i]);
                    }
                    assert(at == before.len());
                    lemma_never_sized(list, earlier, path);
                    lemma_absent_before(list, earlier, path);
                }
            },
            SizeEvent::Sized(p, size) => {
                lemma_first_at_splits(paths_of(before), p);
                assert(paths_of(after) =~= paths_of(before));
                let hit = first_at(paths_of(before), p) as int;
                if p == path {
                    assert(after[hit] == (p, size));
                } else {
                    assert(hit != at);
                    assert(after[at] == before[at]);
                    lemma_sizes_follow_paths(list, earlier, path);
                }
            },
        }
    }
}

/// In an orderly run no size is computed for a path that has no entry at the
/// end.
pub proof fn lemma_never_sized(list: Seq<(Seq<char>, u64)>, events: Seq<SizeEvent>, path: Seq<char>)
    requires
        orderly(list, events),
        !lists_path(after_events(list, events), path),
    ensures
        last_size(events, path) is None,
    decreases events.len(),
{
    if events.len() > 0 {
        let earlier = events.drop_last();
        let before = after_events(list, earlier);
        if lists_path(before, path) {
            lemma_keeps_present(before, events.last(), path);
        }
        lemma_never_sized(list, earlier, path);
    }
}

/// An event removes no path from the list.
pub proof fn lemma_keeps_present(list: Seq<(Seq<char>, u64)>, event: SizeEvent, path: Seq<char>)
    requires
        lists_path(list, path),
    ensures
        lists_path(after_event(list, event), path),
{
    let after = after_event(list, event);
    lemma_first_at_splits(paths_of(list), path);
    lemma_first_at_splits(paths_of(after), path);
    let was = first_at(paths_of(list), path) as int;
    match event {
        SizeEvent::Admitted(p) => {
            assert(paths_of(after)[was] == paths_of(list)[was]);
        },
        SizeEvent::Sized(p, size) => {
            lemma_first_at_splits(paths_of(list), p);
            assert(paths_of(after) =~= paths_of(list));
        },
    }
}

/// A path without an entry at the end of a run had none at its start.
pub proof fn lemma_absent_before(
    list: Seq<(Seq<char>, u64)>,
    events: Seq<SizeEvent>,
    path: Seq<char>,
)
    requires
        !lists_path(after_events(list, events), path),
    ensures
        !lists_path(list, path),
    decreases events.len(),
{
    if events.len() > 0 {
        let earlier = events.drop_last();
        let before = after_events(list, earlier);
        if lists_path(before, path) {
            lemma_keeps_present(before, events.last(), path);
        }
        lemma_absent_before(list, earlier, path);
    }
}

impl App {
    /// `apply_size_update` is the size event of the model: where it writes
    /// into the first entry of the path, as it does whenever the index knows
    /// every entry or no path occurs twice, what it does to the entries is
    /// what `Sized` does to the list of paths with sizes.
    pub proof fn lemma_size_update_is_event(&self, after: App, at: int, size: u64, duration: u64)
        requires
            self.size_written(after, at, size, duration),
            self.index_of(self.paths()[at]) == Some(at) || distinct(self.paths()),
        ensures
            sizes(after.directories@) == after_event(
                sizes(self.directories@),
                SizeEvent::Sized(self.paths()[at], size),
            ),
    {
        let list = sizes(self.directories@);
        let path = self.paths()[at];
        assert(paths_of(list) =~= self.paths());
        lemma_first_at_splits(self.paths(), path);
        assert(first_at(self.paths(), path) == at);
        assert(sizes(after.directories@) =~= after_event(list, SizeEvent::Sized(path, size)));
    }

    /// A size update for a path that has no entry is the size event of the
    /// model, which changes nothing.
    pub proof fn lemma_dropped_update_is_event(&self, after: App, path: Seq<char>, size: u64)
        requires
            self.index_of(path) is None,
            self.same_but_index(after),
        ensures
            sizes(after.directories@) == after_event(
                sizes(self.directories@),
                SizeEvent::Sized(path, size),
            ),
    {
        let list = sizes(self.directories@);
        assert(paths_of(list) =~= self.paths());
    }

    /// The admission of pending paths is a run of `Admitted` events, one for
    /// each path in order.
    pub proof fn lemma_promotion_is_events(&self, after: App, count: nat)
        requires
            self.promotes(after, count),
        ensures
            sizes(after.directories@) == after_events(
                sizes(self.directories@),
                Seq::new(count, |j: int| SizeEvent::Admitted(self.pending_directories@[j]@)),
            ),
        decreases count,
    {
        let list = sizes(self.directories@);
        let events = Seq::new(count, |j: int| SizeEvent::Admitted(self.pending_directories@[j]@));
        let len = self.directories@.len() as int;
        self.lemma_run_of_admissions(after.directories@, count);
    }

    /// Entries that continue the list with fresh ones for the first `count`
    /// pending paths are the list after that many `Admitted` events.
    pub proof fn lemma_run_of_admissions(&self, entries: Seq<DirectoryInfo>, count: nat)
        requires
            count <= self.pending_directories@.len(),
            entries.len() == self.directories@.len() + count,
            entries.take(self.directories@.len() as int) == self.directories@,
            forall|j: int|
                0 <= j < count ==> (#[trigger] entries[self.directories@.len() + j]).is_fresh(
                    self.pending_directories@[j]@,
                ),
        ensures
            sizes(entries) == after_events(
                sizes(self.directories@),
                Seq::new(count, |j: int| SizeEvent::Admitted(self.pending_directories@[j]@)),
            ),
        decreases count,
    {
        let len = self.directories@.len() as int;
        let events = Seq::new(count, |j: int| SizeEvent::Admitted(self.pending_directories@[j]@));
        if count == 0 {
            assert(entries =~= self.directories@);
        } else {
            let shorter = entries.drop_last();
            assert(shorter.take(len) =~= entries.take(len));
            assert forall|j: int| 0 <= j < count - 1 implies (#[trigger] shorter[len + j]).is_fresh(
                self.pending_directories@[j]@,
            ) by {
                assert(shorter[len + j] == entries[len + j]);
            }
            self.lemma_run_of_admissions(shorter, (count - 1) as nat);
            let fewer = Seq::new(
                (count - 1) as nat,
                |j: int| SizeEvent::Admitted(self.pending_directories@[j]@),
            );
            assert(events.drop_last() =~= fewer);
            assert(entries[len + count - 1].is_fresh(self.pending_directories@[count - 1]@));
            assert(sizes(entries) =~= sizes(shorter).push(
                (self.pending_directories@[count - 1]@, 0u64),
            ));
        }
    }
}

} // verus!
