//! The view model of a session: the entries found so far, the cursor and the
//! page, what is selected, and the ledger of freed space.

use vstd::prelude::*;
use vstd::string::StringExecFns;
use std::time::Instant;
use crate::deletion::DeletionProgress;
use crate::entry::{CalculationStatus, DirectoryInfo, DiscoveryMessage};
use crate::format::{
    age_text, elapsed_seconds, format_last_modified, format_size, size_text, Timestamp,
};
use crate::ignore::IgnorePatterns;
use crate::index::PathIndex;
use crate::size::capped;
use crate::text::{decimal, push_decimal, texts};

verus! {

/// A moment on the monotonic clock of the standard library.
#[verifier::external_type_specification]
#[verifier::external_body]
pub struct ExInstant(std::time::Instant);

/// `Instant::now` from the standard library: the moment of the call. Nothing
/// is claimed of the value.
pub assume_specification[ Instant::now ]() -> (now: Instant)
;

/// How far discovery has come.
#[derive(Debug, Clone, PartialEq)]
pub enum DiscoveryStatus {
    NotStarted,
    Discovering,
    Complete,
    Error(String),
}

/// One credit in the ledger of freed space.
#[derive(Debug)]
pub struct FreedSpaceEntry {
    pub path: String,
    pub size: u64,
    pub timestamp: Instant,
}

/// The number of pages that `len` entries fill at `items_per_page` a page.
pub open spec fn page_count(len: nat, items_per_page: nat) -> nat {
    if len == 0 || items_per_page == 0 {
        0
    } else {
        ((len - 1) / items_per_page as int + 1) as nat
    }
}

/// The entries that are selected, in order.
pub open spec fn selected_of(entries: Seq<DirectoryInfo>) -> Seq<DirectoryInfo> {
    entries.filter(|entry: DirectoryInfo| entry.selected)
}

/// The sizes of `entries` added up.
pub open spec fn sum_sizes(entries: Seq<DirectoryInfo>) -> nat
    decreases entries.len(),
{
    if entries.len() == 0 {
        0
    } else {
        sum_sizes(entries.drop_last()) + entries.last().size as nat
    }
}

/// Taking one more entry into a prefix adds it to the selected ones if it is
/// selected and changes nothing if it is not.
pub proof fn lemma_selected_step(entries: Seq<DirectoryInfo>, i: int)
    requires
        0 <= i < entries.len(),
    ensures
        selected_of(entries.take(i + 1)) == if entries[i].selected {
            selected_of(entries.take(i)).push(entries[i])
        } else {
            selected_of(entries.take(i))
        },
{
    reveal(Seq::filter);
    assert(entries.take(i + 1).drop_last() =~= entries.take(i));
}

/// The result of one size computation: the directory by its path, its size
/// in bytes, and how long the computation took in milliseconds.
#[derive(Debug, Clone)]
pub struct SizeUpdate {
    pub path: String,
    pub size: u64,
    pub duration: u64,
}

/// Where `path` first stands in `paths`, or the length of `paths` if it does
/// not occur.
pub open spec fn first_at(paths: Seq<Seq<char>>, path: Seq<char>) -> nat
    decreases paths.len(),
{
    if paths.len() > 0 && paths[0] != path {
        1 + first_at(paths.skip(1), path)
    } else {
        0
    }
}

/// If `path` does not stand before index `k` and stands there, or the list
/// ends there, `k` is where it first stands.
pub proof fn lemma_first_at(paths: Seq<Seq<char>>, path: Seq<char>, k: int)
    requires
        0 <= k <= paths.len(),
        forall|i: int| 0 <= i < k ==> #[trigger] paths[i] != path,
        k < paths.len() ==> paths[k] == path,
    ensures
        first_at(paths, path) == k,
    decreases k,
{
    if k > 0 {
        let rest = paths.skip(1);
        assert forall|i: int| 0 <= i < k - 1 implies #[trigger] rest[i] != path by {
            assert(rest[i] == paths[i + 1]);
        }
        lemma_first_at(rest, path, k - 1);
    }
}

/// No path stands before the first place of `path`, and `path` stands there
/// if the place is within the list.
pub proof fn lemma_first_at_splits(paths: Seq<Seq<char>>, path: Seq<char>)
    ensures
        first_at(paths, path) <= paths.len(),
        forall|i: int| 0 <= i < first_at(paths, path) ==> #[trigger] paths[i] != path,
        first_at(paths, path) < paths.len() ==> paths[first_at(paths, path) as int] == path,
    decreases paths.len(),
{
    if paths.len() > 0 && paths[0] != path {
        let rest = paths.skip(1);
        lemma_first_at_splits(rest, path);
        assert forall|i: int| 0 <= i < first_at(paths, path) implies #[trigger] paths[i]
            != path by {
            if i > 0 {
                assert(paths[i] == rest[i - 1]);
            }
        }
        if first_at(paths, path) < paths.len() {
            assert(paths[first_at(paths, path) as int] == rest[first_at(rest, path) as int]);
        }
    }
}

/// Whether `after` is `before` with the result of a size computation written
/// in: the size, its text, the time it took, and the status `Completed`.
pub open spec fn is_sized(
    before: DirectoryInfo,
    after: DirectoryInfo,
    size: u64,
    duration: u64,
) -> bool {
    &&& after == (DirectoryInfo {
        size,
        formatted_size: after.formatted_size,
        calculation_status: CalculationStatus::Completed,
        calculation_time: Some(duration),
        ..before
    })
    &&& after.formatted_size@ == size_text(size as nat)
}

/// The indices of the entries from `from` on that wait for their size to be
/// computed, in order, `budget` of them at most.
pub open spec fn waiting_from(entries: Seq<DirectoryInfo>, from: int, budget: nat) -> Seq<int>
    decreases entries.len() - from,
{
    if from < 0 || from >= entries.len() || budget == 0 {
        Seq::empty()
    } else if entries[from].calculation_status is NotStarted {
        seq![from] + waiting_from(entries, from + 1, (budget - 1) as nat)
    } else {
        waiting_from(entries, from + 1, budget)
    }
}

/// The state of a session.
pub struct App {
    /// The entries, in the order they were admitted.
    pub directories: Vec<DirectoryInfo>,
    /// The index of the entry under the cursor.
    pub selected: usize,
    pub pattern: String,
    pub path: String,
    pub ignore_patterns: IgnorePatterns,
    pub current_page: usize,
    pub selection_mode: bool,
    pub deletion_progress: Option<DeletionProgress>,
    /// Bytes freed in this session.
    pub total_freed_space: u64,
    /// The credits that make up `total_freed_space`, oldest first.
    pub freed_space_history: Vec<FreedSpaceEntry>,
    pub discovery_status: DiscoveryStatus,
    /// Paths found and not yet admitted, oldest first.
    pub pending_directories: Vec<String>,
    /// How many pending paths are admitted at a time.
    pub batch_size: usize,
    /// How many paths discovery has reported.
    pub total_discovered: usize,
    /// Where in the list the entry of a path stands.
    pub path_index: PathIndex,
}

impl App {
    /// The paths of the entries, in order.
    pub open spec fn paths(&self) -> Seq<Seq<char>> {
        Seq::new(self.directories@.len(), |i: int| self.directories@[i].path@)
    }

    /// The paths that discovery has handed over and that the session still
    /// holds, in the order they came: those of the entries, then the pending
    /// ones.
    pub open spec fn discovered(&self) -> Seq<Seq<char>> {
        self.paths() + texts(self.pending_directories@)
    }

    /// The cursor points at an entry, or at 0 when there is none.
    pub open spec fn cursor_valid(&self) -> bool {
        if self.directories@.len() == 0 {
            self.selected == 0
        } else {
            self.selected < self.directories@.len()
        }
    }

    /// The index knows the place of every entry.
    pub open spec fn indexed(&self) -> bool {
        self.path_index.covers(self.paths())
    }

    /// The page shown is the one that holds the cursor.
    pub open spec fn page_matches(&self, items_per_page: usize) -> bool {
        items_per_page > 0 && self.current_page == self.selected / items_per_page
    }

    /// A session with these entries and nothing else: the cursor on the first
    /// entry, discovery not started, nothing pending, nothing freed.
    pub open spec fn is_initial(
        &self,
        directories: Vec<DirectoryInfo>,
        pattern: String,
        path: String,
        ignore_patterns: IgnorePatterns,
    ) -> bool {
        &&& self.directories == directories
        &&& self.selected == 0
        &&& self.pattern == pattern
        &&& self.path == path
        &&& self.ignore_patterns == ignore_patterns
        &&& self.current_page == 0
        &&& !self.selection_mode
        &&& self.deletion_progress is None
        &&& self.total_freed_space == 0
        &&& self.freed_space_history@.len() == 0
        &&& self.discovery_status == DiscoveryStatus::NotStarted
        &&& self.pending_directories@.len() == 0
        &&& self.batch_size == 5
        &&& self.total_discovered == 0
    }

    /// A session over `directories` that ignores nothing.
    pub fn new(directories: Vec<DirectoryInfo>, pattern: String, path: String) -> (app: Self)
        ensures
            app.is_initial(directories, pattern, path, app.ignore_patterns),
            app.ignore_patterns.sources().len() == 0,
            app.indexed(),
    {
        Self::new_with_ignore(directories, pattern, path, IgnorePatterns::empty())
    }

    /// A session over `directories` with the given ignore patterns.
    pub fn new_with_ignore(
        directories: Vec<DirectoryInfo>,
        pattern: String,
        path: String,
        ignore_patterns: IgnorePatterns,
    ) -> (app: Self)
        ensures
            app.is_initial(directories, pattern, path, ignore_patterns),
            app.indexed(),
    {
        let mut path_index = PathIndex::new();
        let mut i: usize = 0;
        while i < directories.len()
            invariant
                i <= directories@.len(),
                forall|j: int|
                    0 <= j < i ==> path_index.candidates(
                        #[trigger] directories@[j].path@,
                    ).contains(j as usize),
            decreases directories@.len() - i,
        {
            let ghost before = path_index;
            path_index.record(directories[i].path.as_str(), i);
            assert forall|j: int| 0 <= j < i + 1 implies path_index.candidates(
                #[trigger] directories@[j].path@,
            ).contains(j as usize) by {
                if j < i {
                    assert(before.candidates(directories@[j].path@).contains(j as usize));
                }
            }
            i += 1;
        }
        App {
            directories,
            selected: 0,
            pattern,
            path,
            ignore_patterns,
            current_page: 0,
            selection_mode: false,
            deletion_progress: None,
            total_freed_space: 0,
            freed_space_history: Vec::new(),
            discovery_status: DiscoveryStatus::NotStarted,
            pending_directories: Vec::new(),
            batch_size: 5,
            total_discovered: 0,
            path_index,
        }
    }

    /// Moves the cursor to the next entry, from the last to the first, and
    /// shows the page that holds it. Nothing moves in an empty list.
    pub fn next(&mut self, items_per_page: usize)
        requires
            items_per_page > 0,
        ensures
            old(self).directories@.len() == 0 ==> *final(self) == *old(self),
            old(self).directories@.len() > 0 ==> *final(self) == (App {
                selected: ((old(self).selected + 1) % (old(self).directories@.len() as int)) as usize,
                current_page: (((old(self).selected + 1) % (old(self).directories@.len() as int))
                    / (items_per_page as int)) as usize,
                ..*old(self)
            }),
            old(self).directories@.len() > 0 ==> final(self).cursor_valid(),
            old(self).directories@.len() > 0 ==> final(self).page_matches(items_per_page),
            old(self).entries_kept_in(*final(self)),
            old(self).indexed() ==> final(self).indexed(),
            old(self).cursor_valid() ==> final(self).cursor_valid(),
    {
        let len: usize = self.directories.len();
        if len > 0 {
            if len == 1 {
                self.selected = 0;
                assert((old(self).selected + 1) % 1 == 0);
            } else {
                proof {
                    vstd::arithmetic::div_mod::lemma_add_mod_noop(
                        old(self).selected as int,
                        1,
                        len as int,
                    );
                    vstd::arithmetic::div_mod::lemma_small_mod(1, len as nat);
                }
                self.selected = (self.selected % len + 1) % len;
            }
            self.update_selection_for_pagination(items_per_page);
        }
        proof {
            old(self).lemma_same_paths_kept(*self);
        }
    }

    /// Moves the cursor to the entry before, from the first to the last, and
    /// shows the page that holds it. Nothing moves in an empty list.
    pub fn previous(&mut self, items_per_page: usize)
        requires
            items_per_page > 0,
        ensures
            old(self).directories@.len() == 0 ==> *final(self) == *old(self),
            old(self).directories@.len() > 0 ==> *final(self) == (App {
                selected: old(self).stepped_back(),
                current_page: (old(self).stepped_back() / items_per_page) as usize,
                ..*old(self)
            }),
            old(self).directories@.len() > 0 ==> final(self).cursor_valid(),
            old(self).directories@.len() > 0 ==> final(self).page_matches(items_per_page),
            old(self).entries_kept_in(*final(self)),
            old(self).indexed() ==> final(self).indexed(),
            old(self).cursor_valid() ==> final(self).cursor_valid(),
    {
        let len: usize = self.directories.len();
        if len > 0 {
            self.selected = if self.selected == 0 {
                len - 1
            } else {
                self.selected - 1
            };
            self.update_selection_for_pagination(items_per_page);
        }
        proof {
            old(self).lemma_same_paths_kept(*self);
        }
    }

    /// Where the cursor goes on a step back: to the last entry from the first,
    /// else one up, and never past the last entry.
    pub open spec fn stepped_back(&self) -> usize {
        let len = self.directories@.len();
        if self.selected == 0 || self.selected > len {
            (len - 1) as usize
        } else {
            (self.selected - 1) as usize
        }
    }

    /// Puts the cursor on the first entry and shows the first page. Nothing
    /// moves in an empty list.
    pub fn select_first(&mut self)
        ensures
            old(self).directories@.len() == 0 ==> *final(self) == *old(self),
            old(self).directories@.len() > 0 ==> *final(self) == (App {
                selected: 0,
                current_page: 0,
                ..*old(self)
            }),
            old(self).directories@.len() > 0 ==> final(self).cursor_valid(),
            forall|items_per_page: usize|
                old(self).directories@.len() > 0 && items_per_page > 0 ==> #[trigger] final(self).page_matches(items_per_page),
            old(self).entries_kept_in(*final(self)),
            old(self).indexed() ==> final(self).indexed(),
            old(self).cursor_valid() ==> final(self).cursor_valid(),
    {
        if self.directories.len() > 0 {
            self.selected = 0;
            self.current_page = 0;
        }
        proof {
            old(self).lemma_same_paths_kept(*self);
        }
    }

    /// Puts the cursor on the last entry and shows the page that holds it,
    /// at `items_per_page` entries a page. Nothing moves in an empty list.
    pub fn select_last(&mut self, items_per_page: usize)
        requires
            items_per_page > 0,
        ensures
            old(self).directories@.len() == 0 ==> *final(self) == *old(self),
            old(self).directories@.len() > 0 ==> *final(self) == (App {
                selected: (old(self).directories@.len() - 1) as usize,
                current_page: ((old(self).directories@.len() - 1) / (items_per_page as int)) as usize,
                ..*old(self)
            }),
            old(self).directories@.len() > 0 ==> final(self).cursor_valid(),
            old(self).directories@.len() > 0 ==> final(self).page_matches(items_per_page),
            old(self).entries_kept_in(*final(self)),
            old(self).indexed() ==> final(self).indexed(),
            old(self).cursor_valid() ==> final(self).cursor_valid(),
    {
        let len: usize = self.directories.len();
        if len > 0 {
            self.selected = len - 1;
            self.current_page = (len - 1) / items_per_page;
        }
        proof {
            old(self).lemma_same_paths_kept(*self);
        }
    }

    /// The entry under the cursor, if the cursor points at one.
    pub fn get_selected_directory(&self) -> (entry: Option<&DirectoryInfo>)
        ensures
            self.selected < self.directories@.len() ==> entry == Some(
                &self.directories@[self.selected as int],
            ),
            self.selected >= self.directories@.len() ==> entry is None,
    {
        if self.selected < self.directories.len() {
            Some(&self.directories[self.selected])
        } else {
            None
        }
    }

    /// The number of entries.
    pub fn directory_count(&self) -> (count: usize)
        ensures
            count == self.directories@.len(),
    {
        self.directories.len()
    }

    /// Whether there is no entry.
    pub fn is_empty(&self) -> (empty: bool)
        ensures
            empty == (self.directories@.len() == 0),
    {
        self.directories.len() == 0
    }

    /// The number of pages at `items_per_page` entries a page; 0 for an empty
    /// list and for pages of no entries.
    pub fn total_pages(&self, items_per_page: usize) -> (pages: usize)
        ensures
            pages == page_count(self.directories@.len(), items_per_page as nat),
    {
        if self.directories.len() == 0 || items_per_page == 0 {
            0
        } else {
            (self.directories.len() - 1) / items_per_page + 1
        }
    }

    /// Brings the cursor back into the list if it is beyond the last entry,
    /// and shows the page that holds it.
    pub fn update_selection_for_pagination(&mut self, items_per_page: usize)
        requires
            items_per_page > 0,
        ensures
            *final(self) == (App {
                selected: old(self).clamped_cursor(),
                current_page: (old(self).clamped_cursor() / items_per_page) as usize,
                ..*old(self)
            }),
            final(self).page_matches(items_per_page),
            old(self).entries_kept_in(*final(self)),
            old(self).indexed() ==> final(self).indexed(),
            old(self).cursor_valid() ==> final(self).cursor_valid(),
    {
        if self.selected >= self.directories.len() {
            self.selected = if self.directories.len() == 0 {
                0
            } else {
                self.directories.len() - 1
            };
        }
        self.current_page = self.selected / items_per_page;
        proof {
            old(self).lemma_same_paths_kept(*self);
        }
    }

    /// The cursor, or the last entry if the cursor is beyond it.
    pub open spec fn clamped_cursor(&self) -> usize {
        let len = self.directories@.len();
        if self.selected < len {
            self.selected
        } else if len == 0 {
            0
        } else {
            (len - 1) as usize
        }
    }

    /// The first index of the page shown, if that page holds an entry.
    pub open spec fn page_start(&self, items_per_page: usize) -> Option<int> {
        let start = self.current_page * items_per_page;
        if start < self.directories@.len() {
            Some(start)
        } else {
            None
        }
    }

    /// The end of the page shown: `items_per_page` entries from `start`, or as
    /// many as there are.
    pub open spec fn page_end(&self, start: int, items_per_page: usize) -> int {
        if start + items_per_page < self.directories@.len() {
            start + items_per_page
        } else {
            self.directories@.len() as int
        }
    }

    /// The entries of the page shown, in order; none if the page lies beyond
    /// the list.
    pub fn visible_items(&self, items_per_page: usize) -> (items: Vec<&DirectoryInfo>)
        ensures
            match self.page_start(items_per_page) {
                Some(start) => {
                    &&& items@.len() == self.page_end(start, items_per_page) - start
                    &&& forall|k: int|
                        0 <= k < items@.len() ==> *(#[trigger] items@[k]) == self.directories@[start
                            + k]
                },
                None => items@.len() == 0,
            },
    {
        let mut items: Vec<&DirectoryInfo> = Vec::new();
        let len: usize = self.directories.len();
        let start: usize = match self.current_page.checked_mul(items_per_page) {
            Some(start) => start,
            None => {
                return items;
            },
        };
        if start >= len {
            return items;
        }
        let end: usize = if items_per_page < len - start {
            start + items_per_page
        } else {
            len
        };
        let mut i: usize = start;
        while i < end
            invariant
                start <= i <= end <= self.directories@.len(),
                items@.len() == i - start,
                forall|k: int|
                    0 <= k < items@.len() ==> *(#[trigger] items@[k]) == self.directories@[start + k],
            decreases end - i,
        {
            items.push(&self.directories[i]);
            i += 1;
        }
        items
    }

    /// The place of the cursor within its page.
    pub fn visible_selected_index(&self, items_per_page: usize) -> (index: usize)
        requires
            items_per_page > 0,
        ensures
            index == self.selected % items_per_page,
    {
        self.selected % items_per_page
    }

    /// Shows the next page and puts the cursor on its first entry; on the
    /// last page nothing changes.
    pub fn next_page(&mut self, items_per_page: usize)
        ensures
            *final(self) == if old(self).current_page + 1 < page_count(
                old(self).directories@.len(),
                items_per_page as nat,
            ) {
                App {
                    current_page: (old(self).current_page + 1) as usize,
                    selected: ((old(self).current_page + 1) * items_per_page) as usize,
                    ..*old(self)
                }
            } else {
                *old(self)
            },
            *final(self) != *old(self) ==> final(self).cursor_valid(),
            *final(self) != *old(self) ==> final(self).page_matches(items_per_page),
            old(self).page_matches(items_per_page) ==> final(self).page_matches(items_per_page),
            old(self).entries_kept_in(*final(self)),
            old(self).indexed() ==> final(self).indexed(),
            old(self).cursor_valid() ==> final(self).cursor_valid(),
    {
        let pages: usize = self.total_pages(items_per_page);
        if pages > 0 && self.current_page < pages - 1 {
            proof {
                lemma_page_starts_in_list(
                    self.directories.len() as nat,
                    items_per_page as nat,
                    (self.current_page + 1) as nat,
                );
            }
            self.current_page = self.current_page + 1;
            self.selected = self.current_page * items_per_page;
        }
        proof {
            old(self).lemma_same_paths_kept(*self);
        }
    }

    /// The page that a step back from `current_page` leads to: the one
    /// before, or the last page if that lies beyond it.
    pub open spec fn page_before(&self, items_per_page: usize) -> usize {
        let pages = page_count(self.directories@.len(), items_per_page as nat);
        if pages == 0 {
            0
        } else if self.current_page - 1 < pages {
            (self.current_page - 1) as usize
        } else {
            (pages - 1) as usize
        }
    }

    /// Shows the page before and puts the cursor on its first entry; on the
    /// first page nothing changes. A page beyond the list is left for the
    /// last page.
    pub fn previous_page(&mut self, items_per_page: usize)
        ensures
            *final(self) == if old(self).current_page > 0 {
                App {
                    current_page: old(self).page_before(items_per_page),
                    selected: (old(self).page_before(items_per_page) * items_per_page) as usize,
                    ..*old(self)
                }
            } else {
                *old(self)
            },
            old(self).current_page > 0 ==> final(self).cursor_valid(),
            items_per_page > 0 && (old(self).current_page > 0 || old(self).page_matches(
                items_per_page,
            )) ==> final(self).page_matches(items_per_page),
            old(self).entries_kept_in(*final(self)),
            old(self).indexed() ==> final(self).indexed(),
            old(self).cursor_valid() ==> final(self).cursor_valid(),
    {
        if self.current_page > 0 {
            let pages: usize = self.total_pages(items_per_page);
            let page: usize = if pages == 0 {
                0
            } else if self.current_page - 1 < pages {
                self.current_page - 1
            } else {
                pages - 1
            };
            proof {
                if pages > 0 {
                    lemma_page_starts_in_list(
                        self.directories.len() as nat,
                        items_per_page as nat,
                        page as nat,
                    );
                }
            }
            self.current_page = page;
            self.selected = page * items_per_page;
        }
        proof {
            old(self).lemma_same_paths_kept(*self);
        }
    }

    /// Whether there is a page `page` to go to.
    pub open spec fn goes_to(&self, page: usize, items_per_page: usize) -> bool {
        page < page_count(self.directories@.len(), items_per_page as nat)
    }

    /// Shows page `page` and puts the cursor on its first entry; a page that
    /// does not exist changes nothing.
    pub fn go_to_page(&mut self, page: usize, items_per_page: usize)
        ensures
            *final(self) == if page < page_count(
                old(self).directories@.len(),
                items_per_page as nat,
            ) {
                App {
                    current_page: page,
                    selected: (page * items_per_page) as usize,
                    ..*old(self)
                }
            } else {
                *old(self)
            },
            old(self).goes_to(page, items_per_page) ==> final(self).cursor_valid(),
            old(self).goes_to(page, items_per_page) ==> final(self).page_matches(items_per_page),
            old(self).page_matches(items_per_page) ==> final(self).page_matches(items_per_page),
            old(self).entries_kept_in(*final(self)),
            old(self).indexed() ==> final(self).indexed(),
            old(self).cursor_valid() ==> final(self).cursor_valid(),
    {
        if page < self.total_pages(items_per_page) {
            proof {
                lemma_page_starts_in_list(
                    self.directories.len() as nat,
                    items_per_page as nat,
                    page as nat,
                );
            }
            self.current_page = page;
            self.selected = page * items_per_page;
        }
        proof {
            old(self).lemma_same_paths_kept(*self);
        }
    }

    /// Turns the selection mode on or off.
    pub fn toggle_selection_mode(&mut self)
        ensures
            *final(self) == (App { selection_mode: !old(self).selection_mode, ..*old(self) }),
            old(self).entries_kept_in(*final(self)),
            old(self).indexed() ==> final(self).indexed(),
            old(self).cursor_valid() ==> final(self).cursor_valid(),
    {
        self.selection_mode = !self.selection_mode;
        proof {
            old(self).lemma_same_paths_kept(*self);
        }
    }

    /// Whether `after` is this session with other entries, and nothing else
    /// changed.
    pub open spec fn same_except_entries(&self, after: App) -> bool {
        after == (App { directories: after.directories, ..*self })
    }

    /// Whether `after` is this session with the entry under the cursor marked
    /// as `chosen` and nothing else changed; with the cursor at no entry,
    /// whether nothing changed at all.
    pub open spec fn current_marked(&self, after: App, chosen: bool) -> bool {
        if self.selected < self.directories@.len() {
            &&& self.same_except_entries(after)
            &&& after.directories@ == self.directories@.update(
                self.selected as int,
                DirectoryInfo { selected: chosen, ..self.directories@[self.selected as int] },
            )
        } else {
            after == *self
        }
    }

    /// Selects the entry under the cursor if it is not selected, and
    /// deselects it if it is.
    pub fn toggle_current_selection(&mut self)
        ensures
            old(self).selected < old(self).directories@.len() ==> old(self).current_marked(
                *final(self),
                !old(self).directories@[old(self).selected as int].selected,
            ),
            old(self).selected >= old(self).directories@.len() ==> *final(self) == *old(self),
            old(self).entries_kept_in(*final(self)),
            old(self).indexed() ==> final(self).indexed(),
            old(self).cursor_valid() ==> final(self).cursor_valid(),
    {
        if self.selected < self.directories.len() {
            let chosen: bool = !self.directories[self.selected].selected;
            self.directories[self.selected].selected = chosen;
        }
        proof {
            old(self).lemma_same_paths_kept(*self);
        }
    }

    /// Selects the entry under the cursor.
    pub fn select_current(&mut self)
        ensures
            old(self).current_marked(*final(self), true),
            old(self).entries_kept_in(*final(self)),
            old(self).indexed() ==> final(self).indexed(),
            old(self).cursor_valid() ==> final(self).cursor_valid(),
    {
        if self.selected < self.directories.len() {
            self.directories[self.selected].selected = true;
        }
        proof {
            old(self).lemma_same_paths_kept(*self);
        }
    }

    /// Deselects the entry under the cursor.
    pub fn deselect_current(&mut self)
        ensures
            old(self).current_marked(*final(self), false),
            old(self).entries_kept_in(*final(self)),
            old(self).indexed() ==> final(self).indexed(),
            old(self).cursor_valid() ==> final(self).cursor_valid(),
    {
        if self.selected < self.directories.len() {
            self.directories[self.selected].selected = false;
        }
        proof {
            old(self).lemma_same_paths_kept(*self);
        }
    }

    fn mark_all(&mut self, chosen: bool)
        ensures
            old(self).all_marked(*final(self), chosen),
    {
        let mut i: usize = 0;
        while i < self.directories.len()
            invariant
                i <= self.directories@.len(),
                self.directories@.len() == old(self).directories@.len(),
                *self == (App { directories: self.directories, ..*old(self) }),
                forall|j: int|
                    0 <= j < i ==> #[trigger] self.directories@[j] == (DirectoryInfo {
                        selected: chosen,
                        ..old(self).directories@[j]
                    }),
                forall|j: int|
                    i <= j < self.directories@.len() ==> #[trigger] self.directories@[j]
                        == old(self).directories@[j],
            decreases self.directories@.len() - i,
        {
            self.directories[i].selected = chosen;
            i += 1;
        }
        assert(self.directories@ =~= Seq::new(
            old(self).directories@.len(),
            |i: int| DirectoryInfo { selected: chosen, ..old(self).directories@[i] },
        ));
    }

    /// Whether `after` is this session with every entry marked as `chosen`
    /// and nothing else changed.
    pub open spec fn all_marked(&self, after: App, chosen: bool) -> bool {
        &&& self.same_except_entries(after)
        &&& after.directories@ == Seq::new(
            self.directories@.len(),
            |i: int| DirectoryInfo { selected: chosen, ..self.directories@[i] },
        )
    }

    /// Selects every entry.
    pub fn select_all(&mut self)
        ensures
            old(self).all_marked(*final(self), true),
            old(self).entries_kept_in(*final(self)),
            old(self).indexed() ==> final(self).indexed(),
            old(self).cursor_valid() ==> final(self).cursor_valid(),
    {
        self.mark_all(true);
        proof {
            old(self).lemma_same_paths_kept(*self);
        }
    }

    /// Deselects every entry.
    pub fn deselect_all(&mut self)
        ensures
            old(self).all_marked(*final(self), false),
            old(self).entries_kept_in(*final(self)),
            old(self).indexed() ==> final(self).indexed(),
            old(self).cursor_valid() ==> final(self).cursor_valid(),
    {
        self.mark_all(false);
        proof {
            old(self).lemma_same_paths_kept(*self);
        }
    }

    /// The number of selected entries.
    pub fn get_selected_count(&self) -> (count: usize)
        ensures
            count == selected_of(self.directories@).len(),
    {
        let mut count: usize = 0;
        let mut i: usize = 0;
        while i < self.directories.len()
            invariant
                i <= self.directories@.len(),
                count <= i,
                count == selected_of(self.directories@.take(i as int)).len(),
            decreases self.directories@.len() - i,
        {
            proof {
                lemma_selected_step(self.directories@, i as int);
            }
            if self.directories[i].selected {
                count += 1;
            }
            i += 1;
        }
        assert(self.directories@.take(i as int) =~= self.directories@);
        count
    }

    /// The selected entries, in order.
    pub fn get_selected_directories(&self) -> (chosen: Vec<&DirectoryInfo>)
        ensures
            chosen@.len() == selected_of(self.directories@).len(),
            forall|k: int|
                0 <= k < chosen@.len() ==> *(#[trigger] chosen@[k]) == selected_of(
                    self.directories@,
                )[k],
    {
        let mut chosen: Vec<&DirectoryInfo> = Vec::new();
        let mut i: usize = 0;
        while i < self.directories.len()
            invariant
                i <= self.directories@.len(),
                chosen@.len() == selected_of(self.directories@.take(i as int)).len(),
                forall|k: int|
                    0 <= k < chosen@.len() ==> *(#[trigger] chosen@[k]) == selected_of(
                        self.directories@.take(i as int),
                    )[k],
            decreases self.directories@.len() - i,
        {
            proof {
                lemma_selected_step(self.directories@, i as int);
            }
            if self.directories[i].selected {
                chosen.push(&self.directories[i]);
            }
            i += 1;
        }
        assert(self.directories@.take(i as int) =~= self.directories@);
        chosen
    }

    /// The sizes of the selected entries added up, as far as 64 bits hold
    /// the sum.
    pub fn get_selected_total_size(&self) -> (total: u64)
        ensures
            total == capped(sum_sizes(selected_of(self.directories@))),
    {
        let mut total: u64 = 0;
        let mut i: usize = 0;
        while i < self.directories.len()
            invariant
                i <= self.directories@.len(),
                total == capped(sum_sizes(selected_of(self.directories@.take(i as int)))),
            decreases self.directories@.len() - i,
        {
            proof {
                lemma_selected_step(self.directories@, i as int);
                let before = selected_of(self.directories@.take(i as int));
                let entry = self.directories@[i as int];
                assert(before.push(entry).drop_last() =~= before);
            }
            if self.directories[i].selected {
                total = total.saturating_add(self.directories[i].size);
            }
            i += 1;
        }
        assert(self.directories@.take(i as int) =~= self.directories@);
        total
    }

    /// Whether `after` has all the entries of this session at their places,
    /// with their paths: the list has only grown.
    pub open spec fn entries_kept_in(&self, after: App) -> bool {
        &&& self.paths().len() <= after.paths().len()
        &&& after.paths().take(self.paths().len() as int) == self.paths()
    }

    /// A session with the same entries, or the same entries marked otherwise,
    /// has kept every entry at its place, with its path.
    pub proof fn lemma_same_paths_kept(&self, after: App)
        requires
            after.directories@.len() == self.directories@.len(),
            forall|i: int|
                0 <= i < self.directories@.len() ==> (#[trigger] after.directories@[i]).path
                    == self.directories@[i].path,
        ensures
            self.entries_kept_in(after),
            after.path_index == self.path_index && self.indexed() ==> after.indexed(),
    {
        assert(after.paths() =~= self.paths());
        assert(after.paths().take(self.paths().len() as int) =~= self.paths());
    }

    /// Deselecting all twice is deselecting all once, and so for selecting
    /// all: the second time changes nothing.
    pub proof fn lemma_mark_all_idempotent(&self, once: App, twice: App, chosen: bool)
        requires
            self.all_marked(once, chosen),
            once.all_marked(twice, chosen),
        ensures
            twice.directories@ == once.directories@,
            once.same_except_entries(twice),
            self.all_marked(twice, chosen),
    {
        assert(twice.directories@ =~= once.directories@);
    }

    /// Whether `after` is this session with the first `count` pending paths
    /// admitted: each has a fresh entry at the end of the list, in order, and
    /// is no longer pending; the index has taken the new entries in and
    /// nothing else changed.
    pub open spec fn promotes(&self, after: App, count: nat) -> bool {
        let len = self.directories@.len();
        &&& count <= self.pending_directories@.len()
        &&& after == (App {
            directories: after.directories,
            pending_directories: after.pending_directories,
            path_index: after.path_index,
            ..*self
        })
        &&& after.path_index.keeps(self.path_index)
        &&& self.indexed() ==> after.indexed()
        &&& after.directories@.len() == len + count
        &&& after.directories@.take(len as int) == self.directories@
        &&& forall|j: int|
            0 <= j < count ==> (#[trigger] after.directories@[len + j]).is_fresh(
                self.pending_directories@[j]@,
            )
        &&& after.pending_directories@ == self.pending_directories@.skip(count as int)
    }

    /// How many pending paths one batch promotes: `batch_size`, or all that
    /// are pending if they are fewer.
    pub open spec fn batch_len(&self) -> nat {
        if self.batch_size < self.pending_directories@.len() {
            self.batch_size as nat
        } else {
            self.pending_directories@.len()
        }
    }

    fn promote(&mut self, count: usize)
        requires
            count <= old(self).pending_directories@.len(),
        ensures
            old(self).promotes(*final(self), count as nat),
    {
        let mut batch = self.pending_directories.split_off(count);
        core::mem::swap(&mut self.pending_directories, &mut batch);
        let ghost len = self.directories@.len();
        assert(batch@ =~= old(self).pending_directories@.take(count as int));
        assert(self.pending_directories@ =~= old(self).pending_directories@.skip(count as int));
        for path in it: batch
            invariant
                count <= old(self).pending_directories@.len(),
                it.seq() == old(self).pending_directories@.take(count as int),
                len == old(self).directories@.len(),
                *self == (App {
                    directories: self.directories,
                    pending_directories: self.pending_directories,
                    path_index: self.path_index,
                    ..*old(self)
                }),
                self.path_index.keeps(old(self).path_index),
                old(self).indexed() ==> self.indexed(),
                self.pending_directories@ == old(self).pending_directories@.skip(count as int),
                self.directories@.len() == len + it.index(),
                self.directories@.take(len as int) == old(self).directories@,
                forall|j: int|
                    0 <= j < it.index() ==> (#[trigger] self.directories@[len + j]).is_fresh(
                        old(self).pending_directories@[j]@,
                    ),
        {
            let ghost before = self.directories@;
            let ghost was = *self;
            assert(path == old(self).pending_directories@[it.index() as int]);
            let place: usize = self.directories.len();
            self.path_index.record(path.as_str(), place);
            self.directories.push(DirectoryInfo::fresh(path));
            assert(self.directories@.take(len as int) =~= before.take(len as int));
            proof {
                if old(self).indexed() {
                    assert forall|i: int| 0 <= i < self.paths().len() implies self.path_index.candidates(
                        #[trigger] self.paths()[i],
                    ).contains(i as usize) by {
                        if i < place {
                            assert(self.paths()[i] == was.paths()[i]);
                            assert(was.path_index.candidates(was.paths()[i]).contains(i as usize));
                        }
                    }
                }
            }
            assert forall|j: int| 0 <= j <= it.index() implies (#[trigger] self.directories@[len
                + j]).is_fresh(old(self).pending_directories@[j]@) by {
                if j < it.index() {
                    assert(self.directories@[len + j] == before[len + j]);
                }
            }
        }
    }

    /// Whether `after` is this session with `path` taken from the discovery:
    /// it is counted and goes behind the pending paths, and if they are
    /// `batch_size` or more by then, the first `batch_size` of them are
    /// admitted.
    pub open spec fn takes_found(&self, after: App, path: String) -> bool {
        let counted = App {
            pending_directories: after.pending_directories,
            directories: after.directories,
            path_index: after.path_index,
            total_discovered: if self.total_discovered < usize::MAX {
                (self.total_discovered + 1) as usize
            } else {
                usize::MAX
            },
            ..*self
        };
        let pending = self.pending_directories@.push(path);
        let len = self.directories@.len();
        &&& after == counted
        &&& after.path_index.keeps(self.path_index)
        &&& self.indexed() ==> after.indexed()
        &&& if pending.len() >= self.batch_size {
            let count = self.batch_size as int;
            &&& after.directories@.len() == len + count
            &&& after.directories@.take(len as int) == self.directories@
            &&& forall|j: int|
                0 <= j < count ==> (#[trigger] after.directories@[len + j]).is_fresh(pending[j]@)
            &&& after.pending_directories@ == pending.skip(count)
        } else {
            &&& after.directories@ == self.directories@
            &&& after.pending_directories@ == pending
        }
    }

    /// Takes a path that discovery found into the pending buffer, and admits
    /// a batch once the buffer holds `batch_size` paths.
    pub fn add_discovered_directory(&mut self, path: String)
        ensures
            old(self).takes_found(*final(self), path),
            final(self).directories@.take(old(self).directories@.len() as int) == old(self).directories@,
            old(self).total_discovered < usize::MAX ==> final(self).total_discovered == old(self).total_discovered + 1,
            final(self).discovered() == old(self).discovered().push(path@),
            old(self).pending_directories@.len() < old(self).batch_size ==> final(self).pending_directories@.len() < final(self).batch_size,
            old(self).entries_kept_in(*final(self)),
            old(self).indexed() ==> final(self).indexed(),
            old(self).cursor_valid() ==> final(self).cursor_valid(),
    {
        self.pending_directories.push(path);
        if self.total_discovered < usize::MAX {
            self.total_discovered = self.total_discovered + 1;
        }
        proof {
            assert(texts(self.pending_directories@) =~= texts(old(self).pending_directories@).push(
                path@,
            ));
            assert(self.paths() =~= old(self).paths());
            assert(self.discovered() =~= old(self).discovered().push(path@));
            assert(self.directories@.take(old(self).directories@.len() as int)
                =~= old(self).directories@);
        }
        if self.pending_directories.len() >= self.batch_size {
            let ghost before = *self;
            self.process_pending_batch();
            proof {
                assert(before.batch_len() == old(self).batch_size);
                assert(before.promotes(*self, old(self).batch_size as nat));
                assert(self.paths().take(old(self).paths().len() as int) =~= old(self).paths()) by {
                    assert forall|i: int| 0 <= i < old(self).paths().len() implies self.paths()[i]
                        == old(self).paths()[i] by {
                        assert(self.directories@.take(old(self).directories@.len() as int)[i]
                            == self.directories@[i]);
                    }
                }
            }
        } else {
            assert(self.paths() =~= old(self).paths());
            assert(self.paths().take(old(self).paths().len() as int) =~= old(self).paths());
        }
    }

    /// Admits one batch of pending paths: the first `batch_size` of them, or
    /// all if they are fewer.
    pub fn process_pending_batch(&mut self)
        ensures
            old(self).promotes(*final(self), old(self).batch_len()),
            final(self).discovered() == old(self).discovered(),
            old(self).entries_kept_in(*final(self)),
            old(self).indexed() ==> final(self).indexed(),
            old(self).cursor_valid() ==> final(self).cursor_valid(),
    {
        let count: usize = if self.batch_size < self.pending_directories.len() {
            self.batch_size
        } else {
            self.pending_directories.len()
        };
        self.promote(count);
        proof {
            old(self).lemma_promotion_keeps_entries(*self, count as nat);
            old(self).lemma_promotion_conserves(*self, count as nat);
        }
    }

    /// Admits every pending path.
    pub fn process_remaining_pending(&mut self)
        ensures
            old(self).promotes(*final(self), old(self).pending_directories@.len()),
            final(self).pending_directories@.len() == 0,
            final(self).discovered() == old(self).discovered(),
            old(self).entries_kept_in(*final(self)),
            old(self).indexed() ==> final(self).indexed(),
            old(self).cursor_valid() ==> final(self).cursor_valid(),
    {
        let count: usize = self.pending_directories.len();
        self.promote(count);
        proof {
            old(self).lemma_promotion_keeps_entries(*self, count as nat);
            old(self).lemma_promotion_conserves(*self, count as nat);
        }
    }

    /// An admission keeps every entry at its place, with its path.
    pub proof fn lemma_promotion_keeps_entries(&self, after: App, count: nat)
        requires
            self.promotes(after, count),
        ensures
            self.entries_kept_in(after),
    {
        let len = self.directories@.len() as int;
        assert forall|i: int| 0 <= i < len implies after.paths()[i] == self.paths()[i] by {
            assert(after.directories@.take(len)[i] == after.directories@[i]);
        }
        assert(after.paths().take(len) =~= self.paths());
    }

    /// An admission loses no path and changes no order: the paths of the
    /// entries followed by the pending ones are what they were.
    pub proof fn lemma_promotion_conserves(&self, after: App, count: nat)
        requires
            self.promotes(after, count),
        ensures
            after.discovered() == self.discovered(),
    {
        let len = self.directories@.len() as int;
        let pending = self.pending_directories@;
        assert(after.discovered().len() == self.discovered().len());
        assert forall|i: int| 0 <= i < self.discovered().len() implies after.discovered()[i]
            == self.discovered()[i] by {
            if i < len {
                assert(after.directories@.take(len)[i] == after.directories@[i]);
            } else if i < len + count {
                assert(after.directories@[len + (i - len)].is_fresh(pending[i - len]@));
            } else {
                assert(after.pending_directories@[i - len - count] == pending[i - len]);
            }
        }
        assert(after.discovered() =~= self.discovered());
    }

    /// Records how far discovery has come. When it is complete, every pending
    /// path is admitted.
    pub fn set_discovery_status(&mut self, status: DiscoveryStatus)
        ensures
            final(self).discovery_status == status,
            if status is Complete {
                (App { discovery_status: status, ..*old(self) }).promotes(
                    *final(self),
                    old(self).pending_directories@.len(),
                )
            } else {
                *final(self) == (App { discovery_status: status, ..*old(self) })
            },
            old(self).entries_kept_in(*final(self)),
            old(self).indexed() ==> final(self).indexed(),
            old(self).cursor_valid() ==> final(self).cursor_valid(),
    {
        self.discovery_status = status;
        let complete: bool = match &self.discovery_status {
            DiscoveryStatus::Complete => true,
            _ => false,
        };
        if complete {
            self.process_remaining_pending();
        } else {
            assert(self.paths().take(old(self).paths().len() as int) =~= old(self).paths());
        }
    }

    /// Takes one message of the discovery into the session: a found path
    /// goes to the pending buffer, the end of the walk completes the
    /// discovery and admits what is pending, and an error is recorded.
    pub fn apply_discovery_message(&mut self, message: DiscoveryMessage)
        ensures
            match message {
                DiscoveryMessage::DirectoryFound(path) => old(self).takes_found(
                    *final(self),
                    path,
                ),
                DiscoveryMessage::DiscoveryComplete => (App {
                    discovery_status: DiscoveryStatus::Complete,
                    ..*old(self)
                }).promotes(*final(self), old(self).pending_directories@.len()),
                DiscoveryMessage::DiscoveryError(error) => *final(self) == (App {
                    discovery_status: DiscoveryStatus::Error(error),
                    ..*old(self)
                }),
            },
            old(self).entries_kept_in(*final(self)),
            old(self).indexed() ==> final(self).indexed(),
            old(self).cursor_valid() ==> final(self).cursor_valid(),
            old(self).ledger().adds_up() ==> final(self).ledger().adds_up(),
            old(self).ledger().balanced() ==> final(self).ledger().balanced(),
    {
        let ghost before = *self;
        match message {
            DiscoveryMessage::DirectoryFound(path) => {
                self.add_discovered_directory(path);
                proof {
                    before.lemma_found_keeps_books(*self, path);
                }
            },
            DiscoveryMessage::DiscoveryComplete => {
                self.set_discovery_status(DiscoveryStatus::Complete);
                proof {
                    let completed = App { discovery_status: DiscoveryStatus::Complete, ..before };
                    assert(completed.ledger() == before.ledger());
                    completed.lemma_promotion_keeps_books(
                        *self,
                        before.pending_directories@.len(),
                    );
                }
            },
            DiscoveryMessage::DiscoveryError(error) => {
                self.set_discovery_status(DiscoveryStatus::Error(error));
                proof {
                    assert(self.ledger() == before.ledger());
                }
            },
        }
    }

    /// Whether discovery is under way.
    pub fn is_discovering(&self) -> (discovering: bool)
        ensures
            discovering == (self.discovery_status is Discovering),
    {
        match &self.discovery_status {
            DiscoveryStatus::Discovering => true,
            _ => false,
        }
    }

    /// The line that tells how far discovery has come.
    pub open spec fn progress_text(&self) -> Seq<char> {
        match self.discovery_status {
            DiscoveryStatus::NotStarted => "Ready to scan..."@,
            DiscoveryStatus::Discovering => if self.total_discovered == 0 {
                "Scanning directories..."@
            } else {
                "Found "@ + decimal(self.total_discovered as nat) + " directories, showing "@
                    + decimal(self.directories@.len()) + "..."@
            },
            DiscoveryStatus::Complete => "Scan complete: "@ + decimal(self.total_discovered as nat)
                + " directories found"@,
            DiscoveryStatus::Error(error) => "Scan error: "@ + error@,
        }
    }

    /// Tells in one line how far discovery has come.
    pub fn get_discovery_progress(&self) -> (text: String)
        ensures
            text@ == self.progress_text(),
    {
        match &self.discovery_status {
            DiscoveryStatus::NotStarted => String::from_str("Ready to scan..."),
            DiscoveryStatus::Discovering => {
                if self.total_discovered == 0 {
                    String::from_str("Scanning directories...")
                } else {
                    let mut text = String::from_str("Found ");
                    push_decimal(&mut text, self.total_discovered as u64);
                    text.append(" directories, showing ");
                    push_decimal(&mut text, self.directories.len() as u64);
                    text.append("...");
                    text
                }
            },
            DiscoveryStatus::Complete => {
                let mut text = String::from_str("Scan complete: ");
                push_decimal(&mut text, self.total_discovered as u64);
                text.append(" directories found");
                text
            },
            DiscoveryStatus::Error(error) => {
                let mut text = String::from_str("Scan error: ");
                text.append(error.as_str());
                text
            },
        }
    }

    /// The index of the first entry with this path, if there is one.
    pub open spec fn index_of(&self, path: Seq<char>) -> Option<int> {
        let at = first_at(self.paths(), path);
        if at < self.directories@.len() {
            Some(at as int)
        } else {
            None
        }
    }

    /// Whether `after` is this session with nothing changed but the index,
    /// which has lost nothing.
    pub open spec fn same_but_index(&self, after: App) -> bool {
        &&& after == (App { path_index: after.path_index, ..*self })
        &&& after.path_index.keeps(self.path_index)
        &&& self.indexed() ==> after.indexed()
    }

    /// Whether `after` is this session with other entries and an index that
    /// has lost nothing, and nothing else changed.
    pub open spec fn same_except_entries_and_index(&self, after: App) -> bool {
        &&& after == (App {
            directories: after.directories,
            path_index: after.path_index,
            ..*self
        })
        &&& after.path_index.keeps(self.path_index)
    }

    /// Looks an entry up by its path: in the index first, and in the list if
    /// the index does not know the path; what the list shows is then
    /// recorded. With an index that knows every entry the entry found is the
    /// first of its path; in any case it is an entry of that path, and none
    /// is found only if there is none.
    pub fn find_by_path(&mut self, path: &str) -> (found: Option<usize>)
        ensures
            old(self).same_but_index(*final(self)),
            match found {
                Some(at) => at < old(self).directories@.len() && old(self).paths()[at as int]
                    == path@,
                None => old(self).index_of(path@) is None,
            },
            old(self).indexed() && found is Some ==> old(self).index_of(path@) == Some(
                found->0 as int,
            ),
    {
        proof {
            lemma_first_at_splits(self.paths(), path@);
            assert(self.path_index.keeps(self.path_index));
        }
        match self.path_index.lookup(&self.directories, path) {
            Some(at) => {
                proof {
                    if self.indexed() {
                        let first = first_at(self.paths(), path@) as int;
                        assert(self.paths()[at as int] == path@);
                        assert(first <= at);
                        assert(self.path_index.candidates(self.paths()[first]).contains(
                            first as usize,
                        ));
                        let k = choose|k: int|
                            0 <= k < self.path_index.candidates(path@).len()
                                && self.path_index.candidates(path@)[k] == first as usize;
                        assert(PathIndex::is_place_of(
                            self.directories@,
                            self.path_index.candidates(path@)[k],
                            path@,
                        ));
                    }
                }
                Some(at)
            },
            None => {
                let mut at: usize = 0;
                while at < self.directories.len() && !(*self.directories[at].path.as_str()
                    == *path)
                    invariant
                        at <= self.directories@.len(),
                        forall|i: int| 0 <= i < at ==> #[trigger] self.paths()[i] != path@,
                    decreases self.directories@.len() - at,
                {
                    at += 1;
                }
                proof {
                    lemma_first_at(self.paths(), path@, at as int);
                }
                if at < self.directories.len() {
                    let ghost was = *self;
                    self.path_index.record(path, at);
                    proof {
                        if was.indexed() {
                            assert forall|i: int| 0 <= i < self.paths().len() implies self.path_index.candidates(
                                #[trigger] self.paths()[i],
                            ).contains(i as usize) by {
                                assert(was.path_index.candidates(was.paths()[i]).contains(
                                    i as usize,
                                ));
                            }
                        }
                    }
                    Some(at)
                } else {
                    None
                }
            },
        }
    }

    /// Whether `after` is this session with the result of a size computation
    /// written into the entry at `at`, and nothing else changed but the
    /// index, which has lost nothing.
    pub open spec fn size_written(&self, after: App, at: int, size: u64, duration: u64) -> bool {
        &&& 0 <= at < self.directories@.len()
        &&& self.same_except_entries_and_index(after)
        &&& after.directories@.len() == self.directories@.len()
        &&& is_sized(self.directories@[at], after.directories@[at], size, duration)
        &&& forall|i: int|
            0 <= i < self.directories@.len() && i != at ==> #[trigger] after.directories@[i]
                == self.directories@[i]
    }

    /// Writes the result of a size computation into the entry that has the
    /// update's path. The entry is found by its path, wherever in the list it
    /// stands by now; an update for a path that has no entry is dropped.
    /// Returns the index of the entry that was updated.
    pub fn apply_size_update(&mut self, update: SizeUpdate) -> (updated: Option<usize>)
        ensures
            match updated {
                Some(at) => old(self).size_written(
                    *final(self),
                    at as int,
                    update.size,
                    update.duration,
                ) && old(self).paths()[at as int] == update.path@,
                None => old(self).index_of(update.path@) is None && old(self).same_but_index(
                    *final(self),
                ),
            },
            old(self).indexed() && updated is Some ==> old(self).index_of(update.path@) == Some(
                updated->0 as int,
            ),
            old(self).indexed() ==> final(self).indexed(),
            old(self).cursor_valid() ==> final(self).cursor_valid(),
            old(self).entries_kept_in(*final(self)),
            old(self).ledger().adds_up() ==> final(self).ledger().adds_up(),
            old(self).ledger().balanced() && (match updated {
                Some(at) => !(old(self).directories@[at as int].deletion_status is Deleted)
                    || old(self).directories@[at as int].size == update.size,
                None => true,
            }) ==> final(self).ledger().balanced(),
    {
        let found = self.find_by_path(update.path.as_str());
        let ghost middle = *self;
        match found {
            Some(at) => {
                self.directories[at].size = update.size;
                self.directories[at].formatted_size = format_size(update.size);
                self.directories[at].calculation_status = CalculationStatus::Completed;
                self.directories[at].calculation_time = Some(update.duration);
                proof {
                    assert(is_sized(
                        old(self).directories@[at as int],
                        self.directories@[at as int],
                        update.size,
                        update.duration,
                    ));
                    middle.lemma_same_paths_kept(*self);
                    old(self).lemma_same_paths_kept(*self);
                    old(self).lemma_size_update_keeps_books(
                        *self,
                        at as int,
                        update.size,
                        update.duration,
                    );
                }
            },
            None => {
                proof {
                    old(self).lemma_same_paths_kept(*self);
                    assert(self.ledger() == old(self).ledger());
                }
            },
        }
        found
    }

    /// Whether `after` is this session with the size computation of the
    /// entry at `at` marked as failed with `message`, its size left as it
    /// is, and nothing else changed but the index, which has lost nothing.
    pub open spec fn size_failed(&self, after: App, at: int, message: String) -> bool {
        &&& 0 <= at < self.directories@.len()
        &&& self.same_except_entries_and_index(after)
        &&& after.directories@ == self.directories@.update(
            at,
            DirectoryInfo {
                calculation_status: CalculationStatus::Error(message),
                ..self.directories@[at]
            },
        )
    }

    /// Records that the size computation for `path` failed. Returns the index
    /// of the entry that was marked.
    pub fn fail_size_calculation(&mut self, path: &str, message: String) -> (marked: Option<usize>)
        ensures
            match marked {
                Some(at) => old(self).size_failed(*final(self), at as int, message)
                    && old(self).paths()[at as int] == path@,
                None => old(self).index_of(path@) is None && old(self).same_but_index(
                    *final(self),
                ),
            },
            old(self).indexed() && marked is Some ==> old(self).index_of(path@) == Some(
                marked->0 as int,
            ),
            old(self).indexed() ==> final(self).indexed(),
            old(self).cursor_valid() ==> final(self).cursor_valid(),
            old(self).entries_kept_in(*final(self)),
    {
        let found = self.find_by_path(path);
        let ghost middle = *self;
        match found {
            Some(at) => {
                self.directories[at].calculation_status = CalculationStatus::Error(message);
                proof {
                    middle.lemma_same_paths_kept(*self);
                    old(self).lemma_same_paths_kept(*self);
                }
            },
            None => {
                proof {
                    old(self).lemma_same_paths_kept(*self);
                }
            },
        }
        found
    }

    /// Whether `after` is this session with the modification time written
    /// into the entry at `at`, and its age told as of `now`, or "Unknown"
    /// without a time; nothing else changed but the index, which has lost
    /// nothing.
    pub open spec fn modified_recorded(
        &self,
        after: App,
        at: int,
        modified: Option<Timestamp>,
        now: Timestamp,
    ) -> bool {
        &&& 0 <= at < self.directories@.len()
        &&& self.same_except_entries_and_index(after)
        &&& after.directories@.len() == self.directories@.len()
        &&& after.directories@[at] == (DirectoryInfo {
            last_modified: modified,
            formatted_last_modified: after.directories@[at].formatted_last_modified,
            ..self.directories@[at]
        })
        &&& after.directories@[at].formatted_last_modified@ == match modified {
            Some(time) => age_text(elapsed_seconds(now, time)),
            None => "Unknown"@,
        }
        &&& forall|i: int|
            0 <= i < self.directories@.len() && i != at ==> #[trigger] after.directories@[i]
                == self.directories@[i]
    }

    /// Records when the directory that holds the entry of this path was last
    /// modified, and tells its age as of `now`. Returns the index of the
    /// entry.
    pub fn record_last_modified(
        &mut self,
        path: &str,
        modified: Option<Timestamp>,
        now: &Timestamp,
    ) -> (recorded: Option<usize>)
        ensures
            match recorded {
                Some(at) => old(self).modified_recorded(*final(self), at as int, modified, *now)
                    && old(self).paths()[at as int] == path@,
                None => old(self).index_of(path@) is None && old(self).same_but_index(
                    *final(self),
                ),
            },
            old(self).indexed() && recorded is Some ==> old(self).index_of(path@) == Some(
                recorded->0 as int,
            ),
            old(self).entries_kept_in(*final(self)),
            old(self).indexed() ==> final(self).indexed(),
            old(self).cursor_valid() ==> final(self).cursor_valid(),
    {
        let found = self.find_by_path(path);
        let ghost middle = *self;
        match found {
            Some(at) => {
                let text = match &modified {
                    Some(time) => format_last_modified(time, now),
                    None => String::from_str("Unknown"),
                };
                self.directories[at].last_modified = modified;
                self.directories[at].formatted_last_modified = text;
                proof {
                    middle.lemma_same_paths_kept(*self);
                    old(self).lemma_same_paths_kept(*self);
                }
            },
            None => {
                proof {
                    old(self).lemma_same_paths_kept(*self);
                }
            },
        }
        found
    }

    /// Whether size computations are started now: there are entries, and
    /// discovery is over or has admitted ten of them.
    pub open spec fn sizes_due(&self) -> bool {
        self.directories@.len() > 0 && (!(self.discovery_status is Discovering)
            || self.directories@.len() >= 10)
    }

    /// The indices of the entries whose size computation starts next: the
    /// first three that wait, once sizes are due.
    pub open spec fn next_to_size(&self) -> Seq<int> {
        if self.sizes_due() {
            waiting_from(self.directories@, 0, 3)
        } else {
            Seq::empty()
        }
    }

    /// Starts the size computation of the next entries that wait for it, three
    /// at most: marks them as `Calculating` and returns their paths, in
    /// order, for the workers. While discovery runs and has admitted fewer
    /// than ten entries nothing is started.
    pub fn start_size_calculation_for_new_items(&mut self) -> (jobs: Vec<String>)
        ensures
            old(self).same_except_entries(*final(self)),
            final(self).directories@.len() == old(self).directories@.len(),
            jobs@.len() == old(self).next_to_size().len(),
            forall|k: int|
                0 <= k < jobs@.len() ==> (#[trigger] jobs@[k])@
                    == old(self).paths()[old(self).next_to_size()[k]],
            forall|i: int|
                0 <= i < old(self).directories@.len() ==> #[trigger] final(self).directories@[i]
                    == if old(self).next_to_size().contains(i) {
                    DirectoryInfo {
                        calculation_status: CalculationStatus::Calculating,
                        ..old(self).directories@[i]
                    }
                } else {
                    old(self).directories@[i]
                },
            old(self).entries_kept_in(*final(self)),
            old(self).indexed() ==> final(self).indexed(),
            old(self).cursor_valid() ==> final(self).cursor_valid(),
    {
        let mut jobs: Vec<String> = Vec::new();
        let len: usize = self.directories.len();
        let due: bool = len > 0 && (!self.is_discovering() || len >= 10);
        if due {
            let ghost picks = old(self).next_to_size();
            let ghost entries = old(self).directories@;
            let mut i: usize = 0;
            let mut budget: usize = 3;
            proof {
                assert(Seq::<int>::empty() + picks =~= picks);
            }
            while i < len && budget > 0
                invariant
                    i <= len,
                    len == self.directories@.len(),
                    entries == old(self).directories@,
                    len == entries.len(),
                    old(self).same_except_entries(*self),
                    picks == waiting_from(entries, 0, 3),
                    jobs@.len() + budget == 3,
                    jobs@.len() <= picks.len(),
                    picks == picks.take(jobs@.len() as int) + waiting_from(
                        entries,
                        i as int,
                        budget as nat,
                    ),
                    forall|k: int| 0 <= k < jobs@.len() ==> 0 <= #[trigger] picks[k] < i,
                    forall|k: int|
                        0 <= k < jobs@.len() ==> (#[trigger] jobs@[k])@ == entries[picks[k]].path@,
                    forall|j: int|
                        0 <= j < len ==> #[trigger] self.directories@[j] == if picks.take(
                            jobs@.len() as int,
                        ).contains(j) {
                            DirectoryInfo {
                                calculation_status: CalculationStatus::Calculating,
                                ..entries[j]
                            }
                        } else {
                            entries[j]
                        },
                decreases len - i,
            {
                let ghost done = picks.take(jobs@.len() as int);
                let ghost rest = waiting_from(entries, i as int, budget as nat);
                assert(!done.contains(i as int));
                let waits: bool = match &self.directories[i].calculation_status {
                    CalculationStatus::NotStarted => true,
                    _ => false,
                };
                if waits {
                    jobs.push(self.directories[i].path.clone());
                    self.directories[i].calculation_status = CalculationStatus::Calculating;
                    budget -= 1;
                    proof {
                        let later = waiting_from(entries, i + 1, budget as nat);
                        assert(rest == seq![i as int] + later);
                        assert(picks == done + (seq![i as int] + later));
                        assert(picks[done.len() as int] == i);
                        let more = picks.take(jobs@.len() as int);
                        assert(more =~= done.push(i as int));
                        assert(picks =~= more + later);
                        assert forall|j: int| 0 <= j < len implies #[trigger] self.directories@[j]
                            == if more.contains(j) {
                            DirectoryInfo {
                                calculation_status: CalculationStatus::Calculating,
                                ..entries[j]
                            }
                        } else {
                            entries[j]
                        } by {
                            if j == i {
                                assert(more[done.len() as int] == i);
                            } else if done.contains(j) {
                                let k = choose|k: int| 0 <= k < done.len() && done[k] == j;
                                assert(more[k] == j);
                            } else if more.contains(j) {
                                let k = choose|k: int| 0 <= k < more.len() && more[k] == j;
                                if k < done.len() {
                                    assert(done[k] == j);
                                }
                            }
                        }
                    }
                }
                i += 1;
            }
            proof {
                let done = picks.take(jobs@.len() as int);
                assert(waiting_from(entries, i as int, budget as nat) =~= Seq::<int>::empty());
                assert(picks =~= done);
            }
        }
        proof {
            assert(self.paths() =~= old(self).paths());
            assert(self.paths().take(old(self).paths().len() as int) =~= old(self).paths());
        }
        jobs
    }
}

/// An existing page starts at an entry of the list.
pub proof fn lemma_page_starts_in_list(len: nat, items_per_page: nat, page: nat)
    requires
        page < page_count(len, items_per_page),
    ensures
        items_per_page > 0,
        page * items_per_page < len,
        (page * items_per_page) / items_per_page == page,
{
    let last = (len - 1) / items_per_page as int;
    assert(page <= last);
    vstd::arithmetic::div_mod::lemma_fundamental_div_mod(len - 1, items_per_page as int);
    assert(page * items_per_page <= last * items_per_page) by (nonlinear_arith)
        requires
            page <= last,
            items_per_page > 0,
    ;
    assert(last * items_per_page == items_per_page * last) by (nonlinear_arith);
    vstd::arithmetic::div_mod::lemma_div_multiples_vanish(page as int, items_per_page as int);
    assert(page * items_per_page == items_per_page * page) by (nonlinear_arith);
}

} // verus!
