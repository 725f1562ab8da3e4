//! Directory sizes, and the search that reports them.

use vstd::prelude::*;
use vstd::string::StringExecFns;
use crate::discover::{DiscoveryError, Entry, EntryKind, Snapshot, Visit, visit, visit_rule};
use crate::entry::{CalculationStatus, DeletionStatus, DirectoryInfo};
use crate::format::{format_last_modified, format_size, size_text, Timestamp};
use crate::ignore::IgnorePatterns;

verus! {

/// The bytes of the regular files within `entry`: a file counts its length, a
/// directory what it holds; links, special files and directories that cannot
/// be listed count nothing.
pub open spec fn bytes_under(entry: Entry) -> nat
    decreases entry, 0nat,
{
    match entry.kind {
        EntryKind::File(length) => length as nat,
        EntryKind::Directory(children) => bytes_among(children@, children@.len()),
        _ => 0,
    }
}

/// The bytes of the regular files within the first `count` of `entries`.
pub open spec fn bytes_among(entries: Seq<Entry>, count: nat) -> nat
    decreases entries, count,
{
    if count == 0 || count > entries.len() {
        0
    } else {
        bytes_among(entries, (count - 1) as nat) + bytes_under(entries[count - 1])
    }
}

/// `n` as far as 64 bits hold it.
pub open spec fn capped(n: nat) -> u64 {
    if n > u64::MAX {
        u64::MAX
    } else {
        n as u64
    }
}

fn size_of_entries(entries: &Vec<Entry>) -> (total: u64)
    ensures
        total == capped(bytes_among(entries@, entries@.len())),
    decreases entries,
{
    let mut total: u64 = 0;
    let mut i: usize = 0;
    while i < entries.len()
        invariant
            i <= entries@.len(),
            total == capped(bytes_among(entries@, i as nat)),
        decreases entries@.len() - i,
    {
        let here: u64 = match &entries[i].kind {
            EntryKind::File(length) => *length,
            EntryKind::Directory(children) => size_of_entries(children),
            _ => 0,
        };
        assert(here == capped(bytes_under(entries@[i as int])));
        total = total.saturating_add(here);
        i += 1;
    }
    total
}

/// What `calculate_directory_size` returns for what stands at a path: the
/// bytes within a directory, capped at the largest 64-bit number; nothing for
/// what is no directory; the system's message for a directory that cannot be
/// listed.
pub open spec fn size_result(kind: EntryKind) -> Result<u64, String> {
    match kind {
        EntryKind::Directory(children) => Ok(capped(bytes_among(children@, children@.len()))),
        EntryKind::Unreadable(reason) => Err(reason),
        _ => Ok(0),
    }
}

/// The total size in bytes of the regular files within a directory.
pub fn calculate_directory_size(kind: &EntryKind) -> (result: Result<u64, String>)
    ensures
        result == size_result(*kind),
{
    match kind {
        EntryKind::Directory(children) => Ok(size_of_entries(children)),
        EntryKind::Unreadable(reason) => Err(reason.clone()),
        _ => Ok(0),
    }
}

/// The size that a directory is listed with: what `calculate_directory_size`
/// gives, and 0 where it fails.
pub open spec fn listed_size(kind: EntryKind) -> u64 {
    match size_result(kind) {
        Ok(bytes) => bytes,
        Err(_) => 0,
    }
}

/// The matches within `entry`, itself included, in the order of the walk:
/// each with its path, its listed size, and the modification time of the
/// directory that holds it.
pub open spec fn sized_under(
    entry: Entry,
    holder_modified: Option<Timestamp>,
    pattern: Seq<char>,
    ignore: Set<Seq<char>>,
) -> Seq<(Seq<char>, u64, Option<Timestamp>)>
    decreases entry, 0nat,
{
    if !entry.is_directory() {
        Seq::empty()
    } else {
        match visit_rule(entry.name@, pattern, ignore) {
            Visit::Skip => Seq::empty(),
            Visit::Report => seq![(entry.path@, listed_size(entry.kind), holder_modified)],
            Visit::Descend => match entry.kind {
                EntryKind::Directory(children) => sized_among(
                    children@,
                    children@.len(),
                    entry.modified,
                    pattern,
                    ignore,
                ),
                _ => Seq::empty(),
            },
        }
    }
}

/// The matches within the first `count` of `entries`, which stand in a
/// directory last modified at `holder_modified`.
pub open spec fn sized_among(
    entries: Seq<Entry>,
    count: nat,
    holder_modified: Option<Timestamp>,
    pattern: Seq<char>,
    ignore: Set<Seq<char>>,
) -> Seq<(Seq<char>, u64, Option<Timestamp>)>
    decreases entries, count,
{
    if count == 0 || count > entries.len() {
        Seq::empty()
    } else {
        sized_among(entries, (count - 1) as nat, holder_modified, pattern, ignore) + sized_under(
            entries[count - 1],
            holder_modified,
            pattern,
            ignore,
        )
    }
}

/// How many items at the start of `sizes` are at least `size`.
pub open spec fn rank(sizes: Seq<u64>, size: u64) -> nat
    decreases sizes.len(),
{
    if sizes.len() > 0 && sizes[0] >= size {
        1 + rank(sizes.skip(1), size)
    } else {
        0
    }
}

/// The sizes of a list of matches.
pub open spec fn sizes_of(items: Seq<(Seq<char>, u64, Option<Timestamp>)>) -> Seq<u64> {
    Seq::new(items.len(), |i: int| items[i].1)
}

/// The first `count` of `items`, largest first; items of equal size keep
/// their order. Each item in turn goes behind the run of items at the front
/// that are at least as large.
pub open spec fn largest_first(
    items: Seq<(Seq<char>, u64, Option<Timestamp>)>,
    count: nat,
) -> Seq<(Seq<char>, u64, Option<Timestamp>)>
    decreases count,
{
    if count == 0 || count > items.len() {
        Seq::empty()
    } else {
        let before = largest_first(items, (count - 1) as nat);
        let item = items[count - 1];
        before.insert(rank(sizes_of(before), item.1) as int, item)
    }
}

/// Whether `info` is the listing of a match with this path, size and
/// modification time, made at the moment `now`: the size is final and
/// formatted, the age is told as of `now`, and nothing is selected or under
/// deletion.
pub open spec fn lists(
    info: DirectoryInfo,
    item: (Seq<char>, u64, Option<Timestamp>),
    now: Timestamp,
) -> bool {
    &&& info.path@ == item.0
    &&& info.size == item.1
    &&& info.formatted_size@ == size_text(item.1 as nat)
    &&& info.last_modified == item.2
    &&& info.formatted_last_modified@ == match item.2 {
        Some(time) => crate::format::age_text(crate::format::elapsed_seconds(now, time)),
        None => "Unknown"@,
    }
    &&& !info.selected
    &&& info.deletion_status == DeletionStatus::Normal
    &&& info.calculation_status == CalculationStatus::Completed
    &&& info.calculation_time is None
}

/// Whether `infos` lists `items`, one for one and in order, as of `now`.
pub open spec fn lists_all(
    infos: Seq<DirectoryInfo>,
    items: Seq<(Seq<char>, u64, Option<Timestamp>)>,
    now: Timestamp,
) -> bool {
    &&& infos.len() == items.len()
    &&& forall|i: int| 0 <= i < infos.len() ==> lists(#[trigger] infos[i], items[i], now)
}

/// A place before which every item is at least `size` and at which a smaller
/// item stands, or the list ends, is the rank of `size`.
pub proof fn lemma_rank(sizes: Seq<u64>, size: u64, k: int)
    requires
        0 <= k <= sizes.len(),
        forall|i: int| 0 <= i < k ==> #[trigger] sizes[i] >= size,
        k < sizes.len() ==> sizes[k] < size,
    ensures
        rank(sizes, size) == k,
    decreases k,
{
    if k > 0 {
        let rest = sizes.skip(1);
        assert forall|i: int| 0 <= i < k - 1 implies #[trigger] rest[i] >= size by {
            assert(rest[i] == sizes[i + 1]);
        }
        lemma_rank(rest, size, k - 1);
    }
}

/// A list that `largest_first` made is in descending order of size.
pub proof fn lemma_largest_first_descends(
    items: Seq<(Seq<char>, u64, Option<Timestamp>)>,
    count: nat,
)
    requires
        count <= items.len(),
    ensures
        largest_first(items, count).len() == count,
        forall|i: int, j: int|
            0 <= i <= j < count ==> (#[trigger] largest_first(items, count)[i]).1 >= (
            #[trigger] largest_first(items, count)[j]).1,
    decreases count,
{
    if count > 0 {
        lemma_largest_first_descends(items, (count - 1) as nat);
        let before = largest_first(items, (count - 1) as nat);
        let item = items[count - 1];
        let sizes = sizes_of(before);
        let at = rank(sizes, item.1) as int;
        lemma_rank_splits(sizes, item.1);
        let after = before.insert(at, item);
        assert forall|i: int, j: int| 0 <= i <= j < count implies (#[trigger] after[i]).1 >= (
        #[trigger] after[j]).1 by {
            if i < at {
                assert(after[i] == before[i]);
                assert(sizes[i] >= item.1);
            } else if i > at {
                assert(after[i] == before[i - 1]);
            }
            if j < at {
                assert(after[j] == before[j]);
            } else if j > at {
                assert(after[j] == before[j - 1]);
                assert(sizes[at] < item.1);
                assert(before[at].1 >= before[j - 1].1);
            }
        }
    }
}

/// A list that `largest_first` made holds what it was made of: every item as
/// often as before, none added and none lost.
pub proof fn lemma_largest_first_permutes(
    items: Seq<(Seq<char>, u64, Option<Timestamp>)>,
    count: nat,
)
    requires
        count <= items.len(),
    ensures
        largest_first(items, count).to_multiset() == items.take(count as int).to_multiset(),
    decreases count,
{
    if count == 0 {
        assert(items.take(0) =~= largest_first(items, 0));
    } else {
        lemma_largest_first_permutes(items, (count - 1) as nat);
        lemma_largest_first_descends(items, (count - 1) as nat);
        let before = largest_first(items, (count - 1) as nat);
        let item = items[count - 1];
        let at = rank(sizes_of(before), item.1) as int;
        lemma_rank_splits(sizes_of(before), item.1);
        let after = before.insert(at, item);
        assert(after.remove(at) =~= before);
        assert(after[at] == item);
        vstd::seq_lib::to_multiset_remove(after, at);
        vstd::seq_lib::to_multiset_build(items.take(count - 1), item);
        assert(items.take(count as int) =~= items.take(count - 1).push(item));
        after.to_multiset_ensures();
        assert(after.to_multiset().count(item) > 0);
        assert(after.to_multiset() =~= before.to_multiset().insert(item));
    }
}

/// Every item before the rank is at least `size`; the item at the rank, if
/// there is one, is smaller.
pub proof fn lemma_rank_splits(sizes: Seq<u64>, size: u64)
    ensures
        rank(sizes, size) <= sizes.len(),
        forall|i: int| 0 <= i < rank(sizes, size) ==> #[trigger] sizes[i] >= size,
        rank(sizes, size) < sizes.len() ==> sizes[rank(sizes, size) as int] < size,
    decreases sizes.len(),
{
    if sizes.len() > 0 && sizes[0] >= size {
        let rest = sizes.skip(1);
        lemma_rank_splits(rest, size);
        assert forall|i: int| 0 <= i < rank(sizes, size) implies #[trigger] sizes[i] >= size by {
            if i > 0 {
                assert(sizes[i] == rest[i - 1]);
            }
        }
        if rank(sizes, size) < sizes.len() {
            assert(sizes[rank(sizes, size) as int] == rest[rank(rest, size) as int]);
        }
    }
}

fn listing(path: String, size: u64, modified: Option<Timestamp>, now: &Timestamp) -> (info:
    DirectoryInfo)
    ensures
        lists(info, (path@, size, modified), *now),
{
    let formatted_last_modified = match &modified {
        Some(time) => format_last_modified(time, now),
        None => String::from_str("Unknown"),
    };
    DirectoryInfo {
        path,
        size,
        formatted_size: format_size(size),
        last_modified: modified,
        formatted_last_modified,
        selected: false,
        deletion_status: DeletionStatus::Normal,
        calculation_status: CalculationStatus::Completed,
        calculation_time: None,
    }
}

fn listed_size_of(kind: &EntryKind) -> (size: u64)
    ensures
        size == listed_size(*kind),
{
    match calculate_directory_size(kind) {
        Ok(bytes) => bytes,
        Err(_) => 0,
    }
}

fn list_entries(
    entries: &Vec<Entry>,
    holder_modified: Option<Timestamp>,
    pattern: &str,
    ignore_patterns: &IgnorePatterns,
    infos: &mut Vec<DirectoryInfo>,
    now: &Timestamp,
    Ghost(listed): Ghost<Seq<(Seq<char>, u64, Option<Timestamp>)>>,
)
    requires
        lists_all(old(infos)@, listed, *now),
    ensures
        lists_all(
            final(infos)@,
            listed + sized_among(
                entries@,
                entries@.len(),
                holder_modified,
                pattern@,
                ignore_patterns.ignored(),
            ),
            *now,
        ),
    decreases entries,
{
    let ghost ignore = ignore_patterns.ignored();
    let mut i: usize = 0;
    proof {
        assert(listed + Seq::<(Seq<char>, u64, Option<Timestamp>)>::empty() =~= listed);
    }
    while i < entries.len()
        invariant
            i <= entries@.len(),
            ignore == ignore_patterns.ignored(),
            lists_all(
                infos@,
                listed + sized_among(entries@, i as nat, holder_modified, pattern@, ignore),
                *now,
            ),
        decreases entries@.len() - i,
    {
        let entry = &entries[i];
        let ghost so_far = listed + sized_among(
            entries@,
            i as nat,
            holder_modified,
            pattern@,
            ignore,
        );
        let ghost here = sized_under(entries@[i as int], holder_modified, pattern@, ignore);
        let ghost old_infos = infos@;
        match &entry.kind {
            EntryKind::Directory(children) => {
                match visit(entry.name.as_str(), pattern, ignore_patterns) {
                    Visit::Skip => {},
                    Visit::Report => {
                        let info = listing(
                            entry.path.clone(),
                            listed_size_of(&entry.kind),
                            holder_modified,
                            now,
                        );
                        infos.push(info);
                        assert(so_far + here =~= so_far.push(here[0]));
                    },
                    Visit::Descend => {
                        list_entries(
                            children,
                            entry.modified,
                            pattern,
                            ignore_patterns,
                            infos,
                            now,
                            Ghost(so_far),
                        );
                    },
                }
            },
            EntryKind::Unreadable(_) => {
                match visit(entry.name.as_str(), pattern, ignore_patterns) {
                    Visit::Report => {
                        let info = listing(
                            entry.path.clone(),
                            listed_size_of(&entry.kind),
                            holder_modified,
                            now,
                        );
                        infos.push(info);
                        assert(so_far + here =~= so_far.push(here[0]));
                    },
                    _ => {
                        assert(so_far + here =~= so_far);
                    },
                }
            },
            _ => {
                assert(so_far + here =~= so_far);
            },
        }
        proof {
            assert(lists_all(infos@, so_far + here, *now));
            assert(listed + sized_among(
                entries@,
                (i + 1) as nat,
                holder_modified,
                pattern@,
                ignore,
            ) =~= so_far + here);
        }
        i += 1;
    }
}

fn sort_largest_first(
    infos: Vec<DirectoryInfo>,
    Ghost(items): Ghost<Seq<(Seq<char>, u64, Option<Timestamp>)>>,
    Ghost(now): Ghost<Timestamp>,
) -> (sorted: Vec<DirectoryInfo>)
    requires
        lists_all(infos@, items, now),
    ensures
        lists_all(sorted@, largest_first(items, items.len()), now),
{
    let mut sorted: Vec<DirectoryInfo> = Vec::new();
    for info in it: infos
        invariant
            it.seq().len() == items.len(),
            forall|k: int|
                0 <= k < it.seq().len() ==> lists(#[trigger] it.seq()[k], items[k], now),
            lists_all(sorted@, largest_first(items, it.index() as nat), now),
    {
        let ghost taken = it.index() as int;
        let ghost before = largest_first(items, taken as nat);
        let ghost item = items[taken];
        assert(lists(it.seq()[taken], item, now));
        let mut at: usize = 0;
        while at < sorted.len() && sorted[at].size >= info.size
            invariant
                at <= sorted@.len(),
                lists_all(sorted@, before, now),
                info.size == item.1,
                forall|k: int| 0 <= k < at ==> #[trigger] sizes_of(before)[k] >= item.1,
            decreases sorted@.len() - at,
        {
            at += 1;
        }
        proof {
            lemma_rank(sizes_of(before), item.1, at as int);
        }
        sorted.insert(at, info);
        proof {
            let after = before.insert(at as int, item);
            assert(after == largest_first(items, (taken + 1) as nat));
            assert forall|k: int| 0 <= k < sorted@.len() implies lists(
                #[trigger] sorted@[k],
                after[k],
                now,
            ) by {
                if k < at {
                    assert(after[k] == before[k]);
                } else if k > at {
                    assert(after[k] == before[k - 1]);
                }
            }
        }
    }
    sorted
}

/// What a search with sizes returns: the error that stops it before the
/// walk, or the matches largest first.
pub open spec fn sized_search_result(
    root: Snapshot,
    pattern: Seq<char>,
    ignore: Set<Seq<char>>,
) -> Result<Seq<(Seq<char>, u64, Option<Timestamp>)>, DiscoveryError> {
    if pattern.len() == 0 {
        Err(DiscoveryError::PatternEmpty)
    } else {
        match root.kind {
            None => Err(DiscoveryError::RootMissing(root.path)),
            Some(EntryKind::Directory(entries)) => {
                let items = sized_among(entries@, entries@.len(), root.modified, pattern, ignore);
                Ok(largest_first(items, items.len()))
            },
            Some(EntryKind::Unreadable(reason)) => Err(DiscoveryError::RootUnreadable(reason)),
            Some(_) => Err(DiscoveryError::RootNotDirectory(root.path)),
        }
    }
}

/// Whether a call's outcome is the one that `expected` describes: the same
/// error, or listings of the same matches in the same order, as of `now`.
pub open spec fn lists_result(
    result: Result<Vec<DirectoryInfo>, DiscoveryError>,
    expected: Result<Seq<(Seq<char>, u64, Option<Timestamp>)>, DiscoveryError>,
    now: Timestamp,
) -> bool {
    match expected {
        Ok(items) => result matches Ok(infos) && lists_all(infos@, items, now),
        Err(e) => result == Err::<Vec<DirectoryInfo>, DiscoveryError>(e),
    }
}

/// Finds the directories named `pattern` under `root` as
/// `find_directories_with_ignore` does, and lists each with its size and the
/// modification time of the directory that holds it, largest first. `now` is
/// the moment of the search, from which the ages are told.
pub fn find_directories_with_size_and_ignore(
    root: &Snapshot,
    pattern: &str,
    ignore_patterns: &IgnorePatterns,
    now: &Timestamp,
) -> (result: Result<Vec<DirectoryInfo>, DiscoveryError>)
    ensures
        lists_result(
            result,
            sized_search_result(*root, pattern@, ignore_patterns.ignored()),
            *now,
        ),
{
    if pattern.unicode_len() == 0 {
        return Err(DiscoveryError::PatternEmpty);
    }
    match &root.kind {
        None => Err(DiscoveryError::RootMissing(root.path.clone())),
        Some(EntryKind::Directory(entries)) => {
            let mut infos: Vec<DirectoryInfo> = Vec::new();
            let ghost none = Seq::<(Seq<char>, u64, Option<Timestamp>)>::empty();
            let ghost items = sized_among(
                entries@,
                entries@.len(),
                root.modified,
                pattern@,
                ignore_patterns.ignored(),
            );
            list_entries(
                entries,
                root.modified,
                pattern,
                ignore_patterns,
                &mut infos,
                now,
                Ghost(none),
            );
            proof {
                assert(none + items =~= items);
            }
            Ok(sort_largest_first(infos, Ghost(items), Ghost(*now)))
        },
        Some(EntryKind::Unreadable(reason)) => Err(DiscoveryError::RootUnreadable(reason.clone())),
        Some(_) => Err(DiscoveryError::RootNotDirectory(root.path.clone())),
    }
}

/// Lists the directories named `pattern` under `root` with their sizes,
/// ignoring nothing; `now` is the moment of the search.
pub fn find_directories_with_size(root: &Snapshot, pattern: &str, now: &Timestamp) -> (result:
    Result<Vec<DirectoryInfo>, DiscoveryError>)
    ensures
        lists_result(result, sized_search_result(*root, pattern@, Set::empty()), *now),
{
    find_directories_with_size_and_ignore(root, pattern, &IgnorePatterns::empty(), now)
}

} // verus!
