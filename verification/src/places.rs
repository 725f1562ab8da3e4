//! How the paths of a file tree are written, and what the text of two
//! reported paths says of where the directories stand.

use vstd::prelude::*;
use crate::discover::{
    entry_at, found_among, is_above, lemma_found_at_places, lemma_reported_not_nested, path_at,
    places_among, reports, search_result, Entry, EntryKind, Snapshot,
};

verus! {

/// Whether `text` begins with `start`.
pub open spec fn begins_with(text: Seq<char>, start: Seq<char>) -> bool {
    start.len() <= text.len() && text.take(start.len() as int) == start
}

/// Whether `name` can be the name of an entry: it is not empty and holds no
/// separator.
pub open spec fn is_name(name: Seq<char>) -> bool {
    name.len() > 0 && forall|i: int| 0 <= i < name.len() ==> name[i] != '/'
}

/// The prefix of the paths of what a directory at `path` holds.
pub open spec fn inside(path: Seq<char>) -> Seq<char> {
    path.push('/')
}

/// Whether the paths within `entry` are written as a file system writes
/// them: the entry's path is `prefix` followed by its name, and what it holds
/// is placed inside it.
pub open spec fn placed_under(entry: Entry, prefix: Seq<char>) -> bool
    decreases entry, 0nat,
{
    &&& is_name(entry.name@)
    &&& entry.path@ == prefix + entry.name@
    &&& match entry.kind {
        EntryKind::Directory(children) => placed_among(
            children@,
            children@.len(),
            inside(entry.path@),
        ),
        _ => true,
    }
}

/// Whether the first `count` of `entries` are placed under `prefix`, and no
/// two of them have the same name.
pub open spec fn placed_among(entries: Seq<Entry>, count: nat, prefix: Seq<char>) -> bool
    decreases entries, count,
{
    count == 0 || count > entries.len() || {
        &&& placed_among(entries, (count - 1) as nat, prefix)
        &&& placed_under(entries[count - 1], prefix)
        &&& forall|k: int|
            0 <= k < count - 1 ==> (#[trigger] entries[k]).name@ != entries[count - 1].name@
    }
}

impl Snapshot {
    /// Whether the paths of the snapshot are written as a file system writes
    /// them, the top entries with `prefix` before their names.
    pub open spec fn placed(&self, prefix: Seq<char>) -> bool {
        match self.kind {
            Some(EntryKind::Directory(entries)) => placed_among(entries@, entries@.len(), prefix),
            _ => true,
        }
    }
}

/// Each of the entries that are placed among their siblings is placed, and
/// differs in name from every other of them.
pub proof fn lemma_placed_each(entries: Seq<Entry>, count: nat, prefix: Seq<char>, k: int, m: int)
    requires
        placed_among(entries, count, prefix),
        count <= entries.len(),
        0 <= k < count,
        0 <= m < count,
    ensures
        placed_under(entries[k], prefix),
        k != m ==> entries[k].name@ != entries[m].name@,
    decreases count,
{
    if k < count - 1 && m < count - 1 {
        lemma_placed_each(entries, (count - 1) as nat, prefix, k, m);
    } else if k < count - 1 {
        lemma_placed_each(entries, (count - 1) as nat, prefix, k, k);
    }
}

/// If a text begins with two texts put together, it begins with the first.
pub proof fn lemma_begins_with_front(text: Seq<char>, front: Seq<char>, back: Seq<char>)
    requires
        begins_with(text, front + back),
    ensures
        begins_with(text, front),
        forall|i: int| 0 <= i < front.len() ==> text[i] == front[i],
        forall|i: int| 0 <= i < back.len() ==> text[front.len() + i] == back[i],
{
    let whole = front + back;
    assert forall|i: int| 0 <= i < whole.len() implies text[i] == whole[i] by {
        assert(text.take(whole.len() as int)[i] == text[i]);
    }
    assert forall|i: int| 0 <= i < front.len() implies text[i] == front[i] by {
        assert(whole[i] == front[i]);
    }
    assert forall|i: int| 0 <= i < back.len() implies text[front.len() + i] == back[i] by {
        assert(whole[front.len() + i] == back[i]);
    }
    assert(text.take(front.len() as int) =~= front);
}

/// The path of an entry begins with the path of the top entry above it: it
/// is that path for a top entry, and goes on with a separator for an entry
/// further down.
pub proof fn lemma_path_begins(entries: Seq<Entry>, prefix: Seq<char>, place: Seq<int>)
    requires
        placed_among(entries, entries.len(), prefix),
        entry_at(entries, place) is Some,
    ensures
        place.len() > 0,
        0 <= place[0] < entries.len(),
        place.len() == 1 ==> path_at(entries, place) == prefix + entries[place[0]].name@,
        place.len() > 1 ==> begins_with(
            path_at(entries, place),
            inside(prefix + entries[place[0]].name@),
        ),
    decreases place.len(),
{
    let top = entries[place[0]];
    lemma_placed_each(entries, entries.len(), prefix, place[0], place[0]);
    if place.len() > 1 {
        match top.kind {
            EntryKind::Directory(children) => {
                let below = place.skip(1);
                let within = inside(top.path@);
                lemma_path_begins(children@, within, below);
                let next = children@[below[0]].name@;
                let path = path_at(entries, place);
                assert(path == path_at(children@, below));
                if below.len() == 1 {
                    assert(path == within + next);
                    assert(path.take(within.len() as int) =~= within);
                } else {
                    assert(inside(within + next) =~= within + inside(next));
                    lemma_begins_with_front(path, within, inside(next));
                }
            },
            _ => {},
        }
    }
}

/// If the path of one entry begins with the path of another followed by a
/// separator, the first stands inside the second.
pub proof fn lemma_inside_is_below(
    entries: Seq<Entry>,
    prefix: Seq<char>,
    above: Seq<int>,
    below: Seq<int>,
)
    requires
        placed_among(entries, entries.len(), prefix),
        entry_at(entries, above) is Some,
        entry_at(entries, below) is Some,
        begins_with(path_at(entries, below), inside(path_at(entries, above))),
    ensures
        is_above(above, below),
    decreases above.len(),
{
    lemma_path_begins(entries, prefix, above);
    lemma_path_begins(entries, prefix, below);
    let upper = entries[above[0]];
    let lower = entries[below[0]];
    let upper_path = path_at(entries, above);
    let lower_path = path_at(entries, below);
    let upper_head = prefix + upper.name@;
    let lower_head = prefix + lower.name@;
    let start = prefix.len() as int;
    lemma_placed_each(entries, entries.len(), prefix, above[0], below[0]);
    lemma_placed_each(entries, entries.len(), prefix, below[0], above[0]);
    // The lower path begins with the upper head and a separator.
    if above.len() == 1 {
        assert(inside(upper_path) == inside(upper_head));
    } else {
        let rest = inside(upper_path).skip(inside(upper_head).len() as int);
        assert(inside(upper_path) =~= inside(upper_head) + rest);
        lemma_begins_with_front(lower_path, inside(upper_head), rest);
    }
    assert(begins_with(lower_path, inside(upper_head)));
    let separator = seq!['/'];
    assert(inside(upper_head) =~= upper_head + separator);
    lemma_begins_with_front(lower_path, upper_head, separator);
    assert(lower_path[upper_head.len() as int + 0] == separator[0]);
    assert forall|i: int| 0 <= i < upper.name@.len() implies lower_path[start + i]
        == upper.name@[i] by {
        assert(upper_head[start + i] == upper.name@[i]);
    }
    // It also begins with its own head.
    if below.len() == 1 {
        assert(lower_path == lower_head);
        assert(lower_head[upper_head.len() as int] == lower.name@[upper.name@.len() as int]);
        assert(false);
    }
    assert(inside(lower_head) =~= lower_head + separator);
    lemma_begins_with_front(lower_path, lower_head, separator);
    assert(lower_path[lower_head.len() as int + 0] == separator[0]);
    assert forall|i: int| 0 <= i < lower.name@.len() implies lower_path[start + i]
        == lower.name@[i] by {
        assert(lower_head[start + i] == lower.name@[i]);
    }
    if upper.name@.len() < lower.name@.len() {
        assert(lower_path[start + upper.name@.len()] == lower.name@[upper.name@.len() as int]);
        assert(false);
    }
    if lower.name@.len() < upper.name@.len() {
        assert(lower_path[start + lower.name@.len()] == upper.name@[lower.name@.len() as int]);
        assert(false);
    }
    assert(upper.name@ =~= lower.name@);
    assert(above[0] == below[0]);
    if above.len() == 1 {
        assert(below.take(1) =~= above);
    } else {
        match upper.kind {
            EntryKind::Directory(children) => {
                assert(path_at(children@, above.skip(1)) == upper_path);
                assert(path_at(children@, below.skip(1)) == lower_path);
                lemma_inside_is_below(
                    children@,
                    inside(upper.path@),
                    above.skip(1),
                    below.skip(1),
                );
                assert(below.skip(1).take(above.len() - 1) == above.skip(1));
                assert forall|i: int| 0 <= i < above.len() implies below[i] == above[i] by {
                    if i > 0 {
                        assert(below.skip(1).take(above.len() - 1)[i - 1] == above.skip(1)[i - 1]);
                    }
                }
                assert(below.take(above.len() as int) =~= above);
            },
            _ => {},
        }
    }
}

/// A place that the walk reports holds an entry.
pub proof fn lemma_reported_exists(
    entries: Seq<Entry>,
    place: Seq<int>,
    pattern: Seq<char>,
    ignore: Set<Seq<char>>,
)
    requires
        reports(entries, place, pattern, ignore),
    ensures
        entry_at(entries, place) is Some,
    decreases place.len(),
{
    if place.len() > 1 {
        match entries[place[0]].kind {
            EntryKind::Directory(children) => {
                lemma_reported_exists(children@, place.skip(1), pattern, ignore);
            },
            _ => {},
        }
    }
}

/// No path that the walk reports begins with another path that it reports
/// followed by a separator: read as text, no match lies inside another.
pub proof fn lemma_found_not_inside(
    entries: Seq<Entry>,
    prefix: Seq<char>,
    pattern: Seq<char>,
    ignore: Set<Seq<char>>,
    i: int,
    j: int,
)
    requires
        placed_among(entries, entries.len(), prefix),
        0 <= i < found_among(entries, entries.len(), pattern, ignore).len(),
        0 <= j < found_among(entries, entries.len(), pattern, ignore).len(),
    ensures
        !begins_with(
            found_among(entries, entries.len(), pattern, ignore)[j],
            inside(found_among(entries, entries.len(), pattern, ignore)[i]),
        ),
{
    let found = found_among(entries, entries.len(), pattern, ignore);
    let places = places_among(entries, entries.len(), pattern, ignore);
    lemma_found_at_places(entries, entries.len(), pattern, ignore);
    lemma_reported_exists(entries, places[i], pattern, ignore);
    lemma_reported_exists(entries, places[j], pattern, ignore);
    lemma_reported_not_nested(entries, places[i], places[j], pattern, ignore);
    if begins_with(found[j], inside(found[i])) {
        lemma_inside_is_below(entries, prefix, places[i], places[j]);
    }
}

/// Of the paths that a search returns from a snapshot whose paths are written
/// as a file system writes them, none begins with another followed by a
/// separator.
pub proof fn lemma_search_not_nested(
    root: Snapshot,
    prefix: Seq<char>,
    pattern: Seq<char>,
    ignore: Set<Seq<char>>,
    i: int,
    j: int,
)
    requires
        root.placed(prefix),
        search_result(root, pattern, ignore) matches Ok(found) && 0 <= i < found.len() && 0 <= j
            < found.len(),
    ensures
        search_result(root, pattern, ignore) matches Ok(found) && !begins_with(
            found[j],
            inside(found[i]),
        ),
{
    match root.kind {
        Some(EntryKind::Directory(entries)) => {
            lemma_found_not_inside(entries@, prefix, pattern, ignore, i, j);
        },
        _ => {},
    }
}

} // verus!
