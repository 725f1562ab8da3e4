//! The walk that finds directories by name in a snapshot of a file tree.

use vstd::prelude::*;
use vstd::string::StringExecFns;
use crate::entry::DiscoveryMessage;
use crate::format::Timestamp;
use crate::ignore::IgnorePatterns;
use crate::text::texts;

verus! {

/// What stands at a place in the file tree.
#[derive(Debug)]
pub enum EntryKind {
    /// A regular file and its length in bytes.
    File(u64),
    /// A directory and what it holds, in the order the system listed it.
    Directory(Vec<Entry>),
    /// A directory that could not be listed, with the system's message.
    Unreadable(String),
    /// Anything else: a symbolic link, a device, a socket.
    Other,
}

/// One name in a directory.
#[derive(Debug)]
pub struct Entry {
    /// The last component of the path.
    pub name: String,
    /// The path by which the entry was reached.
    pub path: String,
    /// When the entry was last modified, if the system told.
    pub modified: Option<Timestamp>,
    pub kind: EntryKind,
}

impl Entry {
    /// Whether the entry is a directory, listable or not.
    pub open spec fn is_directory(&self) -> bool {
        self.kind is Directory || self.kind is Unreadable
    }
}

/// What a walk does with a directory of a given name.
#[derive(Debug, Clone, Copy, PartialEq, Eq, Structural)]
pub enum Visit {
    /// Pass over it: neither reported nor entered.
    Skip,
    /// Report it, and do not enter it.
    Report,
    /// Enter it and look at what it holds.
    Descend,
}

/// The rule of the walk, for the names in `ignore` being ignored: an ignored
/// name is passed over; a name equal to the pattern is reported and not
/// entered; any other directory is entered.
pub open spec fn visit_rule(name: Seq<char>, pattern: Seq<char>, ignore: Set<Seq<char>>) -> Visit {
    if ignore.contains(name) {
        Visit::Skip
    } else if name == pattern {
        Visit::Report
    } else {
        Visit::Descend
    }
}

/// Decides what the walk does with a directory named `name`.
pub fn visit(name: &str, pattern: &str, ignore_patterns: &IgnorePatterns) -> (decision: Visit)
    ensures
        decision == visit_rule(name@, pattern@, ignore_patterns.ignored()),
{
    if ignore_patterns.should_ignore(name) {
        Visit::Skip
    } else if *name == *pattern {
        Visit::Report
    } else {
        Visit::Descend
    }
}

/// The paths that the walk reports from within `entry`, itself included, in
/// the order of the walk.
pub open spec fn found_under(entry: Entry, pattern: Seq<char>, ignore: Set<Seq<char>>) -> Seq<
    Seq<char>,
>
    decreases entry, 0nat,
{
    if !entry.is_directory() {
        Seq::empty()
    } else {
        match visit_rule(entry.name@, pattern, ignore) {
            Visit::Skip => Seq::empty(),
            Visit::Report => seq![entry.path@],
            Visit::Descend => match entry.kind {
                EntryKind::Directory(children) => found_among(
                    children@,
                    children@.len(),
                    pattern,
                    ignore,
                ),
                _ => Seq::empty(),
            },
        }
    }
}

/// The paths that the walk reports from the first `count` of `entries`.
pub open spec fn found_among(
    entries: Seq<Entry>,
    count: nat,
    pattern: Seq<char>,
    ignore: Set<Seq<char>>,
) -> Seq<Seq<char>>
    decreases entries, count,
{
    if count == 0 || count > entries.len() {
        Seq::empty()
    } else {
        found_among(entries, (count - 1) as nat, pattern, ignore) + found_under(
            entries[count - 1],
            pattern,
            ignore,
        )
    }
}

/// The entry at a place in the tree. A place is written as the indices to
/// follow from the top entries down; the empty place names no entry.
pub open spec fn entry_at(entries: Seq<Entry>, place: Seq<int>) -> Option<Entry>
    decreases place.len(),
{
    if place.len() == 0 || !(0 <= place[0] < entries.len()) {
        None
    } else if place.len() == 1 {
        Some(entries[place[0]])
    } else {
        match entries[place[0]].kind {
            EntryKind::Directory(children) => entry_at(children@, place.skip(1)),
            _ => None,
        }
    }
}

/// Whether the walk reports the entry at `place`: it is a directory whose
/// name the rule reports, and the walk enters every directory above it.
pub open spec fn reports(
    entries: Seq<Entry>,
    place: Seq<int>,
    pattern: Seq<char>,
    ignore: Set<Seq<char>>,
) -> bool
    decreases place.len(),
{
    &&& place.len() > 0
    &&& 0 <= place[0] < entries.len()
    &&& entries[place[0]].is_directory()
    &&& if place.len() == 1 {
        visit_rule(entries[place[0]].name@, pattern, ignore) == Visit::Report
    } else {
        &&& visit_rule(entries[place[0]].name@, pattern, ignore) == Visit::Descend
        &&& match entries[place[0]].kind {
            EntryKind::Directory(children) => reports(children@, place.skip(1), pattern, ignore),
            _ => false,
        }
    }
}

/// `above` is the place of a directory that holds the entry at `below`,
/// directly or further up.
pub open spec fn is_above(above: Seq<int>, below: Seq<int>) -> bool {
    above.len() < below.len() && below.take(above.len() as int) == above
}

/// The places of the matches within `entry`, relative to it, in the order of
/// the walk; the empty place stands for `entry` itself.
pub open spec fn places_under(entry: Entry, pattern: Seq<char>, ignore: Set<Seq<char>>) -> Seq<
    Seq<int>,
>
    decreases entry, 0nat,
{
    if !entry.is_directory() {
        Seq::empty()
    } else {
        match visit_rule(entry.name@, pattern, ignore) {
            Visit::Skip => Seq::empty(),
            Visit::Report => seq![Seq::<int>::empty()],
            Visit::Descend => match entry.kind {
                EntryKind::Directory(children) => places_among(
                    children@,
                    children@.len(),
                    pattern,
                    ignore,
                ),
                _ => Seq::empty(),
            },
        }
    }
}

/// The places of the matches among the first `count` of `entries`, in the
/// order of the walk.
pub open spec fn places_among(
    entries: Seq<Entry>,
    count: nat,
    pattern: Seq<char>,
    ignore: Set<Seq<char>>,
) -> Seq<Seq<int>>
    decreases entries, count,
{
    if count == 0 || count > entries.len() {
        Seq::empty()
    } else {
        let inner = places_under(entries[count - 1], pattern, ignore);
        places_among(entries, (count - 1) as nat, pattern, ignore) + Seq::new(
            inner.len(),
            |k: int| seq![count - 1] + inner[k],
        )
    }
}

/// The path of the entry at `place`.
pub open spec fn path_at(entries: Seq<Entry>, place: Seq<int>) -> Seq<char> {
    entry_at(entries, place).unwrap().path@
}

/// The walk reports exactly the entries at `places_among`, one path for each
/// place and in the same order, and each of those places is one that
/// `reports` describes.
pub proof fn lemma_found_at_places(
    entries: Seq<Entry>,
    count: nat,
    pattern: Seq<char>,
    ignore: Set<Seq<char>>,
)
    requires
        count <= entries.len(),
    ensures
        found_among(entries, count, pattern, ignore).len() == places_among(
            entries,
            count,
            pattern,
            ignore,
        ).len(),
        forall|k: int|
            0 <= k < places_among(entries, count, pattern, ignore).len() ==> {
                let place = #[trigger] places_among(entries, count, pattern, ignore)[k];
                &&& reports(entries, place, pattern, ignore)
                &&& place[0] < count
                &&& found_among(entries, count, pattern, ignore)[k] == path_at(entries, place)
            },
    decreases entries, count,
{
    if count > 0 {
        let entry = entries[count - 1];
        let earlier = places_among(entries, (count - 1) as nat, pattern, ignore);
        let inner = places_under(entry, pattern, ignore);
        let shifted = Seq::new(inner.len(), |k: int| seq![count - 1] + inner[k]);
        let all = places_among(entries, count, pattern, ignore);
        let found_earlier = found_among(entries, (count - 1) as nat, pattern, ignore);
        let found_here = found_under(entry, pattern, ignore);
        let found = found_among(entries, count, pattern, ignore);
        assert(all == earlier + shifted);
        assert(found == found_earlier + found_here);
        lemma_found_at_places(entries, (count - 1) as nat, pattern, ignore);
        let descends = entry.is_directory() && visit_rule(entry.name@, pattern, ignore)
            == Visit::Descend;
        if descends {
            match entry.kind {
                EntryKind::Directory(children) => {
                    lemma_found_at_places(children@, children@.len(), pattern, ignore);
                },
                _ => {},
            }
        }
        assert(found_here.len() == inner.len());
        assert forall|k: int| 0 <= k < all.len() implies {
            let place = #[trigger] all[k];
            &&& reports(entries, place, pattern, ignore)
            &&& place[0] < count
            &&& found[k] == path_at(entries, place)
        } by {
            if k < earlier.len() {
                assert(all[k] == earlier[k]);
                assert(found[k] == found_earlier[k]);
            } else {
                let m = k - earlier.len();
                let place = all[k];
                assert(place == shifted[m]);
                assert(place == seq![count - 1] + inner[m]);
                assert(place[0] == count - 1);
                assert(place.skip(1) =~= inner[m]);
                assert(found[k] == found_here[m]);
                assert(entry.is_directory());
                if descends {
                    match entry.kind {
                        EntryKind::Directory(children) => {
                            let below = places_among(children@, children@.len(), pattern, ignore);
                            assert(inner[m] == below[m]);
                            assert(reports(children@, below[m], pattern, ignore));
                            assert(place.len() > 1);
                            assert(entry_at(entries, place) == entry_at(children@, inner[m]));
                        },
                        _ => {},
                    }
                } else {
                    assert(visit_rule(entry.name@, pattern, ignore) == Visit::Report);
                    assert(inner[m].len() == 0);
                    assert(place.len() == 1);
                    assert(entry_at(entries, place) == Some(entry));
                }
            }
        }
    }
}

/// Of two reported directories none lies inside the other: the walk never
/// enters a directory that it reports.
pub proof fn lemma_reported_not_nested(
    entries: Seq<Entry>,
    above: Seq<int>,
    below: Seq<int>,
    pattern: Seq<char>,
    ignore: Set<Seq<char>>,
)
    requires
        reports(entries, above, pattern, ignore),
        reports(entries, below, pattern, ignore),
    ensures
        !is_above(above, below),
    decreases above.len(),
{
    if is_above(above, below) {
        assert(below.take(above.len() as int)[0] == below[0]);
        assert(above[0] == below[0]);
        if above.len() > 1 {
            match entries[above[0]].kind {
                EntryKind::Directory(children) => {
                    assert(below.skip(1).take(above.len() - 1) =~= below.take(
                        above.len() as int,
                    ).skip(1));
                    lemma_reported_not_nested(
                        children@,
                        above.skip(1),
                        below.skip(1),
                        pattern,
                        ignore,
                    );
                },
                _ => {},
            }
        }
    }
}

/// A reported directory has no ignored name on its way: neither its own name
/// nor that of any directory above it is among the ignored names.
pub proof fn lemma_reported_not_ignored(
    entries: Seq<Entry>,
    place: Seq<int>,
    depth: int,
    pattern: Seq<char>,
    ignore: Set<Seq<char>>,
)
    requires
        reports(entries, place, pattern, ignore),
        1 <= depth <= place.len(),
    ensures
        entry_at(entries, place.take(depth)) matches Some(entry) && !ignore.contains(entry.name@),
    decreases place.len(),
{
    let prefix = place.take(depth);
    assert(prefix[0] == place[0]);
    if depth > 1 {
        match entries[place[0]].kind {
            EntryKind::Directory(children) => {
                assert(place.skip(1).take(depth - 1) =~= prefix.skip(1));
                lemma_reported_not_ignored(children@, place.skip(1), depth - 1, pattern, ignore);
            },
            _ => {},
        }
    }
}

/// No path that a search returns belongs to a directory inside another
/// directory whose path it returns. The paths are told apart by their places
/// in the tree: the `i`-th path returned is that of the entry at the `i`-th
/// place of `places_among`.
pub proof fn lemma_matches_not_nested(
    entries: Seq<Entry>,
    pattern: Seq<char>,
    ignore: Set<Seq<char>>,
    i: int,
    j: int,
)
    requires
        0 <= i < found_among(entries, entries.len(), pattern, ignore).len(),
        0 <= j < found_among(entries, entries.len(), pattern, ignore).len(),
    ensures
        ({
            let places = places_among(entries, entries.len(), pattern, ignore);
            let found = found_among(entries, entries.len(), pattern, ignore);
            &&& places.len() == found.len()
            &&& found[i] == path_at(entries, places[i])
            &&& found[j] == path_at(entries, places[j])
            &&& !is_above(places[i], places[j])
        }),
{
    lemma_found_at_places(entries, entries.len(), pattern, ignore);
    let places = places_among(entries, entries.len(), pattern, ignore);
    lemma_reported_not_nested(entries, places[i], places[j], pattern, ignore);
}

/// No path that a search returns belongs to a directory with an ignored name
/// or inside one.
pub proof fn lemma_matches_not_ignored(
    entries: Seq<Entry>,
    pattern: Seq<char>,
    ignore: Set<Seq<char>>,
    i: int,
    depth: int,
)
    requires
        0 <= i < found_among(entries, entries.len(), pattern, ignore).len(),
        1 <= depth <= places_among(entries, entries.len(), pattern, ignore)[i].len(),
    ensures
        ({
            let places = places_among(entries, entries.len(), pattern, ignore);
            let found = found_among(entries, entries.len(), pattern, ignore);
            &&& places.len() == found.len()
            &&& found[i] == path_at(entries, places[i])
            &&& entry_at(entries, places[i].take(depth)) matches Some(entry) && !ignore.contains(entry.name@)
        }),
{
    lemma_found_at_places(entries, entries.len(), pattern, ignore);
    let places = places_among(entries, entries.len(), pattern, ignore);
    lemma_reported_not_ignored(entries, places[i], depth, pattern, ignore);
}

/// What the file system shows at the path where a walk starts.
#[derive(Debug)]
pub struct Snapshot {
    /// The path that was looked at.
    pub path: String,
    /// When it was last modified, if the system told.
    pub modified: Option<Timestamp>,
    /// What stands there; `None` if nothing does.
    pub kind: Option<EntryKind>,
}

/// Why a walk could not be made.
#[derive(Debug, Clone, PartialEq)]
pub enum DiscoveryError {
    /// The pattern is the empty string.
    PatternEmpty,
    /// Nothing exists at the root path.
    RootMissing(String),
    /// The root path is no directory.
    RootNotDirectory(String),
    /// The root directory could not be listed; the system's message.
    RootUnreadable(String),
}

impl DiscoveryError {
    /// The line that tells of the error.
    pub open spec fn message(self) -> Seq<char> {
        match self {
            DiscoveryError::PatternEmpty => "Pattern cannot be empty"@,
            DiscoveryError::RootMissing(path) => "Path '"@ + path@ + "' does not exist"@,
            DiscoveryError::RootNotDirectory(path) => "Path '"@ + path@ + "' is not a directory"@,
            DiscoveryError::RootUnreadable(reason) => reason@,
        }
    }

    /// The error in one line.
    pub fn to_string(&self) -> (text: String)
        ensures
            text@ == self.message(),
    {
        match self {
            DiscoveryError::PatternEmpty => String::from_str("Pattern cannot be empty"),
            DiscoveryError::RootMissing(path) => {
                let mut text = String::from_str("Path '");
                text.append(path.as_str());
                text.append("' does not exist");
                text
            },
            DiscoveryError::RootNotDirectory(path) => {
                let mut text = String::from_str("Path '");
                text.append(path.as_str());
                text.append("' is not a directory");
                text
            },
            DiscoveryError::RootUnreadable(reason) => reason.clone(),
        }
    }
}

/// What `check_search` answers: the first that fails of a pattern that is
/// not empty, a root that exists, and a root that is a directory.
pub open spec fn is_search_check(
    result: Result<(), DiscoveryError>,
    pattern: Seq<char>,
    root_path: Seq<char>,
    exists: bool,
    is_directory: bool,
) -> bool {
    if pattern.len() == 0 {
        result == Err::<(), DiscoveryError>(DiscoveryError::PatternEmpty)
    } else if !exists {
        result matches Err(DiscoveryError::RootMissing(path)) && path@ == root_path
    } else if !is_directory {
        result matches Err(DiscoveryError::RootNotDirectory(path)) && path@ == root_path
    } else {
        result is Ok
    }
}

/// Whether a walk for `pattern` can start at `root_path`, of which the
/// caller says whether something exists there and whether it is a directory.
pub fn check_search(pattern: &str, root_path: &str, exists: bool, is_directory: bool) -> (result:
    Result<(), DiscoveryError>)
    ensures
        is_search_check(result, pattern@, root_path@, exists, is_directory),
{
    if pattern.unicode_len() == 0 {
        Err(DiscoveryError::PatternEmpty)
    } else if !exists {
        Err(DiscoveryError::RootMissing(root_path.to_string()))
    } else if !is_directory {
        Err(DiscoveryError::RootNotDirectory(root_path.to_string()))
    } else {
        Ok(())
    }
}

/// What a search from `root` for `pattern` returns: the error that stops it
/// before the walk, or the paths found.
pub open spec fn search_result(root: Snapshot, pattern: Seq<char>, ignore: Set<Seq<char>>) -> Result<
    Seq<Seq<char>>,
    DiscoveryError,
> {
    if pattern.len() == 0 {
        Err(DiscoveryError::PatternEmpty)
    } else {
        match root.kind {
            None => Err(DiscoveryError::RootMissing(root.path)),
            Some(EntryKind::Directory(entries)) => Ok(
                found_among(entries@, entries@.len(), pattern, ignore),
            ),
            Some(EntryKind::Unreadable(reason)) => Err(DiscoveryError::RootUnreadable(reason)),
            Some(_) => Err(DiscoveryError::RootNotDirectory(root.path)),
        }
    }
}

/// Whether a call's outcome is the one that `expected` describes: the same
/// error, or the same paths in the same order.
pub open spec fn agrees(
    result: Result<Vec<String>, DiscoveryError>,
    expected: Result<Seq<Seq<char>>, DiscoveryError>,
) -> bool {
    match expected {
        Ok(wanted) => result matches Ok(paths) && texts(paths@) == wanted,
        Err(e) => result == Err::<Vec<String>, DiscoveryError>(e),
    }
}

/// The messages of a walk that found `found`: one for each path, in order,
/// then the one that ends the stream.
pub open spec fn is_stream_of(messages: Seq<DiscoveryMessage>, found: Seq<Seq<char>>) -> bool {
    &&& messages.len() == found.len() + 1
    &&& forall|i: int|
        0 <= i < found.len() ==> (#[trigger] messages[i] matches DiscoveryMessage::DirectoryFound(
            path,
        ) && path@ == found[i])
    &&& messages.last() is DiscoveryComplete
}

/// Whether a streamed walk's outcome is the one that `expected` describes. A
/// root that cannot be listed is no failure of the call: it is told in the
/// stream, as its only message.
pub open spec fn streams(
    result: Result<Vec<DiscoveryMessage>, DiscoveryError>,
    expected: Result<Seq<Seq<char>>, DiscoveryError>,
) -> bool {
    match expected {
        Ok(found) => result matches Ok(messages) && is_stream_of(messages@, found),
        Err(DiscoveryError::RootUnreadable(reason)) => result matches Ok(messages) && messages@
            == seq![DiscoveryMessage::DiscoveryError(reason)],
        Err(e) => result == Err::<Vec<DiscoveryMessage>, DiscoveryError>(e),
    }
}

/// Walks `entries` and appends the path of every match to `matches`.
fn search_entries(
    entries: &Vec<Entry>,
    pattern: &str,
    ignore_patterns: &IgnorePatterns,
    matches: &mut Vec<String>,
)
    ensures
        texts(final(matches)@) == texts(old(matches)@) + found_among(
            entries@,
            entries@.len(),
            pattern@,
            ignore_patterns.ignored(),
        ),
    decreases entries,
{
    let ghost before = texts(matches@);
    let ghost ignore = ignore_patterns.ignored();
    let mut i: usize = 0;
    proof {
        assert(before + Seq::<Seq<char>>::empty() =~= before);
    }
    while i < entries.len()
        invariant
            i <= entries@.len(),
            ignore == ignore_patterns.ignored(),
            texts(matches@) == before + found_among(entries@, i as nat, pattern@, ignore),
        decreases entries@.len() - i,
    {
        let entry = &entries[i];
        let ghost so_far = texts(matches@);
        let ghost earlier = found_among(entries@, i as nat, pattern@, ignore);
        match &entry.kind {
            EntryKind::Directory(children) => {
                match visit(entry.name.as_str(), pattern, ignore_patterns) {
                    Visit::Skip => {},
                    Visit::Report => {
                        matches.push(entry.path.clone());
                        assert(texts(matches@) =~= so_far + seq![entry.path@]);
                    },
                    Visit::Descend => {
                        search_entries(children, pattern, ignore_patterns, matches);
                    },
                }
            },
            EntryKind::Unreadable(_) => {
                match visit(entry.name.as_str(), pattern, ignore_patterns) {
                    Visit::Report => {
                        matches.push(entry.path.clone());
                        assert(texts(matches@) =~= so_far + seq![entry.path@]);
                    },
                    _ => {},
                }
            },
            _ => {},
        }
        proof {
            let here = found_under(entries@[i as int], pattern@, ignore);
            assert(texts(matches@) =~= so_far + here);
            assert(before + (earlier + here) =~= (before + earlier) + here);
        }
        i += 1;
    }
}

/// Finds the directories named `pattern` under `root`, passing over those
/// that `ignore_patterns` matches. A match is reported by its path and never
/// entered; directories that cannot be listed are passed over in silence.
pub fn find_directories_with_ignore(
    root: &Snapshot,
    pattern: &str,
    ignore_patterns: &IgnorePatterns,
) -> (result: Result<Vec<String>, DiscoveryError>)
    ensures
        agrees(result, search_result(*root, pattern@, ignore_patterns.ignored())),
{
    if pattern.unicode_len() == 0 {
        return Err(DiscoveryError::PatternEmpty);
    }
    match &root.kind {
        None => Err(DiscoveryError::RootMissing(root.path.clone())),
        Some(EntryKind::Directory(entries)) => {
            let mut matches: Vec<String> = Vec::new();
            search_entries(entries, pattern, ignore_patterns, &mut matches);
            proof {
                let found = found_among(
                    entries@,
                    entries@.len(),
                    pattern@,
                    ignore_patterns.ignored(),
                );
                assert(texts(Seq::<String>::empty()) + found =~= found);
            }
            Ok(matches)
        },
        Some(EntryKind::Unreadable(reason)) => Err(DiscoveryError::RootUnreadable(reason.clone())),
        Some(_) => Err(DiscoveryError::RootNotDirectory(root.path.clone())),
    }
}

/// Finds the directories named `pattern` under `root`, ignoring nothing.
pub fn find_directories(root: &Snapshot, pattern: &str) -> (result: Result<
    Vec<String>,
    DiscoveryError,
>)
    ensures
        agrees(result, search_result(*root, pattern@, Set::empty())),
{
    find_directories_with_ignore(root, pattern, &IgnorePatterns::empty())
}

/// Finds the directories named `pattern` under the working directory, of
/// which `current` is the snapshot.
pub fn find_directories_current(current: &Snapshot, pattern: &str) -> (result: Result<
    Vec<String>,
    DiscoveryError,
>)
    ensures
        agrees(result, search_result(*current, pattern@, Set::empty())),
{
    find_directories(current, pattern)
}

/// Walks `root` as `find_directories_with_ignore` does and returns what the
/// walk reports as a stream of messages: each match as it is found, then the
/// end of the walk.
pub fn stream_directories_with_ignore(
    root: &Snapshot,
    pattern: &str,
    ignore_patterns: &IgnorePatterns,
) -> (result: Result<Vec<DiscoveryMessage>, DiscoveryError>)
    ensures
        streams(result, search_result(*root, pattern@, ignore_patterns.ignored())),
{
    match find_directories_with_ignore(root, pattern, ignore_patterns) {
        Ok(paths) => {
            let ghost found = texts(paths@);
            let mut messages: Vec<DiscoveryMessage> = Vec::new();
            let mut i: usize = 0;
            while i < paths.len()
                invariant
                    i <= paths@.len(),
                    found == texts(paths@),
                    messages@.len() == i,
                    forall|j: int|
                        0 <= j < i ==> (#[trigger] messages@[j] matches DiscoveryMessage::DirectoryFound(
                            path,
                        ) && path@ == found[j]),
                decreases paths@.len() - i,
            {
                messages.push(DiscoveryMessage::DirectoryFound(paths[i].clone()));
                i += 1;
            }
            messages.push(DiscoveryMessage::DiscoveryComplete);
            Ok(messages)
        },
        Err(DiscoveryError::RootUnreadable(reason)) => {
            let mut messages: Vec<DiscoveryMessage> = Vec::new();
            messages.push(DiscoveryMessage::DiscoveryError(reason));
            assert(messages@ =~= seq![DiscoveryMessage::DiscoveryError(reason)]);
            Ok(messages)
        },
        Err(e) => Err(e),
    }
}

/// Streams the walk of `root` for `pattern`, ignoring nothing.
pub fn stream_directories(root: &Snapshot, pattern: &str) -> (result: Result<
    Vec<DiscoveryMessage>,
    DiscoveryError,
>)
    ensures
        streams(result, search_result(*root, pattern@, Set::empty())),
{
    stream_directories_with_ignore(root, pattern, &IgnorePatterns::empty())
}

/// The parent of a path written as text: what `Path::parent` of the standard
/// library returns for it, as text, on the system that the library is built
/// for.
pub uninterp spec fn path_parent(path: Seq<char>) -> Option<Seq<char>>;

/// The text in an optional string.
pub open spec fn text_in(value: Option<String>) -> Option<Seq<char>> {
    match value {
        Some(text) => Some(text@),
        None => None,
    }
}

/// `Path::parent` of the standard library, on a path given as text: the
/// path without its last component, if it has one. What counts as a
/// component is the system's matter, so the answer is only named; the empty
/// path has no parent on any system.
#[verifier::external_body]
fn parent_of(path: &str) -> (parent: Option<String>)
    ensures
        text_in(parent) == path_parent(path@),
        path@.len() == 0 ==> parent is None,
{
    std::path::Path::new(path).parent().map(|parent| parent.to_string_lossy().to_string())
}

/// The holder of a path whose parent is `parent`: the parent, or the path
/// itself if it has none.
pub open spec fn holder_path(path: Seq<char>, parent: Option<Seq<char>>) -> Seq<char> {
    match parent {
        Some(parent) => parent,
        None => path,
    }
}

/// The directory whose modification time stands for a match at `path`: the
/// one that holds the match, as `parent` names it, or the match itself if it
/// has no holder.
pub fn holder_given(path: &str, parent: Option<String>) -> (holder: String)
    ensures
        holder@ == holder_path(path@, text_in(parent)),
{
    match parent {
        Some(parent) => parent,
        None => path.to_string(),
    }
}

/// The path of the directory whose modification time stands for a match at
/// `path`: its parent directory as the system sees it, or the path itself if
/// it has none. The empty path has no parent and stands for itself.
pub fn holder_of(path: &str) -> (holder: String)
    ensures
        holder@ == holder_path(path@, path_parent(path@)),
        path@.len() == 0 ==> holder@ == path@,
{
    let parent = parent_of(path);
    holder_given(path, parent)
}

} // verus!
