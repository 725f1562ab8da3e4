//! The search as lines of text, for terminals on which no frame can be
//! drawn.

use vstd::prelude::*;
use vstd::string::StringExecFns;
use crate::app::sum_sizes;
use crate::discover::{DiscoveryError, Snapshot};
use crate::entry::DirectoryInfo;
use crate::format::{format_size, size_text, Timestamp};
use crate::ignore::{
    all_compile, names_first_failure, pattern_pieces, IgnoreError, IgnorePatterns,
};
use crate::size::{capped, find_directories_with_size_and_ignore};
use crate::text::{
    chars_of, clean_path, cleaned, decimal, push_number, push_text, texts, trim_range, trimmed,
};
use crate::view::{duration_text, format_duration};

verus! {

/// How many directories are listed between two page marks.
pub const REPORT_PAGE: usize = 20;

/// The lines that open a report: what is searched for and where, the ignore
/// patterns if any were given, and that the scan runs.
pub open spec fn report_opening(pattern: Seq<char>, path: Seq<char>, ignore: Seq<char>) -> Seq<
    Seq<char>,
> {
    let first = seq![
        "🔍 Directory Search Results"@,
        "Pattern: '"@ + pattern + "' in '"@ + path + "'"@,
    ];
    let second = if trimmed(ignore).len() > 0 {
        seq!["Ignore patterns: '"@ + ignore + "'"@]
    } else {
        Seq::empty()
    };
    first + second + seq!["⏳ Scanning directories..."@, Seq::empty()]
}

/// Builds the lines that open a report.
pub fn report_header(pattern: &str, path: &str, ignore_patterns: &str) -> (lines: Vec<String>)
    ensures
        texts(lines@) == report_opening(pattern@, path@, ignore_patterns@),
{
    let mut lines: Vec<String> = Vec::new();
    assert(texts(lines@) =~= Seq::<Seq<char>>::empty());
    push_text(&mut lines, String::from_str("🔍 Directory Search Results"));
    let mut search = String::from_str("Pattern: '");
    search.append(pattern);
    search.append("' in '");
    search.append(path);
    search.append("'");
    push_text(&mut lines, search);
    let chars = chars_of(ignore_patterns);
    let (from, to) = trim_range(&chars, 0, chars.len());
    assert(chars@.subrange(0, chars@.len() as int) =~= chars@);
    if from < to {
        let mut ignoring = String::from_str("Ignore patterns: '");
        ignoring.append(ignore_patterns);
        ignoring.append("'");
        push_text(&mut lines, ignoring);
    }
    push_text(&mut lines, String::from_str("⏳ Scanning directories..."));
    push_text(&mut lines, String::new());
    assert(texts(lines@) =~= report_opening(pattern@, path@, ignore_patterns@));
    lines
}

/// The line of one directory: its path without "./", its size, and how
/// long the size took if that is known.
pub open spec fn report_line(entry: DirectoryInfo) -> Seq<char> {
    let timing = match entry.calculation_time {
        Some(millis) => " (calculated in "@ + duration_text(millis) + ")"@,
        None => Seq::empty(),
    };
    "📁 "@ + cleaned(entry.path@) + " ("@ + entry.formatted_size@ + ")"@ + timing
}

/// The total number of pages of a report on `len` directories.
pub open spec fn report_pages(len: nat) -> nat {
    if len == 0 {
        0
    } else {
        ((len - 1) / REPORT_PAGE as int + 1) as nat
    }
}

/// The lines for the first `count` directories: one line each, and after
/// every twentieth that is not the last, a page mark between blank lines.
pub open spec fn report_listing(entries: Seq<DirectoryInfo>, count: nat) -> Seq<Seq<char>>
    decreases count,
{
    if count == 0 || count > entries.len() {
        Seq::empty()
    } else {
        let before = report_listing(entries, (count - 1) as nat).push(
            report_line(entries[count - 1]),
        );
        if count % REPORT_PAGE as nat == 0 && count < entries.len() {
            before + seq![
                Seq::empty(),
                "--- Page "@ + decimal(count / REPORT_PAGE as nat) + " of "@ + decimal(
                    report_pages(entries.len()),
                ) + " ---"@,
                Seq::empty(),
            ]
        } else {
            before
        }
    }
}

/// The lines that tell what a search found: that nothing was found, or how
/// many directories, each on its line, and their total size.
pub open spec fn report_body(pattern: Seq<char>, entries: Seq<DirectoryInfo>) -> Seq<Seq<char>> {
    if entries.len() == 0 {
        seq!["❌ No directories found matching pattern '"@ + pattern + "'"@]
    } else {
        seq!["✅ Found "@ + decimal(entries.len()) + " directories:"@, Seq::empty()]
            + report_listing(entries, entries.len()) + seq![
            Seq::empty(),
            "📊 Total: "@ + decimal(entries.len()) + " directories found, "@ + size_text(
                capped(sum_sizes(entries)) as nat,
            ) + " total size"@,
            "💡 Tip: Use a terminal that supports TUI for a better experience"@,
        ]
    }
}

fn line_for(entry: &DirectoryInfo) -> (line: String)
    ensures
        line@ == report_line(*entry),
{
    let mut line = String::from_str("📁 ");
    line.append(clean_path(entry.path.as_str()));
    line.append(" (");
    line.append(entry.formatted_size.as_str());
    line.append(")");
    match entry.calculation_time {
        Some(millis) => {
            let ghost before = line@;
            line.append(" (calculated in ");
            line.append(format_duration(millis).as_str());
            line.append(")");
            assert(line@ =~= before + (" (calculated in "@ + duration_text(millis) + ")"@));
        },
        None => {
            assert(line@ + Seq::<char>::empty() =~= line@);
        },
    }
    line
}

/// Builds the lines that tell what a search found.
pub fn report_lines(pattern: &str, directories: &Vec<DirectoryInfo>) -> (lines: Vec<String>)
    ensures
        texts(lines@) == report_body(pattern@, directories@),
{
    let mut lines: Vec<String> = Vec::new();
    assert(texts(lines@) =~= Seq::<Seq<char>>::empty());
    let len: usize = directories.len();
    if len == 0 {
        let mut nothing = String::from_str("❌ No directories found matching pattern '");
        nothing.append(pattern);
        nothing.append("'");
        push_text(&mut lines, nothing);
        assert(texts(lines@) =~= report_body(pattern@, directories@));
        return lines;
    }
    let mut found = String::from_str("✅ Found ");
    push_number(&mut found, len as u128);
    found.append(" directories:");
    push_text(&mut lines, found);
    push_text(&mut lines, String::new());
    let ghost opening = texts(lines@);
    let pages: usize = (len - 1) / REPORT_PAGE + 1;
    let mut total: u64 = 0;
    let mut i: usize = 0;
    proof {
        assert(opening =~= opening + report_listing(directories@, 0));
        assert(directories@.take(0) =~= Seq::<DirectoryInfo>::empty());
    }
    while i < len
        invariant
            i <= len,
            len == directories@.len(),
            len > 0,
            pages == report_pages(len as nat),
            texts(lines@) == opening + report_listing(directories@, i as nat),
            total == capped(sum_sizes(directories@.take(i as int))),
        decreases len - i,
    {
        let ghost so_far = texts(lines@);
        let ghost listed = report_listing(directories@, i as nat);
        push_text(&mut lines, line_for(&directories[i]));
        assert(directories@.take(i + 1).drop_last() =~= directories@.take(i as int));
        total = total.saturating_add(directories[i].size);
        let ghost with_line = listed.push(report_line(directories@[i as int]));
        assert(texts(lines@) =~= opening + with_line);
        i += 1;
        if i % REPORT_PAGE == 0 && i < len {
            push_text(&mut lines, String::new());
            let mut mark = String::from_str("--- Page ");
            push_number(&mut mark, (i / REPORT_PAGE) as u128);
            mark.append(" of ");
            push_number(&mut mark, pages as u128);
            mark.append(" ---");
            let ghost mark_text = "--- Page "@ + decimal(i as nat / REPORT_PAGE as nat) + " of "@
                + decimal(report_pages(len as nat)) + " ---"@;
            assert(mark@ =~= mark_text);
            push_text(&mut lines, mark);
            push_text(&mut lines, String::new());
            proof {
                let marks = seq![Seq::<char>::empty(), mark_text, Seq::<char>::empty()];
                assert(report_listing(directories@, i as nat) == with_line + marks);
                assert(texts(lines@) =~= opening + (with_line + marks));
            }
        } else {
            assert(report_listing(directories@, i as nat) == with_line);
        }
    }
    push_text(&mut lines, String::new());
    let mut summary = String::from_str("📊 Total: ");
    push_number(&mut summary, len as u128);
    summary.append(" directories found, ");
    summary.append(format_size(total).as_str());
    summary.append(" total size");
    push_text(&mut lines, summary);
    push_text(
        &mut lines,
        String::from_str("💡 Tip: Use a terminal that supports TUI for a better experience"),
    );
    proof {
        assert(directories@.take(len as int) =~= directories@);
        let closing = seq![
            Seq::<char>::empty(),
            "📊 Total: "@ + decimal(len as nat) + " directories found, "@ + size_text(
                capped(sum_sizes(directories@)) as nat,
            ) + " total size"@,
            "💡 Tip: Use a terminal that supports TUI for a better experience"@,
        ];
        assert(texts(lines@) =~= opening + report_listing(directories@, len as nat) + closing);
        assert(opening =~= seq![
            "✅ Found "@ + decimal(len as nat) + " directories:"@,
            Seq::<char>::empty(),
        ]);
    }
    lines
}

/// Why a report could not be made.
#[derive(Debug, Clone)]
pub enum ReportError {
    /// An ignore pattern is no valid regular expression.
    Ignore(IgnoreError),
    /// The search could not be made.
    Discovery(DiscoveryError),
}

impl ReportError {
    /// The error in one line.
    pub fn to_string(&self) -> (text: String)
        ensures
            text@ == match self {
                ReportError::Ignore(e) => IgnoreError::message(e.pattern@),
                ReportError::Discovery(e) => e.message(),
            },
    {
        match self {
            ReportError::Ignore(e) => e.to_string(),
            ReportError::Discovery(e) => e.to_string(),
        }
    }
}

/// Whether `lines` tell of what a search finds that passes over the names
/// in `ignore`: the matches with their sizes, largest first.
pub open spec fn tells_of(
    lines: Seq<Seq<char>>,
    root: Snapshot,
    pattern: Seq<char>,
    ignore: Set<Seq<char>>,
    now: Timestamp,
) -> bool {
    crate::size::sized_search_result(root, pattern, ignore) matches Ok(items)
        && exists|entries: Seq<DirectoryInfo>| #[trigger]
        crate::size::lists_all(entries, items, now) && lines == report_body(pattern, entries)
}

/// What `text_report` returns for a list of ignore patterns with these
/// pieces. If a piece does not compile, the error that names the first such
/// piece. Else, with the pieces compiled, what the search gives: the error
/// that stopped it, or the lines that tell of the matches as of `now`.
pub open spec fn is_report(
    result: Result<Vec<String>, ReportError>,
    root: Snapshot,
    pattern: Seq<char>,
    pieces: Seq<Seq<char>>,
    now: Timestamp,
) -> bool {
    if all_compile(pieces) {
        exists|ignore: IgnorePatterns| #[trigger]
            ignore.sources() == pieces && match crate::size::sized_search_result(
                root,
                pattern,
                ignore.ignored(),
            ) {
                Ok(_) => result matches Ok(lines) && tells_of(
                    texts(lines@),
                    root,
                    pattern,
                    ignore.ignored(),
                    now,
                ),
                Err(e) => result == Err::<Vec<String>, ReportError>(ReportError::Discovery(e)),
            }
    } else {
        result matches Err(ReportError::Ignore(e)) && names_first_failure(pieces, e.pattern@)
    }
}

/// Searches `root` for directories named `pattern` and reports them with
/// their sizes as lines of text, largest first. The ignore patterns are
/// compiled first; a pattern that does not compile, an empty pattern, or a
/// root that is no listable directory ends the report with the error. `now`
/// is the moment of the search, from which the ages are told.
pub fn text_report(root: &Snapshot, pattern: &str, ignore_patterns: &str, now: &Timestamp) -> (result:
    Result<Vec<String>, ReportError>)
    ensures
        is_report(result, *root, pattern@, pattern_pieces(ignore_patterns@), *now),
{
    let ignore = match IgnorePatterns::new(ignore_patterns) {
        Ok(ignore) => ignore,
        Err(e) => {
            return Err(ReportError::Ignore(e));
        },
    };
    match find_directories_with_size_and_ignore(root, pattern, &ignore, now) {
        Ok(directories) => {
            let lines = report_lines(pattern, &directories);
            proof {
                let items = crate::size::sized_search_result(
                    *root,
                    pattern@,
                    ignore.ignored(),
                )->Ok_0;
                assert(crate::size::lists_all(directories@, items, *now));
                assert(ignore.sources() == pattern_pieces(ignore_patterns@));
            }
            Ok(lines)
        },
        Err(e) => {
            proof {
                assert(ignore.sources() == pattern_pieces(ignore_patterns@));
            }
            Err(ReportError::Discovery(e))
        },
    }
}

} // verus!
