//! The panels around the list: the header, the details of the entry under
//! the cursor, what is shown while the list is empty, and the footer.

use vstd::prelude::*;
use vstd::string::StringExecFns;
use crate::app::{selected_of, sum_sizes, App, DiscoveryStatus};
use crate::entry::DirectoryInfo;
use crate::format::{format_size, size_text};
use crate::size::capped;
use crate::style::{
    blank_line, bold_style, fg_style, line_view, lines_view, plain_style, push_label, push_line,
    push_span, Span, Style, Tone,
};
use crate::text::{clean_path, cleaned, decimal, push_number};
use crate::view::{
    build_rows, calculated_count, completed_among, duration_text, format_duration,
    get_loading_frame, list_title, list_title_of, page_of, page_text, rows_of, selection_summary,
    selection_summary_of, total_size,
};

verus! {

/// The line of the header that tells how discovery goes.
pub open spec fn status_line_of(app: &App) -> Seq<(Seq<char>, Style)> {
    match app.discovery_status {
        DiscoveryStatus::NotStarted => seq![("Ready to scan..."@, bold_style(Tone::TextSecondary))],
        DiscoveryStatus::Discovering => seq![
            ("⠋"@ + " "@ + app.progress_text(), bold_style(Tone::Warning)),
        ],
        DiscoveryStatus::Complete => seq![
            ("✅ "@ + app.progress_text(), bold_style(Tone::Success)),
        ],
        DiscoveryStatus::Error(error) => seq![("❌ "@ + error@, bold_style(Tone::Error))],
    }
}

/// "2/5 calculated": how many sizes are computed, of how many entries.
pub open spec fn calculated_text(app: &App, after: Seq<char>) -> Seq<char> {
    decimal(completed_among(app.directories@, app.directories@.len())) + "/"@ + decimal(
        app.directories@.len(),
    ) + after
}

/// The header: the title, the pattern and where it is searched, how
/// discovery goes, how long the scan took, the page, and the total size
/// once there are entries.
pub open spec fn header_of(
    app: &App,
    items_per_page: usize,
    place: Seq<char>,
    scan_time: Seq<char>,
) -> Seq<Seq<(Seq<char>, Style)>> {
    seq![
        seq![("🔍 Directory Search Results"@, bold_style(Tone::Primary))],
        seq![
            ("Pattern: "@, fg_style(Tone::TextSecondary)),
            ("'"@ + app.pattern@ + "'"@, bold_style(Tone::Accent)),
            (" in "@, fg_style(Tone::TextSecondary)),
            ("'"@ + place + "'"@, bold_style(Tone::Secondary)),
        ],
        status_line_of(app),
        seq![
            ("⏱️  Scan Time: "@, fg_style(Tone::TextSecondary)),
            (scan_time, bold_style(Tone::Accent)),
        ],
        seq![
            ("📄 Page "@, bold_style(Tone::Warning)),
            (page_text(app, items_per_page, " of "@), bold_style(Tone::Accent)),
            (" items per page"@, fg_style(Tone::TextSecondary)),
        ],
        if app.directories@.len() > 0 {
            seq![
                ("💾 Total Size: "@, fg_style(Tone::TextSecondary)),
                (size_text(capped(sum_sizes(app.directories@)) as nat), bold_style(Tone::Highlight)),
                (" ("@, fg_style(Tone::TextSecondary)),
                (calculated_text(app, " calculated"@), fg_style(Tone::Accent)),
                (")"@, fg_style(Tone::TextSecondary)),
            ]
        } else {
            Seq::empty()
        },
    ]
}

fn quoted(text: &str) -> (out: String)
    ensures
        out@ == "'"@ + text@ + "'"@,
{
    let mut out = String::from_str("'");
    out.append(text);
    out.append("'");
    out
}

fn calculated_of(app: &App, after: &str) -> (text: String)
    ensures
        text@ == calculated_text(app, after@),
{
    let mut text = String::new();
    push_number(&mut text, calculated_count(app) as u128);
    text.append("/");
    push_number(&mut text, app.directories.len() as u128);
    text.append(after);
    assert(text@ =~= calculated_text(app, after@));
    text
}

fn status_line(app: &App) -> (line: Vec<Span>)
    ensures
        line_view(line@) == status_line_of(app),
{
    let mut line: Vec<Span> = Vec::new();
    match &app.discovery_status {
        DiscoveryStatus::NotStarted => {
            push_label(&mut line, "Ready to scan...", Style::bold(Tone::TextSecondary));
        },
        DiscoveryStatus::Discovering => {
            let mut text = String::from_str(get_loading_frame());
            text.append(" ");
            text.append(app.get_discovery_progress().as_str());
            push_span(&mut line, text, Style::bold(Tone::Warning));
        },
        DiscoveryStatus::Complete => {
            let mut text = String::from_str("✅ ");
            text.append(app.get_discovery_progress().as_str());
            push_span(&mut line, text, Style::bold(Tone::Success));
        },
        DiscoveryStatus::Error(error) => {
            let mut text = String::from_str("❌ ");
            text.append(error.as_str());
            push_span(&mut line, text, Style::bold(Tone::Error));
        },
    }
    assert(line_view(line@) =~= status_line_of(app));
    line
}

/// Builds the header. `place` is the directory that is searched, as it is
/// shown; `scan_time` is how long the scan has taken, as it is shown.
pub fn build_header(app: &App, items_per_page: usize, place: &str, scan_time: &str) -> (lines: Vec<
    Vec<Span>,
>)
    ensures
        lines_view(lines@) == header_of(app, items_per_page, place@, scan_time@),
{
    let mut lines: Vec<Vec<Span>> = Vec::new();
    let mut title: Vec<Span> = Vec::new();
    push_label(&mut title, "🔍 Directory Search Results", Style::bold(Tone::Primary));
    push_line(&mut lines, title);
    let mut search: Vec<Span> = Vec::new();
    push_label(&mut search, "Pattern: ", Style::fg(Tone::TextSecondary));
    push_span(&mut search, quoted(app.pattern.as_str()), Style::bold(Tone::Accent));
    push_label(&mut search, " in ", Style::fg(Tone::TextSecondary));
    push_span(&mut search, quoted(place), Style::bold(Tone::Secondary));
    push_line(&mut lines, search);
    push_line(&mut lines, status_line(app));
    let mut timing: Vec<Span> = Vec::new();
    push_label(&mut timing, "⏱️  Scan Time: ", Style::fg(Tone::TextSecondary));
    push_label(&mut timing, scan_time, Style::bold(Tone::Accent));
    push_line(&mut lines, timing);
    let mut page: Vec<Span> = Vec::new();
    push_label(&mut page, "📄 Page ", Style::bold(Tone::Warning));
    push_span(&mut page, page_of(app, items_per_page, " of "), Style::bold(Tone::Accent));
    push_label(&mut page, " items per page", Style::fg(Tone::TextSecondary));
    push_line(&mut lines, page);
    let mut totals: Vec<Span> = Vec::new();
    if !app.is_empty() {
        push_label(&mut totals, "💾 Total Size: ", Style::fg(Tone::TextSecondary));
        push_span(&mut totals, format_size(total_size(app)), Style::bold(Tone::Highlight));
        push_label(&mut totals, " (", Style::fg(Tone::TextSecondary));
        push_span(&mut totals, calculated_of(app, " calculated"), Style::fg(Tone::Accent));
        push_label(&mut totals, ")", Style::fg(Tone::TextSecondary));
    }
    push_line(&mut lines, totals);
    assert(lines_view(lines@) =~~= header_of(app, items_per_page, place@, scan_time@));
    lines
}

/// What is shown in place of the list while it is empty: that the scan
/// runs, or that nothing was found.
pub open spec fn empty_state_of(app: &App) -> Seq<Seq<(Seq<char>, Style)>> {
    if app.discovery_status is Discovering {
        seq![
            seq![
                ("🔍 "@, fg_style(Tone::Primary)),
                ("Scanning directories..."@, bold_style(Tone::TextPrimary)),
            ],
            seq![("   "@, fg_style(Tone::TextSecondary)), ("⠋"@, fg_style(Tone::Warning))],
            seq![
                ("   "@, fg_style(Tone::TextSecondary)),
                ("Please wait while we search for directories..."@, fg_style(Tone::TextSecondary)),
            ],
        ]
    } else {
        seq![
            seq![
                ("❌ "@, fg_style(Tone::Error)),
                ("No directories found"@, bold_style(Tone::TextPrimary)),
            ],
            seq![
                ("   "@, fg_style(Tone::TextSecondary)),
                ("Try a different pattern or path"@, fg_style(Tone::TextSecondary)),
            ],
        ]
    }
}

/// Builds what is shown in place of an empty list.
pub fn build_empty_state(app: &App) -> (lines: Vec<Vec<Span>>)
    ensures
        lines_view(lines@) == empty_state_of(app),
{
    let mut lines: Vec<Vec<Span>> = Vec::new();
    if app.is_discovering() {
        let mut first: Vec<Span> = Vec::new();
        push_label(&mut first, "🔍 ", Style::fg(Tone::Primary));
        push_label(&mut first, "Scanning directories...", Style::bold(Tone::TextPrimary));
        push_line(&mut lines, first);
        let mut second: Vec<Span> = Vec::new();
        push_label(&mut second, "   ", Style::fg(Tone::TextSecondary));
        push_label(&mut second, get_loading_frame(), Style::fg(Tone::Warning));
        push_line(&mut lines, second);
        let mut third: Vec<Span> = Vec::new();
        push_label(&mut third, "   ", Style::fg(Tone::TextSecondary));
        push_label(
            &mut third,
            "Please wait while we search for directories...",
            Style::fg(Tone::TextSecondary),
        );
        push_line(&mut lines, third);
    } else {
        let mut first: Vec<Span> = Vec::new();
        push_label(&mut first, "❌ ", Style::fg(Tone::Error));
        push_label(&mut first, "No directories found", Style::bold(Tone::TextPrimary));
        push_line(&mut lines, first);
        let mut second: Vec<Span> = Vec::new();
        push_label(&mut second, "   ", Style::fg(Tone::TextSecondary));
        push_label(&mut second, "Try a different pattern or path", Style::fg(Tone::TextSecondary));
        push_line(&mut lines, second);
    }
    assert(lines_view(lines@) =~~= empty_state_of(app));
    lines
}

/// "3 of 7": the place of the cursor, counted from one, and the number of
/// entries.
pub open spec fn position_text(app: &App, after: Seq<char>) -> Seq<char> {
    decimal((app.selected + 1) as nat) + " of "@ + decimal(app.directories@.len()) + after
}

fn position_of(app: &App, after: &str) -> (text: String)
    ensures
        text@ == position_text(app, after@),
{
    let mut text = String::new();
    push_number(&mut text, app.selected as u128 + 1);
    text.append(" of ");
    push_number(&mut text, app.directories.len() as u128);
    text.append(after);
    assert(text@ =~= position_text(app, after@));
    text
}

/// A line of a label and a value.
pub open spec fn pair_of(
    label: Seq<char>,
    label_style: Style,
    value: Seq<char>,
    value_style: Style,
) -> Seq<(Seq<char>, Style)> {
    seq![(label, label_style), (value, value_style)]
}

fn pair(label: &str, label_style: Style, value: String, value_style: Style) -> (line: Vec<Span>)
    ensures
        line_view(line@) == pair_of(label@, label_style, value@, value_style),
{
    let mut line: Vec<Span> = Vec::new();
    push_label(&mut line, label, label_style);
    push_span(&mut line, value, value_style);
    assert(line_view(line@) =~= pair_of(label@, label_style, value@, value_style));
    line
}

/// The details of the entry under the cursor, with the totals of the list
/// and of the freed space; nothing if the cursor points at no entry.
pub open spec fn details_of(app: &App) -> Seq<Seq<(Seq<char>, Style)>> {
    if app.selected < app.directories@.len() {
        let entry = app.directories@[app.selected as int];
        let faint = fg_style(Tone::TextSecondary);
        let none = Seq::<(Seq<char>, Style)>::empty();
        seq![
            pair_of(
                "📁 "@,
                fg_style(Tone::Success),
                "Directory Details"@,
                bold_style(Tone::TextPrimary),
            ),
            none,
            seq![("Path: "@, faint)],
            pair_of("  "@, faint, cleaned(entry.path@), fg_style(Tone::TextPrimary)),
            none,
            pair_of("Size: "@, faint, entry.formatted_size@, bold_style(Tone::Warning)),
            pair_of("  "@, faint, "("@ + decimal(entry.size as nat) + " bytes)"@, faint),
            none,
            pair_of("Position: "@, faint, position_text(app, Seq::empty()), fg_style(Tone::Accent)),
            none,
            pair_of(
                "Last Modified: "@,
                faint,
                entry.formatted_last_modified@,
                bold_style(Tone::Muted),
            ),
            none,
            match entry.calculation_time {
                Some(millis) => pair_of(
                    "Calculation Time: "@,
                    faint,
                    duration_text(millis),
                    bold_style(Tone::Accent),
                ),
                None => none,
            },
            none,
            pair_of("📊 "@, fg_style(Tone::Accent), "Total Summary"@, bold_style(Tone::TextPrimary)),
            pair_of(
                "Total Size: "@,
                faint,
                size_text(capped(sum_sizes(app.directories@)) as nat),
                bold_style(Tone::Error),
            ),
            pair_of("Calculated: "@, faint, calculated_text(app, Seq::empty()), fg_style(Tone::Accent)),
            none,
            pair_of("🗑️ "@, fg_style(Tone::Success), "Freed Space"@, bold_style(Tone::TextPrimary)),
            pair_of(
                "Total Freed: "@,
                faint,
                size_text(app.total_freed_space as nat),
                bold_style(Tone::Success),
            ),
            match app.deletion_progress {
                Some(batch) if batch.freed_space > 0 => pair_of(
                    "This Session: "@,
                    faint,
                    size_text(batch.freed_space as nat),
                    bold_style(Tone::Warning),
                ),
                _ => none,
            },
            if app.freed_space_history@.len() > 0 {
                pair_of(
                    "Recent: "@,
                    faint,
                    decimal(
                        if app.freed_space_history@.len() > 5 {
                            5
                        } else {
                            app.freed_space_history@.len()
                        },
                    ) + " items"@,
                    fg_style(Tone::Accent),
                )
            } else {
                none
            },
        ]
    } else {
        Seq::empty()
    }
}

/// Builds the details of the entry under the cursor.
pub fn build_details(app: &App) -> (lines: Vec<Vec<Span>>)
    ensures
        lines_view(lines@) == details_of(app),
{
    let mut lines: Vec<Vec<Span>> = Vec::new();
    let entry = match app.get_selected_directory() {
        Some(entry) => entry,
        None => {
            assert(lines_view(lines@) =~= details_of(app));
            return lines;
        },
    };
    let faint = Style::fg(Tone::TextSecondary);
    push_line(
        &mut lines,
        pair(
            "📁 ",
            Style::fg(Tone::Success),
            "Directory Details".to_string(),
            Style::bold(Tone::TextPrimary),
        ),
    );
    push_line(&mut lines, blank_line());
    let mut path_label: Vec<Span> = Vec::new();
    push_label(&mut path_label, "Path: ", faint);
    push_line(&mut lines, path_label);
    push_line(
        &mut lines,
        pair("  ", faint, clean_path(entry.path.as_str()).to_string(), Style::fg(Tone::TextPrimary)),
    );
    push_line(&mut lines, blank_line());
    push_line(
        &mut lines,
        pair("Size: ", faint, entry.formatted_size.clone(), Style::bold(Tone::Warning)),
    );
    let mut bytes = String::from_str("(");
    push_number(&mut bytes, entry.size as u128);
    bytes.append(" bytes)");
    push_line(&mut lines, pair("  ", faint, bytes, faint));
    push_line(&mut lines, blank_line());
    push_line(&mut lines, pair("Position: ", faint, position_of(app, ""), Style::fg(Tone::Accent)));
    push_line(&mut lines, blank_line());
    push_line(
        &mut lines,
        pair(
            "Last Modified: ",
            faint,
            entry.formatted_last_modified.clone(),
            Style::bold(Tone::Muted),
        ),
    );
    push_line(&mut lines, blank_line());
    match entry.calculation_time {
        Some(millis) => {
            push_line(
                &mut lines,
                pair("Calculation Time: ", faint, format_duration(millis), Style::bold(Tone::Accent)),
            );
        },
        None => {
            push_line(&mut lines, blank_line());
        },
    }
    push_line(&mut lines, blank_line());
    push_line(
        &mut lines,
        pair(
            "📊 ",
            Style::fg(Tone::Accent),
            "Total Summary".to_string(),
            Style::bold(Tone::TextPrimary),
        ),
    );
    push_line(
        &mut lines,
        pair("Total Size: ", faint, format_size(total_size(app)), Style::bold(Tone::Error)),
    );
    push_line(&mut lines, pair("Calculated: ", faint, calculated_of(app, ""), Style::fg(Tone::Accent)));
    push_line(&mut lines, blank_line());
    push_line(
        &mut lines,
        pair(
            "🗑️ ",
            Style::fg(Tone::Success),
            "Freed Space".to_string(),
            Style::bold(Tone::TextPrimary),
        ),
    );
    push_line(
        &mut lines,
        pair(
            "Total Freed: ",
            faint,
            format_size(app.get_total_freed_space()),
            Style::bold(Tone::Success),
        ),
    );
    let session: u64 = app.get_session_freed_space();
    if session > 0 {
        push_line(
            &mut lines,
            pair("This Session: ", faint, format_size(session), Style::bold(Tone::Warning)),
        );
    } else {
        push_line(&mut lines, blank_line());
    }
    let recent: usize = app.get_recent_freed_space_history().len();
    if recent > 0 {
        let mut items = String::new();
        push_number(&mut items, recent as u128);
        items.append(" items");
        push_line(&mut lines, pair("Recent: ", faint, items, Style::fg(Tone::Accent)));
    } else {
        push_line(&mut lines, blank_line());
    }
    proof {
        assert(""@ =~= Seq::<char>::empty()) by {
            reveal_strlit("");
        }
        assert(lines_view(lines@) =~~= details_of(app));
    }
    lines
}

/// How many of the first `count` entries have the time of their size
/// computation.
pub open spec fn timed_among(entries: Seq<DirectoryInfo>, count: nat) -> nat
    decreases count,
{
    if count == 0 || count > entries.len() {
        0
    } else {
        timed_among(entries, (count - 1) as nat) + if entries[count - 1].calculation_time is Some {
            1nat
        } else {
            0nat
        }
    }
}

/// The times of the size computations of the first `count` entries, added
/// up.
pub open spec fn time_among(entries: Seq<DirectoryInfo>, count: nat) -> nat
    decreases count,
{
    if count == 0 || count > entries.len() {
        0
    } else {
        time_among(entries, (count - 1) as nat) + match entries[count - 1].calculation_time {
            Some(millis) => millis as nat,
            None => 0,
        }
    }
}

/// The longest of the size computations of the first `count` entries.
pub open spec fn longest_among(entries: Seq<DirectoryInfo>, count: nat) -> u64
    decreases count,
{
    if count == 0 || count > entries.len() {
        0
    } else {
        let before = longest_among(entries, (count - 1) as nat);
        match entries[count - 1].calculation_time {
            Some(millis) if millis > before => millis,
            _ => before,
        }
    }
}

/// What the footer says of the size computations: their average and their
/// longest time and how many are timed, or that none is.
pub open spec fn timing_summary_of(app: &App) -> Seq<char> {
    let entries = app.directories@;
    let timed = timed_among(entries, entries.len());
    if timed == 0 {
        "Calculating... (0/"@ + decimal(entries.len()) + ")"@
    } else {
        "Avg: "@ + duration_text((capped(time_among(entries, entries.len())) as nat / timed) as u64)
            + ", Max: "@ + duration_text(longest_among(entries, entries.len())) + " ("@ + decimal(
            timed,
        ) + "/"@ + decimal(entries.len()) + ")"@
    }
}

/// Builds what the footer says of the size computations.
pub fn timing_summary(app: &App) -> (text: String)
    ensures
        text@ == timing_summary_of(app),
{
    let mut timed: usize = 0;
    let mut sum: u64 = 0;
    let mut longest: u64 = 0;
    let mut i: usize = 0;
    while i < app.directories.len()
        invariant
            i <= app.directories@.len(),
            timed <= i,
            timed == timed_among(app.directories@, i as nat),
            sum == capped(time_among(app.directories@, i as nat)),
            longest == longest_among(app.directories@, i as nat),
        decreases app.directories@.len() - i,
    {
        match app.directories[i].calculation_time {
            Some(millis) => {
                timed += 1;
                sum = sum.saturating_add(millis);
                if millis > longest {
                    longest = millis;
                }
            },
            None => {},
        }
        i += 1;
    }
    let mut text = String::new();
    if timed == 0 {
        text.append("Calculating... (0/");
        push_number(&mut text, app.directories.len() as u128);
        text.append(")");
    } else {
        text.append("Avg: ");
        text.append(format_duration(sum / (timed as u64)).as_str());
        text.append(", Max: ");
        text.append(format_duration(longest).as_str());
        text.append(" (");
        push_number(&mut text, timed as u128);
        text.append("/");
        push_number(&mut text, app.directories.len() as u128);
        text.append(")");
    }
    assert(text@ =~= timing_summary_of(app));
    text
}

/// The footer: the keys that move and select, the keys that delete, what
/// was found and selected, the page and the place of the cursor, and the
/// timings.
pub open spec fn footer_of(app: &App, items_per_page: usize, scan_time: Seq<char>) -> Seq<
    Seq<(Seq<char>, Style)>,
> {
    let faint = fg_style(Tone::TextSecondary);
    let key = fg_style(Tone::Accent);
    let danger = fg_style(Tone::Error);
    let head = bold_style(Tone::Warning);
    seq![
        seq![
            ("⌨️  Nav: "@, head),
            ("↑/↓/j/k"@, key),
            (" move, "@, faint),
            ("←/→"@, key),
            (" pages, "@, faint),
            ("Home/End"@, key),
            (", "@, faint),
            ("Space"@, key),
            (" select, "@, faint),
            ("a/d"@, key),
            (" all/none, "@, faint),
            ("q"@, danger),
            (" quit"@, faint),
        ],
        seq![
            ("🗑️  Delete: "@, head),
            ("F"@, danger),
            (" current, "@, faint),
            ("Ctrl+D/X"@, danger),
            (" current, "@, faint),
            ("C"@, danger),
            (" selected (use Space to select)"@, faint),
        ],
        seq![
            ("📊 Found: "@, head),
            (decimal(app.directories@.len()) + " dirs"@, fg_style(Tone::Success)),
            (
                selection_summary_of(app),
                if selected_of(app.directories@).len() > 0 {
                    bold_style(Tone::Accent)
                } else {
                    fg_style(Tone::Success)
                },
            ),
            if app.discovery_status is Discovering {
                (" (discovering...)"@, fg_style(Tone::Warning))
            } else {
                (Seq::empty(), fg_style(Tone::Success))
            },
        ],
        seq![
            ("📄 Page: "@, head),
            (page_text(app, items_per_page, " of "@), key),
            (" | "@, faint),
            ("🎯 "@, head),
            (
                if app.directories@.len() == 0 {
                    "None"@
                } else {
                    position_text(app, ": "@)
                },
                fg_style(Tone::Primary),
            ),
            (
                if app.selected < app.directories@.len() {
                    cleaned(app.directories@[app.selected as int].path@)
                } else {
                    Seq::empty()
                },
                bold_style(Tone::SelectionBackground),
            ),
        ],
        seq![
            ("⏱️  Scan: "@, head),
            (scan_time, key),
            (" | Size: "@, faint),
            (size_text(capped(sum_sizes(app.directories@)) as nat), bold_style(Tone::Success)),
            (" | Calc: "@, faint),
            (timing_summary_of(app), plain_style()),
        ],
    ]
}

/// Builds the footer.
pub fn build_footer(app: &App, items_per_page: usize, scan_time: &str) -> (lines: Vec<Vec<Span>>)
    ensures
        lines_view(lines@) == footer_of(app, items_per_page, scan_time@),
{
    let faint = Style::fg(Tone::TextSecondary);
    let key = Style::fg(Tone::Accent);
    let danger = Style::fg(Tone::Error);
    let head = Style::bold(Tone::Warning);
    let mut lines: Vec<Vec<Span>> = Vec::new();
    let mut moving: Vec<Span> = Vec::new();
    push_label(&mut moving, "⌨️  Nav: ", head);
    push_label(&mut moving, "↑/↓/j/k", key);
    push_label(&mut moving, " move, ", faint);
    push_label(&mut moving, "←/→", key);
    push_label(&mut moving, " pages, ", faint);
    push_label(&mut moving, "Home/End", key);
    push_label(&mut moving, ", ", faint);
    push_label(&mut moving, "Space", key);
    push_label(&mut moving, " select, ", faint);
    push_label(&mut moving, "a/d", key);
    push_label(&mut moving, " all/none, ", faint);
    push_label(&mut moving, "q", danger);
    push_label(&mut moving, " quit", faint);
    push_line(&mut lines, moving);
    let mut deleting: Vec<Span> = Vec::new();
    push_label(&mut deleting, "🗑️  Delete: ", head);
    push_label(&mut deleting, "F", danger);
    push_label(&mut deleting, " current, ", faint);
    push_label(&mut deleting, "Ctrl+D/X", danger);
    push_label(&mut deleting, " current, ", faint);
    push_label(&mut deleting, "C", danger);
    push_label(&mut deleting, " selected (use Space to select)", faint);
    push_line(&mut lines, deleting);
    let mut found: Vec<Span> = Vec::new();
    push_label(&mut found, "📊 Found: ", head);
    let mut dirs = String::new();
    push_number(&mut dirs, app.directories.len() as u128);
    dirs.append(" dirs");
    push_span(&mut found, dirs, Style::fg(Tone::Success));
    let chosen: usize = app.get_selected_count();
    push_span(
        &mut found,
        selection_summary(app),
        if chosen > 0 {
            Style::bold(Tone::Accent)
        } else {
            Style::fg(Tone::Success)
        },
    );
    if app.is_discovering() {
        push_label(&mut found, " (discovering...)", Style::fg(Tone::Warning));
    } else {
        push_span(&mut found, String::new(), Style::fg(Tone::Success));
    }
    push_line(&mut lines, found);
    let mut place: Vec<Span> = Vec::new();
    push_label(&mut place, "📄 Page: ", head);
    push_span(&mut place, page_of(app, items_per_page, " of "), key);
    push_label(&mut place, " | ", faint);
    push_label(&mut place, "🎯 ", head);
    if app.is_empty() {
        push_label(&mut place, "None", Style::fg(Tone::Primary));
    } else {
        push_span(&mut place, position_of(app, ": "), Style::fg(Tone::Primary));
    }
    match app.get_selected_directory() {
        Some(entry) => {
            push_label(
                &mut place,
                clean_path(entry.path.as_str()),
                Style::bold(Tone::SelectionBackground),
            );
        },
        None => {
            push_span(&mut place, String::new(), Style::bold(Tone::SelectionBackground));
        },
    }
    push_line(&mut lines, place);
    let mut timings: Vec<Span> = Vec::new();
    push_label(&mut timings, "⏱️  Scan: ", head);
    push_label(&mut timings, scan_time, key);
    push_label(&mut timings, " | Size: ", faint);
    push_span(&mut timings, format_size(total_size(app)), Style::bold(Tone::Success));
    push_label(&mut timings, " | Calc: ", faint);
    push_span(&mut timings, timing_summary(app), Style::plain());
    push_line(&mut lines, timings);
    assert(lines_view(lines@) =~~= footer_of(app, items_per_page, scan_time@));
    lines
}

/// What fills the middle of the frame.
#[derive(Debug)]
pub enum Body {
    /// The list of the page shown under its title, and the details of the
    /// entry under the cursor beside it.
    Listing { title: String, rows: Vec<Vec<Span>>, details: Vec<Vec<Span>> },
    /// The list is empty: what is shown in its place.
    Empty { lines: Vec<Vec<Span>> },
}

/// One frame: what is drawn at one moment.
#[derive(Debug)]
pub struct Frame {
    pub header: Vec<Vec<Span>>,
    pub body: Body,
    pub footer: Vec<Vec<Span>>,
}

/// Builds the frame of the session as it is. `items_per_page` is how many
/// rows the list has room for, `place` the directory that is searched and
/// `scan_time` how long the scan has taken, both as they are shown. Of the
/// list only the page shown is built.
pub fn build_frame(app: &App, items_per_page: usize, place: &str, scan_time: &str) -> (frame: Frame)
    ensures
        lines_view(frame.header@) == header_of(app, items_per_page, place@, scan_time@),
        lines_view(frame.footer@) == footer_of(app, items_per_page, scan_time@),
        if app.directories@.len() > 0 {
            frame.body matches Body::Listing { title, rows, details } && title@ == list_title_of(
                app,
                items_per_page,
            ) && lines_view(rows@) == rows_of(app, items_per_page) && lines_view(details@)
                == details_of(app)
        } else {
            frame.body matches Body::Empty { lines } && lines_view(lines@) == empty_state_of(app)
        },
{
    let header = build_header(app, items_per_page, place, scan_time);
    let body = if app.is_empty() {
        Body::Empty { lines: build_empty_state(app) }
    } else {
        Body::Listing {
            title: list_title(app, items_per_page),
            rows: build_rows(app, items_per_page),
            details: build_details(app),
        }
    };
    let footer = build_footer(app, items_per_page, scan_time);
    Frame { header, body, footer }
}

} // verus!
