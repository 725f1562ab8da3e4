//! From the session to what is drawn: the rows of the list and the texts that
//! go with them.

use vstd::prelude::*;
use vstd::string::StringExecFns;
use crate::app::{page_count, sum_sizes, App};
use crate::entry::{CalculationStatus, DeletionStatus, DirectoryInfo};
use crate::format::{format_size, size_text};
use crate::size::capped;
use crate::style::{
    bold_style, fg_style, line_view, lines_view, plain_style, push_label, push_line, push_span,
    Span, Style, Tone,
};
use crate::text::{clean_path, cleaned, decimal, digit_char, push_decimal, push_number};

verus! {

/// How many rows fit into a list that is `list_height` lines high with its
/// frame: the height less the two lines of the frame, and one at least.
pub fn page_size(list_height: u16) -> (items_per_page: usize)
    ensures
        items_per_page == if list_height > 3 {
            list_height - 2
        } else {
            1
        },
        items_per_page > 0,
{
    if list_height > 3 {
        (list_height - 2) as usize
    } else {
        1
    }
}

/// The sign that something is being worked on.
pub fn get_loading_frame() -> (frame: &'static str)
    ensures
        frame@ == "⠋"@,
{
    "⠋"
}

/// The sign of a directory: an open folder for a selected one, a closed
/// folder for any other.
pub fn get_directory_icon(selected: bool, _is_highlighted: bool) -> (icon: &'static str)
    ensures
        icon@ == if selected {
            "📂"@
        } else {
            "📁"@
        },
{
    if selected {
        "📂"
    } else {
        "📁"
    }
}

/// The colour of the signs in front of a row.
pub fn get_selection_indicator_color(selected: bool) -> (tone: Tone)
    ensures
        tone == if selected {
            Tone::SelectionIndicator
        } else {
            Tone::TextSecondary
        },
{
    if selected {
        Tone::SelectionIndicator
    } else {
        Tone::TextSecondary
    }
}

/// The sign for the state of a size computation.
pub open spec fn calculation_icon(status: CalculationStatus) -> Seq<char> {
    match status {
        CalculationStatus::NotStarted => "⏳"@,
        CalculationStatus::Calculating => "⠋"@,
        CalculationStatus::Completed => ""@,
        CalculationStatus::Error(_) => "❌"@,
    }
}

/// The sign for the state of a size computation: an hourglass while it
/// waits, a spinner while it runs, a cross when it failed, nothing when it
/// is done.
pub fn get_calculation_status_icon(status: &CalculationStatus) -> (icon: &'static str)
    ensures
        icon@ == calculation_icon(*status),
{
    match status {
        CalculationStatus::NotStarted => "⏳",
        CalculationStatus::Calculating => "⠋",
        CalculationStatus::Completed => "",
        CalculationStatus::Error(_) => "❌",
    }
}

/// The text for a span of time in milliseconds: whole milliseconds below a
/// second, else seconds with one decimal, cut off.
pub open spec fn duration_text(millis: u64) -> Seq<char> {
    if millis < 1000 {
        decimal(millis as nat) + "ms"@
    } else {
        decimal((millis / 1000) as nat) + "."@ + seq![digit_char(((millis % 1000) / 100) as nat)]
            + "s"@
    }
}

/// Formats a span of time for people: "350ms", "2.4s".
pub fn format_duration(millis: u64) -> (text: String)
    ensures
        text@ == duration_text(millis),
{
    let mut text = String::new();
    if millis < 1000 {
        push_decimal(&mut text, millis);
        text.append("ms");
        assert(text@ =~= duration_text(millis));
    } else {
        push_decimal(&mut text, millis / 1000);
        text.append(".");
        text.push(crate::text::digit((millis % 1000) / 100));
        text.append("s");
        assert(text@ =~= duration_text(millis));
    }
    text
}

/// The sign at the end of a row: that of the deletion if one was asked for,
/// else that of the size computation, with two blanks once it is done.
pub open spec fn status_icon_of(entry: DirectoryInfo) -> Seq<char> {
    match entry.deletion_status {
        DeletionStatus::Normal => match entry.calculation_status {
            CalculationStatus::Completed => "  "@,
            status => calculation_icon(status),
        },
        DeletionStatus::Deleting => "🔄"@,
        DeletionStatus::Deleted => "🗑️"@,
        DeletionStatus::Error(_) => "⚠️"@,
    }
}

/// The style of the sign at the end of a row.
pub open spec fn status_style_of(entry: DirectoryInfo) -> Style {
    match entry.deletion_status {
        DeletionStatus::Normal => match entry.calculation_status {
            CalculationStatus::NotStarted => fg_style(Tone::Muted),
            CalculationStatus::Calculating => bold_style(Tone::Warning),
            CalculationStatus::Completed => fg_style(Tone::Success),
            CalculationStatus::Error(_) => fg_style(Tone::Error),
        },
        DeletionStatus::Deleting => bold_style(Tone::Warning),
        DeletionStatus::Deleted => bold_style(Tone::Success),
        DeletionStatus::Error(_) => bold_style(Tone::Error),
    }
}

/// The style of the path in a row: inverted under the cursor, underlined
/// and bold for a selected entry, plain else.
pub open spec fn path_style_of(entry: DirectoryInfo, under_cursor: bool) -> Style {
    if under_cursor {
        Style {
            fg: Some(Tone::SelectionForeground),
            bg: Some(Tone::SelectionBackground),
            bold: true,
            underlined: false,
        }
    } else if entry.selected {
        Style { fg: Some(Tone::SelectionIndicator), bg: None, bold: true, underlined: true }
    } else {
        fg_style(Tone::TextPrimary)
    }
}

/// The time that the size computation took, in brackets; nothing while it
/// is not known.
pub open spec fn timing_of(entry: DirectoryInfo) -> Seq<char> {
    match entry.calculation_time {
        Some(millis) => " ("@ + duration_text(millis) + ")"@,
        None => Seq::empty(),
    }
}

/// The row of an entry: folder, tick, path without "./", time, a blank, and
/// the sign of its state.
pub open spec fn row_of(entry: DirectoryInfo, under_cursor: bool) -> Seq<(Seq<char>, Style)> {
    seq![
        (
            (if entry.selected {
                "📂"@
            } else {
                "📁"@
            }) + " "@,
            if entry.selected {
                bold_style(Tone::SelectionIndicator)
            } else {
                fg_style(Tone::TextSecondary)
            },
        ),
        (
            (if entry.selected {
                "✓"@
            } else {
                " "@
            }) + " "@,
            if entry.selected {
                bold_style(Tone::SelectionIndicator)
            } else {
                fg_style(Tone::Muted)
            },
        ),
        (cleaned(entry.path@), path_style_of(entry, under_cursor)),
        (timing_of(entry), fg_style(Tone::Muted)),
        (" "@, plain_style()),
        (status_icon_of(entry), status_style_of(entry)),
    ]
}

fn status_icon(entry: &DirectoryInfo) -> (icon: &'static str)
    ensures
        icon@ == status_icon_of(*entry),
{
    match &entry.deletion_status {
        DeletionStatus::Normal => match &entry.calculation_status {
            CalculationStatus::Completed => "  ",
            status => get_calculation_status_icon(status),
        },
        DeletionStatus::Deleting => "🔄",
        DeletionStatus::Deleted => "🗑️",
        DeletionStatus::Error(_) => "⚠️",
    }
}

fn status_style(entry: &DirectoryInfo) -> (style: Style)
    ensures
        style == status_style_of(*entry),
{
    match &entry.deletion_status {
        DeletionStatus::Normal => match &entry.calculation_status {
            CalculationStatus::NotStarted => Style::fg(Tone::Muted),
            CalculationStatus::Calculating => Style::bold(Tone::Warning),
            CalculationStatus::Completed => Style::fg(Tone::Success),
            CalculationStatus::Error(_) => Style::fg(Tone::Error),
        },
        DeletionStatus::Deleting => Style::bold(Tone::Warning),
        DeletionStatus::Deleted => Style::bold(Tone::Success),
        DeletionStatus::Error(_) => Style::bold(Tone::Error),
    }
}

/// Builds the row of an entry.
pub fn build_row(entry: &DirectoryInfo, under_cursor: bool) -> (row: Vec<Span>)
    ensures
        line_view(row@) == row_of(*entry, under_cursor),
{
    let mut row: Vec<Span> = Vec::new();
    let mut icon = String::from_str(get_directory_icon(entry.selected, under_cursor));
    icon.append(" ");
    let icon_tone = get_selection_indicator_color(entry.selected);
    let icon_style = if entry.selected {
        Style::bold(icon_tone)
    } else {
        Style::fg(icon_tone)
    };
    push_span(&mut row, icon, icon_style);
    let mut tick = String::from_str(
        if entry.selected {
            "✓"
        } else {
            " "
        },
    );
    tick.append(" ");
    let tick_style = if entry.selected {
        Style::bold(Tone::SelectionIndicator)
    } else {
        Style::fg(Tone::Muted)
    };
    push_span(&mut row, tick, tick_style);
    let path_style = if under_cursor {
        Style {
            fg: Some(Tone::SelectionForeground),
            bg: Some(Tone::SelectionBackground),
            bold: true,
            underlined: false,
        }
    } else if entry.selected {
        Style { fg: Some(Tone::SelectionIndicator), bg: None, bold: true, underlined: true }
    } else {
        Style::fg(Tone::TextPrimary)
    };
    push_label(&mut row, clean_path(entry.path.as_str()), path_style);
    let timing = match entry.calculation_time {
        Some(millis) => {
            let mut text = String::from_str(" (");
            text.append(format_duration(millis).as_str());
            text.append(")");
            text
        },
        None => String::new(),
    };
    push_span(&mut row, timing, Style::fg(Tone::Muted));
    push_label(&mut row, " ", Style::plain());
    push_label(&mut row, status_icon(entry), status_style(entry));
    assert(line_view(row@) =~= row_of(*entry, under_cursor));
    row
}

/// The rows of the page shown: one for each entry of the page, in order,
/// the one under the cursor inverted.
pub open spec fn rows_of(app: &App, items_per_page: usize) -> Seq<Seq<(Seq<char>, Style)>> {
    match app.page_start(items_per_page) {
        Some(start) => Seq::new(
            (app.page_end(start, items_per_page) - start) as nat,
            |k: int| row_of(app.directories@[start + k], start + k == app.selected),
        ),
        None => Seq::empty(),
    }
}

/// Builds the rows of the page shown. Only the entries of that page are
/// looked at.
pub fn build_rows(app: &App, items_per_page: usize) -> (rows: Vec<Vec<Span>>)
    ensures
        lines_view(rows@) == rows_of(app, items_per_page),
{
    let mut rows: Vec<Vec<Span>> = Vec::new();
    let visible = app.visible_items(items_per_page);
    proof {
        assert(lines_view(rows@) =~= Seq::<Seq<(Seq<char>, Style)>>::empty());
    }
    if visible.len() == 0 {
        proof {
            assert(rows_of(app, items_per_page) =~= Seq::<Seq<(Seq<char>, Style)>>::empty());
        }
        return rows;
    }
    let ghost start = app.page_start(items_per_page).unwrap();
    proof {
        assert(app.directories@.len() == app.directories.len());
    }
    let first: usize = app.current_page * items_per_page;
    let mut k: usize = 0;
    while k < visible.len()
        invariant
            k <= visible@.len(),
            app.page_start(items_per_page) == Some(start),
            first == start,
            visible@.len() == app.page_end(start, items_per_page) - start,
            first + visible@.len() <= app.directories@.len(),
            app.directories@.len() == app.directories.len(),
            forall|j: int|
                0 <= j < visible@.len() ==> *(#[trigger] visible@[j]) == app.directories@[start + j],
            lines_view(rows@) == Seq::new(
                k as nat,
                |j: int| row_of(app.directories@[start + j], start + j == app.selected),
            ),
        decreases visible@.len() - k,
    {
        let row = build_row(visible[k], first + k == app.selected);
        push_line(&mut rows, row);
        k += 1;
        assert(lines_view(rows@) =~= Seq::new(
            k as nat,
            |j: int| row_of(app.directories@[start + j], start + j == app.selected),
        ));
    }
    assert(lines_view(rows@) =~= rows_of(app, items_per_page));
    rows
}

/// "3 of 7": the page shown, counted from one, and the number of pages.
pub open spec fn page_text(app: &App, items_per_page: usize, between: Seq<char>) -> Seq<char> {
    decimal((app.current_page + 1) as nat) + between + decimal(
        page_count(app.directories@.len(), items_per_page as nat),
    )
}

/// Builds the text of the page shown and the number of pages, with
/// `between` between them.
pub fn page_of(app: &App, items_per_page: usize, between: &str) -> (text: String)
    ensures
        text@ == page_text(app, items_per_page, between@),
{
    let mut text = String::new();
    push_number(&mut text, app.current_page as u128 + 1);
    text.append(between);
    push_number(&mut text, app.total_pages(items_per_page) as u128);
    assert(text@ =~= page_text(app, items_per_page, between@));
    text
}

/// The title of the list: "📂 Directories (Page 1/3)".
pub open spec fn list_title_of(app: &App, items_per_page: usize) -> Seq<char> {
    "📂 Directories (Page "@ + page_text(app, items_per_page, "/"@) + ")"@
}

/// Builds the title of the list.
pub fn list_title(app: &App, items_per_page: usize) -> (title: String)
    ensures
        title@ == list_title_of(app, items_per_page),
{
    let mut title = String::from_str("📂 Directories (Page ");
    title.append(page_of(app, items_per_page, "/").as_str());
    title.append(")");
    title
}

/// How many of the first `count` entries have their size.
pub open spec fn completed_among(entries: Seq<DirectoryInfo>, count: nat) -> nat
    decreases count,
{
    if count == 0 || count > entries.len() {
        0
    } else {
        completed_among(entries, (count - 1) as nat) + if entries[count - 1].calculation_status
            is Completed {
            1nat
        } else {
            0nat
        }
    }
}

/// The number of entries whose size is computed.
pub fn calculated_count(app: &App) -> (count: usize)
    ensures
        count == completed_among(app.directories@, app.directories@.len()),
{
    let mut count: usize = 0;
    let mut i: usize = 0;
    while i < app.directories.len()
        invariant
            i <= app.directories@.len(),
            count <= i,
            count == completed_among(app.directories@, i as nat),
        decreases app.directories@.len() - i,
    {
        let done: bool = match &app.directories[i].calculation_status {
            CalculationStatus::Completed => true,
            _ => false,
        };
        if done {
            count += 1;
        }
        i += 1;
    }
    count
}

/// The sizes of all entries added up, as far as 64 bits hold the sum.
pub fn total_size(app: &App) -> (total: u64)
    ensures
        total == capped(sum_sizes(app.directories@)),
{
    let mut total: u64 = 0;
    let mut i: usize = 0;
    while i < app.directories.len()
        invariant
            i <= app.directories@.len(),
            total == capped(sum_sizes(app.directories@.take(i as int))),
        decreases app.directories@.len() - i,
    {
        assert(app.directories@.take(i + 1).drop_last() =~= app.directories@.take(i as int));
        total = total.saturating_add(app.directories[i].size);
        i += 1;
    }
    assert(app.directories@.take(i as int) =~= app.directories@);
    total
}

/// What the footer says of the selection: nothing while nothing is
/// selected, else how many entries and their sizes added up.
pub open spec fn selection_summary_of(app: &App) -> Seq<char> {
    let chosen = crate::app::selected_of(app.directories@);
    if chosen.len() == 0 {
        Seq::empty()
    } else {
        " | Selected: "@ + decimal(chosen.len()) + " ("@ + size_text(
            capped(sum_sizes(chosen)) as nat,
        ) + ")"@
    }
}

/// Builds what the footer says of the selection.
pub fn selection_summary(app: &App) -> (text: String)
    ensures
        text@ == selection_summary_of(app),
{
    let count: usize = app.get_selected_count();
    if count == 0 {
        String::new()
    } else {
        let mut text = String::from_str(" | Selected: ");
        push_number(&mut text, count as u128);
        text.append(" (");
        text.append(format_size(app.get_selected_total_size()).as_str());
        text.append(")");
        text
    }
}

} // verus!
