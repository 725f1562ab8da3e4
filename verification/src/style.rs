//! The theme: colours by their role, and styled pieces of text.

use vstd::prelude::*;

verus! {

/// A colour of the theme, named by what it is used for.
#[derive(Debug, Clone, Copy, PartialEq, Eq, Structural)]
pub enum Tone {
    Primary,
    Secondary,
    Accent,
    Success,
    Warning,
    Error,
    Background,
    Surface,
    TextPrimary,
    TextSecondary,
    SelectionBackground,
    SelectionForeground,
    SelectionIndicator,
    Border,
    Highlight,
    Muted,
    Black,
    White,
    Yellow,
}

impl Tone {
    /// The red, green and blue of the colour; `None` for black, white and
    /// yellow, which are the terminal's own.
    pub open spec fn rgb_of(self) -> Option<(u8, u8, u8)> {
        match self {
            Tone::Primary => Some((131u8, 165u8, 152u8)),
            Tone::Secondary => Some((250u8, 189u8, 47u8)),
            Tone::Accent => Some((211u8, 134u8, 155u8)),
            Tone::Success => Some((184u8, 187u8, 38u8)),
            Tone::Warning => Some((250u8, 189u8, 47u8)),
            Tone::Error => Some((251u8, 73u8, 52u8)),
            Tone::Background => Some((29u8, 32u8, 33u8)),
            Tone::Surface => Some((40u8, 40u8, 40u8)),
            Tone::TextPrimary => Some((235u8, 219u8, 178u8)),
            Tone::TextSecondary => Some((189u8, 174u8, 147u8)),
            Tone::SelectionBackground => Some((131u8, 165u8, 152u8)),
            Tone::SelectionForeground => Some((29u8, 32u8, 33u8)),
            Tone::SelectionIndicator => Some((184u8, 187u8, 38u8)),
            Tone::Border => Some((80u8, 73u8, 69u8)),
            Tone::Highlight => Some((254u8, 128u8, 25u8)),
            Tone::Muted => Some((146u8, 131u8, 116u8)),
            Tone::Black => None,
            Tone::White => None,
            Tone::Yellow => None,
        }
    }

    /// The red, green and blue of the colour, if it has its own.
    pub fn rgb(&self) -> (value: Option<(u8, u8, u8)>)
        ensures
            value == self.rgb_of(),
    {
        match self {
            Tone::Primary => Some((131, 165, 152)),
            Tone::Secondary => Some((250, 189, 47)),
            Tone::Accent => Some((211, 134, 155)),
            Tone::Success => Some((184, 187, 38)),
            Tone::Warning => Some((250, 189, 47)),
            Tone::Error => Some((251, 73, 52)),
            Tone::Background => Some((29, 32, 33)),
            Tone::Surface => Some((40, 40, 40)),
            Tone::TextPrimary => Some((235, 219, 178)),
            Tone::TextSecondary => Some((189, 174, 147)),
            Tone::SelectionBackground => Some((131, 165, 152)),
            Tone::SelectionForeground => Some((29, 32, 33)),
            Tone::SelectionIndicator => Some((184, 187, 38)),
            Tone::Border => Some((80, 73, 69)),
            Tone::Highlight => Some((254, 128, 25)),
            Tone::Muted => Some((146, 131, 116)),
            Tone::Black => None,
            Tone::White => None,
            Tone::Yellow => None,
        }
    }
}

/// How a piece of text is drawn.
#[derive(Debug, Clone, Copy, PartialEq, Eq, Structural)]
pub struct Style {
    pub fg: Option<Tone>,
    pub bg: Option<Tone>,
    pub bold: bool,
    pub underlined: bool,
}

/// The terminal's own style.
pub open spec fn plain_style() -> Style {
    Style { fg: None, bg: None, bold: false, underlined: false }
}

/// Text in the colour `tone`.
pub open spec fn fg_style(tone: Tone) -> Style {
    Style { fg: Some(tone), bg: None, bold: false, underlined: false }
}

/// Bold text in the colour `tone`.
pub open spec fn bold_style(tone: Tone) -> Style {
    Style { fg: Some(tone), bg: None, bold: true, underlined: false }
}

impl Style {
    /// The terminal's own style.
    pub fn plain() -> (style: Style)
        ensures
            style == plain_style(),
    {
        Style { fg: None, bg: None, bold: false, underlined: false }
    }

    /// Text in the colour `tone`.
    pub fn fg(tone: Tone) -> (style: Style)
        ensures
            style == fg_style(tone),
    {
        Style { fg: Some(tone), bg: None, bold: false, underlined: false }
    }

    /// Bold text in the colour `tone`.
    pub fn bold(tone: Tone) -> (style: Style)
        ensures
            style == bold_style(tone),
    {
        Style { fg: Some(tone), bg: None, bold: true, underlined: false }
    }
}

/// A piece of text with its style.
#[derive(Debug, Clone)]
pub struct Span {
    pub text: String,
    pub style: Style,
}

impl View for Span {
    type V = (Seq<char>, Style);

    open spec fn view(&self) -> (Seq<char>, Style) {
        (self.text@, self.style)
    }
}

/// A line as texts with styles.
pub open spec fn line_view(line: Seq<Span>) -> Seq<(Seq<char>, Style)> {
    Seq::new(line.len(), |i: int| line[i]@)
}

/// Lines as texts with styles.
pub open spec fn lines_view(lines: Seq<Vec<Span>>) -> Seq<Seq<(Seq<char>, Style)>> {
    Seq::new(lines.len(), |i: int| line_view(lines[i]@))
}

/// Appends a piece of text to a line.
pub fn push_span(line: &mut Vec<Span>, text: String, style: Style)
    ensures
        line_view(final(line)@) == line_view(old(line)@).push((text@, style)),
{
    line.push(Span { text, style });
    assert(line_view(line@) =~= line_view(old(line)@).push((text@, style)));
}

/// Appends a fixed piece of text to a line.
pub fn push_label(line: &mut Vec<Span>, text: &str, style: Style)
    ensures
        line_view(final(line)@) == line_view(old(line)@).push((text@, style)),
{
    push_span(line, text.to_string(), style);
}

/// Appends a line to a list of lines.
pub fn push_line(lines: &mut Vec<Vec<Span>>, line: Vec<Span>)
    ensures
        lines_view(final(lines)@) == lines_view(old(lines)@).push(line_view(line@)),
{
    lines.push(line);
    assert(lines_view(lines@) =~= lines_view(old(lines)@).push(line_view(line@)));
}

/// A line without text.
pub fn blank_line() -> (line: Vec<Span>)
    ensures
        line_view(line@) == Seq::<(Seq<char>, Style)>::empty(),
{
    let line: Vec<Span> = Vec::new();
    assert(line_view(line@) =~= Seq::<(Seq<char>, Style)>::empty());
    line
}

} // verus!
