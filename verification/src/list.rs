//! A list of directory names with a clamped cursor.

use vstd::prelude::*;
use crate::style::{fg_style, line_view, lines_view, push_label, push_line, Span, Style, Tone};

verus! {

/// A list of directory names together with the index of the highlighted one.
pub struct DirectoryList {
    pub items: Vec<String>,
    pub selected: usize,
}

impl DirectoryList {
    /// The cursor points at an item, or at 0 when there is none.
    pub open spec fn wf(&self) -> bool {
        if self.items@.len() == 0 {
            self.selected == 0
        } else {
            self.selected < self.items@.len()
        }
    }

    /// The index that `set_selected` settles on: the wish clamped to the last
    /// item, or the current cursor when the list is empty.
    pub open spec fn clamped(&self, wish: usize) -> usize {
        if self.items@.len() == 0 {
            self.selected
        } else if wish < self.items@.len() {
            wish
        } else {
            (self.items@.len() - 1) as usize
        }
    }

    /// A list of these items with the cursor on the first.
    pub fn new(items: Vec<String>) -> (list: Self)
        ensures
            list.items == items,
            list.selected == 0,
            list.wf(),
    {
        Self { items, selected: 0 }
    }

    /// Puts the cursor on the item at `selected`, or on the last item if
    /// there is none at that index. An empty list keeps its cursor.
    pub fn set_selected(&mut self, selected: usize)
        ensures
            final(self).items == old(self).items,
            final(self).selected == old(self).clamped(selected),
            old(self).wf() ==> final(self).wf(),
    {
        let len: usize = self.items.len();
        if len > 0 {
            self.selected = if selected < len { selected } else { len - 1 };
        }
    }

    /// The index under the cursor.
    pub fn get_selected(&self) -> (selected: usize)
        ensures
            selected == self.selected,
    {
        self.selected
    }

    /// The number of items.
    pub fn item_count(&self) -> (count: usize)
        ensures
            count == self.items@.len(),
    {
        self.items.len()
    }

    /// Whether the list has no item.
    pub fn is_empty(&self) -> (empty: bool)
        ensures
            empty == (self.items@.len() == 0),
    {
        self.items.len() == 0
    }

    /// The style of the item at `index`: black on white under the cursor,
    /// white else.
    pub open spec fn item_style(&self, index: int) -> Style {
        if index == self.selected {
            Style { fg: Some(Tone::Black), bg: Some(Tone::White), bold: false, underlined: false }
        } else {
            fg_style(Tone::White)
        }
    }

    /// The rows of the list: for each item a folder in yellow and the name.
    pub open spec fn rows_of(&self) -> Seq<Seq<(Seq<char>, Style)>> {
        Seq::new(
            self.items@.len(),
            |i: int| seq![("📁 "@, fg_style(Tone::Yellow)), (self.items@[i]@, self.item_style(i))],
        )
    }

    /// Builds the rows of the list, as the widget shows them.
    pub fn rows(&self) -> (rows: Vec<Vec<Span>>)
        ensures
            lines_view(rows@) == self.rows_of(),
    {
        let mut rows: Vec<Vec<Span>> = Vec::new();
        let mut i: usize = 0;
        assert(lines_view(rows@) =~= Seq::<Seq<(Seq<char>, Style)>>::empty());
        while i < self.items.len()
            invariant
                i <= self.items@.len(),
                lines_view(rows@) == Seq::new(
                    i as nat,
                    |k: int|
                        seq![
                            ("📁 "@, fg_style(Tone::Yellow)),
                            (self.items@[k]@, self.item_style(k)),
                        ],
                ),
            decreases self.items@.len() - i,
        {
            let style = if i == self.selected {
                Style { fg: Some(Tone::Black), bg: Some(Tone::White), bold: false, underlined: false }
            } else {
                Style::fg(Tone::White)
            };
            let mut row: Vec<Span> = Vec::new();
            push_label(&mut row, "📁 ", Style::fg(Tone::Yellow));
            push_label(&mut row, self.items[i].as_str(), style);
            assert(line_view(row@) =~= seq![
                ("📁 "@, fg_style(Tone::Yellow)),
                (self.items@[i as int]@, self.item_style(i as int)),
            ]);
            push_line(&mut rows, row);
            i += 1;
            assert(lines_view(rows@) =~= Seq::new(
                i as nat,
                |k: int|
                    seq![
                        ("📁 "@, fg_style(Tone::Yellow)),
                        (self.items@[k]@, self.item_style(k)),
                    ],
            ));
        }
        rows
    }
}

} // verus!
