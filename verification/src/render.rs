//! What a frame of the picker looks like, as a list of drawing steps. Every
//! frame is drawn in full; nothing is kept from the frame before.

use crate::pane::{pane_views, PaneView, TmuxPane};
use vstd::prelude::*;

verus! {

/// The line above the list.
pub const TITLE: &'static str = "Select target tmux pane:\n";

/// The line that names the keys, and the empty line after it.
pub const HINT: &'static str = "Use ↑↓/WS/KJ to navigate, Enter to select, q to cancel\n\n";

/// What stands before the label of the pane under the cursor.
pub const MARKED_PREFIX: &'static str = "  > ";

/// What stands before the label of every other pane.
pub const PLAIN_PREFIX: &'static str = "    ";

/// What ends the line of a pane.
pub const LINE_END: &'static str = "\n";

/// The number of rows that the title and the hint take.
pub const HEADER_ROWS: usize = 3;

/// The colours that a frame uses.
#[derive(Clone, Copy, Debug, PartialEq, Eq, Structural)]
pub enum Color {
    Yellow,
    DarkGrey,
    Black,
}

/// One step of drawing.
#[derive(Clone, Debug, PartialEq, Eq)]
pub enum DrawOp {
    /// Clear the whole screen.
    ClearAll,
    /// Put the cursor at a column and a row, both counted from 0.
    MoveTo { column: u16, row: u16 },
    /// Write what follows in this colour.
    Foreground(Color),
    /// Write what follows in the terminal's own colours.
    ResetColor,
    /// Write a text.
    Print(String),
    /// Write a text in bold on white.
    PrintHighlighted(String),
    /// Send everything written so far to the terminal.
    Flush,
}

/// One step of drawing, as mathematical values.
pub enum DrawOpView {
    ClearAll,
    MoveTo { column: u16, row: u16 },
    Foreground(Color),
    ResetColor,
    Print(Seq<char>),
    PrintHighlighted(Seq<char>),
    Flush,
}

impl View for DrawOp {
    type V = DrawOpView;

    open spec fn view(&self) -> DrawOpView {
        match self {
            DrawOp::ClearAll => DrawOpView::ClearAll,
            DrawOp::MoveTo { column, row } => DrawOpView::MoveTo { column: *column, row: *row },
            DrawOp::Foreground(color) => DrawOpView::Foreground(*color),
            DrawOp::ResetColor => DrawOpView::ResetColor,
            DrawOp::Print(text) => DrawOpView::Print(text@),
            DrawOp::PrintHighlighted(text) => DrawOpView::PrintHighlighted(text@),
            DrawOp::Flush => DrawOpView::Flush,
        }
    }
}

/// The views of a list of drawing steps, in order.
pub open spec fn draw_views(ops: Seq<DrawOp>) -> Seq<DrawOpView> {
    ops.map_values(|op: DrawOp| op@)
}

/// The row of the pane at `index`: below the header, counted as the terminal
/// counts rows, in sixteen bits.
pub open spec fn row_of(index: int) -> u16 {
    ((index + HEADER_ROWS) % 0x10000) as u16
}

/// The head of every frame: the screen is cleared, the cursor put at the
/// origin, the title written in yellow and the hint in dark grey.
pub open spec fn header() -> Seq<DrawOpView> {
    seq![
        DrawOpView::ClearAll,
        DrawOpView::MoveTo { column: 0, row: 0 },
        DrawOpView::Foreground(Color::Yellow),
        DrawOpView::Print(TITLE@),
        DrawOpView::ResetColor,
        DrawOpView::Foreground(Color::DarkGrey),
        DrawOpView::Print(HINT@),
        DrawOpView::ResetColor,
    ]
}

/// The line of one pane: its label on its own row, marked and highlighted
/// where the cursor is on it, plain otherwise.
pub open spec fn entry(pane: PaneView, index: int, marked: bool) -> Seq<DrawOpView> {
    if marked {
        seq![
            DrawOpView::Foreground(Color::Black),
            DrawOpView::MoveTo { column: 0, row: row_of(index) },
            DrawOpView::PrintHighlighted(MARKED_PREFIX@ + pane.display_name()),
            DrawOpView::ResetColor,
            DrawOpView::Print(LINE_END@),
        ]
    } else {
        seq![
            DrawOpView::MoveTo { column: 0, row: row_of(index) },
            DrawOpView::Print(PLAIN_PREFIX@ + pane.display_name()),
            DrawOpView::Print(LINE_END@),
        ]
    }
}

/// The lines of the first `count` panes, in list order.
pub open spec fn entries(panes: Seq<PaneView>, selected: int, count: nat) -> Seq<DrawOpView>
    decreases count,
{
    if count == 0 {
        Seq::<DrawOpView>::empty()
    } else {
        entries(panes, selected, (count - 1) as nat) + entry(
            panes[count - 1],
            count - 1,
            selected == count - 1,
        )
    }
}

/// A whole frame: the header, one line for each pane, and a flush.
pub open spec fn frame(panes: Seq<PaneView>, selected: int) -> Seq<DrawOpView> {
    header() + entries(panes, selected, panes.len()) + seq![DrawOpView::Flush]
}

/// The row of the pane at `index`.
fn row(index: usize) -> (r: u16)
    ensures
        r == row_of(index as int),
{
    let low: usize = index % 0x10000;
    let shifted: usize = low + HEADER_ROWS;
    if shifted >= 0x10000 {
        (shifted - 0x10000) as u16
    } else {
        shifted as u16
    }
}

/// The steps that draw the list of `panes` with the pane at `selected_index`
/// marked.
pub fn display_panes(panes: &[TmuxPane], selected_index: usize) -> (ops: Vec<DrawOp>)
    ensures
        draw_views(ops@) == frame(pane_views(panes@), selected_index as int),
{
    let ghost views = pane_views(panes@);
    let mut ops: Vec<DrawOp> = Vec::new();
    ops.push(DrawOp::ClearAll);
    ops.push(DrawOp::MoveTo { column: 0, row: 0 });
    ops.push(DrawOp::Foreground(Color::Yellow));
    ops.push(DrawOp::Print(TITLE.to_owned()));
    ops.push(DrawOp::ResetColor);
    ops.push(DrawOp::Foreground(Color::DarkGrey));
    ops.push(DrawOp::Print(HINT.to_owned()));
    ops.push(DrawOp::ResetColor);
    assert(draw_views(ops@) =~= header());
    let mut index: usize = 0;
    while index < panes.len()
        invariant
            index <= panes.len(),
            views == pane_views(panes@),
            draw_views(ops@) == header() + entries(views, selected_index as int, index as nat),
        decreases panes.len() - index,
    {
        let ghost before = draw_views(ops@);
        let pane = &panes[index];
        assert(views[index as int] == pane@);
        if index == selected_index {
            let mut text = MARKED_PREFIX.to_owned();
            text.append(pane.display_name().as_str());
            ops.push(DrawOp::Foreground(Color::Black));
            ops.push(DrawOp::MoveTo { column: 0, row: row(index) });
            ops.push(DrawOp::PrintHighlighted(text));
            ops.push(DrawOp::ResetColor);
            ops.push(DrawOp::Print(LINE_END.to_owned()));
        } else {
            let mut text = PLAIN_PREFIX.to_owned();
            text.append(pane.display_name().as_str());
            ops.push(DrawOp::MoveTo { column: 0, row: row(index) });
            ops.push(DrawOp::Print(text));
            ops.push(DrawOp::Print(LINE_END.to_owned()));
        }
        assert(draw_views(ops@) =~= before + entry(
            views[index as int],
            index as int,
            selected_index == index,
        ));
        index += 1;
    }
    let ghost before = draw_views(ops@);
    ops.push(DrawOp::Flush);
    assert(draw_views(ops@) =~= before + seq![DrawOpView::Flush]);
    ops
}

/// How many of the steps write a highlighted text.
pub open spec fn highlights(ops: Seq<DrawOpView>) -> nat
    decreases ops.len(),
{
    if ops.len() == 0 {
        0
    } else {
        highlights(ops.drop_last()) + if ops.last() is PrintHighlighted {
            1nat
        } else {
            0nat
        }
    }
}

/// The highlighted texts of two lists of steps, one after the other, are
/// those of both.
proof fn lemma_highlights_of_both(first: Seq<DrawOpView>, second: Seq<DrawOpView>)
    ensures
        highlights(first + second) == highlights(first) + highlights(second),
    decreases second.len(),
{
    if second.len() == 0 {
        assert(first + second =~= first);
    } else {
        lemma_highlights_of_both(first, second.drop_last());
        assert((first + second).drop_last() =~= first + second.drop_last());
    }
}

/// Among the lines of the first `count` panes, the one under the cursor is
/// highlighted and no other.
proof fn lemma_entries_highlight_cursor(panes: Seq<PaneView>, selected: int, count: nat)
    ensures
        highlights(entries(panes, selected, count)) == if 0 <= selected < count {
            1nat
        } else {
            0nat
        },
        entries(panes, selected, count).len() == 3 * count + if 0 <= selected < count {
            2int
        } else {
            0int
        },
    decreases count,
{
    if count > 0 {
        let before = entries(panes, selected, (count - 1) as nat);
        let line = entry(panes[count - 1], count - 1, selected == count - 1);
        lemma_entries_highlight_cursor(panes, selected, (count - 1) as nat);
        lemma_highlights_of_both(before, line);
        assert(highlights(line) == if selected == count - 1 {
            1nat
        } else {
            0nat
        }) by {
            reveal_with_fuel(highlights, 6);
        }
    }
}

/// A frame begins by clearing the screen and ends with a flush, holds three
/// steps for each pane and two more for the pane under the cursor, and
/// highlights exactly one line where the cursor is on a pane, and none
/// otherwise.
pub proof fn frame_highlights_cursor_only(panes: Seq<PaneView>, selected: int)
    ensures
        frame(panes, selected).first() == DrawOpView::ClearAll,
        frame(panes, selected).last() == DrawOpView::Flush,
        frame(panes, selected).len() == 9 + 3 * panes.len() + if 0 <= selected < panes.len() {
            2int
        } else {
            0int
        },
        highlights(frame(panes, selected)) == if 0 <= selected < panes.len() {
            1nat
        } else {
            0nat
        },
{
    let lines = entries(panes, selected, panes.len());
    lemma_entries_highlight_cursor(panes, selected, panes.len());
    lemma_highlights_of_both(header(), lines);
    lemma_highlights_of_both(header() + lines, seq![DrawOpView::Flush]);
    assert(highlights(header()) == 0) by {
        reveal_with_fuel(highlights, 9);
    }
    assert(highlights(seq![DrawOpView::Flush]) == 0) by {
        reveal_with_fuel(highlights, 2);
    }
}

} // verus!
