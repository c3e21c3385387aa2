//! What a frame shows of a tab: the rows in view, where the cursor and the
//! preedit go, and where the selection and the preedit land on the screen.
use vstd::prelude::*;

use crate::grid::{rows_of, Grid, GridModel};
use crate::ink_workaround::InkImeState;
use crate::selection::{pos_le, Selection};
use crate::types::Cell;

verus! {

/// The screen-level facts of a frame.
#[derive(Debug, Clone, Copy)]
pub struct FrameView {
    /// The cursor, hidden while the view is scrolled back.
    pub cursor: Option<(u16, u16)>,
    /// Whether the preedit is drawn: there is one, and the view is not
    /// scrolled back.
    pub show_preedit: bool,
    /// The absolute row (scrollback first) at the top of the view.
    pub view_base: u32,
    /// The number of rows in view.
    pub visible_rows: u16,
    /// The width of the rows in view (80 when there are none).
    pub cols_per_row: u16,
}

/// The frame facts of `g` with `visible` in view.
pub open spec fn spec_frame_view(g: GridModel, visible: Seq<Seq<Cell>>, preedit_empty: bool) -> FrameView {
    let scrolled = g.scroll_offset > 0;
    FrameView {
        cursor: if scrolled {
            None
        } else {
            Some((g.cursor_row as u16, g.cursor_col as u16))
        },
        show_preedit: !preedit_empty && !scrolled,
        view_base: (g.scrollback.len() - g.scroll_offset) as u32,
        visible_rows: visible.len() as u16,
        cols_per_row: if visible.len() > 0 {
            visible[0].len() as u16
        } else {
            80
        },
    }
}

/// The frame facts of a tab's grid, whose view is `visible`.
pub fn frame_view(grid: &Grid, visible: &[Vec<Cell>], preedit_empty: bool) -> (f: FrameView)
    requires
        grid@.wf(),
    ensures
        f == spec_frame_view(grid@, rows_of(visible@), preedit_empty),
{
    let scrolled = grid.scroll_offset() > 0;
    let cursor = if scrolled {
        None
    } else {
        Some(grid.cursor_pos())
    };
    let base = grid.scrollback_len() - grid.scroll_offset();
    let cols_per_row = if visible.len() > 0 {
        visible[0].len() as u16
    } else {
        80
    };
    FrameView {
        cursor,
        show_preedit: !preedit_empty && !scrolled,
        view_base: base as u32,
        visible_rows: visible.len() as u16,
        cols_per_row,
    }
}

/// The selection in screen coordinates of a frame.
pub fn frame_selection(sel: &Selection, view: &FrameView) -> (r: Option<((u16, u16), (u16, u16))>)
    requires
        view.visible_rows > 0,
        view.view_base + view.visible_rows <= u32::MAX,
    ensures
        r == sel.spec_screen_normalized(view.view_base, view.visible_rows),
{
    sel.screen_normalized(view.view_base, view.visible_rows)
}

/// Where the preedit goes instead of the cursor in a frame, when the Ink
/// program runs and its prompt is in view.
pub fn frame_preedit_pos(ink: &InkImeState, visible: &[Vec<Cell>], view: &FrameView) -> (r: Option<(u16, u16)>)
    requires
        ink.spec_is_active() && crate::ink_workaround::spec_prompt_row(visible@) is Some ==> {
            &&& view.cols_per_row > 0
            &&& ink.committed_width + crate::ink_workaround::PROMPT_BASE_COL <= u16::MAX
            &&& (crate::ink_workaround::spec_prompt_row(visible@)->0 as u16) + (ink.committed_width
                + crate::ink_workaround::PROMPT_BASE_COL) / (view.cols_per_row as int) <= u16::MAX
        },
    ensures
        !view.show_preedit ==> r is None,
        view.show_preedit ==> r == (if ink.spec_is_active() {
            match crate::ink_workaround::spec_prompt_row(visible@) {
                None => None,
                Some(row) => {
                    let col = ink.committed_width + crate::ink_workaround::PROMPT_BASE_COL;
                    Some(
                        (
                            ((row as u16) + col / (view.cols_per_row as int)) as u16,
                            (col % (view.cols_per_row as int)) as u16,
                        ),
                    )
                },
            }
        } else {
            None
        }),
{
    if view.show_preedit {
        ink.preedit_pos(visible, view.cols_per_row)
    } else {
        None
    }
}

/// The absolute row (scrollback first) shown on screen row `screen_row` of
/// the grid's view.
pub open spec fn spec_pointer_row(g: GridModel, screen_row: u16) -> int {
    g.scrollback.len() - g.scroll_offset + screen_row
}

/// The absolute row under the pointer when it is on screen row
/// `screen_row`: the row at the top of the view, plus `screen_row`.
pub fn pointer_row(grid: &Grid, screen_row: u16) -> (r: u32)
    requires
        grid@.wf(),
    ensures
        r == spec_pointer_row(grid@, screen_row),
{
    let base = grid.scrollback_len() - grid.scroll_offset();
    base as u32 + screen_row as u32
}

/// A selection dragged with the pointer from one cell of the view to
/// another (and let go there) is drawn in that view from the cell that
/// comes first in reading order to the other, wherever the view is
/// scrolled.
pub proof fn lemma_pointer_selection_drawn_in_place(
    g: GridModel,
    visible: Seq<Seq<Cell>>,
    from: (u16, u16),
    to: (u16, u16),
)
    requires
        g.wf(),
        visible.len() <= u16::MAX,
        from.0 < visible.len(),
        to.0 < visible.len(),
        from != to,
    ensures
        ({
            let view = spec_frame_view(g, visible, true);
            let sel = Selection {
                start: (spec_pointer_row(g, from.0) as u32, from.1),
                end: (spec_pointer_row(g, to.0) as u32, to.1),
                active: false,
            };
            sel.spec_screen_normalized(view.view_base, view.visible_rows) == Some(
                if pos_le((from.0 as u32, from.1), (to.0 as u32, to.1)) {
                    (from, to)
                } else {
                    (to, from)
                },
            )
        }),
{
}

} // verus!
