//! Rectangles on the screen.

use vstd::prelude::*;

verus! {

/// A rectangle of terminal cells.
#[derive(Clone, Copy, Debug, PartialEq, Eq, Structural)]
pub struct Rect {
    pub x: u16,
    pub y: u16,
    pub width: u16,
    pub height: u16,
}

/// The first cell past a range of cells, within the range of a cell number.
pub open spec fn end(start: u16, size: u16) -> int {
    if start + size <= u16::MAX {
        start + size
    } else {
        u16::MAX as int
    }
}

impl Rect {
    /// Whether the cell at column `x` and row `y` lies in the rectangle.
    pub open spec fn covers(self, x: u16, y: u16) -> bool {
        self.x <= x < end(self.x, self.width) && self.y <= y < end(self.y, self.height)
    }

    /// Whether `inner` takes its rows from this rectangle and spans its columns.
    pub open spec fn has_rows(self, inner: Rect) -> bool {
        &&& inner.x == self.x
        &&& inner.width == self.width
        &&& self.y <= inner.y
        &&& inner.y + inner.height <= end(self.y, self.height)
    }
}

/// Asks `ratatui::layout::Rect::contains` whether a cell lies in a rectangle.
///
/// The contract claims that a cell is inside from the left and top edges on and
/// before the right and bottom ones, which end at the largest cell number.
#[verifier::external_body]
fn rect_contains(rect: Rect, x: u16, y: u16) -> (inside: bool)
    ensures
        inside == rect.covers(x, y),
{
    let area = ratatui::layout::Rect {
        x: rect.x,
        y: rect.y,
        width: rect.width,
        height: rect.height,
    };
    area.contains(ratatui::layout::Position { x, y })
}

/// Whether the cell in a row and a column lies in a rectangle.
pub fn point_in_rect(row: u16, col: u16, rect: Rect) -> (inside: bool)
    ensures
        inside == rect.covers(col, row),
{
    rect_contains(rect, col, row)
}

/// Splits a rectangle into rows with `ratatui::layout::Layout::split`, under
/// the constraints `Min(least)`, `Length(middle)` and `Length(last)` from top
/// to bottom.
///
/// The contract claims that the three parts span the columns of the rectangle
/// and take their rows from it, and that wherever both lengths and the least
/// number of rows fit, the lower parts have these lengths and the first part
/// has the rest. How a lack of rows is shared out is left unsaid. A least number
/// beyond 15 bits is left out, since it changes its sign on the way.
#[verifier::external_body]
pub(crate) fn split_rows(area: Rect, least: u16, middle: u16, last: u16) -> (parts: (
    Rect,
    Rect,
    Rect,
))
    requires
        least <= i16::MAX,
    ensures
        area.has_rows(parts.0),
        area.has_rows(parts.1),
        area.has_rows(parts.2),
        area.y + area.height <= u16::MAX && least + middle + last <= area.height ==> {
            &&& parts.0.y == area.y
            &&& parts.0.height == area.height - middle - last
            &&& parts.1.y == area.y + area.height - middle - last
            &&& parts.1.height == middle
            &&& parts.2.y == area.y + area.height - last
            &&& parts.2.height == last
        },
{
    let Rect { x, y, width, height } = area;
    let limits = vec![
        ratatui::layout::Constraint::Min(least),
        ratatui::layout::Constraint::Length(middle),
        ratatui::layout::Constraint::Length(last),
    ];
    let layout = ratatui::layout::Layout::default()
        .direction(ratatui::layout::Direction::Vertical)
        .constraints(limits);
    let rows = layout.split(ratatui::layout::Rect { x, y, width, height });
    let part = |i: usize| Rect { x: rows[i].x, y: rows[i].y, width: rows[i].width, height: rows[i].height };
    (part(0), part(1), part(2))
}

/// A rectangle covers the cells from its first column and row on, as many as it is
/// wide and high, and none where it is empty.
pub proof fn rectangles_cover_their_cells(rect: Rect, x: u16, y: u16)
    requires
        rect.x + rect.width <= u16::MAX,
        rect.y + rect.height <= u16::MAX,
    ensures
        rect.covers(x, y) <==> 0 <= x - rect.x < rect.width && 0 <= y - rect.y < rect.height,
        rect.width == 0 || rect.height == 0 ==> !rect.covers(x, y),
{
}

} // verus!
