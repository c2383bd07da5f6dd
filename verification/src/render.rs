use vstd::prelude::*;

use crate::cell::Cell;
use crate::rules::offset_of;

verus! {

/// The two-character drawing of one cell: its glyph followed by a space.
pub open spec fn glyph(c: Cell) -> Seq<char> {
    match c {
        Cell::Alive => seq!['◼', ' '],
        Cell::Dead => seq!['◻', ' '],
    }
}

/// The drawing of the first `c` cells of row `r`, in order.
pub open spec fn row_chars(s: Seq<Cell>, w: int, r: int, c: int) -> Seq<char>
    decreases c,
{
    if c <= 0 {
        Seq::empty()
    } else {
        row_chars(s, w, r, c - 1) + glyph(s[offset_of(w, r, c - 1)])
    }
}

/// The drawing of the first `r` rows, each full row followed by a newline.
pub open spec fn grid_chars(s: Seq<Cell>, w: int, r: int) -> Seq<char>
    decreases r,
{
    if r <= 0 {
        Seq::empty()
    } else {
        grid_chars(s, w, r - 1) + row_chars(s, w, r - 1, w) + seq!['\n']
    }
}

/// The full text rendering of a grid: one line per row, each cell drawn
/// as one of two fixed glyphs followed by a space, rows separated by
/// line breaks. A pure function of the dimensions and the cells alone.
pub open spec fn render_chars(s: Seq<Cell>, w: int, h: int) -> Seq<char> {
    grid_chars(s, w, h)
}

} // verus!
