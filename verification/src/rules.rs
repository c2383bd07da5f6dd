use vstd::arithmetic::div_mod::{
    lemma_fundamental_div_mod_converse, lemma_mod_multiples_vanish, lemma_small_mod,
};
use vstd::prelude::*;

use crate::cell::{live_weight, Cell};

verus! {

/// The linear, row-major offset of the cell at `(r, c)` on a grid `w` wide.
pub open spec fn offset_of(w: int, r: int, c: int) -> int {
    r * w + c
}

/// The weight (1 if alive, 0 if dead) of the neighbour reached from `(r, c)`
/// by the toroidal deltas `(dr, dc)`: coordinates are taken modulo the grid
/// dimensions, so the grid wraps at every edge.
pub open spec fn neighbour_weight(s: Seq<Cell>, w: int, h: int, r: int, c: int, dr: int, dc: int) -> int {
    live_weight(s[offset_of(w, (r + dr) % h, (c + dc) % w)])
}

/// The number of live cells among the eight toroidal neighbours of `(r, c)`.
/// The row deltas are `{h-1, 0, 1}` (that is, -1 mod h, 0, +1) and the column
/// deltas `{w-1, 0, 1}`, with the `(0, 0)` pair — the cell itself — left out.
pub open spec fn neighbour_count(s: Seq<Cell>, w: int, h: int, r: int, c: int) -> int {
    neighbour_weight(s, w, h, r, c, h - 1, w - 1) + neighbour_weight(s, w, h, r, c, h - 1, 0)
        + neighbour_weight(s, w, h, r, c, h - 1, 1) + neighbour_weight(s, w, h, r, c, 0, w - 1)
        + neighbour_weight(s, w, h, r, c, 0, 1) + neighbour_weight(s, w, h, r, c, 1, w - 1)
        + neighbour_weight(s, w, h, r, c, 1, 0) + neighbour_weight(s, w, h, r, c, 1, 1)
}

/// The Life transition rule for one cell: a live cell survives with two or
/// three live neighbours and otherwise dies (under- or overpopulation); a
/// dead cell becomes alive with exactly three live neighbours (reproduction).
pub open spec fn next_cell(cur: Cell, n: int) -> Cell {
    match cur {
        Cell::Alive => if 2 <= n <= 3 {
            Cell::Alive
        } else {
            Cell::Dead
        },
        Cell::Dead => if n == 3 {
            Cell::Alive
        } else {
            Cell::Dead
        },
    }
}

/// One full generation: every cell of the next grid is the rule applied to
/// the corresponding cell of the previous grid and its neighbour count,
/// all evaluated against the same prior-generation snapshot `s`.
pub open spec fn step(s: Seq<Cell>, w: int, h: int) -> Seq<Cell> {
    Seq::new((w * h) as nat, |i: int| next_cell(s[i], neighbour_count(s, w, h, i / w, i % w)))
}

/// `n` full generations, applied in order starting from `s`.
pub open spec fn steps(s: Seq<Cell>, w: int, h: int, n: nat) -> Seq<Cell>
    decreases n,
{
    if n == 0 {
        s
    } else {
        step(steps(s, w, h, (n - 1) as nat), w, h)
    }
}

/// The grid with the single cell at offset `i` flipped.
pub open spec fn toggled(s: Seq<Cell>, i: int) -> Seq<Cell> {
    s.update(i, crate::cell::flip(s[i]))
}

/// A row-major offset built from in-range coordinates lies within the grid.
pub proof fn lemma_offset_in_range(w: int, h: int, r: int, c: int)
    requires
        0 <= r < h,
        0 <= c < w,
    ensures
        0 <= offset_of(w, r, c) < w * h,
{
    assert(0 <= r * w + c < w * h) by (nonlinear_arith)
        requires
            0 <= r < h,
            0 <= c < w,
    ;
}

/// The coordinates of an in-range row-major offset are recovered by
/// division and remainder.
pub proof fn lemma_offset_coordinates(w: int, r: int, c: int)
    requires
        0 < w,
        0 <= r,
        0 <= c < w,
    ensures
        offset_of(w, r, c) / w == r,
        offset_of(w, r, c) % w == c,
{
    lemma_fundamental_div_mod_converse(r * w + c, w, r, c);
}

/// Adding the backward delta `m - 1` and reducing modulo `m` steps one place
/// back, wrapping from 0 to `m - 1`.
pub proof fn lemma_wrap_back(x: int, m: int)
    requires
        0 <= x < m,
    ensures
        (x + m - 1) % m == if x == 0 {
            m - 1
        } else {
            x - 1
        },
{
    if x == 0 {
        lemma_small_mod((m - 1) as nat, m as nat);
    } else {
        lemma_mod_multiples_vanish(1, x - 1, m);
        lemma_small_mod((x - 1) as nat, m as nat);
    }
}

/// Adding the forward delta 1 and reducing modulo `m` steps one place
/// forward, wrapping from `m - 1` to 0.
pub proof fn lemma_wrap_forward(x: int, m: int)
    requires
        0 <= x < m,
    ensures
        (x + 1) % m == if x == m - 1 {
            0
        } else {
            x + 1
        },
{
    if x == m - 1 {
        lemma_mod_multiples_vanish(1, 0, m);
        lemma_small_mod(0nat, m as nat);
    } else {
        lemma_small_mod((x + 1) as nat, m as nat);
    }
}

/// A value already within `[0, m)` is unchanged by reduction modulo `m`.
pub proof fn lemma_wrap_identity(x: int, m: int)
    requires
        0 <= x < m,
    ensures
        (x + 0) % m == x,
{
    lemma_small_mod(x as nat, m as nat);
}

} // verus!
