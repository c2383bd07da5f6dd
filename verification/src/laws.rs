use vstd::arithmetic::div_mod::{
    lemma_div_pos_is_pos, lemma_fundamental_div_mod, lemma_mod_bound,
};
use vstd::prelude::*;

use crate::cell::{flip, Cell};
use crate::render::render_chars;
use crate::rules::{
    lemma_offset_coordinates, lemma_offset_in_range, lemma_wrap_back, lemma_wrap_forward,
    lemma_wrap_identity, neighbour_count, next_cell, offset_of, step, steps, toggled,
};
use crate::universe::Universe;

verus! {

/// A neighbour count always lies between 0 and 8: each of the eight
/// toroidal neighbours contributes at most 1.
pub proof fn lemma_neighbour_count_range(s: Seq<Cell>, w: int, h: int, r: int, c: int)
    requires
        1 <= w,
        1 <= h,
        s.len() == w * h,
        0 <= r < h,
        0 <= c < w,
    ensures
        0 <= neighbour_count(s, w, h, r, c) <= 8,
{
}

/// The grid is a torus: a live cell at `(0, 0)` counts as a neighbour of
/// each of the three opposite corners `(h-1, w-1)`, `(h-1, 0)` and
/// `(0, w-1)`, and a live cell at any of those counts as a neighbour of
/// `(0, 0)`.
pub proof fn lemma_toroidal_wrap(s: Seq<Cell>, w: int, h: int)
    requires
        1 <= w,
        1 <= h,
        s.len() == w * h,
    ensures
        s[offset_of(w, 0, 0)] is Alive ==> neighbour_count(s, w, h, h - 1, w - 1) >= 1,
        s[offset_of(w, 0, 0)] is Alive ==> neighbour_count(s, w, h, h - 1, 0) >= 1,
        s[offset_of(w, 0, 0)] is Alive ==> neighbour_count(s, w, h, 0, w - 1) >= 1,
        s[offset_of(w, h - 1, w - 1)] is Alive ==> neighbour_count(s, w, h, 0, 0) >= 1,
        s[offset_of(w, h - 1, 0)] is Alive ==> neighbour_count(s, w, h, 0, 0) >= 1,
        s[offset_of(w, 0, w - 1)] is Alive ==> neighbour_count(s, w, h, 0, 0) >= 1,
{
    lemma_wrap_identity(0, h);
    lemma_wrap_identity(0, w);
    lemma_wrap_back(0, h);
    lemma_wrap_back(0, w);
    lemma_wrap_forward(h - 1, h);
    lemma_wrap_forward(w - 1, w);
}

/// Underpopulation kills: a live cell with no live neighbours is dead
/// after one generation.
pub proof fn lemma_extinction(s: Seq<Cell>, w: int, h: int, r: int, c: int)
    requires
        1 <= w,
        1 <= h,
        s.len() == w * h,
        0 <= r < h,
        0 <= c < w,
        s[offset_of(w, r, c)] is Alive,
        neighbour_count(s, w, h, r, c) == 0,
    ensures
        step(s, w, h)[offset_of(w, r, c)] is Dead,
{
    lemma_offset_in_range(w, h, r, c);
    lemma_offset_coordinates(w, r, c);
}

/// Toggling the same cell twice returns the grid to its original state.
pub proof fn lemma_toggle_twice(s: Seq<Cell>, i: int)
    requires
        0 <= i < s.len(),
    ensures
        toggled(toggled(s, i), i) == s,
{
    assert(toggled(toggled(s, i), i) =~= s);
}

/// Toggling a cell affects no other cell.
pub proof fn lemma_toggle_local(s: Seq<Cell>, i: int, j: int)
    requires
        0 <= i < s.len(),
        0 <= j < s.len(),
        i != j,
    ensures
        toggled(s, i)[j] == s[j],
        toggled(s, i)[i] == flip(s[i]),
{
}

/// Rendering is a pure function of the dimensions and the cells: two
/// universes in the same state render to identical text.
pub proof fn lemma_render_deterministic(a: Universe, b: Universe)
    requires
        a.spec_width() == b.spec_width(),
        a.spec_height() == b.spec_height(),
        a.grid() == b.grid(),
    ensures
        render_chars(a.grid(), a.spec_width() as int, a.spec_height() as int) == render_chars(
            b.grid(),
            b.spec_width() as int,
            b.spec_height() as int,
        ),
{
}

/// The grid holds exactly one two-by-two block of live cells whose upper
/// left corner is `(r0, c0)`, and nothing else is alive.
pub open spec fn lone_block(s: Seq<Cell>, w: int, h: int, r0: int, c0: int) -> bool {
    forall|r: int, c: int|
        0 <= r < h && 0 <= c < w ==> (s[offset_of(w, r, c)] is Alive <==> (r0 <= r <= r0 + 1
            && c0 <= c <= c0 + 1))
}

/// One cell of a grid holding a lone two-by-two block, placed away from
/// every edge, is unchanged by the rule: each block cell has exactly
/// three live neighbours and survives, and no dead cell reaches three.
proof fn lemma_block_cell_unchanged(s: Seq<Cell>, w: int, h: int, r0: int, c0: int, r: int, c: int)
    requires
        s.len() == w * h,
        1 <= r0,
        r0 + 2 < h,
        1 <= c0,
        c0 + 2 < w,
        lone_block(s, w, h, r0, c0),
        0 <= r < h,
        0 <= c < w,
    ensures
        next_cell(s[offset_of(w, r, c)], neighbour_count(s, w, h, r, c)) == s[offset_of(w, r, c)],
{
    lemma_wrap_back(r, h);
    lemma_wrap_forward(r, h);
    lemma_wrap_identity(r, h);
    lemma_wrap_back(c, w);
    lemma_wrap_forward(c, w);
    lemma_wrap_identity(c, w);
    let ru = if r == 0 { h - 1 } else { r - 1 };
    let rd = if r == h - 1 { 0 } else { r + 1 };
    let cl = if c == 0 { w - 1 } else { c - 1 };
    let cr = if c == w - 1 { 0 } else { c + 1 };
    assert(s[offset_of(w, r, c)] is Alive <==> (r0 <= r <= r0 + 1 && c0 <= c <= c0 + 1));
    assert(s[offset_of(w, ru, cl)] is Alive <==> (r0 <= ru <= r0 + 1 && c0 <= cl <= c0 + 1));
    assert(s[offset_of(w, ru, c)] is Alive <==> (r0 <= ru <= r0 + 1 && c0 <= c <= c0 + 1));
    assert(s[offset_of(w, ru, cr)] is Alive <==> (r0 <= ru <= r0 + 1 && c0 <= cr <= c0 + 1));
    assert(s[offset_of(w, r, cl)] is Alive <==> (r0 <= r <= r0 + 1 && c0 <= cl <= c0 + 1));
    assert(s[offset_of(w, r, cr)] is Alive <==> (r0 <= r <= r0 + 1 && c0 <= cr <= c0 + 1));
    assert(s[offset_of(w, rd, cl)] is Alive <==> (r0 <= rd <= r0 + 1 && c0 <= cl <= c0 + 1));
    assert(s[offset_of(w, rd, c)] is Alive <==> (r0 <= rd <= r0 + 1 && c0 <= c <= c0 + 1));
    assert(s[offset_of(w, rd, cr)] is Alive <==> (r0 <= rd <= r0 + 1 && c0 <= cr <= c0 + 1));
}

/// A two-by-two block of live cells away from every edge, alone on the
/// grid, is a still life: one generation leaves the grid unchanged.
pub proof fn lemma_block_still_life(s: Seq<Cell>, w: int, h: int, r0: int, c0: int)
    requires
        s.len() == w * h,
        1 <= r0,
        r0 + 2 < h,
        1 <= c0,
        c0 + 2 < w,
        lone_block(s, w, h, r0, c0),
    ensures
        step(s, w, h) == s,
{
    assert forall|i: int| 0 <= i < w * h implies step(s, w, h)[i] == s[i] by {
        lemma_fundamental_div_mod(i, w);
        lemma_mod_bound(i, w);
        lemma_div_pos_is_pos(i, w);
        let r = i / w;
        let c = i % w;
        assert(r < h && i == r * w + c) by (nonlinear_arith)
            requires
                i == w * r + c,
                0 <= c < w,
                0 <= i < w * h,
                0 < w,
        ;
        assert(i == offset_of(w, r, c));
        lemma_block_cell_unchanged(s, w, h, r0, c0, r, c);
    }
    assert(step(s, w, h) =~= s);
}

/// A state the rule leaves unchanged stays unchanged for any number of
/// generations.
pub proof fn lemma_still_life_forever(s: Seq<Cell>, w: int, h: int, n: nat)
    requires
        step(s, w, h) == s,
    ensures
        steps(s, w, h, n) == s,
    decreases n,
{
    if n > 0 {
        lemma_still_life_forever(s, w, h, (n - 1) as nat);
    }
}

} // verus!
