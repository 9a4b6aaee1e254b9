//! The glider's journey: the four shapes it passes through, and the proof that
//! after four generations it is itself again, one cell further along each axis.

use vstd::prelude::*;
use crate::cell::CellState;
use crate::grid::{cell, height, live, live_neighbours, rectangular, step, steps, width, Grid};
use crate::pattern::{glider_stamped, on_glider};
use crate::theorems::lemma_step_is_simultaneous;
use crate::torus::{lemma_wrap_counted_from, lemma_wrap_in_bounds, lemma_wrap_neighbours, wrap};

verus! {

/// Whether the cell `a` columns right of and `b` rows below the place where a
/// glider was stamped is alive `phase` generations later, for `phase` from
/// zero to four. After four generations the glider has its first shape again,
/// one column and one row further on.
pub open spec fn glider_shape(phase: int, a: int, b: int) -> bool {
    if phase == 0 {
        (a == 0 && b == 0) || (a == 0 && b == 2) || (a == 1 && b == 1) || (a == 1 && b == 2) || (a
            == 2 && b == 1)
    } else if phase == 1 {
        (a == 1 && b == 0) || (a == 2 && b == 1) || (a == 0 && b == 2) || (a == 1 && b == 2) || (a
            == 2 && b == 2)
    } else if phase == 2 {
        (a == 0 && b == 1) || (a == 2 && b == 1) || (a == 1 && b == 2) || (a == 2 && b == 2) || (a
            == 1 && b == 3)
    } else if phase == 3 {
        (a == 2 && b == 1) || (a == 0 && b == 2) || (a == 2 && b == 2) || (a == 1 && b == 3) || (a
            == 2 && b == 3)
    } else {
        (a == 1 && b == 1) || (a == 1 && b == 3) || (a == 2 && b == 2) || (a == 2 && b == 3) || (a
            == 3 && b == 2)
    }
}

/// Whether the live cells of `g` are exactly those of a glider stamped at
/// `(ox, oy)`.
pub open spec fn lone_glider(g: Grid, ox: int, oy: int) -> bool {
    forall|x: int, y: int| #[trigger]
        cell(g, x, y) == CellState::Alive <==> on_glider(g, ox, oy, x, y)
}

/// A glider stamped on a board without a live cell is a lone glider.
pub proof fn lemma_stamped_on_dead_board(before: Grid, after: Grid, ox: int, oy: int)
    requires
        width(after) == width(before),
        height(after) == height(before),
        forall|x: int, y: int| #[trigger] cell(before, x, y) == CellState::Dead,
        glider_stamped(before, after, ox, oy),
    ensures
        lone_glider(after, ox, oy),
{
    assert forall|x: int, y: int| #[trigger]
        cell(after, x, y) == CellState::Alive <==> on_glider(after, ox, oy, x, y) by {
        assert(cell(before, x, y) == CellState::Dead);
    }
}

/// Whether the live cells of `g` are exactly those of a glider that was
/// stamped at `(ox, oy)` and has lived through `phase` generations since.
pub open spec fn lone_glider_after(g: Grid, phase: int, ox: int, oy: int) -> bool {
    forall|x: int, y: int| #[trigger]
        cell(g, x, y) == CellState::Alive <==> glider_shape(
            phase,
            wrap(x - ox, width(g)),
            wrap(y - oy, height(g)),
        )
}

/// The index before `a` on an axis of `dim` cells, going round at the start.
pub open spec fn before(a: int, dim: int) -> int {
    if a == 0 {
        dim - 1
    } else {
        a - 1
    }
}

/// The index after `a` on an axis of `dim` cells, going round at the end.
pub open spec fn after(a: int, dim: int) -> int {
    if a + 1 == dim {
        0
    } else {
        a + 1
    }
}

/// One if the glider of the given phase has a live cell at `(a, b)`, zero if not.
pub open spec fn shape_live(phase: int, a: int, b: int) -> int {
    if glider_shape(phase, a, b) {
        1
    } else {
        0
    }
}

/// The number of live cells of the glider around `(a, b)`, counted from the
/// place where it was stamped, on a torus of `w` columns and `h` rows.
pub open spec fn shape_neighbours(phase: int, a: int, b: int, w: int, h: int) -> int {
    shape_live(phase, before(a, w), before(b, h)) + shape_live(phase, a, before(b, h))
        + shape_live(phase, after(a, w), before(b, h)) + shape_live(phase, before(a, w), b)
        + shape_live(phase, after(a, w), b) + shape_live(phase, before(a, w), after(b, h))
        + shape_live(phase, a, after(b, h)) + shape_live(phase, after(a, w), after(b, h))
}

/// The rule takes each shape of the glider to the next, cell by cell, on any
/// torus of at least five columns and five rows.
pub proof fn lemma_shape_advances(phase: int, a: int, b: int, w: int, h: int)
    requires
        0 <= phase <= 3,
        w >= 5,
        h >= 5,
        0 <= a < w,
        0 <= b < h,
    ensures
        glider_shape(phase + 1, a, b) <==> shape_neighbours(phase, a, b, w, h) == 3 || (
        glider_shape(phase, a, b) && shape_neighbours(phase, a, b, w, h) == 2),
{
}

/// On a board of at least three columns and three rows, the five cells of a
/// freshly stamped glider are those of its first shape.
pub proof fn lemma_glider_starts(g: Grid, ox: int, oy: int, x: int, y: int)
    requires
        rectangular(g),
        width(g) >= 3,
        height(g) >= 3,
    ensures
        on_glider(g, ox, oy, x, y) <==> glider_shape(
            0,
            wrap(x - ox, width(g)),
            wrap(y - oy, height(g)),
        ),
{
    let w = width(g);
    let h = height(g);
    lemma_wrap_counted_from(x, ox, 0, w);
    lemma_wrap_counted_from(x, ox, 1, w);
    lemma_wrap_counted_from(x, ox, 2, w);
    lemma_wrap_counted_from(y, oy, 0, h);
    lemma_wrap_counted_from(y, oy, 1, h);
    lemma_wrap_counted_from(y, oy, 2, h);
}

/// On a board of at least four columns and four rows, the fifth shape of a
/// glider stamped at `(ox, oy)` is a glider freshly stamped at
/// `(ox + 1, oy + 1)`.
pub proof fn lemma_glider_arrives(g: Grid, ox: int, oy: int, x: int, y: int)
    requires
        rectangular(g),
        width(g) >= 4,
        height(g) >= 4,
    ensures
        on_glider(g, ox + 1, oy + 1, x, y) <==> glider_shape(
            4,
            wrap(x - ox, width(g)),
            wrap(y - oy, height(g)),
        ),
{
    let w = width(g);
    let h = height(g);
    lemma_wrap_counted_from(x, ox, 1, w);
    lemma_wrap_counted_from(x, ox, 2, w);
    lemma_wrap_counted_from(x, ox, 3, w);
    lemma_wrap_counted_from(y, oy, 1, h);
    lemma_wrap_counted_from(y, oy, 2, h);
    lemma_wrap_counted_from(y, oy, 3, h);
}

/// One generation takes a lone glider from each of its shapes to the next, on
/// any board of at least five columns and five rows.
pub proof fn lemma_glider_advances(g: Grid, phase: int, ox: int, oy: int)
    requires
        rectangular(g),
        width(g) >= 5,
        height(g) >= 5,
        0 <= phase <= 3,
        lone_glider_after(g, phase, ox, oy),
    ensures
        rectangular(step(g)),
        width(step(g)) == width(g),
        height(step(g)) == height(g),
        lone_glider_after(step(g), phase + 1, ox, oy),
{
    let w = width(g);
    let h = height(g);
    lemma_step_is_simultaneous(g, 0, 0);
    assert forall|x: int, y: int| #[trigger]
        cell(step(g), x, y) == CellState::Alive <==> glider_shape(
            phase + 1,
            wrap(x - ox, w),
            wrap(y - oy, h),
        ) by {
        let a = wrap(x - ox, w);
        let b = wrap(y - oy, h);
        lemma_step_is_simultaneous(g, x, y);
        lemma_wrap_in_bounds(x - ox, w);
        lemma_wrap_in_bounds(y - oy, h);
        lemma_wrap_neighbours(x - ox, w);
        lemma_wrap_neighbours(y - oy, h);
        assert(wrap(x - 1 - ox, w) == before(a, w));
        assert(wrap(x + 1 - ox, w) == after(a, w));
        assert(wrap(y - 1 - oy, h) == before(b, h));
        assert(wrap(y + 1 - oy, h) == after(b, h));
        assert(live(g, x - 1, y - 1) == shape_live(phase, before(a, w), before(b, h)));
        assert(live(g, x, y - 1) == shape_live(phase, a, before(b, h)));
        assert(live(g, x + 1, y - 1) == shape_live(phase, after(a, w), before(b, h)));
        assert(live(g, x - 1, y) == shape_live(phase, before(a, w), b));
        assert(live(g, x, y) == shape_live(phase, a, b));
        assert(live(g, x + 1, y) == shape_live(phase, after(a, w), b));
        assert(live(g, x - 1, y + 1) == shape_live(phase, before(a, w), after(b, h)));
        assert(live(g, x, y + 1) == shape_live(phase, a, after(b, h)));
        assert(live(g, x + 1, y + 1) == shape_live(phase, after(a, w), after(b, h)));
        assert(live_neighbours(g, x, y) == shape_neighbours(phase, a, b, w, h));
        lemma_shape_advances(phase, a, b, w, h);
    }
}

/// Glider period: on any board of at least five columns and five rows, a lone
/// glider stamped at `(ox, oy)` is, four generations later, a lone glider
/// stamped at `(ox + 1, oy + 1)`.
pub proof fn lemma_glider_period(g: Grid, ox: int, oy: int)
    requires
        rectangular(g),
        width(g) >= 5,
        height(g) >= 5,
        lone_glider(g, ox, oy),
    ensures
        rectangular(steps(g, 4)),
        width(steps(g, 4)) == width(g),
        height(steps(g, 4)) == height(g),
        lone_glider(steps(g, 4), ox + 1, oy + 1),
{
    let g1 = step(g);
    let g2 = step(g1);
    let g3 = step(g2);
    let g4 = step(g3);
    assert(steps(g, 4) == g4) by {
        reveal_with_fuel(steps, 5);
    }
    assert forall|x: int, y: int| #[trigger]
        cell(g, x, y) == CellState::Alive <==> glider_shape(
            0,
            wrap(x - ox, width(g)),
            wrap(y - oy, height(g)),
        ) by {
        lemma_glider_starts(g, ox, oy, x, y);
    }
    lemma_glider_advances(g, 0, ox, oy);
    lemma_glider_advances(g1, 1, ox, oy);
    lemma_glider_advances(g2, 2, ox, oy);
    lemma_glider_advances(g3, 3, ox, oy);
    assert forall|x: int, y: int| #[trigger]
        cell(g4, x, y) == CellState::Alive <==> on_glider(g4, ox + 1, oy + 1, x, y) by {
        lemma_glider_arrives(g4, ox, oy, x, y);
    }
}

} // verus!
