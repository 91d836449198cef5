//! Paths over open tiles, and what can be reached along them.

use crate::carve::on_tunnels;
use crate::grid::Grid;
use vstd::prelude::*;

verus! {

/// A cell of the grid, as `(x, y)`.
pub type Cell = (int, int);

/// Whether two cells share an edge.
pub open spec fn adjacent(a: Cell, b: Cell) -> bool {
    ||| a.0 == b.0 && (a.1 == b.1 + 1 || b.1 == a.1 + 1)
    ||| a.1 == b.1 && (a.0 == b.0 + 1 || b.0 == a.0 + 1)
}

/// Whether `c` is a cell of the grid whose tile is not blocked.
pub open spec fn open_cell(map: &Grid, c: Cell) -> bool {
    map.spec_in_bounds(c.0, c.1) && !map.spec_tile(c.0, c.1).blocked
}

/// Whether `path` leads over open cells only, from each to a neighbour.
pub open spec fn is_path(map: &Grid, path: Seq<Cell>) -> bool {
    &&& path.len() > 0
    &&& forall|i: int| 0 <= i < path.len() ==> open_cell(map, #[trigger] path[i])
    &&& forall|i: int| 0 <= i < path.len() - 1 ==> adjacent(#[trigger] path[i], path[i + 1])
}

/// Whether `path` is a path from `from` to `to`.
pub open spec fn is_path_between(map: &Grid, path: Seq<Cell>, from: Cell, to: Cell) -> bool {
    is_path(map, path) && path[0] == from && path[path.len() - 1] == to
}

/// Whether some path over open cells leads from `from` to `to`.
pub open spec fn reachable(map: &Grid, from: Cell, to: Cell) -> bool {
    exists|path: Seq<Cell>| is_path_between(map, path, from, to)
}

/// Whether every open cell of the grid can be reached from `start`.
pub open spec fn all_floor_reachable(map: &Grid, start: Cell) -> bool {
    forall|x: int, y: int| open_cell(map, (x, y)) ==> reachable(map, start, (x, y))
}

/// Whether every cell that is open in `before` is open in `after`.
pub open spec fn opens_no_less(before: &Grid, after: &Grid) -> bool {
    forall|x: int, y: int| open_cell(before, (x, y)) ==> open_cell(after, (x, y))
}

/// An open cell can be reached from itself.
pub proof fn lemma_reachable_here(map: &Grid, c: Cell)
    requires
        open_cell(map, c),
    ensures
        reachable(map, c, c),
{
    assert(is_path_between(map, seq![c], c, c));
}

/// What can be reached from a cell that can be reached, can be reached.
pub proof fn lemma_reachable_onward(map: &Grid, a: Cell, b: Cell, c: Cell)
    requires
        reachable(map, a, b),
        reachable(map, b, c),
    ensures
        reachable(map, a, c),
{
    let first = choose|path: Seq<Cell>| is_path_between(map, path, a, b);
    let second = choose|path: Seq<Cell>| is_path_between(map, path, b, c);
    // The two paths share the cell `b`; the whole path passes it once.
    let rest = second.subrange(1, second.len() as int);
    let whole = first + rest;
    assert forall|i: int| 0 <= i < whole.len() implies open_cell(map, #[trigger] whole[i]) by {
        if i < first.len() {
            assert(whole[i] == first[i]);
        } else {
            assert(whole[i] == second[i - first.len() + 1]);
        }
    }
    assert forall|i: int| 0 <= i < whole.len() - 1 implies adjacent(
        #[trigger] whole[i],
        whole[i + 1],
    ) by {
        if i < first.len() - 1 {
            assert(whole[i] == first[i]);
            assert(whole[i + 1] == first[i + 1]);
        } else if i == first.len() - 1 {
            assert(whole[i] == second[0]);
            assert(whole[i + 1] == second[1]);
        } else {
            assert(whole[i] == second[i - first.len() + 1]);
            assert(whole[i + 1] == second[i - first.len() + 2]);
        }
    }
    assert(whole[whole.len() - 1] == c) by {
        if rest.len() > 0 {
            assert(whole[whole.len() - 1] == second[second.len() - 1]);
        }
    }
    assert(is_path_between(map, whole, a, c));
}

/// An open neighbour of an open cell can be reached from it.
pub proof fn lemma_reachable_next(map: &Grid, a: Cell, b: Cell)
    requires
        open_cell(map, a),
        open_cell(map, b),
        adjacent(a, b),
    ensures
        reachable(map, a, b),
{
    assert(is_path_between(map, seq![a, b], a, b));
}

/// What can be reached stays within reach when more cells are opened.
pub proof fn lemma_reachable_after_opening(before: &Grid, after: &Grid, a: Cell, b: Cell)
    requires
        reachable(before, a, b),
        opens_no_less(before, after),
    ensures
        reachable(after, a, b),
{
    let path = choose|path: Seq<Cell>| is_path_between(before, path, a, b);
    assert forall|i: int| 0 <= i < path.len() implies open_cell(after, #[trigger] path[i]) by {
        assert(open_cell(before, (path[i].0, path[i].1)));
    }
    assert(is_path_between(after, path, a, b));
}

/// What can be reached from `start` on one grid can be reached on every
/// grid with the same open cells.
pub proof fn lemma_same_floor_same_reach(before: &Grid, after: &Grid, start: Cell)
    requires
        all_floor_reachable(before, start),
        forall|x: int, y: int| #![trigger open_cell(after, (x, y))]
            open_cell(after, (x, y)) == open_cell(before, (x, y)),
    ensures
        all_floor_reachable(after, start),
{
    assert forall|x: int, y: int| open_cell(before, (x, y)) implies open_cell(after, (x, y)) by {}
    assert forall|x: int, y: int| open_cell(after, (x, y)) implies reachable(
        after,
        start,
        (x, y),
    ) by {
        lemma_reachable_after_opening(before, after, start, (x, y));
    }
}

/// Whether `x` lies between `a` and `b`, whichever of them is smaller.
pub open spec fn between(a: int, b: int, x: int) -> bool {
    (a <= x <= b) || (b <= x <= a)
}

/// Along a row of open cells, each end can be reached from the other.
pub proof fn lemma_row_reachable(map: &Grid, xa: int, xb: int, y: int)
    requires
        forall|x: int| between(xa, xb, x) ==> open_cell(map, (x, y)),
    ensures
        reachable(map, (xa, y), (xb, y)),
    decreases
            if xa <= xb {
                xb - xa
            } else {
                xa - xb
            },
{
    assert(between(xa, xb, xb));
    if xa == xb {
        lemma_reachable_here(map, (xa, y));
    } else {
        let xn = if xa < xb {
            xb - 1
        } else {
            xb + 1
        };
        assert forall|x: int| between(xa, xn, x) implies open_cell(map, (x, y)) by {
            assert(between(xa, xb, x));
        }
        lemma_row_reachable(map, xa, xn, y);
        lemma_reachable_next(map, (xn, y), (xb, y));
        lemma_reachable_onward(map, (xa, y), (xn, y), (xb, y));
    }
}

/// Along a column of open cells, each end can be reached from the other.
pub proof fn lemma_column_reachable(map: &Grid, x: int, ya: int, yb: int)
    requires
        forall|y: int| between(ya, yb, y) ==> open_cell(map, (x, y)),
    ensures
        reachable(map, (x, ya), (x, yb)),
    decreases
            if ya <= yb {
                yb - ya
            } else {
                ya - yb
            },
{
    assert(between(ya, yb, yb));
    if ya == yb {
        lemma_reachable_here(map, (x, ya));
    } else {
        let yn = if ya < yb {
            yb - 1
        } else {
            yb + 1
        };
        assert forall|y: int| between(ya, yn, y) implies open_cell(map, (x, y)) by {
            assert(between(ya, yb, y));
        }
        lemma_column_reachable(map, x, ya, yn);
        lemma_reachable_next(map, (x, yn), (x, yb));
        lemma_reachable_onward(map, (x, ya), (x, yn), (x, yb));
    }
}

/// Inside a rectangle of open cells, every cell can be reached from
/// every other: along the row first, then along the column.
pub proof fn lemma_block_reachable(
    map: &Grid,
    x1: int,
    y1: int,
    x2: int,
    y2: int,
    a: Cell,
    b: Cell,
)
    requires
        forall|x: int, y: int| x1 <= x <= x2 && y1 <= y <= y2 ==> open_cell(map, (x, y)),
        x1 <= a.0 <= x2,
        y1 <= a.1 <= y2,
        x1 <= b.0 <= x2,
        y1 <= b.1 <= y2,
    ensures
        reachable(map, a, b),
{
    lemma_row_reachable(map, a.0, b.0, a.1);
    lemma_column_reachable(map, b.0, a.1, b.1);
    lemma_reachable_onward(map, a, (b.0, a.1), b);
}

/// Every cell on the tunnels from `prev` to `next` can be reached from
/// `prev` once the tunnels are open.
pub proof fn lemma_tunnels_reachable(
    map: &Grid,
    prev: Cell,
    next: Cell,
    horizontal_first: bool,
    c: Cell,
)
    requires
        forall|x: int, y: int|
            on_tunnels(prev, next, horizontal_first, x, y) ==> open_cell(map, (x, y)),
        on_tunnels(prev, next, horizontal_first, c.0, c.1),
    ensures
        reachable(map, prev, c),
{
    if horizontal_first {
        if c.1 == prev.1 && between(prev.0, next.0, c.0) {
            assert forall|x: int| between(prev.0, c.0, x) implies open_cell(map, (x, prev.1)) by {
                assert(on_tunnels(prev, next, horizontal_first, x, prev.1));
            }
            lemma_row_reachable(map, prev.0, c.0, prev.1);
        } else {
            assert forall|x: int| between(prev.0, next.0, x) implies open_cell(map, (x, prev.1)) by {
                assert(on_tunnels(prev, next, horizontal_first, x, prev.1));
            }
            lemma_row_reachable(map, prev.0, next.0, prev.1);
            assert forall|y: int| between(prev.1, c.1, y) implies open_cell(map, (next.0, y)) by {
                assert(on_tunnels(prev, next, horizontal_first, next.0, y));
            }
            lemma_column_reachable(map, next.0, prev.1, c.1);
            lemma_reachable_onward(map, prev, (next.0, prev.1), c);
        }
    } else {
        if c.0 == prev.0 && between(prev.1, next.1, c.1) {
            assert forall|y: int| between(prev.1, c.1, y) implies open_cell(map, (prev.0, y)) by {
                assert(on_tunnels(prev, next, horizontal_first, prev.0, y));
            }
            lemma_column_reachable(map, prev.0, prev.1, c.1);
        } else {
            assert forall|y: int| between(prev.1, next.1, y) implies open_cell(map, (prev.0, y)) by {
                assert(on_tunnels(prev, next, horizontal_first, prev.0, y));
            }
            lemma_column_reachable(map, prev.0, prev.1, next.1);
            assert forall|x: int| between(prev.0, c.0, x) implies open_cell(map, (x, next.1)) by {
                assert(on_tunnels(prev, next, horizontal_first, x, next.1));
            }
            lemma_row_reachable(map, prev.0, c.0, next.1);
            lemma_reachable_onward(map, prev, (prev.0, next.1), c);
        }
    }
}

/// Digging keeps the floor in one piece. If every open cell could be
/// reached from `start`, and what has been opened since is a block of
/// cells and the tunnels that join a cell of that block to a cell that
/// was open before, then every open cell can still be reached from
/// `start`.
pub proof fn lemma_dig_keeps_floor_reachable(
    before: &Grid,
    after: &Grid,
    start: Cell,
    prev: Cell,
    next: Cell,
    horizontal_first: bool,
    x1: int,
    y1: int,
    x2: int,
    y2: int,
)
    requires
        all_floor_reachable(before, start),
        open_cell(before, prev),
        x1 <= next.0 <= x2,
        y1 <= next.1 <= y2,
        forall|x: int, y: int| #![trigger open_cell(after, (x, y))]
            open_cell(after, (x, y)) <==> (open_cell(before, (x, y)) || (x1 <= x <= x2 && y1 <= y
                <= y2) || on_tunnels(prev, next, horizontal_first, x, y)),
    ensures
        all_floor_reachable(after, start),
{
    assert forall|x: int, y: int| open_cell(before, (x, y)) implies open_cell(after, (x, y)) by {}
    assert forall|x: int, y: int| x1 <= x <= x2 && y1 <= y <= y2 implies open_cell(
        after,
        (x, y),
    ) by {}
    assert forall|x: int, y: int| on_tunnels(prev, next, horizontal_first, x, y) implies open_cell(
        after,
        (x, y),
    ) by {}
    lemma_reachable_after_opening(before, after, start, prev);
    assert(on_tunnels(prev, next, horizontal_first, next.0, next.1));
    lemma_tunnels_reachable(after, prev, next, horizontal_first, next);
    lemma_reachable_onward(after, start, prev, next);
    assert forall|x: int, y: int| open_cell(after, (x, y)) implies reachable(
        after,
        start,
        (x, y),
    ) by {
        if open_cell(before, (x, y)) {
            lemma_reachable_after_opening(before, after, start, (x, y));
        } else if x1 <= x <= x2 && y1 <= y <= y2 {
            lemma_block_reachable(after, x1, y1, x2, y2, next, (x, y));
            lemma_reachable_onward(after, start, next, (x, y));
        } else {
            lemma_tunnels_reachable(after, prev, next, horizontal_first, (x, y));
            lemma_reachable_onward(after, start, prev, (x, y));
        }
    }
}

} // verus!
