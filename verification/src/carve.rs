//! Carving rooms and tunnels out of a grid of walls.

use crate::grid::Grid;
use crate::reach::between;
use crate::rect::Rect;
use crate::tile::Tile;
use vstd::prelude::*;

verus! {

/// Whether two grids have the same size.
pub open spec fn same_size(a: &Grid, b: &Grid) -> bool {
    a.spec_width() == b.spec_width() && a.spec_height() == b.spec_height()
}

/// Whether `(cx, cy)` lies on the horizontal tunnel in row `y` that joins
/// the columns `x1` and `x2`, ends included.
pub open spec fn on_h_tunnel(x1: int, x2: int, y: int, cx: int, cy: int) -> bool {
    cy == y && between(x1, x2, cx)
}

/// Whether `(cx, cy)` lies on the vertical tunnel in column `x` that
/// joins the rows `y1` and `y2`, ends included.
pub open spec fn on_v_tunnel(y1: int, y2: int, x: int, cx: int, cy: int) -> bool {
    cx == x && between(y1, y2, cy)
}

/// Whether `(x, y)` lies on the pair of tunnels that joins `prev` to
/// `next` with one bend: along the row of `prev` and then the column of
/// `next` if the horizontal tunnel comes first, along the column of
/// `prev` and then the row of `next` if the vertical one does.
pub open spec fn on_tunnels(
    prev: (int, int),
    next: (int, int),
    horizontal_first: bool,
    x: int,
    y: int,
) -> bool {
    if horizontal_first {
        on_h_tunnel(prev.0, next.0, prev.1, x, y) || on_v_tunnel(prev.1, next.1, next.0, x, y)
    } else {
        on_v_tunnel(prev.1, next.1, prev.0, x, y) || on_h_tunnel(prev.0, next.0, next.1, x, y)
    }
}

/// Whether `room` intersects any of `rooms`, by the inclusive test.
pub open spec fn spec_intersects_any(room: Rect, rooms: Seq<Rect>) -> bool {
    exists|i: int| 0 <= i < rooms.len() && room.spec_intersects_with(&#[trigger] rooms[i])
}

/// Whether `(x, y)` lies inside `room` or on the tunnels that join the
/// centre of `prev` to the centre of `room`.
pub open spec fn joins(prev: Rect, room: Rect, horizontal_first: bool, x: int, y: int) -> bool {
    room.interior(x, y) || on_tunnels(
        prev.spec_centre(),
        room.spec_centre(),
        horizontal_first,
        x,
        y,
    )
}

/// Whether adding `room` behind `rooms` opens the cell `(x, y)`: the
/// cell lies inside the room or, where there is a room before it, on the
/// tunnels that join the centre of the last of them to its centre.
pub open spec fn opens(
    rooms: Seq<Rect>,
    room: Rect,
    horizontal_first: bool,
    x: int,
    y: int,
) -> bool {
    if rooms.len() > 0 {
        joins(rooms[rooms.len() - 1], room, horizontal_first, x, y)
    } else {
        room.interior(x, y)
    }
}

/// Makes the tiles inside the rectangle passable. The boundary ring of
/// the rectangle and everything outside it stay as they were.
pub fn create_room(room: Rect, map: &mut Grid)
    requires
        old(map).wf(),
        forall|x: int, y: int| #[trigger] room.interior(x, y) ==> old(map).spec_in_bounds(x, y),
    ensures
        final(map).wf(),
        same_size(old(map), final(map)),
        forall|x: int, y: int| #![trigger final(map).spec_tile(x, y)]
            old(map).spec_in_bounds(x, y) ==> final(map).spec_tile(x, y) == if room.interior(x, y) {
                Tile::empty()
            } else {
                old(map).spec_tile(x, y)
            },
{
    if room.x1 >= room.x2 || room.y1 >= room.y2 {
        return;
    }
    let mut x: i32 = room.x1 + 1;
    while x < room.x2
        invariant
            room.x1 < x <= room.x2,
            room.y1 < room.y2,
            map.wf(),
            same_size(old(map), map),
            forall|i: int, j: int| #[trigger] room.interior(i, j) ==> old(map).spec_in_bounds(i, j),
            forall|i: int, j: int| #![trigger map.spec_tile(i, j)]
                old(map).spec_in_bounds(i, j) ==> map.spec_tile(i, j) == if room.interior(i, j)
                    && i < x {
                    Tile::empty()
                } else {
                    old(map).spec_tile(i, j)
                },
        decreases room.x2 - x,
    {
        let mut y: i32 = room.y1 + 1;
        while y < room.y2
            invariant
                room.x1 < x < room.x2,
                room.y1 < y <= room.y2,
                map.wf(),
                same_size(old(map), map),
                forall|i: int, j: int| #[trigger]
                    room.interior(i, j) ==> old(map).spec_in_bounds(i, j),
                forall|i: int, j: int| #![trigger map.spec_tile(i, j)]
                    old(map).spec_in_bounds(i, j) ==> map.spec_tile(i, j) == if room.interior(i, j)
                        && (i < x || (i == x && j < y)) {
                        Tile::empty()
                    } else {
                        old(map).spec_tile(i, j)
                    },
            decreases room.y2 - y,
        {
            assert(room.interior(x as int, y as int));
            map.set_tile(x, y, Tile::empty());
            y = y + 1;
        }
        x = x + 1;
    }
}

/// Digs a horizontal tunnel in row `y` from column `x1` to column `x2`,
/// whichever of the two is the smaller.
pub fn create_h_tunnel(x1: i32, x2: i32, y: i32, map: &mut Grid)
    requires
        old(map).wf(),
        old(map).spec_in_bounds(x1 as int, y as int),
        old(map).spec_in_bounds(x2 as int, y as int),
    ensures
        final(map).wf(),
        same_size(old(map), final(map)),
        forall|cx: int, cy: int| #![trigger final(map).spec_tile(cx, cy)]
            old(map).spec_in_bounds(cx, cy) ==> final(map).spec_tile(cx, cy) == if on_h_tunnel(
                x1 as int,
                x2 as int,
                y as int,
                cx,
                cy,
            ) {
                Tile::empty()
            } else {
                old(map).spec_tile(cx, cy)
            },
{
    let (low, high) = if x1 <= x2 {
        (x1, x2)
    } else {
        (x2, x1)
    };
    let mut x: i32 = low;
    while x < high + 1
        invariant
            low <= x <= high + 1,
            (low == x1 && high == x2) || (low == x2 && high == x1),
            map.wf(),
            same_size(old(map), map),
            old(map).spec_in_bounds(low as int, y as int),
            old(map).spec_in_bounds(high as int, y as int),
            forall|cx: int, cy: int| #![trigger map.spec_tile(cx, cy)]
                old(map).spec_in_bounds(cx, cy) ==> map.spec_tile(cx, cy) == if on_h_tunnel(
                    x1 as int,
                    x2 as int,
                    y as int,
                    cx,
                    cy,
                ) && cx < x {
                    Tile::empty()
                } else {
                    old(map).spec_tile(cx, cy)
                },
        decreases high + 1 - x,
    {
        map.set_tile(x, y, Tile::empty());
        x = x + 1;
    }
}

/// Digs a vertical tunnel in column `x` from row `y1` to row `y2`,
/// whichever of the two is the smaller.
pub fn create_v_tunnel(y1: i32, y2: i32, x: i32, map: &mut Grid)
    requires
        old(map).wf(),
        old(map).spec_in_bounds(x as int, y1 as int),
        old(map).spec_in_bounds(x as int, y2 as int),
    ensures
        final(map).wf(),
        same_size(old(map), final(map)),
        forall|cx: int, cy: int| #![trigger final(map).spec_tile(cx, cy)]
            old(map).spec_in_bounds(cx, cy) ==> final(map).spec_tile(cx, cy) == if on_v_tunnel(
                y1 as int,
                y2 as int,
                x as int,
                cx,
                cy,
            ) {
                Tile::empty()
            } else {
                old(map).spec_tile(cx, cy)
            },
{
    let (low, high) = if y1 <= y2 {
        (y1, y2)
    } else {
        (y2, y1)
    };
    let mut y: i32 = low;
    while y < high + 1
        invariant
            low <= y <= high + 1,
            (low == y1 && high == y2) || (low == y2 && high == y1),
            map.wf(),
            same_size(old(map), map),
            old(map).spec_in_bounds(x as int, low as int),
            old(map).spec_in_bounds(x as int, high as int),
            forall|cx: int, cy: int| #![trigger map.spec_tile(cx, cy)]
                old(map).spec_in_bounds(cx, cy) ==> map.spec_tile(cx, cy) == if on_v_tunnel(
                    y1 as int,
                    y2 as int,
                    x as int,
                    cx,
                    cy,
                ) && cy < y {
                    Tile::empty()
                } else {
                    old(map).spec_tile(cx, cy)
                },
        decreases high + 1 - y,
    {
        map.set_tile(x, y, Tile::empty());
        y = y + 1;
    }
}

/// Whether `room` intersects any of `rooms`.
pub fn intersects_any(room: &Rect, rooms: &Vec<Rect>) -> (hit: bool)
    ensures
        hit == spec_intersects_any(*room, rooms@),
{
    let mut i: usize = 0;
    while i < rooms.len()
        invariant
            0 <= i <= rooms@.len(),
            forall|j: int| 0 <= j < i ==> !room.spec_intersects_with(&#[trigger] rooms@[j]),
        decreases rooms@.len() - i,
    {
        if room.intersects_with(&rooms[i]) {
            return true;
        }
        i = i + 1;
    }
    false
}

/// Tries to add `room` to the level. A room that intersects one of the
/// rooms accepted before it is dropped: the rooms and the grid stay as
/// they were. Any other room is accepted: it is carved out, it is joined
/// to the last of the rooms before it, if there is one, by a horizontal
/// and a vertical tunnel from centre to centre, the horizontal one first
/// if `horizontal_first` says so, and it becomes the last of the rooms.
pub fn add_room(room: Rect, horizontal_first: bool, rooms: &mut Vec<Rect>, map: &mut Grid) -> (accepted:
    bool)
    requires
        old(map).wf(),
        !spec_intersects_any(room, old(rooms)@) ==> forall|x: int, y: int|
            #[trigger] opens(old(rooms)@, room, horizontal_first, x, y) ==> old(map).spec_in_bounds(
                x,
                y,
            ),
    ensures
        accepted == !spec_intersects_any(room, old(rooms)@),
        final(rooms)@ == if accepted {
            old(rooms)@.push(room)
        } else {
            old(rooms)@
        },
        !accepted ==> final(map)@ == old(map)@,
        final(map).wf(),
        same_size(old(map), final(map)),
        forall|x: int, y: int| #![trigger final(map).spec_tile(x, y)]
            old(map).spec_in_bounds(x, y) ==> final(map).spec_tile(x, y) == if accepted && opens(
                old(rooms)@,
                room,
                horizontal_first,
                x,
                y,
            ) {
                Tile::empty()
            } else {
                old(map).spec_tile(x, y)
            },
{
    // Run through the other rooms and see if they intersect with this one.
    if intersects_any(&room, rooms) {
        return false;
    }
    // Paint the room to the map's tiles.
    assert forall|x: int, y: int| #[trigger] room.interior(x, y) implies map.spec_in_bounds(
        x,
        y,
    ) by {
        assert(opens(rooms@, room, horizontal_first, x, y));
    }
    create_room(room, map);

    if rooms.len() > 0 {
        // Connect it to the previous room with a tunnel, from centre to
        // centre.
        let (new_x, new_y) = room.centre();
        let (prev_x, prev_y) = rooms[rooms.len() - 1].centre();
        proof {
            // The four corners of the two possible bends.
            assert(opens(rooms@, room, horizontal_first, prev_x as int, prev_y as int));
            assert(opens(rooms@, room, horizontal_first, new_x as int, new_y as int));
            if horizontal_first {
                assert(opens(rooms@, room, horizontal_first, new_x as int, prev_y as int));
            } else {
                assert(opens(rooms@, room, horizontal_first, prev_x as int, new_y as int));
            }
        }
        if horizontal_first {
            // First move horizontally, then vertically.
            create_h_tunnel(prev_x, new_x, prev_y, map);
            create_v_tunnel(prev_y, new_y, new_x, map);
        } else {
            // First move vertically, then horizontally.
            create_v_tunnel(prev_y, new_y, prev_x, map);
            create_h_tunnel(prev_x, new_x, new_y, map);
        }
    }
    rooms.push(room);
    true
}

} // verus!
