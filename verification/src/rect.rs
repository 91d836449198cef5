//! Axis-aligned rectangles that describe rooms.

use vstd::prelude::*;

verus! {

/// A rectangle on the map, used to characterise a room.
///
/// The corner `(x1, y1)` and the corner `(x2, y2)` both belong to the
/// rectangle's boundary ring; its interior lies strictly between them.
#[derive(Clone, Copy, Debug, PartialEq, Eq, Structural)]
pub struct Rect {
    pub x1: i32,
    pub y1: i32,
    pub x2: i32,
    pub y2: i32,
}

impl Rect {
    /// The inclusive intersection test: two rectangles intersect as soon
    /// as their closed extents meet, so rectangles that merely touch along
    /// a boundary count as intersecting.
    pub open spec fn spec_intersects_with(&self, other: &Rect) -> bool {
        &&& self.x1 <= other.x2
        &&& self.x2 >= other.x1
        &&& self.y1 <= other.y2
        &&& self.y2 >= other.y1
    }

    /// The centre as a pair of mathematical integers: the floor of half the
    /// sum of the bounds, per axis.
    pub open spec fn spec_centre(&self) -> (int, int) {
        ((self.x1 + self.x2) / 2, (self.y1 + self.y2) / 2)
    }

    /// Whether `(x, y)` lies strictly inside the boundary ring.
    pub open spec fn interior(&self, x: int, y: int) -> bool {
        self.x1 < x < self.x2 && self.y1 < y < self.y2
    }

    /// Whether `(x, y)` lies inside the rectangle or on its boundary ring.
    pub open spec fn covers(&self, x: int, y: int) -> bool {
        self.x1 <= x <= self.x2 && self.y1 <= y <= self.y2
    }

    /// The rectangle with corner `(x, y)`, `w` cells wide and `h` cells high.
    pub fn new(x: i32, y: i32, w: i32, h: i32) -> (r: Rect)
        requires
            i32::MIN <= x + w <= i32::MAX,
            i32::MIN <= y + h <= i32::MAX,
        ensures
            r.x1 == x,
            r.y1 == y,
            r.x2 == x + w,
            r.y2 == y + h,
    {
        Rect { x1: x, y1: y, x2: x + w, y2: y + h }
    }

    /// The cell at the centre of the rectangle.
    pub fn centre(&self) -> (c: (i32, i32))
        ensures
            (c.0 as int, c.1 as int) == self.spec_centre(),
    {
        (midpoint(self.x1, self.x2), midpoint(self.y1, self.y2))
    }

    /// Returns true if this rectangle intersects with another one.
    pub fn intersects_with(&self, other: &Rect) -> (r: bool)
        ensures
            r == self.spec_intersects_with(other),
    {
        (self.x1 <= other.x2) && (self.x2 >= other.x1) && (self.y1 <= other.y2) && (self.y2
            >= other.y1)
    }
}

/// The floor of half the sum of `a` and `b`, computed without overflow.
fn midpoint(a: i32, b: i32) -> (m: i32)
    ensures
        m == (a + b) / 2,
{
    let sum: i64 = a as i64 + b as i64;
    let half: i64 = if sum >= 0 {
        sum / 2
    } else {
        -((1 - sum) / 2)
    };
    half as i32
}

/// The intersection test does not depend on the order of its operands.
pub proof fn lemma_intersects_symmetric(a: Rect, b: Rect)
    ensures
        a.spec_intersects_with(&b) == b.spec_intersects_with(&a),
{
}

/// Rectangles that do not intersect have no cell in common, boundary
/// rings included.
pub proof fn lemma_disjoint_rects_share_no_cell(a: Rect, b: Rect, x: int, y: int)
    requires
        !a.spec_intersects_with(&b),
        a.covers(x, y),
    ensures
        !b.covers(x, y),
{
}

} // verus!
