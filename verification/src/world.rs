//! The table of objects and the rules of movement on the grid.
//!
//! Objects live in one table and are named by their index in it, which
//! never changes; the player is always the object at index 0.

use crate::grid::Grid;
use crate::object::{Object, ObjectView};
use vstd::prelude::*;

verus! {

/// The player is always the first object.
pub const PLAYER: usize = 0;

/// The state of a game apart from its objects.
pub struct Game {
    pub map: Grid,
}

/// The views of a table of objects, index by index.
pub open spec fn object_views(objects: Seq<Object>) -> Seq<ObjectView> {
    Seq::new(objects.len(), |i: int| objects[i]@)
}

/// Whether `object` keeps others out of the cell `(x, y)`.
pub open spec fn occupies(object: ObjectView, x: int, y: int) -> bool {
    object.blocks && object.x == x && object.y == y
}

/// Whether the cell `(x, y)` is closed to movement: its tile is blocked,
/// or a blocking object stands on it.
pub open spec fn spec_is_blocked(map: &Grid, objects: Seq<ObjectView>, x: int, y: int) -> bool
    recommends
        map.spec_in_bounds(x, y),
{
    map.spec_tile(x, y).blocked || exists|i: int|
        0 <= i < objects.len() && occupies(#[trigger] objects[i], x, y)
}

/// The table after object `id` has tried to move by `(dx, dy)`: it stands
/// on the target cell if that cell was open, and nothing has changed if
/// it was not.
pub open spec fn spec_move_by(
    map: &Grid,
    objects: Seq<ObjectView>,
    id: int,
    dx: int,
    dy: int,
) -> Seq<ObjectView>
    recommends
        0 <= id < objects.len(),
{
    let x = objects[id].x + dx;
    let y = objects[id].y + dy;
    if spec_is_blocked(map, objects, x, y) {
        objects
    } else {
        objects.update(id, ObjectView { x, y, ..objects[id] })
    }
}

/// Whether the cell `(x, y)` is closed to movement.
pub fn is_blocked(x: i32, y: i32, map: &Grid, objects: &[Object]) -> (blocked: bool)
    requires
        map.wf(),
        map.spec_in_bounds(x as int, y as int),
    ensures
        blocked == spec_is_blocked(map, object_views(objects@), x as int, y as int),
{
    // First, test the map tile.
    if map.tile(x, y).blocked {
        return true;
    }
    // Now, check for any blocking objects.
    let ghost views = object_views(objects@);
    let mut i: usize = 0;
    while i < objects.len()
        invariant
            0 <= i <= objects@.len(),
            views == object_views(objects@),
            forall|j: int| 0 <= j < i ==> !occupies(#[trigger] views[j], x as int, y as int),
        decreases objects@.len() - i,
    {
        let object = &objects[i];
        if object.blocks && object.x == x && object.y == y {
            assert(occupies(views[i as int], x as int, y as int));
            return true;
        }
        i = i + 1;
    }
    false
}

/// Moves object `id` by the given amount, unless the target cell is
/// closed to movement.
pub fn move_by(id: usize, dx: i32, dy: i32, map: &Grid, objects: &mut [Object])
    requires
        id < old(objects)@.len(),
        map.wf(),
        map.spec_in_bounds(old(objects)@[id as int].x + dx, old(objects)@[id as int].y + dy),
    ensures
        object_views(final(objects)@) == spec_move_by(
            map,
            object_views(old(objects)@),
            id as int,
            dx as int,
            dy as int,
        ),
{
    let (x, y) = objects[id].pos();
    if !is_blocked(x + dx, y + dy, map, objects) {
        objects[id].set_pos(x + dx, y + dy);
    }
}

/// Mutably borrows two separate elements of a slice.
pub fn mut_two<T>(first_index: usize, second_index: usize, items: &mut [T]) -> (pair: (
    &mut T,
    &mut T,
))
    requires
        first_index != second_index,
        first_index < old(items)@.len(),
        second_index < old(items)@.len(),
    ensures
        *pair.0 == old(items)@[first_index as int],
        *pair.1 == old(items)@[second_index as int],
        final(items)@ == old(items)@.update(first_index as int, *final(pair.0)).update(
            second_index as int,
            *final(pair.1),
        ),
{
    let split_at_index = if first_index > second_index {
        first_index
    } else {
        second_index
    };
    let (first_slice, second_slice) = items.split_at_mut(split_at_index);
    if first_index < second_index {
        (&mut first_slice[first_index], &mut second_slice[0])
    } else {
        (&mut second_slice[0], &mut first_slice[second_index])
    }
}

} // verus!
