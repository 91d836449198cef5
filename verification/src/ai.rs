//! What a monster does when it is its turn.

use crate::fov::FovMap;
use crate::grid::Grid;
use crate::object::{event_views, Event, EventView, Object, ObjectView};
use crate::world::{move_by, mut_two, object_views, spec_move_by, Game, PLAYER};
use vstd::prelude::*;

verus! {

/// The square of the distance between two objects.
pub open spec fn distance_squared(a: ObjectView, b: ObjectView) -> int {
    (b.x - a.x) * (b.x - a.x) + (b.y - a.y) * (b.y - a.y)
}

/// One component of the vector `(a, b)` after the vector has been scaled
/// to length one and the component rounded to the nearest integer: the
/// sign of `a` where `a` is more than half as long as the vector, and 0
/// elsewhere.
pub open spec fn spec_unit_component(a: int, b: int) -> int {
    if 4 * (a * a) > a * a + b * b {
        if a > 0 {
            1
        } else {
            -1
        }
    } else {
        0
    }
}

/// The step of at most one cell per axis that leads from `(x, y)`
/// towards `(target_x, target_y)`.
pub open spec fn spec_step_towards(x: int, y: int, target_x: int, target_y: int) -> (int, int) {
    (
        spec_unit_component(target_x - x, target_y - y),
        spec_unit_component(target_y - y, target_x - x),
    )
}

/// The table after object `id` has tried to move one step towards
/// `(target_x, target_y)`.
pub open spec fn spec_move_towards(
    map: &Grid,
    objects: Seq<ObjectView>,
    id: int,
    target_x: int,
    target_y: int,
) -> Seq<ObjectView>
    recommends
        0 <= id < objects.len(),
{
    let step = spec_step_towards(objects[id].x, objects[id].y, target_x, target_y);
    spec_move_by(map, objects, id, step.0, step.1)
}

/// What a monster has decided to do.
#[derive(Clone, Copy, Debug, PartialEq, Eq, Structural)]
pub enum AiPlan {
    /// Stay where it is.
    Rest,
    /// Move one step towards the player.
    Approach,
    /// Attack the player.
    Strike,
}

/// Whether the player can still be fought: it has hit points left.
pub open spec fn player_stands(player: ObjectView) -> bool {
    player.fighter matches Some(f) && f.hp > 0
}

/// The decision of the basic monster at index `id`. A monster that the
/// player cannot see rests: if you can see it, it can see you. A monster
/// in sight approaches while its distance to the player is 2 or more;
/// nearer than that it strikes, as long as the player stands.
pub open spec fn ai_plan(fov: &FovMap, objects: Seq<ObjectView>, id: int) -> AiPlan
    recommends
        0 <= id < objects.len(),
{
    if !fov.spec_is_in_fov(objects[id].x, objects[id].y) {
        AiPlan::Rest
    } else if distance_squared(objects[id], objects[0]) >= 4 {
        AiPlan::Approach
    } else if player_stands(objects[0]) {
        AiPlan::Strike
    } else {
        AiPlan::Rest
    }
}

/// The table and the events after the monster at index `id` has taken
/// its turn.
pub open spec fn spec_ai_take_turn(
    fov: &FovMap,
    map: &Grid,
    objects: Seq<ObjectView>,
    id: int,
) -> (Seq<ObjectView>, Seq<EventView>)
    recommends
        0 <= id < objects.len(),
{
    match ai_plan(fov, objects, id) {
        AiPlan::Rest => (objects, Seq::empty()),
        AiPlan::Approach => (
            spec_move_towards(map, objects, id, objects[0].x, objects[0].y),
            Seq::empty(),
        ),
        AiPlan::Strike => (
            objects.update(0, objects[0].attacked_by(objects[id])),
            objects[id].attack_events(objects[0]),
        ),
    }
}

/// Whether the monster at index `id` may take its turn: it stands on a
/// cell of the field-of-view map, a step looks at a cell of the grid, and
/// a strike comes from another object than the player, with arithmetic
/// that stays in range.
pub open spec fn ai_turn_allowed(
    fov: &FovMap,
    map: &Grid,
    objects: Seq<ObjectView>,
    id: int,
) -> bool
    recommends
        0 <= id < objects.len(),
{
    &&& fov.spec_in_bounds(objects[id].x, objects[id].y)
    &&& match ai_plan(fov, objects, id) {
        AiPlan::Rest => true,
        AiPlan::Approach => {
            let step = spec_step_towards(
                objects[id].x,
                objects[id].y,
                objects[0].x,
                objects[0].y,
            );
            map.spec_in_bounds(objects[id].x + step.0, objects[id].y + step.1)
        },
        AiPlan::Strike => id != 0 && objects[id].can_attack(objects[0]),
    }
}

/// A step is at most one cell long on each axis and never leads away from
/// the target: movement goes in one of eight directions, or nowhere.
pub proof fn lemma_step_is_one_cell(a: int, b: int)
    ensures
        -1 <= spec_unit_component(a, b) <= 1,
        a > 0 ==> spec_unit_component(a, b) >= 0,
        a < 0 ==> spec_unit_component(a, b) <= 0,
        a == 0 ==> spec_unit_component(a, b) == 0,
{
    if a == 0 {
        assert(a * a == 0 && b * b >= 0) by (nonlinear_arith)
            requires
                a == 0,
        ;
    }
}

/// One component of the step along `(a, b)`: the component `a` of the
/// vector after the vector has been scaled to length one, rounded to the
/// nearest whole number. Both arguments are differences of coordinates.
pub fn unit_component(a: i64, b: i64) -> (step: i32)
    requires
        -0x1_0000_0000 <= a <= 0x1_0000_0000,
        -0x1_0000_0000 <= b <= 0x1_0000_0000,
    ensures
        step == spec_unit_component(a as int, b as int),
{
    let a_squared: i128 = square(a);
    let b_squared: i128 = square(b);
    if 4 * a_squared > a_squared + b_squared {
        if a > 0 {
            1
        } else {
            -1
        }
    } else {
        0
    }
}

/// The square of `a`.
fn square(a: i64) -> (s: i128)
    requires
        -0x1_0000_0000 <= a <= 0x1_0000_0000,
    ensures
        s == a * a,
        0 <= s <= 0x1_0000_0000_0000_0000,
{
    assert(0 <= a * a <= 0x1_0000_0000 * 0x1_0000_0000) by (nonlinear_arith)
        requires
            -0x1_0000_0000 <= a <= 0x1_0000_0000,
    ;
    (a as i128) * (a as i128)
}

/// Moves object `id` one step towards `(target_x, target_y)`, unless the
/// cell it would step on is closed to movement.
pub fn move_towards(id: usize, target_x: i32, target_y: i32, map: &Grid, objects: &mut [Object])
    requires
        id < old(objects)@.len(),
        map.wf(),
        ({
            let from = old(objects)@[id as int]@;
            let step = spec_step_towards(from.x, from.y, target_x as int, target_y as int);
            map.spec_in_bounds(from.x + step.0, from.y + step.1)
        }),
    ensures
        object_views(final(objects)@) == spec_move_towards(
            map,
            object_views(old(objects)@),
            id as int,
            target_x as int,
            target_y as int,
        ),
{
    // Vector from this object to the target.
    let dx: i64 = target_x as i64 - objects[id].x as i64;
    let dy: i64 = target_y as i64 - objects[id].y as i64;

    // Scale it to length 1, keeping its direction, and round it, so that
    // the movement stays on the grid.
    let step_x = unit_component(dx, dy);
    let step_y = unit_component(dy, dx);
    move_by(id, step_x, step_y, map, objects);
}

/// A basic monster takes its turn.
pub fn ai_take_turn(monster_id: usize, fov: &FovMap, game: &Game, objects: &mut [Object]) -> (events:
    Vec<Event>)
    requires
        monster_id < old(objects)@.len(),
        fov.wf(),
        game.map.wf(),
        ai_turn_allowed(fov, &game.map, object_views(old(objects)@), monster_id as int),
    ensures
        (object_views(final(objects)@), event_views(events@)) == spec_ai_take_turn(
            fov,
            &game.map,
            object_views(old(objects)@),
            monster_id as int,
        ),
{
    let mut events: Vec<Event> = Vec::new();
    // If you can see it, it can see you.
    let (monster_x, monster_y) = objects[monster_id].pos();
    if fov.is_in_fov(monster_x, monster_y) {
        if objects[monster_id].distance_squared_to(&objects[PLAYER]) >= 4 {
            // Move towards the player if far away.
            let (player_x, player_y) = objects[PLAYER].pos();
            move_towards(monster_id, player_x, player_y, &game.map, objects);
        } else if player_has_hit_points(&objects[PLAYER]) {
            // Close enough, attack! (if the player is still alive)
            let (monster, player) = mut_two(monster_id, PLAYER, objects);
            events = monster.attack(player);
        }
    }
    events
}

/// Whether the player has hit points left.
fn player_has_hit_points(player: &Object) -> (b: bool)
    ensures
        b == player_stands(player@),
{
    match player.fighter {
        Some(f) => f.hp > 0,
        None => false,
    }
}

} // verus!
