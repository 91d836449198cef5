//! The player's part of a turn: what an intent does to the world.

use crate::grid::Grid;
use crate::object::{event_views, Event, EventView, Object, ObjectView};
use crate::world::{move_by, mut_two, object_views, spec_move_by, Game, PLAYER};
use vstd::prelude::*;

verus! {

/// What the player's input came to.
#[derive(Clone, Copy, Debug, PartialEq, Eq, Structural)]
pub enum PlayerAction {
    TookTurn,
    DidntTakeTurn,
    Exit,
}

/// A decoded input.
#[derive(Clone, Copy, Debug, PartialEq, Eq, Structural)]
pub enum Intent {
    ToggleFullscreen,
    Exit,
    MoveUp,
    MoveDown,
    MoveLeft,
    MoveRight,
    /// Any input that means nothing to the game.
    Idle,
}

/// Whether `object` can be attacked on the cell `(x, y)`: it stands there
/// and it can fight.
pub open spec fn fights_at(object: ObjectView, x: int, y: int) -> bool {
    object.fighter is Some && object.x == x && object.y == y
}

/// Whether `i` is the first index in the table whose object can be
/// attacked on `(x, y)`.
pub open spec fn is_first_fighter_at(objects: Seq<ObjectView>, x: int, y: int, i: int) -> bool {
    &&& 0 <= i < objects.len()
    &&& fights_at(objects[i], x, y)
    &&& forall|j: int| 0 <= j < i ==> !fights_at(#[trigger] objects[j], x, y)
}

/// The target of an attack on the cell `(x, y)`: the first object in the
/// table that can be attacked there, if there is one.
pub open spec fn spec_target(objects: Seq<ObjectView>, x: int, y: int) -> Option<int> {
    if exists|i: int| is_first_fighter_at(objects, x, y, i) {
        Some(choose|i: int| is_first_fighter_at(objects, x, y, i))
    } else {
        None
    }
}

/// The table and the events after the player has moved or attacked in
/// the direction `(dx, dy)`. If an object that can fight stands on the
/// target cell, the player attacks it; otherwise the player moves there
/// if the cell is open, and nothing changes if it is not.
pub open spec fn spec_player_move_or_attack(
    map: &Grid,
    objects: Seq<ObjectView>,
    dx: int,
    dy: int,
) -> (Seq<ObjectView>, Seq<EventView>)
    recommends
        objects.len() > 0,
{
    let x = objects[0].x + dx;
    let y = objects[0].y + dy;
    match spec_target(objects, x, y) {
        Some(t) => (
            objects.update(t, objects[t].attacked_by(objects[0])),
            objects[0].attack_events(objects[t]),
        ),
        None => (spec_move_by(map, objects, 0, dx, dy), Seq::empty()),
    }
}

/// Whether the player may move or attack in the direction `(dx, dy)`:
/// the target cell can be named, the player does not attack itself, the
/// arithmetic of an attack stays in range, and a move looks at a cell of
/// the grid.
pub open spec fn player_move_allowed(map: &Grid, objects: Seq<ObjectView>, dx: int, dy: int) -> bool
    recommends
        objects.len() > 0,
{
    let x = objects[0].x + dx;
    let y = objects[0].y + dy;
    &&& i32::MIN <= x <= i32::MAX
    &&& i32::MIN <= y <= i32::MAX
    &&& match spec_target(objects, x, y) {
        Some(t) => t != 0 && objects[0].can_attack(objects[t]),
        None => map.spec_in_bounds(x, y),
    }
}

/// The step on the grid that `intent` asks for, if it asks for one.
pub open spec fn intent_step(intent: Intent) -> Option<(int, int)> {
    match intent {
        Intent::MoveUp => Some((0, -1)),
        Intent::MoveDown => Some((0, 1)),
        Intent::MoveLeft => Some((-1, 0)),
        Intent::MoveRight => Some((1, 0)),
        _ => None,
    }
}

/// What `intent` comes to: leaving the game, a turn taken, or neither.
pub open spec fn intent_action(intent: Intent) -> PlayerAction {
    match intent {
        Intent::Exit => PlayerAction::Exit,
        Intent::MoveUp | Intent::MoveDown | Intent::MoveLeft | Intent::MoveRight => {
            PlayerAction::TookTurn
        },
        Intent::ToggleFullscreen | Intent::Idle => PlayerAction::DidntTakeTurn,
    }
}

/// The table and the events after the player has acted on `intent`.
pub open spec fn spec_handle_keys(map: &Grid, objects: Seq<ObjectView>, intent: Intent) -> (
    Seq<ObjectView>,
    Seq<EventView>,
)
    recommends
        objects.len() > 0,
{
    match intent_step(intent) {
        Some((dx, dy)) => spec_player_move_or_attack(map, objects, dx, dy),
        None => (objects, Seq::empty()),
    }
}

/// The index of the first object that can be attacked on `(x, y)`.
pub fn find_target(x: i32, y: i32, objects: &[Object]) -> (target: Option<usize>)
    ensures
        match target {
            Some(t) => spec_target(object_views(objects@), x as int, y as int) == Some(t as int),
            None => spec_target(object_views(objects@), x as int, y as int) is None,
        },
        target matches Some(t) ==> t < objects@.len(),
{
    let ghost views = object_views(objects@);
    let mut i: usize = 0;
    while i < objects.len()
        invariant
            0 <= i <= objects@.len(),
            views == object_views(objects@),
            forall|j: int| 0 <= j < i ==> !fights_at(#[trigger] views[j], x as int, y as int),
        decreases objects@.len() - i,
    {
        let object = &objects[i];
        if object.fighter.is_some() && object.x == x && object.y == y {
            assert(is_first_fighter_at(views, x as int, y as int, i as int));
            return Some(i);
        }
        i = i + 1;
    }
    None
}

/// Moves the player by `(dx, dy)`, or attacks what stands there.
pub fn player_move_or_attack(dx: i32, dy: i32, game: &Game, objects: &mut [Object]) -> (events:
    Vec<Event>)
    requires
        old(objects)@.len() > 0,
        game.map.wf(),
        player_move_allowed(&game.map, object_views(old(objects)@), dx as int, dy as int),
    ensures
        (object_views(final(objects)@), event_views(events@)) == spec_player_move_or_attack(
            &game.map,
            object_views(old(objects)@),
            dx as int,
            dy as int,
        ),
{
    // The coordinates the player is moving to or attacking.
    let x = objects[PLAYER].x + dx;
    let y = objects[PLAYER].y + dy;

    // Try to find an attackable target there.
    let target_id = find_target(x, y, objects);

    // Attack if a target is found, move otherwise.
    match target_id {
        Some(target_id) => {
            let (player, target) = mut_two(PLAYER, target_id, objects);
            let events = player.attack(target);
            events
        },
        None => {
            move_by(PLAYER, dx, dy, &game.map, objects);
            let events: Vec<Event> = Vec::new();
            events
        },
    }
}

/// Acts on the player's intent and says what it came to. Only a movement
/// intent changes the world; it always counts as a turn taken.
pub fn handle_keys(intent: Intent, game: &Game, objects: &mut [Object]) -> (outcome: (
    PlayerAction,
    Vec<Event>,
))
    requires
        old(objects)@.len() > 0,
        game.map.wf(),
        intent_step(intent) matches Some(step) ==> player_move_allowed(
            &game.map,
            object_views(old(objects)@),
            step.0,
            step.1,
        ),
    ensures
        outcome.0 == intent_action(intent),
        (object_views(final(objects)@), event_views(outcome.1@)) == spec_handle_keys(
            &game.map,
            object_views(old(objects)@),
            intent,
        ),
{
    match intent {
        Intent::ToggleFullscreen => (PlayerAction::DidntTakeTurn, no_events()),
        Intent::Exit => (PlayerAction::Exit, no_events()),
        Intent::MoveUp => {
            let events = player_move_or_attack(0, -1, game, objects);
            (PlayerAction::TookTurn, events)
        },
        Intent::MoveDown => {
            let events = player_move_or_attack(0, 1, game, objects);
            (PlayerAction::TookTurn, events)
        },
        Intent::MoveLeft => {
            let events = player_move_or_attack(-1, 0, game, objects);
            (PlayerAction::TookTurn, events)
        },
        Intent::MoveRight => {
            let events = player_move_or_attack(1, 0, game, objects);
            (PlayerAction::TookTurn, events)
        },
        Intent::Idle => (PlayerAction::DidntTakeTurn, no_events()),
    }
}

/// An empty list of events.
fn no_events() -> (events: Vec<Event>)
    ensures
        event_views(events@) == Seq::<EventView>::empty(),
{
    let events: Vec<Event> = Vec::new();
    events
}

} // verus!
