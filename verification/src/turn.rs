//! A whole turn: the player acts, then every monster acts, in the order
//! of the table.

use crate::ai::{
    ai_plan, ai_take_turn, ai_turn_allowed, spec_ai_take_turn, spec_step_towards, AiPlan,
};
use crate::fov::FovMap;
use crate::grid::Grid;
use crate::object::{event_views, Event, EventView, Object, ObjectView};
use crate::player::{
    handle_keys, intent_action, intent_step, player_move_allowed, spec_handle_keys, spec_target,
    Intent, PlayerAction,
};
use crate::world::{object_views, spec_move_by, Game, PLAYER};
use vstd::prelude::*;

verus! {

/// Whether the combat values of `object` are such that no attack can
/// leave the range of the hit points' type: power and defence are
/// moderate, and a living fighter has hit points left.
pub open spec fn fighter_in_range(object: ObjectView) -> bool {
    object.fighter matches Some(f) ==> {
        &&& -0x4000_0000 <= f.power < 0x4000_0000
        &&& -0x4000_0000 <= f.defence < 0x4000_0000
        &&& object.alive ==> f.hp > 0
    }
}

/// Whether `object`, at index `i` of the table, is in a state that a turn
/// can start from: it stands on the grid, on an open tile if it is the
/// player or acts by itself, and its combat values are in range.
pub open spec fn object_ready(map: &Grid, object: ObjectView, i: int) -> bool {
    &&& map.spec_in_bounds(object.x, object.y)
    &&& (i == 0 || object.ai is Some) ==> !map.spec_tile(object.x, object.y).blocked
    &&& fighter_in_range(object)
}

/// The state that every turn starts from and ends in: the grid is
/// enclosed by blocked tiles, the player exists and does not act by
/// itself, and every object is ready.
pub open spec fn world_ready(map: &Grid, objects: Seq<ObjectView>) -> bool {
    &&& map.wf()
    &&& map.enclosed()
    &&& objects.len() > 0
    &&& objects[0].ai is None
    &&& forall|i: int| 0 <= i < objects.len() ==> object_ready(map, #[trigger] objects[i], i)
}

/// Whether `fov` has the size of `map`.
pub open spec fn fov_fits(fov: &FovMap, map: &Grid) -> bool {
    &&& fov.wf()
    &&& fov.spec_width() == map.spec_width()
    &&& fov.spec_height() == map.spec_height()
}

/// The table and the events after the objects at the indices below
/// `upto` have had their turn, in the order of the table. An object acts
/// if it carries an AI when its turn comes, whatever else is true of it.
pub open spec fn spec_ai_turns(
    fov: &FovMap,
    map: &Grid,
    objects: Seq<ObjectView>,
    upto: nat,
) -> (Seq<ObjectView>, Seq<EventView>)
    decreases upto,
{
    if upto == 0 {
        (objects, Seq::empty())
    } else {
        let (before, earlier) = spec_ai_turns(fov, map, objects, (upto - 1) as nat);
        if upto - 1 < before.len() && before[upto - 1].ai is Some {
            let (after, events) = spec_ai_take_turn(fov, map, before, upto - 1);
            (after, earlier + events)
        } else {
            (before, earlier)
        }
    }
}

/// The table and the events after a whole turn. The player acts first.
/// If that took a turn and the player is alive after it, every object
/// that carries an AI acts, in the order of the table.
pub open spec fn spec_play_turn(
    fov: &FovMap,
    map: &Grid,
    objects: Seq<ObjectView>,
    intent: Intent,
) -> (Seq<ObjectView>, Seq<EventView>)
    recommends
        objects.len() > 0,
{
    let (moved, first) = spec_handle_keys(map, objects, intent);
    if intent_action(intent) == PlayerAction::TookTurn && moved[0].alive {
        let (after, rest) = spec_ai_turns(fov, map, moved, moved.len());
        (after, first + rest)
    } else {
        (moved, first)
    }
}

/// A step of a ready object by at most one cell per axis looks at a cell
/// of the grid, and leaves the world ready.
pub proof fn lemma_move_keeps_world_ready(
    map: &Grid,
    objects: Seq<ObjectView>,
    id: int,
    dx: int,
    dy: int,
)
    requires
        world_ready(map, objects),
        0 <= id < objects.len(),
        id == 0 || objects[id].ai is Some,
        -1 <= dx <= 1,
        -1 <= dy <= 1,
    ensures
        map.spec_in_bounds(objects[id].x + dx, objects[id].y + dy),
        world_ready(map, spec_move_by(map, objects, id, dx, dy)),
        spec_move_by(map, objects, id, dx, dy).len() == objects.len(),
{
    // The object stands on an open tile, and the border is blocked: it
    // stands off the border, so that all the cells around it are cells of
    // the grid. Where it moves, it moves onto an open tile.
}

/// An attack between two ready objects stays in range.
pub proof fn lemma_ready_objects_can_attack(attacker: ObjectView, target: ObjectView)
    requires
        fighter_in_range(attacker),
        fighter_in_range(target),
    ensures
        attacker.can_attack(target),
{
}

/// An attack on a ready object leaves it ready, where it stood, and gives
/// it no AI that it did not have.
pub proof fn lemma_attack_keeps_object_ready(
    map: &Grid,
    attacker: ObjectView,
    target: ObjectView,
    i: int,
)
    requires
        object_ready(map, target, i),
    ensures
        object_ready(map, target.attacked_by(attacker), i),
        target.ai is None ==> target.attacked_by(attacker).ai is None,
{
}

/// The turn of a monster can always be taken in a ready world, and
/// leaves the world ready.
pub proof fn lemma_ai_turn_keeps_world_ready(
    fov: &FovMap,
    map: &Grid,
    objects: Seq<ObjectView>,
    id: int,
)
    requires
        world_ready(map, objects),
        fov_fits(fov, map),
        0 <= id < objects.len(),
        objects[id].ai is Some,
    ensures
        ai_turn_allowed(fov, map, objects, id),
        world_ready(map, spec_ai_take_turn(fov, map, objects, id).0),
        spec_ai_take_turn(fov, map, objects, id).0.len() == objects.len(),
{
    match ai_plan(fov, objects, id) {
        AiPlan::Rest => {},
        AiPlan::Approach => {
            let step = spec_step_towards(
                objects[id].x,
                objects[id].y,
                objects[0].x,
                objects[0].y,
            );
            lemma_move_keeps_world_ready(map, objects, id, step.0, step.1);
        },
        AiPlan::Strike => {
            lemma_ready_objects_can_attack(objects[id], objects[0]);
            lemma_attack_keeps_object_ready(map, objects[id], objects[0], 0);
        },
    }
}

/// Every intent can be acted on in a ready world, and leaves the world
/// ready.
pub proof fn lemma_player_keeps_world_ready(map: &Grid, objects: Seq<ObjectView>, intent: Intent)
    requires
        world_ready(map, objects),
    ensures
        intent_step(intent) matches Some(step) ==> player_move_allowed(
            map,
            objects,
            step.0,
            step.1,
        ),
        world_ready(map, spec_handle_keys(map, objects, intent).0),
        spec_handle_keys(map, objects, intent).0.len() == objects.len(),
{
    match intent_step(intent) {
        Some((dx, dy)) => {
            lemma_move_keeps_world_ready(map, objects, 0, dx, dy);
            match spec_target(objects, objects[0].x + dx, objects[0].y + dy) {
                Some(t) => {
                    // The target stands one step away: it is not the player.
                    lemma_ready_objects_can_attack(objects[0], objects[t]);
                    lemma_attack_keeps_object_ready(map, objects[0], objects[t], t);
                },
                None => {},
            }
        },
        None => {},
    }
}

/// The monsters' part of a turn leaves the world ready.
pub proof fn lemma_ai_turns_keep_world_ready(
    fov: &FovMap,
    map: &Grid,
    objects: Seq<ObjectView>,
    upto: nat,
)
    requires
        world_ready(map, objects),
        fov_fits(fov, map),
    ensures
        world_ready(map, spec_ai_turns(fov, map, objects, upto).0),
        spec_ai_turns(fov, map, objects, upto).0.len() == objects.len(),
    decreases upto,
{
    if upto > 0 {
        lemma_ai_turns_keep_world_ready(fov, map, objects, (upto - 1) as nat);
        let before = spec_ai_turns(fov, map, objects, (upto - 1) as nat).0;
        if upto - 1 < before.len() && before[upto - 1].ai is Some {
            lemma_ai_turn_keeps_world_ready(fov, map, before, upto - 1);
        }
    }
}

/// A whole turn leaves the world ready: nothing has left the grid, no
/// walker stands in a wall, and every living fighter has hit points.
pub proof fn lemma_turn_keeps_world_ready(
    fov: &FovMap,
    map: &Grid,
    objects: Seq<ObjectView>,
    intent: Intent,
)
    requires
        world_ready(map, objects),
        fov_fits(fov, map),
    ensures
        world_ready(map, spec_play_turn(fov, map, objects, intent).0),
        spec_play_turn(fov, map, objects, intent).0.len() == objects.len(),
{
    lemma_player_keeps_world_ready(map, objects, intent);
    let moved = spec_handle_keys(map, objects, intent).0;
    lemma_ai_turns_keep_world_ready(fov, map, moved, moved.len());
}

/// Whether `object`, at index `i` of the table, is ready.
fn is_object_ready(map: &Grid, object: &Object, i: usize) -> (b: bool)
    requires
        map.wf(),
    ensures
        b == object_ready(map, object@, i as int),
{
    if !map.in_bounds(object.x, object.y) {
        return false;
    }
    if (i == 0 || object.ai.is_some()) && map.tile(object.x, object.y).blocked {
        return false;
    }
    is_fighter_in_range(object)
}

/// Whether the combat values of `object` are in range.
pub fn is_fighter_in_range(object: &Object) -> (b: bool)
    ensures
        b == fighter_in_range(object@),
{
    match object.fighter {
        Some(f) => {
            -0x4000_0000 <= f.power && f.power < 0x4000_0000 && -0x4000_0000 <= f.defence
                && f.defence < 0x4000_0000 && (!object.alive || f.hp > 0)
        },
        None => true,
    }
}

/// Whether the world is ready for a turn.
pub fn is_world_ready(map: &Grid, objects: &[Object]) -> (b: bool)
    requires
        map.wf(),
    ensures
        b == world_ready(map, object_views(objects@)),
{
    if objects.len() == 0 || objects[0].ai.is_some() || !map.is_enclosed() {
        return false;
    }
    let ghost views = object_views(objects@);
    let mut i: usize = 0;
    while i < objects.len()
        invariant
            0 <= i <= objects@.len(),
            map.wf(),
            views == object_views(objects@),
            forall|j: int| 0 <= j < i ==> object_ready(map, #[trigger] views[j], j),
        decreases objects@.len() - i,
    {
        if !is_object_ready(map, &objects[i], i) {
            assert(!object_ready(map, views[i as int], i as int));
            return false;
        }
        i = i + 1;
    }
    true
}

/// Lets every object that carries an AI take its turn, in the order of
/// the table.
pub fn ai_turns(fov: &FovMap, game: &Game, objects: &mut [Object]) -> (events: Vec<Event>)
    requires
        world_ready(&game.map, object_views(old(objects)@)),
        fov_fits(fov, &game.map),
    ensures
        (object_views(final(objects)@), event_views(events@)) == spec_ai_turns(
            fov,
            &game.map,
            object_views(old(objects)@),
            old(objects)@.len(),
        ),
        world_ready(&game.map, object_views(final(objects)@)),
{
    let ghost start = object_views(objects@);
    let mut events: Vec<Event> = Vec::new();
    let count = objects.len();
    let mut id: usize = 0;
    while id < count
        invariant
            0 <= id <= count,
            count == objects@.len() == start.len(),
            fov_fits(fov, &game.map),
            world_ready(&game.map, start),
            world_ready(&game.map, object_views(objects@)),
            (object_views(objects@), event_views(events@)) == spec_ai_turns(
                fov,
                &game.map,
                start,
                id as nat,
            ),
        decreases count - id,
    {
        let ghost before = object_views(objects@);
        if objects[id].ai.is_some() {
            proof {
                lemma_ai_turn_keeps_world_ready(fov, &game.map, before, id as int);
            }
            let mut more = ai_take_turn(id, fov, game, objects);
            events.append(&mut more);
        }
        id = id + 1;
    }
    events
}

/// Plays one turn: the player acts on `intent`; if that took a turn and
/// the player is alive, the monsters act. Returns what the intent came
/// to and what happened, in order.
pub fn play_turn(intent: Intent, fov: &FovMap, game: &Game, objects: &mut [Object]) -> (outcome: (
    PlayerAction,
    Vec<Event>,
))
    requires
        world_ready(&game.map, object_views(old(objects)@)),
        fov_fits(fov, &game.map),
    ensures
        outcome.0 == intent_action(intent),
        (object_views(final(objects)@), event_views(outcome.1@)) == spec_play_turn(
            fov,
            &game.map,
            object_views(old(objects)@),
            intent,
        ),
        world_ready(&game.map, object_views(final(objects)@)),
{
    proof {
        lemma_player_keeps_world_ready(&game.map, object_views(objects@), intent);
    }
    let (action, mut events) = handle_keys(intent, game, objects);
    // Let monsters take their turn.
    if objects[PLAYER].alive && action == PlayerAction::TookTurn {
        let mut more = ai_turns(fov, game, objects);
        events.append(&mut more);
    }
    (action, events)
}

} // verus!
