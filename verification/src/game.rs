//! Setting a game up: a level is generated around the objects that come
//! in, and the field-of-view map is built from it.

use crate::dungeon::{
    floor_in_one_piece, lemma_generated_world_ready, make_map, monsters_grouped, objects_settled,
    rooms_apart, rooms_carved, rooms_fit, DungeonParams,
};
use crate::fov::FovMap;
use crate::object::{Object, ObjectView};
use crate::rect::Rect;
use crate::turn::{fighter_in_range, fov_fits, is_fighter_in_range, world_ready};
use crate::world::{object_views, Game};
use rand::rngs::StdRng;
use vstd::prelude::*;

verus! {

/// Whether `object` can come into a game on a grid of the given size as
/// something that stands about: it is on the grid, it does not act by
/// itself, and its combat values are in range.
pub open spec fn can_stand_about(object: ObjectView, width: int, height: int) -> bool {
    &&& 0 <= object.x < width
    &&& 0 <= object.y < height
    &&& object.ai is None
    &&& fighter_in_range(object)
}

/// Whether a game can start from these parameters and objects: a level
/// with at least one room can be generated, the first object can be the
/// player, wherever it stands, and the others can stand about.
pub open spec fn can_start(params: DungeonParams, objects: Seq<ObjectView>) -> bool {
    &&& params.valid()
    &&& params.max_rooms > 0
    &&& objects.len() > 0
    &&& objects[0].ai is None
    &&& fighter_in_range(objects[0])
    &&& forall|i: int|
        0 < i < objects.len() ==> can_stand_about(
            #[trigger] objects[i],
            params.width as int,
            params.height as int,
        )
}

/// Whether a game can start from these parameters and objects.
pub fn is_startable(params: DungeonParams, objects: &[Object]) -> (b: bool)
    ensures
        b == can_start(params, object_views(objects@)),
{
    if !params.is_valid() || params.max_rooms <= 0 || objects.len() == 0 {
        return false;
    }
    if objects[0].ai.is_some() || !is_fighter_in_range(&objects[0]) {
        return false;
    }
    let ghost views = object_views(objects@);
    let mut i: usize = 1;
    while i < objects.len()
        invariant
            1 <= i <= objects@.len(),
            views == object_views(objects@),
            forall|j: int|
                0 < j < i ==> can_stand_about(
                    #[trigger] views[j],
                    params.width as int,
                    params.height as int,
                ),
        decreases objects@.len() - i,
    {
        let o = &objects[i];
        let stands = 0 <= o.x && o.x < params.width && 0 <= o.y && o.y < params.height
            && o.ai.is_none() && is_fighter_in_range(o);
        if !stands {
            assert(!can_stand_about(views[i as int], params.width as int, params.height as int));
            return false;
        }
        i = i + 1;
    }
    true
}

/// Starts a game, if one can start from these parameters and objects: a
/// level is generated, the player is put at the centre of its first room
/// and the monsters behind the objects that came in, and the
/// field-of-view map is built from the level, with nothing lit yet. The
/// world is then ready for its first turn. Where no game can start,
/// nothing happens.
pub fn new_game(objects: &mut Vec<Object>, params: DungeonParams, rng: &mut StdRng) -> (game:
    Option<(Game, FovMap)>)
    ensures
        game is Some <==> can_start(params, object_views(old(objects)@)),
        game is None ==> final(objects)@ == old(objects)@,
        game matches Some((g, fov)) ==> {
            &&& g.map.spec_width() == params.width
            &&& g.map.spec_height() == params.height
            &&& world_ready(&g.map, object_views(final(objects)@))
            &&& fov_fits(&fov, &g.map)
            &&& fov.describes(&g.map)
            &&& forall|x: int, y: int| #![trigger fov.spec_is_in_fov(x, y)]
                fov.spec_in_bounds(x, y) ==> !fov.spec_is_in_fov(x, y)
            &&& exists|rooms: Seq<Rect>|
                {
                    &&& 0 < rooms.len() <= params.max_rooms
                    &&& rooms_fit(rooms, params)
                    &&& rooms_apart(rooms)
                    &&& rooms_carved(&g.map, rooms)
                    &&& floor_in_one_piece(&g.map, rooms)
                    &&& #[trigger] objects_settled(
                        rooms,
                        object_views(old(objects)@),
                        object_views(final(objects)@),
                        params.max_monsters as int,
                    )
                    &&& monsters_grouped(
                        rooms,
                        old(objects)@.len() as int,
                        object_views(final(objects)@),
                        params.max_monsters as int,
                    )
                }
        },
{
    if !is_startable(params, objects.as_slice()) {
        return None;
    }
    let ghost before = object_views(objects@);
    let (map, rooms) = make_map(objects, params, rng);
    proof {
        lemma_generated_world_ready(params, &map, rooms@, before, object_views(objects@));
    }
    let fov = FovMap::build(&map);
    Some((Game { map }, fov))
}

} // verus!
