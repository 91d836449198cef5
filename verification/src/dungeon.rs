//! Level generation: rooms, the tunnels that join them, and the monsters
//! that are put into them.

use crate::carve::{add_room, joins, on_tunnels, same_size};
use crate::grid::Grid;
use crate::monster::{is_fresh_monster, orc, spec_orc, spec_troll, troll};
use crate::object::{Object, ObjectView};
use crate::random::{random_bool, random_range, random_ratio};
use crate::reach::{
    all_floor_reachable, lemma_block_reachable, lemma_dig_keeps_floor_reachable,
    lemma_same_floor_same_reach, open_cell, reachable,
};
use crate::rect::{lemma_disjoint_rects_share_no_cell, Rect};
use crate::tile::Tile;
use crate::turn::{fighter_in_range, object_ready, world_ready};
use crate::world::{is_blocked, object_views, occupies, spec_is_blocked, PLAYER};
use rand::rngs::StdRng;
use vstd::prelude::*;

verus! {

/// Whether the object at index `i` of `objects` is a monster that has
/// been put into `room`: a fresh monster inside the room, on a cell that
/// was open to movement when the monster came, the objects before it in
/// the table being the ones that were there then.
pub open spec fn put_into(map: &Grid, room: Rect, objects: Seq<ObjectView>, i: int) -> bool
    recommends
        0 <= i < objects.len(),
{
    &&& is_fresh_monster(objects[i])
    &&& room.interior(objects[i].x, objects[i].y)
    &&& !spec_is_blocked(map, objects.subrange(0, i), objects[i].x, objects[i].y)
}

/// Whether `after` is `before` with at most `max_monsters` monsters put
/// into `room` behind it.
pub open spec fn monsters_placed(
    map: &Grid,
    room: Rect,
    before: Seq<ObjectView>,
    after: Seq<ObjectView>,
    max_monsters: int,
) -> bool {
    &&& before.len() <= after.len() <= before.len() + max_monsters
    &&& after.subrange(0, before.len() as int) == before
    &&& forall|i: int| before.len() <= i < after.len() ==> put_into(map, room, after, i)
}

/// The table after a monster has been drawn for the cell `(x, y)`: where
/// the cell is closed to movement the monster is left out and the table
/// is as it was; elsewhere the monster, an orc or a troll as drawn, comes
/// behind the objects that were there.
pub open spec fn spec_place_monster(
    map: &Grid,
    objects: Seq<ObjectView>,
    x: int,
    y: int,
    is_orc: bool,
) -> Seq<ObjectView>
    recommends
        map.spec_in_bounds(x, y),
{
    if spec_is_blocked(map, objects, x, y) {
        objects
    } else if is_orc {
        objects.push(spec_orc(x, y))
    } else {
        objects.push(spec_troll(x, y))
    }
}

/// Puts the monster that has been drawn on the cell that has been drawn
/// for it, unless that cell is closed to movement: then the monster is
/// left out, and no other cell is tried.
pub fn place_monster(x: i32, y: i32, is_orc: bool, objects: &mut Vec<Object>, map: &Grid)
    requires
        map.wf(),
        map.spec_in_bounds(x as int, y as int),
    ensures
        object_views(final(objects)@) == spec_place_monster(
            map,
            object_views(old(objects)@),
            x as int,
            y as int,
            is_orc,
        ),
{
    if !is_blocked(x, y, map, objects.as_slice()) {
        let monster = if is_orc {
            orc(x, y)
        } else {
            troll(x, y)
        };
        objects.push(monster);
    }
}

/// Puts a random number of monsters, up to `max_monsters`, into `room`.
/// For each of them a cell inside the room and a kind are drawn, four in
/// five an orc and the others a troll, and `place_monster` does the rest:
/// a monster whose cell is closed to movement is left out.
pub fn place_objects(
    room: Rect,
    objects: &mut Vec<Object>,
    map: &Grid,
    max_monsters: i32,
    rng: &mut StdRng,
)
    requires
        map.wf(),
        0 <= max_monsters < i32::MAX,
        max_monsters > 0 ==> room.x1 + 1 < room.x2 && room.y1 + 1 < room.y2,
        forall|x: int, y: int| #[trigger] room.interior(x, y) ==> map.spec_in_bounds(x, y),
    ensures
        monsters_placed(
            map,
            room,
            object_views(old(objects)@),
            object_views(final(objects)@),
            max_monsters as int,
        ),
{
    let ghost before = object_views(objects@);
    // Choose random number of monsters.
    let num_monsters = random_range(rng, 0, max_monsters + 1);

    assert(object_views(objects@).subrange(0, before.len() as int) =~= before);
    let mut n: i32 = 0;
    while n < num_monsters
        invariant
            0 <= n <= num_monsters <= max_monsters,
            map.wf(),
            max_monsters > 0 ==> room.x1 + 1 < room.x2 && room.y1 + 1 < room.y2,
            forall|x: int, y: int| #[trigger] room.interior(x, y) ==> map.spec_in_bounds(x, y),
            monsters_placed(map, room, before, object_views(objects@), n as int),
        decreases num_monsters - n,
    {
        let ghost earlier = object_views(objects@);
        // Choose random spot for the monster.
        let x = random_range(rng, room.x1 + 1, room.x2);
        let y = random_range(rng, room.y1 + 1, room.y2);
        assert(room.interior(x as int, y as int));

        // 80% chance of getting an orc.
        let is_orc = random_ratio(rng, 4, 5);
        place_monster(x, y, is_orc, objects, map);
        proof {
            let now = object_views(objects@);
            assert(now.subrange(0, before.len() as int) =~= before);
            assert forall|i: int| before.len() <= i < now.len() implies put_into(
                map,
                room,
                now,
                i,
            ) by {
                if i < earlier.len() {
                    assert(put_into(map, room, earlier, i));
                    assert(now.subrange(0, i) =~= earlier.subrange(0, i));
                } else {
                    assert(now.subrange(0, i) =~= earlier);
                }
            }
        }
        n = n + 1;
    }
}

/// The parameters of level generation.
#[derive(Clone, Copy, Debug, PartialEq, Eq, Structural)]
pub struct DungeonParams {
    /// The width of the grid.
    pub width: i32,
    /// The height of the grid.
    pub height: i32,
    /// How many rooms are tried.
    pub max_rooms: i32,
    /// The least width and height of a room.
    pub min_size: i32,
    /// The greatest width and height of a room.
    pub max_size: i32,
    /// The greatest number of monsters in a room.
    pub max_monsters: i32,
}

impl DungeonParams {
    /// Whether a level can be generated from these parameters: a room has
    /// an inside, the largest room leaves a wall around it, and the number
    /// of monsters can be drawn.
    pub open spec fn valid(self) -> bool {
        &&& 2 <= self.min_size <= self.max_size
        &&& self.max_size < self.width
        &&& self.max_size < self.height
        &&& 0 <= self.max_monsters < i32::MAX
    }

    /// Whether a level can be generated from these parameters.
    pub fn is_valid(&self) -> (b: bool)
        ensures
            b == self.valid(),
    {
        2 <= self.min_size && self.min_size <= self.max_size && self.max_size < self.width
            && self.max_size < self.height && 0 <= self.max_monsters && self.max_monsters
            < i32::MAX
    }

    /// The parameters of the standard dungeon.
    pub fn standard() -> (params: DungeonParams)
        ensures
            params == (DungeonParams {
                width: 80,
                height: 43,
                max_rooms: 30,
                min_size: 6,
                max_size: 10,
                max_monsters: 3,
            }),
            params.valid(),
    {
        DungeonParams {
            width: 80,
            height: 43,
            max_rooms: 30,
            min_size: 6,
            max_size: 10,
            max_monsters: 3,
        }
    }
}

/// Whether `room` is a room that the parameters allow: its boundary ring
/// lies on the grid and its sides are of an allowed length.
pub open spec fn room_fits(room: Rect, params: DungeonParams) -> bool {
    &&& 0 <= room.x1
    &&& room.x2 < params.width
    &&& 0 <= room.y1
    &&& room.y2 < params.height
    &&& params.min_size <= room.x2 - room.x1 <= params.max_size
    &&& params.min_size <= room.y2 - room.y1 <= params.max_size
}

/// Whether every room fits the parameters.
pub open spec fn rooms_fit(rooms: Seq<Rect>, params: DungeonParams) -> bool {
    forall|r: int| 0 <= r < rooms.len() ==> room_fits(#[trigger] rooms[r], params)
}

/// Whether no two of the rooms intersect, by the inclusive test: they do
/// not even touch.
pub open spec fn rooms_apart(rooms: Seq<Rect>) -> bool {
    forall|i: int, j: int| #![trigger rooms[i], rooms[j]]
        0 <= i < j < rooms.len() ==> !rooms[i].spec_intersects_with(&rooms[j])
}

/// Whether every cell inside every room is floor.
pub open spec fn rooms_carved(map: &Grid, rooms: Seq<Rect>) -> bool {
    forall|r: int, x: int, y: int| #![trigger rooms[r], map.spec_tile(x, y)]
        0 <= r < rooms.len() && rooms[r].interior(x, y) ==> map.spec_tile(x, y) == Tile::empty()
}

/// Whether every tile of the grid is either a wall or a floor tile that
/// does not lie on the border.
pub open spec fn walls_and_floors(map: &Grid) -> bool {
    forall|x: int, y: int| #![trigger map.spec_tile(x, y)]
        map.spec_in_bounds(x, y) ==> {
            ||| map.spec_tile(x, y) == Tile::wall()
            ||| map.spec_tile(x, y) == Tile::empty() && !map.on_border(x, y)
        }
}

/// Whether the floor is in one piece: every open cell can be reached from
/// the centre of the first room, where the player starts. Without a room
/// there is no floor.
pub open spec fn floor_in_one_piece(map: &Grid, rooms: Seq<Rect>) -> bool {
    if rooms.len() > 0 {
        all_floor_reachable(map, rooms[0].spec_centre())
    } else {
        forall|x: int, y: int| #![trigger map.spec_tile(x, y)]
            map.spec_in_bounds(x, y) ==> map.spec_tile(x, y) == Tile::wall()
    }
}

/// Whether `room` has an inside: at least one cell lies strictly between
/// its bounds.
pub open spec fn has_inside(room: Rect) -> bool {
    room.x1 + 1 < room.x2 && room.y1 + 1 < room.y2
}

/// Whether `(x, y)` lies inside one of the rooms.
pub open spec fn in_some_room(rooms: Seq<Rect>, x: int, y: int) -> bool {
    exists|r: int| 0 <= r < rooms.len() && (#[trigger] rooms[r]).interior(x, y)
}

/// Whether `(x, y)` lies on the tunnels that join one of the rooms to the
/// room before it, centre to centre. For the room at index `i`, the
/// horizontal tunnel comes first if `bends[i - 1]` says so.
pub open spec fn on_some_tunnel(rooms: Seq<Rect>, bends: Seq<bool>, x: int, y: int) -> bool {
    exists|i: int|
        0 < i < rooms.len() && on_tunnels(
            rooms[i - 1].spec_centre(),
            (#[trigger] rooms[i]).spec_centre(),
            bends[i - 1],
            x,
            y,
        )
}

/// Whether digging the rooms and the tunnels between them opens the cell
/// `(x, y)`.
pub open spec fn opened(rooms: Seq<Rect>, bends: Seq<bool>, x: int, y: int) -> bool {
    in_some_room(rooms, x, y) || on_some_tunnel(rooms, bends, x, y)
}

/// Whether the grid is what digging the rooms and the tunnels between
/// them leaves of a grid of walls: floor inside every room and on every
/// tunnel, and wall everywhere else.
pub open spec fn dug(map: &Grid, rooms: Seq<Rect>, bends: Seq<bool>) -> bool {
    &&& rooms.len() <= bends.len() + 1
    &&& forall|x: int, y: int| #![trigger map.spec_tile(x, y)]
        map.spec_in_bounds(x, y) ==> map.spec_tile(x, y) == if opened(rooms, bends, x, y) {
            Tile::empty()
        } else {
            Tile::wall()
        }
}

/// Whether the object at index `i` is a monster that generation has put
/// into one of the rooms: a fresh monster inside a room, on a cell that
/// no blocking object before it in the table, the player aside, stands
/// on.
pub open spec fn monster_settled(rooms: Seq<Rect>, objects: Seq<ObjectView>, i: int) -> bool
    recommends
        0 <= i < objects.len(),
{
    &&& is_fresh_monster(objects[i])
    &&& exists|r: int|
        0 <= r < rooms.len() && (#[trigger] rooms[r]).interior(objects[i].x, objects[i].y)
    &&& forall|j: int| 0 < j < i ==> !occupies(#[trigger] objects[j], objects[i].x, objects[i].y)
}

/// Whether `after` is what generation makes of the table `before`: the
/// player stands at the centre of the first room, the other objects are
/// as they were, and behind them come the monsters, at most
/// `max_monsters` for each room.
pub open spec fn objects_settled(
    rooms: Seq<Rect>,
    before: Seq<ObjectView>,
    after: Seq<ObjectView>,
    max_monsters: int,
) -> bool {
    &&& 0 < before.len() <= after.len() <= before.len() + rooms.len() * max_monsters
    &&& forall|i: int| 0 < i < before.len() ==> #[trigger] after[i] == before[i]
    &&& after[0] == if rooms.len() > 0 {
        ObjectView { x: rooms[0].spec_centre().0, y: rooms[0].spec_centre().1, ..before[0] }
    } else {
        before[0]
    }
    &&& forall|i: int| before.len() <= i < after.len() ==> monster_settled(rooms, after, i)
}

/// Whether no room holds more than `max_monsters` of the monsters that
/// come behind the first `first` objects: any two of them that stand
/// inside the same room are less than `max_monsters` places apart in the
/// table.
pub open spec fn monsters_grouped(
    rooms: Seq<Rect>,
    first: int,
    objects: Seq<ObjectView>,
    max_monsters: int,
) -> bool {
    forall|r: int, i: int, j: int| #![trigger rooms[r], objects[i], objects[j]]
        0 <= r < rooms.len() && first <= i <= j < objects.len() && rooms[r].interior(
            objects[i].x,
            objects[i].y,
        ) && rooms[r].interior(objects[j].x, objects[j].y) ==> j - i < max_monsters
}

/// Generates a level. Starting from a grid of walls, `max_rooms` rooms of
/// random size are tried at random places, each with a random bend for
/// its tunnels, and `add_room` decides what becomes of each: a room that
/// intersects a room accepted before it is dropped, and any other room is
/// carved out and joined to the room before it. Monsters are put into
/// each accepted room, and the first of them becomes the player's start.
/// Returns the grid and the accepted rooms, in the order in which they
/// were accepted.
pub fn make_map(objects: &mut Vec<Object>, params: DungeonParams, rng: &mut StdRng) -> (level: (
    Grid,
    Vec<Rect>,
))
    requires
        old(objects)@.len() > 0,
        params.valid(),
    ensures
        level.0.wf(),
        level.0.spec_width() == params.width,
        level.0.spec_height() == params.height,
        level.1@.len() <= params.max_rooms || level.1@.len() == 0,
        params.max_rooms > 0 ==> level.1@.len() > 0,
        rooms_fit(level.1@, params),
        rooms_apart(level.1@),
        rooms_carved(&level.0, level.1@),
        walls_and_floors(&level.0),
        level.0.enclosed(),
        floor_in_one_piece(&level.0, level.1@),
        exists|bends: Seq<bool>| dug(&level.0, level.1@, bends),
        objects_settled(
            level.1@,
            object_views(old(objects)@),
            object_views(final(objects)@),
            params.max_monsters as int,
        ),
        monsters_grouped(
            level.1@,
            old(objects)@.len() as int,
            object_views(final(objects)@),
            params.max_monsters as int,
        ),
{
    let ghost before = object_views(objects@);
    // Fill the map with walls.
    let mut map = Grid::new(params.width, params.height);
    let mut rooms: Vec<Rect> = Vec::new();
    let ghost mut bends: Seq<bool> = Seq::empty();

    let mut trial: i32 = 0;
    while trial < params.max_rooms
        invariant
            0 <= trial,
            trial <= params.max_rooms || trial == 0,
            params.valid(),
            map.wf(),
            map.spec_width() == params.width,
            map.spec_height() == params.height,
            rooms@.len() <= trial,
            trial > 0 ==> rooms@.len() > 0,
            rooms_fit(rooms@, params),
            rooms_apart(rooms@),
            rooms_carved(&map, rooms@),
            walls_and_floors(&map),
            floor_in_one_piece(&map, rooms@),
            dug(&map, rooms@, bends),
            objects_settled(rooms@, before, object_views(objects@), params.max_monsters as int),
            monsters_grouped(
                rooms@,
                before.len() as int,
                object_views(objects@),
                params.max_monsters as int,
            ),
        decreases params.max_rooms - trial,
    {
        // Random width and height.
        let w = random_range(rng, params.min_size, params.max_size + 1);
        let h = random_range(rng, params.min_size, params.max_size + 1);
        // Random position without going out of the boundaries of the map.
        let x = random_range(rng, 0, params.width - w);
        let y = random_range(rng, 0, params.height - h);

        let new_room = Rect::new(x, y, w, h);

        // Toss a coin for the bend of the tunnels that will join the room
        // to the one before it.
        let horizontal_first = random_bool(rng);

        let ghost old_map = map;
        let ghost old_rooms = rooms@;
        let ghost old_objects = object_views(objects@);

        // Paint the room and its tunnels to the map's tiles, unless it
        // intersects one of the other rooms.
        let accepted = add_room(new_room, horizontal_first, &mut rooms, &mut map);

        if accepted {
            proof {
                if old_rooms.len() == 0 {
                    lemma_first_room_in_one_piece(&old_map, &map, new_room);
                    lemma_first_room_dug(&old_map, &map, new_room, bends);
                } else {
                    let old_bends = bends.subrange(0, old_rooms.len() - 1);
                    lemma_dug_by_fewer_bends(&old_map, old_rooms, bends, old_bends);
                    bends = old_bends.push(horizontal_first);
                    lemma_room_joined(
                        &old_map,
                        &map,
                        old_rooms,
                        old_bends,
                        new_room,
                        horizontal_first,
                    );
                }
            }

            // Add some content to this room, such as monsters.
            place_objects(new_room, objects, &map, params.max_monsters, rng);
            let ghost placed = object_views(objects@);

            if rooms.len() == 1 {
                // This is the first room, where the player starts at.
                let (new_x, new_y) = new_room.centre();
                objects[PLAYER].set_pos(new_x, new_y);
            }
            proof {
                lemma_monsters_settle(
                    &map,
                    new_room,
                    old_rooms,
                    before,
                    old_objects,
                    placed,
                    object_views(objects@),
                    params.max_monsters as int,
                );
                lemma_monsters_stay_grouped(
                    &map,
                    new_room,
                    old_rooms,
                    before,
                    old_objects,
                    placed,
                    object_views(objects@),
                    params.max_monsters as int,
                );
            }
        } else {
            proof {
                // The grid is as it was.
                if rooms@.len() > 0 {
                    lemma_same_floor_same_reach(&old_map, &map, rooms@[0].spec_centre());
                }
            }
        }
        trial = trial + 1;
    }
    (map, rooms)
}

/// The first room is in one piece: when a block of cells is all that is
/// open, every open cell can be reached from any cell of the block.
proof fn lemma_first_room_in_one_piece(before: &Grid, after: &Grid, room: Rect)
    requires
        forall|x: int, y: int| before.spec_in_bounds(x, y) ==> #[trigger] before.spec_tile(x, y)
            == Tile::wall(),
        same_size(before, after),
        room.x1 + 1 < room.x2,
        room.y1 + 1 < room.y2,
        forall|x: int, y: int| #[trigger] room.interior(x, y) ==> before.spec_in_bounds(x, y),
        forall|x: int, y: int|
            before.spec_in_bounds(x, y) ==> #[trigger] after.spec_tile(x, y) == if room.interior(
                x,
                y,
            ) {
                Tile::empty()
            } else {
                before.spec_tile(x, y)
            },
    ensures
        all_floor_reachable(after, room.spec_centre()),
{
    let start = room.spec_centre();
    assert forall|x: int, y: int| room.x1 + 1 <= x <= room.x2 - 1 && room.y1 + 1 <= y <= room.y2
        - 1 implies open_cell(after, (x, y)) by {
        assert(room.interior(x, y));
    }
    assert forall|x: int, y: int| open_cell(after, (x, y)) implies reachable(
        after,
        start,
        (x, y),
    ) by {
        assert(room.interior(x, y));
        lemma_block_reachable(
            after,
            room.x1 + 1,
            room.y1 + 1,
            room.x2 - 1,
            room.y2 - 1,
            start,
            (x, y),
        );
    }
}

/// Monsters that have been put into a room are settled once the room has
/// been accepted, and the monsters of the rooms before it stay settled.
proof fn lemma_monsters_settle(
    map: &Grid,
    room: Rect,
    rooms: Seq<Rect>,
    before: Seq<ObjectView>,
    earlier: Seq<ObjectView>,
    placed: Seq<ObjectView>,
    after: Seq<ObjectView>,
    max_monsters: int,
)
    requires
        0 <= max_monsters,
        objects_settled(rooms, before, earlier, max_monsters),
        monsters_placed(map, room, earlier, placed, max_monsters),
        after.len() == placed.len(),
        forall|i: int| 0 < i < placed.len() ==> #[trigger] after[i] == placed[i],
        after[0] == if rooms.len() > 0 {
            placed[0]
        } else {
            ObjectView { x: room.spec_centre().0, y: room.spec_centre().1, ..placed[0] }
        },
    ensures
        objects_settled(rooms.push(room), before, after, max_monsters),
{
    let new_rooms = rooms.push(room);
    assert((rooms.len() + 1) * max_monsters == rooms.len() * max_monsters + max_monsters)
        by (nonlinear_arith);
    assert(new_rooms.len() == rooms.len() + 1);
    assert forall|i: int| 0 <= i < earlier.len() implies placed[i] == earlier[i] by {
        assert(placed.subrange(0, earlier.len() as int)[i] == earlier[i]);
    }
    assert(new_rooms[0] == if rooms.len() > 0 {
        rooms[0]
    } else {
        room
    });
    assert forall|i: int| before.len() <= i < after.len() implies monster_settled(
        new_rooms,
        after,
        i,
    ) by {
        if i < earlier.len() {
            assert(monster_settled(rooms, earlier, i));
            let r = choose|r: int|
                0 <= r < rooms.len() && (#[trigger] rooms[r]).interior(earlier[i].x, earlier[i].y);
            assert(new_rooms[r] == rooms[r]);
            assert forall|j: int| 0 < j < i implies !occupies(
                #[trigger] after[j],
                after[i].x,
                after[i].y,
            ) by {
                assert(after[j] == earlier[j]);
            }
        } else {
            assert(put_into(map, room, placed, i));
            assert(new_rooms[rooms.len() as int] == room);
            assert forall|j: int| 0 < j < i implies !occupies(
                #[trigger] after[j],
                after[i].x,
                after[i].y,
            ) by {
                assert(placed.subrange(0, i)[j] == placed[j]);
            }
        }
    }
}

/// No room holds more monsters than it may: the monsters of a further
/// room stand inside that room and nowhere else, and the monsters of the
/// rooms before it stand outside it.
proof fn lemma_monsters_stay_grouped(
    map: &Grid,
    room: Rect,
    rooms: Seq<Rect>,
    before: Seq<ObjectView>,
    earlier: Seq<ObjectView>,
    placed: Seq<ObjectView>,
    after: Seq<ObjectView>,
    max_monsters: int,
)
    requires
        rooms_apart(rooms.push(room)),
        objects_settled(rooms, before, earlier, max_monsters),
        monsters_grouped(rooms, before.len() as int, earlier, max_monsters),
        monsters_placed(map, room, earlier, placed, max_monsters),
        after.len() == placed.len(),
        forall|i: int| 0 < i < placed.len() ==> #[trigger] after[i] == placed[i],
    ensures
        monsters_grouped(rooms.push(room), before.len() as int, after, max_monsters),
{
    let new_rooms = rooms.push(room);
    let last = rooms.len() as int;
    assert forall|i: int| 0 <= i < earlier.len() implies placed[i] == earlier[i] by {
        assert(placed.subrange(0, earlier.len() as int)[i] == earlier[i]);
    }
    assert forall|r: int, i: int, j: int| #![trigger new_rooms[r], after[i], after[j]]
        0 <= r < new_rooms.len() && before.len() <= i <= j < after.len() && new_rooms[r].interior(
            after[i].x,
            after[i].y,
        ) && new_rooms[r].interior(after[j].x, after[j].y) implies j - i < max_monsters by {
        lemma_monster_in_one_room(
            map,
            room,
            rooms,
            before,
            earlier,
            placed,
            after,
            max_monsters,
            i,
            r,
        );
        lemma_monster_in_one_room(
            map,
            room,
            rooms,
            before,
            earlier,
            placed,
            after,
            max_monsters,
            j,
            r,
        );
        if r < last {
            // Both stood inside this room before the further room came.
            assert(rooms[r].interior(earlier[i].x, earlier[i].y));
            assert(rooms[r].interior(earlier[j].x, earlier[j].y));
        }
    }
}

/// A monster stands inside one room only: a monster of the further room
/// inside that room, a monster of the rooms before it inside one of them.
proof fn lemma_monster_in_one_room(
    map: &Grid,
    room: Rect,
    rooms: Seq<Rect>,
    before: Seq<ObjectView>,
    earlier: Seq<ObjectView>,
    placed: Seq<ObjectView>,
    after: Seq<ObjectView>,
    max_monsters: int,
    i: int,
    r: int,
)
    requires
        rooms_apart(rooms.push(room)),
        objects_settled(rooms, before, earlier, max_monsters),
        monsters_placed(map, room, earlier, placed, max_monsters),
        after.len() == placed.len(),
        forall|k: int| 0 < k < placed.len() ==> #[trigger] after[k] == placed[k],
        before.len() <= i < after.len(),
        0 <= r <= rooms.len(),
        rooms.push(room)[r].interior(after[i].x, after[i].y),
    ensures
        (r == rooms.len()) == (i >= earlier.len()),
        i < earlier.len() ==> after[i] == earlier[i],
{
    let new_rooms = rooms.push(room);
    let last = rooms.len() as int;
    let x = after[i].x;
    let y = after[i].y;
    assert(new_rooms[last] == room);
    if i < earlier.len() {
        assert(placed.subrange(0, earlier.len() as int)[i] == earlier[i]);
        assert(monster_settled(rooms, earlier, i));
        let home = choose|h: int| 0 <= h < rooms.len() && (#[trigger] rooms[h]).interior(x, y);
        assert(new_rooms[home] == rooms[home]);
        if r != home {
            // Two rooms that are apart share no cell.
            if r < home {
                lemma_disjoint_rects_share_no_cell(new_rooms[r], new_rooms[home], x, y);
            } else {
                lemma_disjoint_rects_share_no_cell(new_rooms[home], new_rooms[r], x, y);
            }
        }
    } else {
        assert(put_into(map, room, placed, i));
        if r < last {
            lemma_disjoint_rects_share_no_cell(new_rooms[r], new_rooms[last], x, y);
        }
    }
}

/// The centre of a room that has an inside lies inside the room.
pub proof fn lemma_centre_is_inside(room: Rect)
    requires
        has_inside(room),
    ensures
        room.interior(room.spec_centre().0, room.spec_centre().1),
{
}

/// A generated level is ready for play. If the level has a room, the
/// player that came in does not act by itself, and the objects that came
/// in are ready on the generated grid, the player wherever it stood, then
/// the world is ready for its first turn, the player standing on the open
/// tile at the centre of the first room.
pub proof fn lemma_generated_world_ready(
    params: DungeonParams,
    map: &Grid,
    rooms: Seq<Rect>,
    before: Seq<ObjectView>,
    after: Seq<ObjectView>,
)
    requires
        params.valid(),
        map.wf(),
        map.spec_width() == params.width,
        map.spec_height() == params.height,
        rooms.len() > 0,
        rooms_fit(rooms, params),
        rooms_carved(map, rooms),
        walls_and_floors(map),
        objects_settled(rooms, before, after, params.max_monsters as int),
        before[0].ai is None,
        fighter_in_range(before[0]),
        forall|i: int| 0 < i < before.len() ==> object_ready(map, #[trigger] before[i], i),
    ensures
        world_ready(map, after),
        open_cell(map, (after[0].x, after[0].y)),
        (after[0].x, after[0].y) == rooms[0].spec_centre(),
{
    assert(room_fits(rooms[0], params));
    lemma_centre_is_inside(rooms[0]);
    let start = rooms[0].spec_centre();
    assert(map.spec_tile(start.0, start.1) == Tile::empty());
    assert forall|x: int, y: int| map.spec_in_bounds(x, y) && map.on_border(x, y) implies (
    #[trigger] map.spec_tile(x, y)).blocked by {}
    assert forall|i: int| 0 <= i < after.len() implies object_ready(map, #[trigger] after[i], i) by {
        if i == 0 {
        } else if i < before.len() {
            assert(after[i] == before[i]);
        } else {
            assert(monster_settled(rooms, after, i));
            let r = choose|r: int|
                0 <= r < rooms.len() && (#[trigger] rooms[r]).interior(after[i].x, after[i].y);
            assert(room_fits(rooms[r], params));
            assert(map.spec_tile(after[i].x, after[i].y) == Tile::empty());
        }
    }
}

/// Digging does not depend on bends that belong to no pair of rooms.
proof fn lemma_dug_by_fewer_bends(map: &Grid, rooms: Seq<Rect>, bends: Seq<bool>, fewer: Seq<bool>)
    requires
        dug(map, rooms, bends),
        rooms.len() > 0,
        fewer == bends.subrange(0, rooms.len() - 1),
    ensures
        dug(map, rooms, fewer),
{
    assert forall|x: int, y: int| on_some_tunnel(rooms, bends, x, y) == on_some_tunnel(
        rooms,
        fewer,
        x,
        y,
    ) by {
        if on_some_tunnel(rooms, bends, x, y) {
            let i = choose|i: int|
                0 < i < rooms.len() && on_tunnels(
                    rooms[i - 1].spec_centre(),
                    (#[trigger] rooms[i]).spec_centre(),
                    bends[i - 1],
                    x,
                    y,
                );
            assert(fewer[i - 1] == bends[i - 1]);
        }
        if on_some_tunnel(rooms, fewer, x, y) {
            let i = choose|i: int|
                0 < i < rooms.len() && on_tunnels(
                    rooms[i - 1].spec_centre(),
                    (#[trigger] rooms[i]).spec_centre(),
                    fewer[i - 1],
                    x,
                    y,
                );
            assert(fewer[i - 1] == bends[i - 1]);
        }
    }
}

/// The first room, carved out of a grid of walls, is all that is dug.
proof fn lemma_first_room_dug(before: &Grid, after: &Grid, room: Rect, bends: Seq<bool>)
    requires
        forall|x: int, y: int| before.spec_in_bounds(x, y) ==> #[trigger] before.spec_tile(x, y)
            == Tile::wall(),
        same_size(before, after),
        forall|x: int, y: int|
            before.spec_in_bounds(x, y) ==> #[trigger] after.spec_tile(x, y) == if room.interior(
                x,
                y,
            ) {
                Tile::empty()
            } else {
                before.spec_tile(x, y)
            },
    ensures
        dug(after, seq![room], bends),
{
    let rooms = seq![room];
    assert forall|x: int, y: int| #![trigger after.spec_tile(x, y)]
        after.spec_in_bounds(x, y) implies after.spec_tile(x, y) == if opened(rooms, bends, x, y) {
        Tile::empty()
    } else {
        Tile::wall()
    } by {
        assert(before.spec_tile(x, y) == Tile::wall());
        if room.interior(x, y) {
            assert(rooms[0].interior(x, y));
        }
    }
}

/// A further room that is joined to the last of the rooms leaves the
/// floor in one piece, and what is dug is the rooms and their tunnels.
proof fn lemma_room_joined(
    before: &Grid,
    after: &Grid,
    rooms: Seq<Rect>,
    bends: Seq<bool>,
    room: Rect,
    horizontal_first: bool,
)
    requires
        rooms.len() > 0,
        bends.len() == rooms.len() - 1,
        has_inside(rooms[rooms.len() - 1]),
        has_inside(room),
        before.wf(),
        forall|x: int, y: int| #[trigger]
            rooms[rooms.len() - 1].interior(x, y) ==> before.spec_in_bounds(x, y),
        floor_in_one_piece(before, rooms),
        dug(before, rooms, bends),
        same_size(before, after),
        forall|x: int, y: int| #![trigger after.spec_tile(x, y)]
            before.spec_in_bounds(x, y) ==> after.spec_tile(x, y) == if joins(
                rooms[rooms.len() - 1],
                room,
                horizontal_first,
                x,
                y,
            ) {
                Tile::empty()
            } else {
                before.spec_tile(x, y)
            },
        forall|x: int, y: int|
            joins(rooms[rooms.len() - 1], room, horizontal_first, x, y)
                ==> before.spec_in_bounds(x, y),
    ensures
        floor_in_one_piece(after, rooms.push(room)),
        dug(after, rooms.push(room), bends.push(horizontal_first)),
{
    let new_rooms = rooms.push(room);
    let new_bends = bends.push(horizontal_first);
    let last = rooms.len() as int;
    let prev = rooms[last - 1].spec_centre();
    let next = room.spec_centre();
    assert(new_rooms[0] == rooms[0]);
    assert(new_rooms[last] == room);
    assert(new_rooms[last - 1] == rooms[last - 1]);
    assert(new_bends[last - 1] == horizontal_first);

    // The floor stays in one piece.
    lemma_centre_is_inside(rooms[last - 1]);
    lemma_centre_is_inside(room);
    assert(in_some_room(rooms, prev.0, prev.1));
    assert(before.spec_tile(prev.0, prev.1) == Tile::empty());
    assert forall|x: int, y: int| #![trigger open_cell(after, (x, y))]
        open_cell(after, (x, y)) <==> (open_cell(before, (x, y)) || (room.x1 + 1 <= x <= room.x2
            - 1 && room.y1 + 1 <= y <= room.y2 - 1) || on_tunnels(
            prev,
            next,
            horizontal_first,
            x,
            y,
        )) by {
        if before.spec_in_bounds(x, y) {
            assert(after.spec_tile(x, y) == if joins(
                rooms[last - 1],
                room,
                horizontal_first,
                x,
                y,
            ) {
                Tile::empty()
            } else {
                before.spec_tile(x, y)
            });
        }
    }
    lemma_dig_keeps_floor_reachable(
        before,
        after,
        rooms[0].spec_centre(),
        prev,
        next,
        horizontal_first,
        room.x1 + 1,
        room.y1 + 1,
        room.x2 - 1,
        room.y2 - 1,
    );

    // What is dug is the rooms and their tunnels.
    assert forall|x: int, y: int| #![trigger after.spec_tile(x, y)]
        after.spec_in_bounds(x, y) implies after.spec_tile(x, y) == if opened(
        new_rooms,
        new_bends,
        x,
        y,
    ) {
        Tile::empty()
    } else {
        Tile::wall()
    } by {
        let on_new = on_tunnels(prev, next, horizontal_first, x, y);
        assert(in_some_room(new_rooms, x, y) == (in_some_room(rooms, x, y) || room.interior(
            x,
            y,
        ))) by {
            if in_some_room(rooms, x, y) {
                let r = choose|r: int| 0 <= r < rooms.len() && (#[trigger] rooms[r]).interior(x, y);
                assert(new_rooms[r].interior(x, y));
            }
            if room.interior(x, y) {
                assert(new_rooms[last].interior(x, y));
            }
            if in_some_room(new_rooms, x, y) {
                let r = choose|r: int|
                    0 <= r < new_rooms.len() && (#[trigger] new_rooms[r]).interior(x, y);
                if r < last {
                    assert(rooms[r].interior(x, y));
                }
            }
        }
        assert(on_some_tunnel(new_rooms, new_bends, x, y) == (on_some_tunnel(rooms, bends, x, y)
            || on_new)) by {
            if on_some_tunnel(rooms, bends, x, y) {
                let i = choose|i: int|
                    0 < i < rooms.len() && on_tunnels(
                        rooms[i - 1].spec_centre(),
                        (#[trigger] rooms[i]).spec_centre(),
                        bends[i - 1],
                        x,
                        y,
                    );
                assert(new_rooms[i] == rooms[i]);
                assert(new_rooms[i - 1] == rooms[i - 1]);
                assert(new_bends[i - 1] == bends[i - 1]);
            }
            if on_new {
                assert(on_tunnels(
                    new_rooms[last - 1].spec_centre(),
                    new_rooms[last].spec_centre(),
                    new_bends[last - 1],
                    x,
                    y,
                ));
            }
            if on_some_tunnel(new_rooms, new_bends, x, y) {
                let i = choose|i: int|
                    0 < i < new_rooms.len() && on_tunnels(
                        new_rooms[i - 1].spec_centre(),
                        (#[trigger] new_rooms[i]).spec_centre(),
                        new_bends[i - 1],
                        x,
                        y,
                    );
                if i < last {
                    assert(rooms[i] == new_rooms[i]);
                    assert(rooms[i - 1] == new_rooms[i - 1]);
                    assert(bends[i - 1] == new_bends[i - 1]);
                }
            }
        }
    }
}

} // verus!
