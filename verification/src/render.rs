//! What there is to draw: the objects in sight, in drawing order, the
//! background of every tile that has been seen, and the player's hit
//! points. Seeing a tile marks it as explored for good.

use crate::colour::Colour;
use crate::fov::FovMap;
use crate::object::{Object, ObjectView};
use crate::tile::Tile;
use crate::turn::fov_fits;
use crate::world::{object_views, Game, PLAYER};
use vstd::prelude::*;

verus! {

/// A character to draw on a cell.
#[derive(Clone, Copy, Debug, PartialEq, Eq, Structural)]
pub struct Glyph {
    pub x: i32,
    pub y: i32,
    pub sprite: char,
    pub colour: Colour,
}

/// Everything that one frame shows.
#[derive(Debug)]
pub struct Frame {
    /// The characters to draw, in drawing order.
    pub glyphs: Vec<Glyph>,
    /// The background of each tile, by column and row; `None` where the
    /// tile has never been seen.
    pub backgrounds: Vec<Vec<Option<Colour>>>,
    /// The player's hit points.
    pub hp: i32,
    /// The player's greatest number of hit points.
    pub max_hp: i32,
}

/// The background colour of a tile: one of four, by whether the tile is
/// in sight and whether it is a wall.
pub open spec fn spec_tile_colour(visible: bool, wall: bool) -> Colour {
    match (visible, wall) {
        (false, true) => Colour::spec_dark_wall(),
        (false, false) => Colour::spec_dark_ground(),
        (true, true) => Colour::spec_light_wall(),
        (true, false) => Colour::spec_light_ground(),
    }
}

/// The tile after it has or has not been in sight: once seen, it is
/// explored; nothing else about it changes.
pub open spec fn seen(tile: Tile, visible: bool) -> Tile {
    Tile { explored: tile.explored || visible, ..tile }
}

/// The tile after a run of frames, `visible` saying for each of them in
/// turn whether the tile was in sight.
pub open spec fn seen_through(tile: Tile, visible: Seq<bool>) -> Tile
    decreases visible.len(),
{
    if visible.len() == 0 {
        tile
    } else {
        seen(seen_through(tile, visible.drop_last()), visible.last())
    }
}

/// The background to draw for a tile: its colour if the tile is in sight
/// or has been explored, nothing if it has never been seen.
pub open spec fn spec_tile_background(tile: Tile, visible: bool) -> Option<Colour> {
    if seen(tile, visible).explored {
        Some(spec_tile_colour(visible, tile.block_sight))
    } else {
        None
    }
}

/// Whether every object stands on a cell of the field-of-view map.
pub open spec fn all_on_map(fov: &FovMap, objects: Seq<Object>) -> bool {
    forall|i: int| #![trigger objects[i]]
        0 <= i < objects.len() ==> fov.spec_in_bounds(objects[i].x as int, objects[i].y as int)
}

/// Whether `object` is in sight and blocks, or does not block, as
/// `blocks` says.
pub open spec fn shown(fov: &FovMap, object: ObjectView, blocks: bool) -> bool {
    fov.spec_is_in_fov(object.x, object.y) && object.blocks == blocks
}

/// The indices of the objects in sight that block, or of those that do
/// not, in the order of the table.
pub open spec fn shown_indices(fov: &FovMap, objects: Seq<ObjectView>, blocks: bool) -> Seq<usize> {
    Seq::new(objects.len(), |i: int| i as usize).filter(
        |i: usize| shown(fov, objects[i as int], blocks),
    )
}

/// The drawing order: the objects in sight that block nobody first, so
/// that corpses lie under creatures, then those that block; within each
/// group in the order of the table.
pub open spec fn spec_draw_order(fov: &FovMap, objects: Seq<ObjectView>) -> Seq<usize> {
    shown_indices(fov, objects, false) + shown_indices(fov, objects, true)
}

/// The character that stands for `object`.
pub open spec fn spec_glyph(object: Object) -> Glyph {
    Glyph { x: object.x, y: object.y, sprite: object.sprite, colour: object.colour }
}

/// The hit points and the greatest number of hit points of `object`; both
/// 0 for an object that cannot fight.
pub open spec fn spec_stats(object: ObjectView) -> (int, int) {
    match object.fighter {
        Some(f) => (f.hp as int, f.max_hp as int),
        None => (0, 0),
    }
}

/// Once a tile is explored it stays explored, whatever is in sight in the
/// frames that follow; and no frame changes whether a tile blocks
/// movement or sight.
pub proof fn lemma_explored_is_kept(tile: Tile, visible: Seq<bool>)
    ensures
        tile.explored ==> seen_through(tile, visible).explored,
        seen_through(tile, visible).blocked == tile.blocked,
        seen_through(tile, visible).block_sight == tile.block_sight,
    decreases visible.len(),
{
    if visible.len() > 0 {
        lemma_explored_is_kept(tile, visible.drop_last());
    }
}

/// Seeing the same thing twice changes nothing the second time.
pub proof fn lemma_seen_twice(tile: Tile, visible: bool)
    ensures
        seen(seen(tile, visible), visible) == seen(tile, visible),
{
}

/// The background colour of a tile.
pub fn tile_colour(visible: bool, wall: bool) -> (colour: Colour)
    ensures
        colour == spec_tile_colour(visible, wall),
{
    match (visible, wall) {
        // Outside the field of view:
        (false, true) => Colour { r: 0, g: 0, b: 100 },
        (false, false) => Colour { r: 50, g: 50, b: 150 },
        // Inside the field of view:
        (true, true) => Colour { r: 130, g: 110, b: 50 },
        (true, false) => Colour { r: 200, g: 180, b: 50 },
    }
}

/// Whether the field of view has to be computed again: it has to when
/// the player no longer stands where it stood at the last frame.
pub fn needs_fov_recompute(previous_player_position: (i32, i32), objects: &[Object]) -> (needed:
    bool)
    requires
        objects@.len() > 0,
    ensures
        needed == (previous_player_position != (objects@[0].x, objects@[0].y)),
{
    let (x, y) = objects[PLAYER].pos();
    previous_player_position.0 != x || previous_player_position.1 != y
}

/// The hit points and the greatest number of hit points of the player.
pub fn player_stats(objects: &[Object]) -> (stats: (i32, i32))
    requires
        objects@.len() > 0,
    ensures
        (stats.0 as int, stats.1 as int) == spec_stats(objects@[0]@),
{
    match objects[PLAYER].fighter {
        Some(f) => (f.hp, f.max_hp),
        None => (0, 0),
    }
}

/// Adds to `order` the indices of the objects in sight that block, or of
/// those that do not, in the order of the table.
fn push_shown(objects: &[Object], fov: &FovMap, blocks: bool, order: &mut Vec<usize>)
    requires
        fov.wf(),
        all_on_map(fov, objects@),
        forall|k: int| 0 <= k < old(order)@.len() ==> (#[trigger] old(order)@[k]) < objects@.len(),
    ensures
        final(order)@ == old(order)@ + shown_indices(fov, object_views(objects@), blocks),
        forall|k: int|
            0 <= k < final(order)@.len() ==> (#[trigger] final(order)@[k]) < objects@.len(),
{
    let ghost views = object_views(objects@);
    let ghost pred = |k: usize| shown(fov, views[k as int], blocks);
    let mut i: usize = 0;
    while i < objects.len()
        invariant
            0 <= i <= objects@.len(),
            fov.wf(),
            views == object_views(objects@),
            pred == |k: usize| shown(fov, views[k as int], blocks),
            all_on_map(fov, objects@),
            forall|k: int| 0 <= k < order@.len() ==> (#[trigger] order@[k]) < objects@.len(),
            order@ == old(order)@ + Seq::new(i as nat, |k: int| k as usize).filter(pred),
        decreases objects@.len() - i,
    {
        let object = &objects[i];
        let ghost prefix = Seq::new(i as nat, |k: int| k as usize);
        proof {
            prefix.lemma_filter_push(i, pred);
            assert(prefix.push(i) =~= Seq::new((i + 1) as nat, |k: int| k as usize));
        }
        if fov.is_in_fov(object.x, object.y) && object.blocks == blocks {
            order.push(i);
        }
        i = i + 1;
    }
}

/// The indices of the objects in sight, in drawing order.
pub fn draw_order(objects: &[Object], fov: &FovMap) -> (order: Vec<usize>)
    requires
        fov.wf(),
        all_on_map(fov, objects@),
    ensures
        order@ == spec_draw_order(fov, object_views(objects@)),
        forall|k: int| 0 <= k < order@.len() ==> (#[trigger] order@[k]) < objects@.len(),
{
    let mut order: Vec<usize> = Vec::new();
    // Non-blocking objects come first.
    push_shown(objects, fov, false, &mut order);
    push_shown(objects, fov, true, &mut order);
    order
}

/// Works out what one frame shows, and marks the tiles in sight as
/// explored.
pub fn render_all(fov: &FovMap, game: &mut Game, objects: &[Object]) -> (frame: Frame)
    requires
        objects@.len() > 0,
        old(game).map.wf(),
        fov_fits(fov, &old(game).map),
        all_on_map(fov, objects@),
    ensures
        final(game).map.wf(),
        final(game).map.spec_width() == old(game).map.spec_width(),
        final(game).map.spec_height() == old(game).map.spec_height(),
        forall|x: int, y: int| #![trigger final(game).map.spec_tile(x, y)]
            old(game).map.spec_in_bounds(x, y) ==> final(game).map.spec_tile(x, y) == seen(
                old(game).map.spec_tile(x, y),
                fov.spec_is_in_fov(x, y),
            ),
        frame.glyphs@ == spec_draw_order(fov, object_views(objects@)).map_values(
            |i: usize| spec_glyph(objects@[i as int]),
        ),
        frame.backgrounds@.len() == old(game).map.spec_width(),
        forall|x: int| #![trigger frame.backgrounds@[x]]
            0 <= x < frame.backgrounds@.len() ==> frame.backgrounds@[x]@.len()
                == old(game).map.spec_height(),
        forall|x: int, y: int| #![trigger frame.backgrounds@[x]@[y]]
            old(game).map.spec_in_bounds(x, y) ==> frame.backgrounds@[x]@[y]
                == spec_tile_background(old(game).map.spec_tile(x, y), fov.spec_is_in_fov(x, y)),
        (frame.hp as int, frame.max_hp as int) == spec_stats(objects@[0]@),
{
    // Sort so that non-blocking objects come first.
    let to_draw = draw_order(objects, fov);
    let mut glyphs: Vec<Glyph> = Vec::new();
    let mut n: usize = 0;
    while n < to_draw.len()
        invariant
            0 <= n <= to_draw@.len(),
            forall|k: int| 0 <= k < to_draw@.len() ==> (#[trigger] to_draw@[k]) < objects@.len(),
            glyphs@ == to_draw@.subrange(0, n as int).map_values(
                |i: usize| spec_glyph(objects@[i as int]),
            ),
        decreases to_draw@.len() - n,
    {
        let object = &objects[to_draw[n]];
        glyphs.push(Glyph { x: object.x, y: object.y, sprite: object.sprite, colour: object.colour });
        n = n + 1;
    }

    // Go through all tiles, and set their background colour.
    let width = game.map.width();
    let height = game.map.height();
    let mut backgrounds: Vec<Vec<Option<Colour>>> = Vec::new();
    let mut x: i32 = 0;
    while x < width
        invariant
            0 <= x <= width,
            0 <= height,
            game.map.wf(),
            fov_fits(fov, &game.map),
            width == game.map.spec_width() == old(game).map.spec_width(),
            x < width ==> height == game.map.spec_height() == old(game).map.spec_height(),
            backgrounds@.len() == x,
            forall|i: int| 0 <= i < x ==> (#[trigger] backgrounds@[i])@.len() == height,
            forall|i: int, j: int| #![trigger backgrounds@[i]@[j]]
                0 <= i < x && 0 <= j < height ==> backgrounds@[i]@[j] == spec_tile_background(
                    old(game).map.spec_tile(i, j),
                    fov.spec_is_in_fov(i, j),
                ),
            forall|i: int, j: int| #![trigger game.map.spec_tile(i, j)]
                old(game).map.spec_in_bounds(i, j) ==> game.map.spec_tile(i, j) == if i < x {
                    seen(old(game).map.spec_tile(i, j), fov.spec_is_in_fov(i, j))
                } else {
                    old(game).map.spec_tile(i, j)
                },
        decreases width - x,
    {
        let mut column: Vec<Option<Colour>> = Vec::new();
        let mut y: i32 = 0;
        while y < height
            invariant
                0 <= x < width,
                0 <= y <= height,
                game.map.wf(),
                fov_fits(fov, &game.map),
                width == game.map.spec_width() == old(game).map.spec_width(),
                height == game.map.spec_height() == old(game).map.spec_height(),
                column@.len() == y,
                forall|j: int| #![trigger column@[j]]
                    0 <= j < y ==> column@[j] == spec_tile_background(
                        old(game).map.spec_tile(x as int, j),
                        fov.spec_is_in_fov(x as int, j),
                    ),
                forall|i: int, j: int| #![trigger game.map.spec_tile(i, j)]
                    old(game).map.spec_in_bounds(i, j) ==> game.map.spec_tile(i, j) == if i < x
                        || (i == x && j < y) {
                        seen(old(game).map.spec_tile(i, j), fov.spec_is_in_fov(i, j))
                    } else {
                        old(game).map.spec_tile(i, j)
                    },
            decreases height - y,
        {
            let visible = fov.is_in_fov(x, y);
            let tile = game.map.tile(x, y);
            let colour = tile_colour(visible, tile.block_sight);
            // Since it is visible, explore it.
            let explored = tile.explored || visible;
            game.map.set_tile(
                x,
                y,
                Tile { blocked: tile.blocked, explored, block_sight: tile.block_sight },
            );
            // Show explored tiles only; any visible tile is explored
            // already.
            if explored {
                column.push(Some(colour));
            } else {
                column.push(None);
            }
            y = y + 1;
        }
        backgrounds.push(column);
        x = x + 1;
    }

    // The player's stats.
    let (hp, max_hp) = player_stats(objects);
    Frame { glyphs, backgrounds, hp, max_hp }
}

} // verus!
