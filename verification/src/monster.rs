//! The monsters that live in the dungeon.

use crate::colour::Colour;
use crate::object::{Ai, DeathCallback, Fighter, Object, ObjectView};
use vstd::prelude::*;

verus! {

/// An orc that stands on `(x, y)`.
pub open spec fn spec_orc(x: int, y: int) -> ObjectView {
    ObjectView {
        x,
        y,
        sprite: 'O',
        colour: Colour::spec_desaturated_green(),
        name: "Orc"@,
        blocks: true,
        alive: true,
        fighter: Some(
            Fighter { max_hp: 10, hp: 10, defence: 0, power: 3, on_death: DeathCallback::Monster },
        ),
        ai: Some(Ai::Basic),
    }
}

/// A troll that stands on `(x, y)`.
pub open spec fn spec_troll(x: int, y: int) -> ObjectView {
    ObjectView {
        x,
        y,
        sprite: 'T',
        colour: Colour::spec_darker_green(),
        name: "Troll"@,
        blocks: true,
        alive: true,
        fighter: Some(
            Fighter { max_hp: 16, hp: 16, defence: 1, power: 4, on_death: DeathCallback::Monster },
        ),
        ai: Some(Ai::Basic),
    }
}

/// Whether `object` is a monster as it comes into the dungeon: an orc or
/// a troll, alive and unhurt.
pub open spec fn is_fresh_monster(object: ObjectView) -> bool {
    object == spec_orc(object.x, object.y) || object == spec_troll(object.x, object.y)
}

/// Creates an orc on `(x, y)`.
pub fn orc(x: i32, y: i32) -> (monster: Object)
    ensures
        monster@ == spec_orc(x as int, y as int),
{
    let mut orc = Object::new(x, y, 'O', Colour::desaturated_green(), "Orc", true);
    orc.fighter = Some(
        Fighter { max_hp: 10, hp: 10, defence: 0, power: 3, on_death: DeathCallback::Monster },
    );
    orc.ai = Some(Ai::Basic);
    orc.alive = true;
    orc
}

/// Creates a troll on `(x, y)`.
pub fn troll(x: i32, y: i32) -> (monster: Object)
    ensures
        monster@ == spec_troll(x as int, y as int),
{
    let mut troll = Object::new(x, y, 'T', Colour::darker_green(), "Troll", true);
    troll.fighter = Some(
        Fighter { max_hp: 16, hp: 16, defence: 1, power: 4, on_death: DeathCallback::Monster },
    );
    troll.ai = Some(Ai::Basic);
    troll.alive = true;
    troll
}

} // verus!
