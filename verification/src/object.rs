//! Objects: the player, monsters, corpses and anything else that has a
//! place on the map, together with the combat rules that act on them.

use crate::colour::Colour;
use vstd::prelude::*;
use vstd::string::StringExecFns;

verus! {

/// What happens to an object when its hit points run out.
#[derive(Clone, Copy, Debug, PartialEq, Eq, Structural)]
pub enum DeathCallback {
    Player,
    Monster,
}

/// Combat-related properties of an object.
#[derive(Clone, Copy, Debug, PartialEq, Eq, Structural)]
pub struct Fighter {
    pub max_hp: i32,
    pub hp: i32,
    pub defence: i32,
    pub power: i32,
    pub on_death: DeathCallback,
}

/// Monster artificial intelligence.
#[derive(Clone, Copy, Debug, PartialEq, Eq, Structural)]
pub enum Ai {
    Basic,
}

/// A generic object: the player, a monster, an item, the stairs.
///
/// It is always represented by a character on screen.
#[derive(Debug)]
pub struct Object {
    pub x: i32,
    pub y: i32,
    /// The character displayed on screen.
    pub sprite: char,
    pub colour: Colour,
    pub name: String,
    /// Whether the object keeps others out of its cell.
    pub blocks: bool,
    pub alive: bool,
    pub fighter: Option<Fighter>,
    pub ai: Option<Ai>,
}

/// The mathematical value of an [`Object`].
pub struct ObjectView {
    pub x: int,
    pub y: int,
    pub sprite: char,
    pub colour: Colour,
    pub name: Seq<char>,
    pub blocks: bool,
    pub alive: bool,
    pub fighter: Option<Fighter>,
    pub ai: Option<Ai>,
}

impl View for Object {
    type V = ObjectView;

    open spec fn view(&self) -> ObjectView {
        ObjectView {
            x: self.x as int,
            y: self.y as int,
            sprite: self.sprite,
            colour: self.colour,
            name: self.name@,
            blocks: self.blocks,
            alive: self.alive,
            fighter: self.fighter,
            ai: self.ai,
        }
    }
}

/// Something that happened during combat, for the caller to report.
#[derive(Debug)]
pub enum Event {
    /// `attacker` hit `target` for `damage` hit points.
    Attack { attacker: String, target: String, damage: i32 },
    /// `attacker` tried to hit `target` and did no damage.
    NoEffect { attacker: String, target: String },
    /// The player died.
    PlayerDied,
    /// The monster that was called `name` died.
    MonsterDied { name: String },
}

/// The mathematical value of an [`Event`].
pub enum EventView {
    Attack { attacker: Seq<char>, target: Seq<char>, damage: int },
    NoEffect { attacker: Seq<char>, target: Seq<char> },
    PlayerDied,
    MonsterDied { name: Seq<char> },
}

impl View for Event {
    type V = EventView;

    open spec fn view(&self) -> EventView {
        match self {
            Event::Attack { attacker, target, damage } => EventView::Attack {
                attacker: attacker@,
                target: target@,
                damage: *damage as int,
            },
            Event::NoEffect { attacker, target } => EventView::NoEffect {
                attacker: attacker@,
                target: target@,
            },
            Event::PlayerDied => EventView::PlayerDied,
            Event::MonsterDied { name } => EventView::MonsterDied { name: name@ },
        }
    }
}

/// The views of a sequence of events, in order.
pub open spec fn event_views(events: Seq<Event>) -> Seq<EventView> {
    Seq::new(events.len(), |i: int| events[i]@)
}

/// The sprite of a corpse.
pub open spec fn corpse_sprite() -> char {
    '%'
}

impl ObjectView {
    /// The attack power, or 0 for an object that cannot fight.
    pub open spec fn power(self) -> int {
        match self.fighter {
            Some(f) => f.power as int,
            None => 0,
        }
    }

    /// The defence, or 0 for an object that cannot fight.
    pub open spec fn defence(self) -> int {
        match self.fighter {
            Some(f) => f.defence as int,
            None => 0,
        }
    }

    /// Whether damage can still reach this object: it is alive and it
    /// can fight.
    pub open spec fn vulnerable(self) -> bool {
        self.alive && self.fighter is Some
    }

    /// The object after the player's death: a corpse in sprite and colour,
    /// everything else as before.
    pub open spec fn after_player_death(self) -> ObjectView {
        ObjectView { sprite: corpse_sprite(), colour: Colour::spec_dark_red(), ..self }
    }

    /// The object after a monster's death: a corpse that blocks nobody,
    /// cannot fight and does not act, named after what it was.
    pub open spec fn after_monster_death(self) -> ObjectView {
        ObjectView {
            sprite: corpse_sprite(),
            colour: Colour::spec_dark_red(),
            blocks: false,
            fighter: None,
            ai: None,
            name: "remains of "@ + self.name,
            ..self
        }
    }

    /// The object after the death transition that `policy` names.
    pub open spec fn after_death(self, policy: DeathCallback) -> ObjectView {
        match policy {
            DeathCallback::Player => self.after_player_death(),
            DeathCallback::Monster => self.after_monster_death(),
        }
    }

    /// The event that the death transition `policy` reports.
    pub open spec fn death_event(self, policy: DeathCallback) -> EventView {
        match policy {
            DeathCallback::Player => EventView::PlayerDied,
            DeathCallback::Monster => EventView::MonsterDied { name: self.name },
        }
    }

    /// The hit points left after `damage`; only a positive amount counts.
    pub open spec fn hp_after(self, damage: int) -> int
        recommends
            self.fighter is Some,
    {
        if damage > 0 {
            self.fighter.unwrap().hp - damage
        } else {
            self.fighter.unwrap().hp as int
        }
    }

    /// Whether `damage` kills this object.
    pub open spec fn dies_from(self, damage: int) -> bool {
        self.vulnerable() && self.hp_after(damage) <= 0
    }

    /// The object with its hit points reduced by `damage`, before any
    /// death transition.
    pub open spec fn hit(self, damage: int) -> ObjectView
        recommends
            self.fighter is Some,
    {
        ObjectView {
            fighter: Some(
                Fighter { hp: self.hp_after(damage) as i32, ..self.fighter.unwrap() },
            ),
            ..self
        }
    }

    /// The object after taking `damage`. An object that is not alive or
    /// cannot fight is left as it is. Otherwise a positive amount is taken
    /// from its hit points, and when they are used up the object stops
    /// being alive and goes through its death transition.
    pub open spec fn damaged(self, damage: int) -> ObjectView {
        if !self.vulnerable() {
            self
        } else if self.hp_after(damage) <= 0 {
            ObjectView { alive: false, ..self.hit(damage) }.after_death(
                self.fighter.unwrap().on_death,
            )
        } else {
            self.hit(damage)
        }
    }

    /// What taking `damage` reports: the death event when the object dies
    /// of it, nothing otherwise.
    pub open spec fn damage_events(self, damage: int) -> Seq<EventView> {
        if self.dies_from(damage) {
            seq![self.death_event(self.fighter.unwrap().on_death)]
        } else {
            Seq::empty()
        }
    }

    /// The damage of an attack by `self` on `target`: power less defence.
    pub open spec fn attack_damage(self, target: ObjectView) -> int {
        self.power() - target.defence()
    }

    /// Whether the arithmetic of an attack by `self` on `target` stays
    /// within the range of the hit points' type.
    pub open spec fn can_attack(self, target: ObjectView) -> bool {
        &&& i32::MIN <= self.attack_damage(target) <= i32::MAX
        &&& target.vulnerable() ==> target.hp_after(self.attack_damage(target)) >= i32::MIN
    }

    /// The target after an attack by `self`.
    pub open spec fn attacked_by(self, attacker: ObjectView) -> ObjectView {
        if attacker.attack_damage(self) > 0 {
            self.damaged(attacker.attack_damage(self))
        } else {
            self
        }
    }

    /// What an attack by `self` on `target` reports: the hit and, if the
    /// target dies of it, its death; or that the attack had no effect.
    pub open spec fn attack_events(self, target: ObjectView) -> Seq<EventView> {
        let damage = self.attack_damage(target);
        if damage > 0 {
            seq![EventView::Attack { attacker: self.name, target: target.name, damage }]
                + target.damage_events(damage)
        } else {
            seq![EventView::NoEffect { attacker: self.name, target: target.name }]
        }
    }
}

/// Damage does nothing to an object that is not alive: the object stays
/// as it is, name and sprite included, and no death is reported.
pub proof fn lemma_dead_takes_no_damage(object: ObjectView, damage: int)
    requires
        !object.alive,
    ensures
        object.damaged(damage) == object,
        object.damage_events(damage) == Seq::<EventView>::empty(),
{
}

/// An object dies once: after the damage that kills it, no further
/// damage changes it or reports another death.
pub proof fn lemma_death_is_final(object: ObjectView, fatal: int, later: int)
    requires
        object.dies_from(fatal),
    ensures
        !object.damaged(fatal).alive,
        object.damaged(fatal).damaged(later) == object.damaged(fatal),
        object.damaged(fatal).damage_events(later) == Seq::<EventView>::empty(),
{
}

/// Turns the player into a corpse. The game has ended.
pub fn player_death(player: &mut Object) -> (event: Event)
    ensures
        final(player)@ == old(player)@.after_player_death(),
        event@ == old(player)@.death_event(DeathCallback::Player),
{
    player.sprite = '%';
    player.colour = Colour::dark_red();
    Event::PlayerDied
}

/// Turns a monster into a corpse: it does not block, cannot be attacked
/// and does not move.
pub fn monster_death(monster: &mut Object) -> (event: Event)
    ensures
        final(monster)@ == old(monster)@.after_monster_death(),
        event@ == old(monster)@.death_event(DeathCallback::Monster),
{
    let event = Event::MonsterDied { name: monster.name.clone() };
    monster.sprite = '%';
    monster.colour = Colour::dark_red();
    monster.blocks = false;
    monster.fighter = None;
    monster.ai = None;
    let mut name = String::from_str("remains of ");
    name.append(monster.name.as_str());
    monster.name = name;
    event
}

impl DeathCallback {
    /// Runs the death transition that `self` names on `object`.
    pub fn callback(self, object: &mut Object) -> (event: Event)
        ensures
            final(object)@ == old(object)@.after_death(self),
            event@ == old(object)@.death_event(self),
    {
        match self {
            DeathCallback::Player => player_death(object),
            DeathCallback::Monster => monster_death(object),
        }
    }
}

impl Object {
    /// A new object at `(x, y)`. It is not alive, cannot fight and does
    /// not act until its fields say otherwise.
    pub fn new(x: i32, y: i32, sprite: char, colour: Colour, name: &str, blocks: bool) -> (o:
        Object)
        ensures
            o@ == (ObjectView {
                x: x as int,
                y: y as int,
                sprite,
                colour,
                name: name@,
                blocks,
                alive: false,
                fighter: None,
                ai: None,
            }),
    {
        Object {
            x,
            y,
            sprite,
            colour,
            name: String::from_str(name),
            blocks,
            alive: false,
            fighter: None,
            ai: None,
        }
    }

    /// The cell the object stands on.
    pub fn pos(&self) -> (p: (i32, i32))
        ensures
            p == (self.x, self.y),
    {
        (self.x, self.y)
    }

    /// Moves the object to `(x, y)`.
    pub fn set_pos(&mut self, x: i32, y: i32)
        ensures
            final(self)@ == (ObjectView { x: x as int, y: y as int, ..old(self)@ }),
    {
        self.x = x;
        self.y = y;
    }

    /// Applies `damage` to the object and, when its hit points are used up,
    /// runs its death transition. Only a positive amount is taken from the
    /// hit points. An object that is not alive, or that cannot fight, is
    /// left as it is, so that nothing dies twice. Returns the death event
    /// if the object died, and nothing otherwise.
    pub fn take_damage(&mut self, damage: i32) -> (events: Vec<Event>)
        requires
            old(self)@.vulnerable() ==> old(self)@.hp_after(damage as int) >= i32::MIN,
        ensures
            final(self)@ == old(self)@.damaged(damage as int),
            event_views(events@) == old(self)@.damage_events(damage as int),
    {
        let mut events: Vec<Event> = Vec::new();
        if !self.alive {
            return events;
        }
        match self.fighter {
            Some(fighter) => {
                let hp: i32 = if damage > 0 {
                    fighter.hp - damage
                } else {
                    fighter.hp
                };
                self.fighter = Some(
                    Fighter {
                        max_hp: fighter.max_hp,
                        hp,
                        defence: fighter.defence,
                        power: fighter.power,
                        on_death: fighter.on_death,
                    },
                );
                if hp <= 0 {
                    self.alive = false;
                    let event = fighter.on_death.callback(self);
                    events.push(event);
                }
            },
            None => {},
        }
        events
    }

    /// Attacks `target`. The damage is the attacker's power less the
    /// target's defence; a positive amount is applied to the target, and
    /// anything else has no effect. Returns what happened, in order.
    pub fn attack(&mut self, target: &mut Object) -> (events: Vec<Event>)
        requires
            old(self)@.can_attack(old(target)@),
        ensures
            *final(self) == *old(self),
            final(target)@ == old(target)@.attacked_by(old(self)@),
            event_views(events@) == old(self)@.attack_events(old(target)@),
    {
        let power: i32 = match self.fighter {
            Some(f) => f.power,
            None => 0,
        };
        let defence: i32 = match target.fighter {
            Some(f) => f.defence,
            None => 0,
        };
        // A simple formula for attack damage.
        let damage: i32 = power - defence;
        let mut events: Vec<Event> = Vec::new();
        if damage > 0 {
            events.push(
                Event::Attack {
                    attacker: self.name.clone(),
                    target: target.name.clone(),
                    damage,
                },
            );
            let mut deaths = target.take_damage(damage);
            events.append(&mut deaths);
        } else {
            events.push(
                Event::NoEffect { attacker: self.name.clone(), target: target.name.clone() },
            );
        }
        events
    }

    /// The square of the distance to another object.
    pub fn distance_squared_to(&self, other: &Object) -> (d: i128)
        ensures
            d == (other.x - self.x) * (other.x - self.x) + (other.y - self.y) * (other.y
                - self.y),
    {
        let dx: i128 = other.x as i128 - self.x as i128;
        let dy: i128 = other.y as i128 - self.y as i128;
        assert(dx * dx <= 0x1_0000_0000 * 0x1_0000_0000) by (nonlinear_arith)
            requires
                -0x1_0000_0000 <= dx <= 0x1_0000_0000,
        ;
        assert(dy * dy <= 0x1_0000_0000 * 0x1_0000_0000) by (nonlinear_arith)
            requires
                -0x1_0000_0000 <= dy <= 0x1_0000_0000,
        ;
        assert(dx * dx >= 0) by (nonlinear_arith);
        assert(dy * dy >= 0) by (nonlinear_arith);
        dx * dx + dy * dy
    }
}

} // verus!
