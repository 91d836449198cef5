use rusty_rogue::colour::Colour;
use rusty_rogue::object::{
    monster_death, player_death, Ai, DeathCallback, Event, Fighter, Object,
};

fn white() -> Colour {
    Colour { r: 255, g: 255, b: 255 }
}

fn fighter(hp: i32, defence: i32, power: i32, on_death: DeathCallback) -> Fighter {
    Fighter { max_hp: hp, hp, defence, power, on_death }
}

fn player() -> Object {
    let mut player = Object::new(0, 0, '@', white(), "Player", true);
    player.alive = true;
    player.fighter = Some(fighter(30, 2, 5, DeathCallback::Player));
    player
}

fn monster(hp: i32, defence: i32, power: i32) -> Object {
    let mut monster = Object::new(1, 0, 'O', Colour::desaturated_green(), "Orc", true);
    monster.alive = true;
    monster.fighter = Some(fighter(hp, defence, power, DeathCallback::Monster));
    monster.ai = Some(Ai::Basic);
    monster
}

#[test]
fn new_object_is_inert() {
    let o = Object::new(3, -4, 'x', white(), "thing", false);
    assert_eq!(o.pos(), (3, -4));
    assert_eq!(o.sprite, 'x');
    assert_eq!(o.colour, white());
    assert_eq!(o.name, "thing");
    assert!(!o.blocks);
    assert!(!o.alive);
    assert!(o.fighter.is_none());
    assert!(o.ai.is_none());
}

#[test]
fn set_pos_moves_only_the_position() {
    let mut o = monster(10, 0, 3);
    o.set_pos(7, 9);
    assert_eq!(o.pos(), (7, 9));
    assert_eq!(o.name, "Orc");
    assert_eq!(o.fighter, Some(fighter(10, 0, 3, DeathCallback::Monster)));
    assert!(o.alive && o.blocks);
}

#[test]
fn attack_deals_power_less_defence() {
    let mut attacker = monster(10, 0, 5);
    let mut defender = monster(10, 2, 0);
    let events = attacker.attack(&mut defender);
    assert_eq!(defender.fighter.unwrap().hp, 7);
    assert_eq!(events.len(), 1);
    match &events[0] {
        Event::Attack { attacker, target, damage } => {
            assert_eq!(attacker, "Orc");
            assert_eq!(target, "Orc");
            assert_eq!(*damage, 3);
        }
        other => panic!("unexpected event {:?}", other),
    }
}

#[test]
fn weak_attack_has_no_effect() {
    let mut attacker = monster(10, 0, 2);
    let mut defender = monster(10, 5, 0);
    let events = attacker.attack(&mut defender);
    assert_eq!(defender.fighter.unwrap().hp, 10);
    assert!(defender.alive);
    assert_eq!(events.len(), 1);
    assert!(matches!(&events[0], Event::NoEffect { attacker, target }
        if attacker == "Orc" && target == "Orc"));
}

#[test]
fn attack_of_equal_power_and_defence_has_no_effect() {
    let mut attacker = monster(10, 0, 4);
    let mut defender = monster(10, 4, 0);
    let events = attacker.attack(&mut defender);
    assert_eq!(defender.fighter.unwrap().hp, 10);
    assert!(matches!(&events[0], Event::NoEffect { .. }));
}

#[test]
fn attack_leaves_the_attacker_alone() {
    let mut attacker = player();
    let mut defender = monster(10, 0, 3);
    attacker.attack(&mut defender);
    assert_eq!(attacker.fighter, Some(fighter(30, 2, 5, DeathCallback::Player)));
    assert_eq!(attacker.name, "Player");
    assert!(attacker.alive);
}

#[test]
fn object_without_fighter_attacks_with_power_zero() {
    let mut npc = Object::new(0, 0, '@', white(), "NPC", true);
    npc.alive = true;
    let mut defender = monster(10, 0, 3);
    let events = npc.attack(&mut defender);
    assert_eq!(defender.fighter.unwrap().hp, 10);
    assert!(matches!(&events[0], Event::NoEffect { .. }));
}

#[test]
fn player_kills_monster_in_two_hits() {
    let mut player = player();
    let mut orc = monster(10, 0, 3);

    let first = player.attack(&mut orc);
    assert_eq!(first.len(), 1);
    assert_eq!(orc.fighter.unwrap().hp, 5);
    assert!(orc.alive);
    assert_eq!(orc.name, "Orc");

    let second = player.attack(&mut orc);
    assert_eq!(second.len(), 2);
    assert!(matches!(&second[0], Event::Attack { damage: 5, .. }));
    assert!(matches!(&second[1], Event::MonsterDied { name } if name == "Orc"));
    assert!(!orc.alive);
    assert_eq!(orc.sprite, '%');
    assert_eq!(orc.colour, Colour::dark_red());
    assert!(!orc.blocks);
    assert!(orc.fighter.is_none());
    assert!(orc.ai.is_none());
    assert_eq!(orc.name, "remains of Orc");

    // A third hit finds a corpse and changes nothing.
    let third = player.attack(&mut orc);
    assert_eq!(third.len(), 1);
    assert!(matches!(&third[0], Event::Attack { damage: 5, .. }));
    assert_eq!(orc.name, "remains of Orc");
    assert_eq!(orc.sprite, '%');
    assert!(!orc.alive);
}

#[test]
fn take_damage_ignores_amounts_that_are_not_positive() {
    let mut orc = monster(10, 0, 3);
    assert!(orc.take_damage(0).is_empty());
    assert!(orc.take_damage(-5).is_empty());
    assert_eq!(orc.fighter.unwrap().hp, 10);
    assert!(orc.alive);
}

#[test]
fn take_damage_reduces_hit_points() {
    let mut orc = monster(10, 0, 3);
    assert!(orc.take_damage(4).is_empty());
    assert_eq!(orc.fighter.unwrap().hp, 6);
    assert_eq!(orc.fighter.unwrap().max_hp, 10);
    assert!(orc.alive);
}

#[test]
fn take_damage_to_exactly_zero_kills() {
    let mut orc = monster(10, 0, 3);
    let events = orc.take_damage(10);
    assert_eq!(events.len(), 1);
    assert!(!orc.alive);
    assert_eq!(orc.name, "remains of Orc");
}

#[test]
fn take_damage_on_a_dead_monster_changes_nothing() {
    let mut orc = monster(10, 0, 3);
    orc.take_damage(25);
    let name = orc.name.clone();
    let sprite = orc.sprite;
    let colour = orc.colour;
    let events = orc.take_damage(25);
    assert!(events.is_empty());
    assert_eq!(orc.name, name);
    assert_eq!(orc.sprite, sprite);
    assert_eq!(orc.colour, colour);
    assert!(!orc.alive);
    assert!(orc.fighter.is_none());
}

#[test]
fn take_damage_on_a_dead_player_changes_nothing() {
    let mut player = player();
    let events = player.take_damage(40);
    assert_eq!(events.len(), 1);
    assert!(matches!(&events[0], Event::PlayerDied));
    assert!(!player.alive);
    assert_eq!(player.sprite, '%');
    assert_eq!(player.colour, Colour::dark_red());
    assert_eq!(player.name, "Player");
    assert!(player.blocks);
    assert_eq!(player.fighter.unwrap().hp, -10);

    let again = player.take_damage(40);
    assert!(again.is_empty());
    assert_eq!(player.fighter.unwrap().hp, -10);
    assert_eq!(player.name, "Player");
    assert_eq!(player.sprite, '%');
}

#[test]
fn take_damage_without_fighter_changes_nothing() {
    let mut npc = Object::new(0, 0, '@', white(), "NPC", true);
    npc.alive = true;
    assert!(npc.take_damage(100).is_empty());
    assert!(npc.alive);
    assert_eq!(npc.sprite, '@');
}

#[test]
fn player_death_keeps_the_fighter() {
    let mut player = player();
    let event = player_death(&mut player);
    assert!(matches!(event, Event::PlayerDied));
    assert_eq!(player.sprite, '%');
    assert_eq!(player.colour, Colour { r: 191, g: 0, b: 0 });
    assert!(player.fighter.is_some());
    assert!(player.blocks);
    assert_eq!(player.name, "Player");
}

#[test]
fn monster_death_makes_a_corpse() {
    let mut troll = monster(16, 1, 4);
    troll.name = String::from("Troll");
    let event = monster_death(&mut troll);
    assert!(matches!(event, Event::MonsterDied { name } if name == "Troll"));
    assert_eq!(troll.name, "remains of Troll");
    assert_eq!(troll.sprite, '%');
    assert!(!troll.blocks);
    assert!(troll.fighter.is_none());
    assert!(troll.ai.is_none());
}

#[test]
fn callback_runs_the_named_transition() {
    let mut a = monster(10, 0, 3);
    let mut b = monster(10, 0, 3);
    DeathCallback::Player.callback(&mut a);
    DeathCallback::Monster.callback(&mut b);
    assert_eq!(a.name, "Orc");
    assert!(a.fighter.is_some());
    assert_eq!(b.name, "remains of Orc");
    assert!(b.fighter.is_none());
}

#[test]
fn distance_squared_is_exact() {
    let a = Object::new(1, 2, 'a', white(), "a", false);
    let b = Object::new(4, 6, 'b', white(), "b", false);
    assert_eq!(a.distance_squared_to(&b), 25);
    assert_eq!(b.distance_squared_to(&a), 25);
    assert_eq!(a.distance_squared_to(&a), 0);
    let far = Object::new(i32::MAX, i32::MIN, 'c', white(), "c", false);
    let other = Object::new(i32::MIN, i32::MAX, 'd', white(), "d", false);
    let side: i128 = 4294967295;
    assert_eq!(far.distance_squared_to(&other), 2 * side * side);
}
