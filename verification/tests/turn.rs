use rusty_rogue::ai::{ai_take_turn, move_towards, unit_component};
use rusty_rogue::carve::create_room;
use rusty_rogue::colour::Colour;
use rusty_rogue::fov::FovMap;
use rusty_rogue::grid::Grid;
use rusty_rogue::monster::{orc, troll};
use rusty_rogue::object::{DeathCallback, Event, Fighter, Object};
use rusty_rogue::player::{
    find_target, handle_keys, player_move_or_attack, Intent, PlayerAction,
};
use rusty_rogue::rect::Rect;
use rusty_rogue::turn::{ai_turns, play_turn};
use rusty_rogue::world::{is_blocked, move_by, mut_two, Game, PLAYER};

fn white() -> Colour {
    Colour { r: 255, g: 255, b: 255 }
}

fn player_at(x: i32, y: i32) -> Object {
    let mut player = Object::new(x, y, '@', white(), "Player", true);
    player.alive = true;
    player.fighter = Some(Fighter {
        max_hp: 30,
        hp: 30,
        defence: 2,
        power: 5,
        on_death: DeathCallback::Player,
    });
    player
}

fn npc_at(x: i32, y: i32) -> Object {
    let mut npc = Object::new(x, y, '@', Colour { r: 255, g: 255, b: 0 }, "NPC", true);
    npc.alive = true;
    npc
}

/// A grid of 9 by 9 cells whose inside, from 1 to 7 on both axes, is floor.
fn hall() -> Game {
    let mut map = Grid::new(9, 9);
    create_room(Rect::new(0, 0, 8, 8), &mut map);
    Game { map }
}

fn lit(game: &Game) -> FovMap {
    let mut fov = FovMap::build(&game.map);
    for x in 0..game.map.width() {
        for y in 0..game.map.height() {
            fov.set_in_fov(x, y, true);
        }
    }
    fov
}

fn dark(game: &Game) -> FovMap {
    FovMap::build(&game.map)
}

fn positions(objects: &[Object]) -> Vec<(i32, i32)> {
    objects.iter().map(|o| o.pos()).collect()
}

#[test]
fn player_is_the_first_object() {
    assert_eq!(PLAYER, 0);
}

#[test]
fn walls_block() {
    let game = hall();
    let objects: Vec<Object> = Vec::new();
    assert!(is_blocked(0, 0, &game.map, &objects));
    assert!(is_blocked(8, 4, &game.map, &objects));
    assert!(!is_blocked(1, 1, &game.map, &objects));
    assert!(!is_blocked(7, 7, &game.map, &objects));
}

#[test]
fn blocking_objects_block_and_others_do_not() {
    let game = hall();
    let mut corpse = orc(3, 3);
    corpse.blocks = false;
    let objects = vec![player_at(2, 2), corpse];
    assert!(is_blocked(2, 2, &game.map, &objects));
    assert!(!is_blocked(3, 3, &game.map, &objects));
    assert!(!is_blocked(4, 4, &game.map, &objects));
}

#[test]
fn move_by_moves_onto_free_floor() {
    let game = hall();
    let mut objects = vec![player_at(2, 2), orc(5, 5)];
    move_by(0, 1, -1, &game.map, &mut objects);
    assert_eq!(positions(&objects), vec![(3, 1), (5, 5)]);
    move_by(1, -2, 0, &game.map, &mut objects);
    assert_eq!(positions(&objects), vec![(3, 1), (3, 5)]);
}

#[test]
fn move_by_stops_at_walls_and_at_blocking_objects() {
    let game = hall();
    let mut objects = vec![player_at(1, 1), orc(2, 1)];
    move_by(0, -1, 0, &game.map, &mut objects);
    assert_eq!(positions(&objects), vec![(1, 1), (2, 1)]);
    move_by(0, 1, 0, &game.map, &mut objects);
    assert_eq!(positions(&objects), vec![(1, 1), (2, 1)]);
    move_by(1, -1, 0, &game.map, &mut objects);
    assert_eq!(positions(&objects), vec![(1, 1), (2, 1)]);
}

#[test]
fn move_by_nothing_is_blocked_by_oneself() {
    let game = hall();
    let mut objects = vec![player_at(1, 1)];
    move_by(0, 0, 0, &game.map, &mut objects);
    assert_eq!(positions(&objects), vec![(1, 1)]);
}

#[test]
fn mut_two_hands_out_both_in_either_order() {
    let mut items = vec![10, 20, 30, 40];
    {
        let (a, b) = mut_two(1, 3, &mut items);
        assert_eq!((*a, *b), (20, 40));
        *a = 21;
        *b = 41;
    }
    assert_eq!(items, vec![10, 21, 30, 41]);
    {
        let (a, b) = mut_two(2, 0, &mut items);
        assert_eq!((*a, *b), (30, 10));
        *a = 31;
        *b = 11;
    }
    assert_eq!(items, vec![11, 21, 31, 41]);
}

#[test]
fn find_target_takes_the_first_fighter_on_the_cell() {
    let mut corpse = orc(3, 3);
    corpse.fighter = None;
    let objects = vec![player_at(1, 1), corpse, troll(3, 3), orc(3, 3), npc_at(4, 4)];
    assert_eq!(find_target(3, 3, &objects), Some(2));
    assert_eq!(find_target(1, 1, &objects), Some(0));
    assert_eq!(find_target(4, 4, &objects), None);
    assert_eq!(find_target(5, 5, &objects), None);
}

#[test]
fn player_moves_when_nothing_is_in_the_way() {
    let game = hall();
    let mut objects = vec![player_at(3, 3), orc(6, 6)];
    let events = player_move_or_attack(0, 1, &game, &mut objects);
    assert!(events.is_empty());
    assert_eq!(positions(&objects), vec![(3, 4), (6, 6)]);
}

#[test]
fn player_stays_in_front_of_a_wall() {
    let game = hall();
    let mut objects = vec![player_at(1, 1)];
    let events = player_move_or_attack(-1, 0, &game, &mut objects);
    assert!(events.is_empty());
    assert_eq!(positions(&objects), vec![(1, 1)]);
}

#[test]
fn player_attacks_what_can_fight() {
    let game = hall();
    let mut objects = vec![player_at(3, 3), orc(4, 3)];
    let events = player_move_or_attack(1, 0, &game, &mut objects);
    assert_eq!(positions(&objects), vec![(3, 3), (4, 3)]);
    assert_eq!(objects[1].fighter.unwrap().hp, 5);
    assert_eq!(events.len(), 1);
    assert!(matches!(&events[0], Event::Attack { attacker, target, damage: 5 }
        if attacker == "Player" && target == "Orc"));
}

#[test]
fn player_is_stopped_by_an_object_that_cannot_fight() {
    let game = hall();
    let mut objects = vec![player_at(3, 3), npc_at(3, 2)];
    let events = player_move_or_attack(0, -1, &game, &mut objects);
    assert!(events.is_empty());
    assert_eq!(positions(&objects), vec![(3, 3), (3, 2)]);
}

#[test]
fn player_walks_over_a_corpse() {
    let game = hall();
    let mut objects = vec![player_at(3, 3), orc(4, 3)];
    player_move_or_attack(1, 0, &game, &mut objects);
    let events = player_move_or_attack(1, 0, &game, &mut objects);
    assert_eq!(events.len(), 2);
    assert_eq!(objects[1].name, "remains of Orc");
    let events = player_move_or_attack(1, 0, &game, &mut objects);
    assert!(events.is_empty());
    assert_eq!(positions(&objects), vec![(4, 3), (4, 3)]);
}

#[test]
fn intents_map_to_steps_and_actions() {
    let game = hall();
    let mut objects = vec![player_at(4, 4)];
    let (action, events) = handle_keys(Intent::MoveUp, &game, &mut objects);
    assert_eq!(action, PlayerAction::TookTurn);
    assert!(events.is_empty());
    assert_eq!(objects[0].pos(), (4, 3));
    let (action, _) = handle_keys(Intent::MoveLeft, &game, &mut objects);
    assert_eq!(action, PlayerAction::TookTurn);
    assert_eq!(objects[0].pos(), (3, 3));
    let (action, _) = handle_keys(Intent::MoveDown, &game, &mut objects);
    assert_eq!(action, PlayerAction::TookTurn);
    assert_eq!(objects[0].pos(), (3, 4));
    let (action, _) = handle_keys(Intent::MoveRight, &game, &mut objects);
    assert_eq!(action, PlayerAction::TookTurn);
    assert_eq!(objects[0].pos(), (4, 4));
}

#[test]
fn other_intents_change_nothing() {
    let game = hall();
    let mut objects = vec![player_at(4, 4), orc(4, 5)];
    for (intent, expected) in [
        (Intent::ToggleFullscreen, PlayerAction::DidntTakeTurn),
        (Intent::Idle, PlayerAction::DidntTakeTurn),
        (Intent::Exit, PlayerAction::Exit),
    ] {
        let (action, events) = handle_keys(intent, &game, &mut objects);
        assert_eq!(action, expected);
        assert!(events.is_empty());
        assert_eq!(positions(&objects), vec![(4, 4), (4, 5)]);
        assert_eq!(objects[1].fighter.unwrap().hp, 10);
    }
}

#[test]
fn a_move_into_a_wall_still_takes_the_turn() {
    let game = hall();
    let mut objects = vec![player_at(1, 1)];
    let (action, _) = handle_keys(Intent::MoveUp, &game, &mut objects);
    assert_eq!(action, PlayerAction::TookTurn);
    assert_eq!(objects[0].pos(), (1, 1));
}

#[test]
fn unit_component_rounds_to_the_nearest_direction() {
    assert_eq!(unit_component(5, 0), 1);
    assert_eq!(unit_component(0, 5), 0);
    assert_eq!(unit_component(-5, 0), -1);
    assert_eq!(unit_component(1, 1), 1);
    assert_eq!(unit_component(-1, 1), -1);
    assert_eq!(unit_component(1, 2), 0);
    assert_eq!(unit_component(2, 1), 1);
    assert_eq!(unit_component(3, 5), 1);
    assert_eq!(unit_component(4, 7), 0);
    assert_eq!(unit_component(-4, -7), 0);
    assert_eq!(unit_component(-7, -4), -1);
    assert_eq!(unit_component(0, 0), 0);
    assert_eq!(unit_component(4294967296, -4294967296), 1);
}

#[test]
fn move_towards_takes_one_step_in_the_rounded_direction() {
    let game = hall();
    let mut objects = vec![player_at(1, 1), orc(7, 7), orc(7, 1), orc(6, 4)];
    move_towards(1, 1, 1, &game.map, &mut objects);
    assert_eq!(objects[1].pos(), (6, 6));
    move_towards(2, 1, 1, &game.map, &mut objects);
    assert_eq!(objects[2].pos(), (6, 1));
    // From (6, 4) to (1, 1): five to the left, three up.
    move_towards(3, 1, 1, &game.map, &mut objects);
    assert_eq!(objects[3].pos(), (5, 3));
}

#[test]
fn monster_out_of_sight_rests() {
    let game = hall();
    let fov = dark(&game);
    let mut objects = vec![player_at(2, 2), orc(3, 2), orc(6, 6)];
    assert!(ai_take_turn(1, &fov, &game, &mut objects).is_empty());
    assert!(ai_take_turn(2, &fov, &game, &mut objects).is_empty());
    assert_eq!(positions(&objects), vec![(2, 2), (3, 2), (6, 6)]);
    assert_eq!(objects[0].fighter.unwrap().hp, 30);
}

#[test]
fn monster_in_sight_and_far_approaches() {
    let game = hall();
    let fov = lit(&game);
    let mut objects = vec![player_at(2, 2), orc(6, 2)];
    let events = ai_take_turn(1, &fov, &game, &mut objects);
    assert!(events.is_empty());
    assert_eq!(positions(&objects), vec![(2, 2), (5, 2)]);
}

#[test]
fn monster_at_distance_two_approaches() {
    let game = hall();
    let fov = lit(&game);
    let mut objects = vec![player_at(2, 2), orc(4, 2)];
    let events = ai_take_turn(1, &fov, &game, &mut objects);
    assert!(events.is_empty());
    assert_eq!(positions(&objects), vec![(2, 2), (3, 2)]);
    assert_eq!(objects[0].fighter.unwrap().hp, 30);
}

#[test]
fn monster_next_to_the_player_strikes() {
    let game = hall();
    let fov = lit(&game);
    let mut objects = vec![player_at(2, 2), orc(3, 2), troll(3, 3)];
    let events = ai_take_turn(1, &fov, &game, &mut objects);
    assert_eq!(events.len(), 1);
    assert!(matches!(&events[0], Event::Attack { attacker, target, damage: 1 }
        if attacker == "Orc" && target == "Player"));
    assert_eq!(objects[0].fighter.unwrap().hp, 29);
    // The troll stands on a diagonal, nearer than 2.
    let events = ai_take_turn(2, &fov, &game, &mut objects);
    assert!(matches!(&events[0], Event::Attack { damage: 2, .. }));
    assert_eq!(objects[0].fighter.unwrap().hp, 27);
    assert_eq!(positions(&objects), vec![(2, 2), (3, 2), (3, 3)]);
}

#[test]
fn monster_goes_by_the_light_on_its_own_cell() {
    let game = hall();
    let mut fov = dark(&game);
    fov.set_in_fov(3, 2, true);
    let mut objects = vec![player_at(2, 2), orc(3, 2), orc(2, 3)];
    assert_eq!(ai_take_turn(1, &fov, &game, &mut objects).len(), 1);
    assert!(ai_take_turn(2, &fov, &game, &mut objects).is_empty());
    assert_eq!(objects[0].fighter.unwrap().hp, 29);
}

#[test]
fn monster_does_not_strike_a_player_without_hit_points() {
    let game = hall();
    let fov = lit(&game);
    let mut objects = vec![player_at(2, 2), orc(3, 2)];
    objects[0].take_damage(30);
    assert!(!objects[0].alive);
    let events = ai_take_turn(1, &fov, &game, &mut objects);
    assert!(events.is_empty());
    assert_eq!(objects[0].fighter.unwrap().hp, 0);
    assert_eq!(positions(&objects), vec![(2, 2), (3, 2)]);
}

#[test]
fn monster_whose_step_is_taken_stays() {
    let game = hall();
    let fov = lit(&game);
    let mut objects = vec![player_at(2, 2), orc(5, 2), orc(6, 2)];
    let events = ai_take_turn(2, &fov, &game, &mut objects);
    assert!(events.is_empty());
    assert_eq!(positions(&objects), vec![(2, 2), (5, 2), (6, 2)]);
}

#[test]
fn monsters_act_in_the_order_of_the_table() {
    let game = hall();
    let fov = lit(&game);
    // The monster in front comes first in the table: it makes room for
    // the one behind it.
    let mut objects = vec![player_at(1, 4), orc(5, 4), orc(6, 4)];
    let events = ai_turns(&fov, &game, &mut objects);
    assert!(events.is_empty());
    assert_eq!(positions(&objects), vec![(1, 4), (4, 4), (5, 4)]);
    // The other way round, the one behind is still blocked when it acts.
    let mut objects = vec![player_at(1, 4), orc(6, 4), orc(5, 4)];
    ai_turns(&fov, &game, &mut objects);
    assert_eq!(positions(&objects), vec![(1, 4), (6, 4), (4, 4)]);
}

#[test]
fn objects_without_ai_do_not_act() {
    let game = hall();
    let fov = lit(&game);
    let mut tame = orc(5, 5);
    tame.ai = None;
    let mut objects = vec![player_at(2, 2), npc_at(6, 6), tame];
    let events = ai_turns(&fov, &game, &mut objects);
    assert!(events.is_empty());
    assert_eq!(positions(&objects), vec![(2, 2), (6, 6), (5, 5)]);
}

#[test]
fn a_turn_is_the_player_and_then_the_monsters() {
    let game = hall();
    let fov = lit(&game);
    let mut objects = vec![player_at(3, 3), orc(4, 3), troll(7, 7)];
    let (action, events) = play_turn(Intent::MoveRight, &fov, &game, &mut objects);
    assert_eq!(action, PlayerAction::TookTurn);
    assert_eq!(events.len(), 2);
    assert!(matches!(&events[0], Event::Attack { attacker, damage: 5, .. } if attacker == "Player"));
    assert!(matches!(&events[1], Event::Attack { attacker, damage: 1, .. } if attacker == "Orc"));
    assert_eq!(objects[0].fighter.unwrap().hp, 29);
    assert_eq!(objects[1].fighter.unwrap().hp, 5);
    assert_eq!(positions(&objects), vec![(3, 3), (4, 3), (6, 6)]);
}

#[test]
fn a_monster_killed_by_the_player_does_not_act() {
    let game = hall();
    let fov = lit(&game);
    let mut objects = vec![player_at(3, 3), orc(4, 3)];
    objects[1].take_damage(5);
    let (_, events) = play_turn(Intent::MoveRight, &fov, &game, &mut objects);
    assert_eq!(events.len(), 2);
    assert!(matches!(&events[1], Event::MonsterDied { name } if name == "Orc"));
    assert_eq!(objects[0].fighter.unwrap().hp, 30);
    assert!(!objects[1].alive);
}

#[test]
fn no_turn_taken_means_no_monster_acts() {
    let game = hall();
    let fov = lit(&game);
    for intent in [Intent::Idle, Intent::ToggleFullscreen, Intent::Exit] {
        let mut objects = vec![player_at(3, 3), orc(4, 3), troll(7, 7)];
        let (_, events) = play_turn(intent, &fov, &game, &mut objects);
        assert!(events.is_empty());
        assert_eq!(objects[0].fighter.unwrap().hp, 30);
        assert_eq!(positions(&objects), vec![(3, 3), (4, 3), (7, 7)]);
    }
}

#[test]
fn monsters_stop_when_the_player_has_died() {
    let game = hall();
    let fov = lit(&game);
    let mut objects = vec![player_at(3, 3), troll(4, 3), troll(2, 3), troll(7, 7)];
    objects[0].take_damage(28);
    let (action, events) = play_turn(Intent::MoveUp, &fov, &game, &mut objects);
    assert_eq!(action, PlayerAction::TookTurn);
    // The player has stepped up; the first troll, now on a diagonal,
    // strikes and kills, the second finds nobody standing, and the third
    // still comes nearer.
    assert_eq!(events.len(), 2);
    assert!(matches!(&events[0], Event::Attack { attacker, damage: 2, .. } if attacker == "Troll"));
    assert!(matches!(&events[1], Event::PlayerDied));
    assert!(!objects[0].alive);
    assert_eq!(objects[0].sprite, '%');
    assert_eq!(objects[0].fighter.unwrap().hp, 0);
    assert_eq!(positions(&objects), vec![(3, 2), (4, 3), (2, 3), (6, 6)]);

    // With the player dead, a turn moves the player and nothing else.
    let (action, events) = play_turn(Intent::MoveUp, &fov, &game, &mut objects);
    assert_eq!(action, PlayerAction::TookTurn);
    assert!(events.is_empty());
    assert_eq!(positions(&objects), vec![(3, 1), (4, 3), (2, 3), (6, 6)]);
}
