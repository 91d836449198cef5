use rand::rngs::StdRng;
use rand::{Rng, SeedableRng};
use rusty_rogue::colour::Colour;
use rusty_rogue::dungeon::{make_map, DungeonParams};
use rusty_rogue::game::{is_startable, new_game};
use rusty_rogue::fov::FovMap;
use rusty_rogue::object::{DeathCallback, Event, Fighter, Object};
use rusty_rogue::player::{Intent, PlayerAction};
use rusty_rogue::render::{needs_fov_recompute, render_all};
use rusty_rogue::turn::{is_world_ready, play_turn};
use rusty_rogue::world::Game;

fn start(seed: u64) -> (Game, Vec<Object>, FovMap) {
    let mut player = Object::new(0, 0, '@', Colour { r: 255, g: 255, b: 255 }, "Player", true);
    player.alive = true;
    player.fighter = Some(Fighter {
        max_hp: 30,
        hp: 30,
        defence: 2,
        power: 5,
        on_death: DeathCallback::Player,
    });
    let mut npc = Object::new(35, 25, '@', Colour { r: 255, g: 255, b: 0 }, "NPC", true);
    npc.alive = true;
    let mut objects = vec![player, npc];
    let params = DungeonParams::standard();
    assert!(params.is_valid());
    let mut rng = StdRng::seed_from_u64(seed);
    let (game, fov) = new_game(&mut objects, params, &mut rng).unwrap();
    (game, objects, fov)
}

/// Lights every cell within `radius` of the player, walls or not.
fn light_around_player(fov: &mut FovMap, objects: &[Object], radius: i32) {
    let (width, height) = fov.size();
    let (px, py) = objects[0].pos();
    let mut lit = Vec::new();
    for x in 0..width {
        let mut column = Vec::new();
        for y in 0..height {
            column.push((x - px).abs() <= radius && (y - py).abs() <= radius);
        }
        lit.push(column);
    }
    assert!(fov.takes(&lit));
    fov.light(&lit);
}

#[test]
fn generated_world_is_ready_for_play() {
    for seed in 0..20u64 {
        let (game, objects, fov) = start(seed);
        assert!(game.map.is_enclosed());
        assert!(fov.fits(&game.map));
        assert!(is_world_ready(&game.map, &objects));
    }
}

#[test]
fn world_is_not_ready_without_a_player_on_floor() {
    let (game, mut objects, _) = start(1);
    objects[0].set_pos(0, 0);
    assert!(!is_world_ready(&game.map, &objects));
    objects[0].set_pos(-1, 5);
    assert!(!is_world_ready(&game.map, &objects));
    assert!(!is_world_ready(&game.map, &[]));
}

#[test]
fn world_is_not_ready_with_a_living_fighter_without_hit_points() {
    let (game, mut objects, _) = start(1);
    assert!(is_world_ready(&game.map, &objects));
    let mut f = objects[0].fighter.unwrap();
    f.hp = 0;
    objects[0].fighter = Some(f);
    assert!(!is_world_ready(&game.map, &objects));
    objects[0].alive = false;
    assert!(is_world_ready(&game.map, &objects));
}

#[test]
fn light_takes_a_table_of_its_own_size_only() {
    let (game, _, mut fov) = start(1);
    let good = vec![vec![true; game.map.height() as usize]; game.map.width() as usize];
    let short = vec![vec![true; game.map.height() as usize]; game.map.width() as usize - 1];
    let mut ragged = good.clone();
    ragged[3].pop();
    assert!(fov.takes(&good));
    assert!(!fov.takes(&short));
    assert!(!fov.takes(&ragged));
    fov.light(&good);
    for x in 0..game.map.width() {
        for y in 0..game.map.height() {
            assert!(fov.is_in_fov(x, y));
            assert_eq!(fov.is_walkable(x, y), !game.map.tile(x, y).blocked);
            assert_eq!(fov.is_transparent(x, y), !game.map.tile(x, y).block_sight);
        }
    }
}

#[test]
fn lighting_twice_from_the_same_table_gives_the_same_light() {
    let (_, objects, mut fov) = start(4);
    light_around_player(&mut fov, &objects, 5);
    let (width, height) = fov.size();
    let mut first = Vec::new();
    for x in 0..width {
        for y in 0..height {
            first.push(fov.cell(x, y));
        }
    }
    light_around_player(&mut fov, &objects, 5);
    let mut second = Vec::new();
    for x in 0..width {
        for y in 0..height {
            second.push(fov.cell(x, y));
        }
    }
    assert_eq!(first, second);
}

#[test]
fn a_long_game_keeps_the_world_ready() {
    for seed in 0..10u64 {
        let (mut game, mut objects, mut fov) = start(seed);
        let mut keys = StdRng::seed_from_u64(seed + 1000);
        let count = objects.len();
        let mut previous = (-1, -1);
        let mut explored = 0;
        for _ in 0..300 {
            if needs_fov_recompute(previous, &objects) {
                light_around_player(&mut fov, &objects, 10);
            }
            let frame = render_all(&fov, &mut game, &objects);
            assert_eq!(frame.backgrounds.len(), 80);
            let seen = frame.backgrounds.iter().flatten().filter(|b| b.is_some()).count();
            assert!(seen >= explored);
            explored = seen;

            previous = objects[0].pos();
            let intent = match keys.gen_range(0, 5) {
                0 => Intent::MoveUp,
                1 => Intent::MoveDown,
                2 => Intent::MoveLeft,
                3 => Intent::MoveRight,
                _ => Intent::Idle,
            };
            let hp_before = objects[0].fighter.unwrap().hp;
            let (action, events) = play_turn(intent, &fov, &game, &mut objects);
            if intent == Intent::Idle {
                assert_eq!(action, PlayerAction::DidntTakeTurn);
                assert!(events.is_empty());
                assert_eq!(objects[0].fighter.unwrap().hp, hp_before);
            } else {
                assert_eq!(action, PlayerAction::TookTurn);
            }
            assert_eq!(objects.len(), count);
            assert!(is_world_ready(&game.map, &objects));
            for o in &objects {
                assert!(game.map.in_bounds(o.x, o.y));
                if o.ai.is_some() {
                    assert!(o.alive && o.fighter.is_some());
                }
            }
            let deaths = events.iter().filter(|e| matches!(e, Event::PlayerDied)).count();
            assert!(deaths <= 1);
            if deaths == 1 {
                assert!(!objects[0].alive);
            }
        }
    }
}

#[test]
fn new_game_is_what_make_map_and_build_give() {
    let (game, objects, fov) = start(6);
    let mut rng = StdRng::seed_from_u64(6);
    let mut others = vec![
        Object::new(0, 0, '@', Colour { r: 255, g: 255, b: 255 }, "Player", true),
        Object::new(35, 25, '@', Colour { r: 255, g: 255, b: 0 }, "NPC", true),
    ];
    let (map, rooms) = make_map(&mut others, DungeonParams::standard(), &mut rng);
    assert_eq!(objects.len(), others.len());
    assert_eq!(objects[0].pos(), rooms[0].centre());
    assert_eq!(fov.size(), (80, 43));
    for x in 0..80 {
        for y in 0..43 {
            assert_eq!(game.map.tile(x, y), map.tile(x, y));
            assert_eq!(fov.is_walkable(x, y), !map.tile(x, y).blocked);
            assert_eq!(fov.is_transparent(x, y), !map.tile(x, y).block_sight);
            assert!(!fov.is_in_fov(x, y));
        }
    }
    for (a, b) in objects.iter().zip(others.iter()) {
        assert_eq!(a.pos(), b.pos());
        assert_eq!(a.name, b.name);
    }
}

#[test]
fn no_game_starts_from_unfit_parameters_or_objects() {
    let standard = DungeonParams::standard();
    let player = || {
        let mut p = Object::new(0, 0, '@', Colour { r: 255, g: 255, b: 255 }, "Player", true);
        p.alive = true;
        p
    };
    let mut rng = StdRng::seed_from_u64(1);

    let mut none: Vec<Object> = Vec::new();
    assert!(!is_startable(standard, &none));
    assert!(new_game(&mut none, standard, &mut rng).is_none());

    for params in [
        DungeonParams { max_rooms: 0, ..standard },
        DungeonParams { min_size: 1, ..standard },
        DungeonParams { min_size: 11, ..standard },
        DungeonParams { max_size: 43, ..standard },
        DungeonParams { width: 10, ..standard },
        DungeonParams { max_monsters: -1, ..standard },
        DungeonParams { max_monsters: i32::MAX, ..standard },
    ] {
        let mut objects = vec![player()];
        assert!(!params.is_valid() || params.max_rooms == 0);
        assert!(!is_startable(params, &objects));
        assert!(new_game(&mut objects, params, &mut rng).is_none());
        assert_eq!(objects.len(), 1);
        assert_eq!(objects[0].pos(), (0, 0));
    }

    let mut outside = vec![player(), Object::new(80, 3, 'x', Colour::dark_red(), "x", false)];
    assert!(!is_startable(standard, &outside));
    assert!(new_game(&mut outside, standard, &mut rng).is_none());

    let mut driven = vec![player()];
    driven[0].ai = Some(rusty_rogue::object::Ai::Basic);
    assert!(!is_startable(standard, &driven));

    let mut spent = vec![player()];
    spent[0].fighter =
        Some(Fighter { max_hp: 5, hp: 0, defence: 0, power: 1, on_death: DeathCallback::Player });
    assert!(!is_startable(standard, &spent));

    let mut fine = vec![player(), Object::new(79, 42, 'x', Colour::dark_red(), "x", false)];
    fine[0].set_pos(-7, 1000);
    assert!(is_startable(standard, &fine));
    assert!(new_game(&mut fine, standard, &mut rng).is_some());
}
