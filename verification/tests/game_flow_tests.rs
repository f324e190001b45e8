use bracket_lib::random::RandomNumberGenerator;
use dungeoncrawl::camera::Camera;
use dungeoncrawl::components::{AmuletOfYala, Health, Player, Render};
use dungeoncrawl::game::Game;
use dungeoncrawl::geometry::{Direction, Point};
use dungeoncrawl::map::{map_idx, DungeonMap, TileType};
use dungeoncrawl::scheduler::tick;
use dungeoncrawl::systems::entity_render::entity_render;
use dungeoncrawl::systems::map_render::map_render;
use dungeoncrawl::turn_state::TurnState;
use dungeoncrawl::world::{EntityData, World};

fn player_at(p: Point) -> EntityData {
    let mut e = EntityData::new();
    e.player = Some(Player { map_level: 0 });
    e.position = Some(p);
    e.health = Some(Health { current: 10, max: 10 });
    e
}

fn amulet_at(p: Point) -> EntityData {
    let mut e = EntityData::new();
    e.amulet = Some(AmuletOfYala);
    e.position = Some(p);
    e
}

#[test]
fn turn_states_cycle_through_a_tick() {
    // AwaitingInput --Right--> PlayerTurn --end of turn--> MonsterTurn
    // --end of turn--> AwaitingInput, with the player alive and off the
    // amulet's tile throughout.
    let map = DungeonMap::new();
    let mut world = World::new();
    world.push(player_at(Point::new(1, 1)));
    world.push(amulet_at(Point::new(5, 5)));
    let mut cam = Camera::new(Point::new(1, 1));
    let mut state = TurnState::AwaitingInput;
    let mut rng = RandomNumberGenerator::seeded(3);

    tick(&mut world, &map, &mut cam, &mut state, Some(Direction::Right), &mut rng);
    assert_eq!(state, TurnState::PlayerTurn);

    tick(&mut world, &map, &mut cam, &mut state, None, &mut rng);
    assert_eq!(state, TurnState::MonsterTurn);
    // The pending intent moved the player.
    assert_eq!(world.entities[0].position, Some(Point::new(2, 1)));

    tick(&mut world, &map, &mut cam, &mut state, None, &mut rng);
    assert_eq!(state, TurnState::AwaitingInput);
}

#[test]
fn unrecognised_input_keeps_waiting() {
    let map = DungeonMap::new();
    let mut world = World::new();
    world.push(player_at(Point::new(1, 1)));
    world.push(amulet_at(Point::new(5, 5)));
    let mut cam = Camera::new(Point::new(1, 1));
    let mut state = TurnState::AwaitingInput;
    let mut rng = RandomNumberGenerator::seeded(3);

    tick(&mut world, &map, &mut cam, &mut state, None, &mut rng);
    assert_eq!(state, TurnState::AwaitingInput);
    assert_eq!(world.len(), 2);
}

#[test]
fn terminal_states_run_nothing() {
    let map = DungeonMap::new();
    let mut world = World::new();
    world.push(player_at(Point::new(1, 1)));
    world.push(amulet_at(Point::new(5, 5)));
    let mut cam = Camera::new(Point::new(1, 1));
    let mut rng = RandomNumberGenerator::seeded(3);

    for terminal in [TurnState::GameOver, TurnState::Victory, TurnState::NextLevel] {
        let mut state = terminal;
        tick(&mut world, &map, &mut cam, &mut state, Some(Direction::Left), &mut rng);
        assert_eq!(state, terminal);
        assert_eq!(world.len(), 2);
    }
}

#[test]
fn walking_onto_the_amulet_wins() {
    let map = DungeonMap::new();
    let mut world = World::new();
    world.push(player_at(Point::new(4, 5)));
    world.push(amulet_at(Point::new(5, 5)));
    let mut cam = Camera::new(Point::new(4, 5));
    let mut state = TurnState::AwaitingInput;
    let mut rng = RandomNumberGenerator::seeded(3);

    tick(&mut world, &map, &mut cam, &mut state, Some(Direction::Right), &mut rng);
    tick(&mut world, &map, &mut cam, &mut state, None, &mut rng);
    assert_eq!(world.entities[0].position, Some(Point::new(5, 5)));
    assert_eq!(state, TurnState::Victory);
}

fn room_center(r: &dungeoncrawl::geometry::Rect) -> Point {
    Point::new((r.x1 + r.x2) / 2, (r.y1 + r.y2) / 2)
}

#[test]
fn new_game_spawns_player_monsters_and_amulet() {
    let mut rng = RandomNumberGenerator::seeded(12);
    let game = Game::new(&mut rng);

    assert_eq!(game.turn_state, TurnState::AwaitingInput);
    // One entity per accepted room, plus the amulet.
    assert!(!game.rooms.is_empty());
    assert_eq!(game.ecs.len(), game.rooms.len() + 1);

    // The player stands at the first accepted room's centre.
    let player = &game.ecs.entities[0];
    assert!(player.player.is_some());
    let ppos = player.position.expect("the player has a position");
    assert_eq!(ppos, room_center(&game.rooms[0]));
    assert!(game.map.can_enter_tile(ppos));
    assert_eq!(game.camera.left_x, ppos.x - 20);
    assert_eq!(game.camera.top_y, ppos.y - 12);

    // The amulet stands at the last accepted room's centre.
    let amulet = game.ecs.entities.last().expect("entities");
    assert!(amulet.amulet.is_some());
    assert_eq!(
        amulet.position,
        Some(room_center(game.rooms.last().expect("rooms")))
    );

    // One monster per remaining room, each at its room's centre.
    for k in 1..game.ecs.len() - 1 {
        let e = &game.ecs.entities[k];
        assert!(e.enemy.is_some());
        assert!(e.moving_randomly.is_some());
        assert_eq!(e.position, Some(room_center(&game.rooms[k])));
        assert!(game.map.can_enter_tile(e.position.unwrap()));
    }
}

#[test]
fn a_full_game_plays_whole_rounds() {
    let mut rng = RandomNumberGenerator::seeded(12);
    let mut game = Game::new(&mut rng);
    let player_pos = game.ecs.entities[0].position.expect("player position");
    let amulet_pos = game.ecs.entities.last().unwrap().position.expect("amulet position");
    assert_ne!(player_pos, amulet_pos);

    tick(
        &mut game.ecs,
        &game.map,
        &mut game.camera,
        &mut game.turn_state,
        Some(Direction::Right),
        &mut rng,
    );
    assert_eq!(game.turn_state, TurnState::PlayerTurn);

    tick(&mut game.ecs, &game.map, &mut game.camera, &mut game.turn_state, None, &mut rng);
    // Nothing harms the player on its first step; at most it may have
    // stepped onto the amulet.
    assert!(matches!(game.turn_state, TurnState::MonsterTurn | TurnState::Victory));

    if game.turn_state == TurnState::MonsterTurn {
        tick(&mut game.ecs, &game.map, &mut game.camera, &mut game.turn_state, None, &mut rng);
        // The player does not move during the monster phase, so the round
        // closes back at input.
        assert_eq!(game.turn_state, TurnState::AwaitingInput);
    }
}

#[test]
fn entity_render_projects_into_camera_space() {
    let mut world = World::new();
    let mut e = player_at(Point::new(25, 20));
    e.render = Some(Render {
        color: dungeoncrawl::components::ColorPair::new(
            dungeoncrawl::components::Rgb::white(),
            dungeoncrawl::components::Rgb::black(),
        ),
        glyph: 64,
    });
    world.push(e);
    // No render component: not drawn.
    world.push(amulet_at(Point::new(30, 20)));

    let cam = Camera::new(Point::new(25, 20));
    let list = entity_render(&world, &cam);
    assert_eq!(list.len(), 1);
    let (pos, render) = list[0];
    assert_eq!(pos, Point::new(20, 12));
    assert_eq!(render.glyph, 64);
}

#[test]
fn map_render_covers_the_viewport() {
    let mut map = DungeonMap::new();
    map.tiles[map_idx(1, 0)] = TileType::Wall;
    let cam = Camera { left_x: 0, right_x: 2, top_y: 0, bottom_y: 1 };
    let list = map_render(&map, &cam);
    // Two columns, two rows (bottom inclusive), row-major.
    assert_eq!(
        list,
        vec![
            (Point::new(0, 0), 46),
            (Point::new(1, 0), 35),
            (Point::new(0, 1), 46),
            (Point::new(1, 1), 46),
        ]
    );
}

#[test]
fn map_render_skips_cells_off_the_grid() {
    let map = DungeonMap::new();
    let cam = Camera { left_x: -2, right_x: 1, top_y: -1, bottom_y: 0 };
    let list = map_render(&map, &cam);
    // Only (0, 0) lies on the grid; it appears at its camera-space spot.
    assert_eq!(list, vec![(Point::new(2, 1), 46)]);
}
