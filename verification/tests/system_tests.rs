use bracket_lib::random::RandomNumberGenerator;
use dungeoncrawl::camera::Camera;
use dungeoncrawl::components::{AmuletOfYala, Enemy, Entity, Health, MovingRandomly, Player, WantsToMove};
use dungeoncrawl::geometry::{Direction, Point};
use dungeoncrawl::map::{map_idx, DungeonMap, TileType};
use dungeoncrawl::systems::collisions::collisions;
use dungeoncrawl::systems::end_turn::end_turn;
use dungeoncrawl::systems::movement::movement;
use dungeoncrawl::systems::player_input::player_input;
use dungeoncrawl::systems::random_move::random_move;
use dungeoncrawl::turn_state::TurnState;
use dungeoncrawl::world::{EntityData, World};

fn player_at(p: Point) -> EntityData {
    let mut e = EntityData::new();
    e.player = Some(Player { map_level: 0 });
    e.position = Some(p);
    e.health = Some(Health { current: 10, max: 10 });
    e
}

fn enemy_at(p: Point) -> EntityData {
    let mut e = EntityData::new();
    e.enemy = Some(Enemy);
    e.position = Some(p);
    e.health = Some(Health { current: 2, max: 2 });
    e
}

fn amulet_at(p: Point) -> EntityData {
    let mut e = EntityData::new();
    e.amulet = Some(AmuletOfYala);
    e.position = Some(p);
    e
}

fn move_message(mover: usize, destination: Point) -> EntityData {
    let mut e = EntityData::new();
    e.wants_to_move = Some(WantsToMove { entity: Entity { id: mover }, destination });
    e
}

#[test]
fn movement_applies_an_enterable_intent() {
    let map = DungeonMap::new();
    let mut cam = Camera::new(Point::new(1, 1));
    let mut world = World::new();
    world.push(player_at(Point::new(1, 1)));
    world.push(move_message(0, Point::new(2, 1)));

    movement(&mut world, &map, &mut cam);

    assert_eq!(world.entities[0].position, Some(Point::new(2, 1)));
    // The intent message is gone.
    assert!(!world.entities[1].alive);
    // The camera followed the player.
    assert_eq!(cam.left_x, 2 - 20);
    assert_eq!(cam.top_y, 1 - 12);
}

#[test]
fn movement_into_a_wall_changes_nothing_but_removes_the_intent() {
    let mut map = DungeonMap::new();
    map.tiles[map_idx(2, 1)] = TileType::Wall;
    let mut cam = Camera::new(Point::new(1, 1));
    let cam_before = cam;
    let mut world = World::new();
    world.push(player_at(Point::new(1, 1)));
    world.push(move_message(0, Point::new(2, 1)));

    movement(&mut world, &map, &mut cam);

    // The mover's position is unchanged.
    assert_eq!(world.entities[0].position, Some(Point::new(1, 1)));
    assert!(world.entities[0].alive);
    // The intent message was still removed.
    assert!(!world.entities[1].alive);
    // The camera did not move.
    assert_eq!(cam, cam_before);
}

#[test]
fn movement_ignores_an_intent_for_a_missing_entity() {
    let map = DungeonMap::new();
    let mut cam = Camera::new(Point::new(1, 1));
    let mut world = World::new();
    world.push(move_message(7, Point::new(2, 1)));

    movement(&mut world, &map, &mut cam);

    assert_eq!(world.len(), 1);
    assert!(!world.entities[0].alive);
}

#[test]
fn collision_removes_the_enemy_on_the_player_tile() {
    let mut world = World::new();
    world.push(player_at(Point::new(3, 3)));
    world.push(enemy_at(Point::new(3, 3)));
    world.push(enemy_at(Point::new(4, 3)));

    collisions(&mut world);

    assert!(world.entities[0].alive);
    assert!(!world.entities[1].alive);
    assert!(world.entities[2].alive);
    assert_eq!(world.len(), 3);
}

#[test]
fn collision_without_contact_changes_nothing() {
    let mut world = World::new();
    world.push(player_at(Point::new(3, 3)));
    world.push(enemy_at(Point::new(5, 3)));

    collisions(&mut world);

    assert!(world.entities[0].alive);
    assert!(world.entities[1].alive);
}

#[test]
fn end_turn_advances_the_phase() {
    let mut world = World::new();
    world.push(player_at(Point::new(1, 1)));
    world.push(amulet_at(Point::new(5, 5)));

    let mut state = TurnState::PlayerTurn;
    end_turn(&world, &mut state);
    assert_eq!(state, TurnState::MonsterTurn);

    end_turn(&world, &mut state);
    assert_eq!(state, TurnState::AwaitingInput);

    // Awaiting input: a no-op.
    end_turn(&world, &mut state);
    assert_eq!(state, TurnState::AwaitingInput);
}

#[test]
fn end_turn_sees_death() {
    let mut world = World::new();
    let mut dead = player_at(Point::new(1, 1));
    dead.health = Some(Health { current: 0, max: 10 });
    world.push(dead);
    world.push(amulet_at(Point::new(5, 5)));

    let mut state = TurnState::PlayerTurn;
    end_turn(&world, &mut state);
    assert_eq!(state, TurnState::GameOver);
}

#[test]
fn end_turn_sees_victory() {
    let mut world = World::new();
    world.push(player_at(Point::new(5, 5)));
    world.push(amulet_at(Point::new(5, 5)));

    let mut state = TurnState::PlayerTurn;
    end_turn(&world, &mut state);
    assert_eq!(state, TurnState::Victory);
}

#[test]
fn death_takes_priority_over_victory() {
    // Player dead and on the amulet in the same tick: game over wins.
    let mut world = World::new();
    let mut dead = player_at(Point::new(5, 5));
    dead.health = Some(Health { current: 0, max: 10 });
    world.push(dead);
    world.push(amulet_at(Point::new(5, 5)));

    let mut state = TurnState::PlayerTurn;
    end_turn(&world, &mut state);
    assert_eq!(state, TurnState::GameOver);

    let mut state2 = TurnState::MonsterTurn;
    end_turn(&world, &mut state2);
    assert_eq!(state2, TurnState::GameOver);
}

#[test]
fn input_spawns_one_intent_and_starts_the_player_turn() {
    let mut world = World::new();
    world.push(player_at(Point::new(5, 5)));
    let mut state = TurnState::AwaitingInput;

    player_input(&mut world, Some(Direction::Right), &mut state);

    assert_eq!(state, TurnState::PlayerTurn);
    assert_eq!(world.len(), 2);
    let msg = &world.entities[1];
    assert_eq!(
        msg.wants_to_move,
        Some(WantsToMove { entity: Entity { id: 0 }, destination: Point::new(6, 5) })
    );
}

#[test]
fn no_key_changes_nothing() {
    let mut world = World::new();
    world.push(player_at(Point::new(5, 5)));
    let mut state = TurnState::AwaitingInput;

    player_input(&mut world, None, &mut state);

    assert_eq!(state, TurnState::AwaitingInput);
    assert_eq!(world.len(), 1);
}

fn walker_at(p: Point) -> EntityData {
    let mut e = EntityData::new();
    e.enemy = Some(Enemy);
    e.moving_randomly = Some(MovingRandomly);
    e.position = Some(p);
    e.health = Some(Health { current: 2, max: 2 });
    e
}

fn blocker_at(p: Point) -> EntityData {
    let mut e = EntityData::new();
    e.enemy = Some(Enemy);
    e.position = Some(p);
    e.health = Some(Health { current: 2, max: 2 });
    e
}

#[test]
fn surrounded_walker_emits_no_intent() {
    // Non-player entities on all four neighbours: whatever direction the
    // walker draws, it is blocked and emits neither intent.
    let mut world = World::new();
    world.push(walker_at(Point::new(5, 5)));
    world.push(blocker_at(Point::new(4, 5)));
    world.push(blocker_at(Point::new(6, 5)));
    world.push(blocker_at(Point::new(5, 4)));
    world.push(blocker_at(Point::new(5, 6)));
    let len_before = world.len();

    let mut rng = RandomNumberGenerator::seeded(11);
    random_move(&mut world, &mut rng);

    assert_eq!(world.len(), len_before);
}

#[test]
fn free_walker_emits_a_movement_intent() {
    // Twin generators with one seed: the first tells us which direction
    // the second will draw inside the system.
    let mut oracle = RandomNumberGenerator::seeded(21);
    let roll: i32 = oracle.range(0, 4);
    let delta = match roll {
        0 => Point::new(-1, 0),
        1 => Point::new(1, 0),
        2 => Point::new(0, -1),
        _ => Point::new(0, 1),
    };

    let mut world = World::new();
    world.push(walker_at(Point::new(5, 5)));

    let mut rng = RandomNumberGenerator::seeded(21);
    random_move(&mut world, &mut rng);

    assert_eq!(world.len(), 2);
    let msg = &world.entities[1];
    assert_eq!(
        msg.wants_to_move,
        Some(WantsToMove {
            entity: Entity { id: 0 },
            destination: Point::new(5 + delta.x, 5 + delta.y),
        })
    );
}

#[test]
fn walker_next_to_the_player_attacks_instead_of_moving() {
    let mut oracle = RandomNumberGenerator::seeded(33);
    let roll: i32 = oracle.range(0, 4);
    let delta = match roll {
        0 => Point::new(-1, 0),
        1 => Point::new(1, 0),
        2 => Point::new(0, -1),
        _ => Point::new(0, 1),
    };

    let mut world = World::new();
    world.push(walker_at(Point::new(5, 5)));
    world.push(player_at(Point::new(5 + delta.x, 5 + delta.y)));

    let mut rng = RandomNumberGenerator::seeded(33);
    random_move(&mut world, &mut rng);

    assert_eq!(world.len(), 3);
    let msg = &world.entities[2];
    assert!(msg.wants_to_move.is_none());
    let attack = msg.wants_to_attack.expect("an attack intent");
    assert_eq!(attack.attacker, Entity { id: 0 });
    assert_eq!(attack.victim, Entity { id: 1 });
}
