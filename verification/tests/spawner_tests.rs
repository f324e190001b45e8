use bracket_lib::random::RandomNumberGenerator;
use dungeoncrawl::geometry::Point;
use dungeoncrawl::spawner::{
    goblin, orc, spawn_amulet_of_yala, spawn_level, spawn_monster, spawn_player, GLYPH_AMULET,
    GLYPH_GOBLIN, GLYPH_ORC, GLYPH_PLAYER,
};
use dungeoncrawl::world::World;

#[test]
fn goblin_and_orc_stats() {
    let (hp, name, glyph) = goblin();
    assert_eq!(hp, 1);
    assert_eq!(name, "Goblin");
    assert_eq!(glyph, GLYPH_GOBLIN);
    assert_eq!(glyph, 103);

    let (hp, name, glyph) = orc();
    assert_eq!(hp, 2);
    assert_eq!(name, "Orc");
    assert_eq!(glyph, GLYPH_ORC);
    assert_eq!(glyph, 111);
}

#[test]
fn spawned_player_has_its_components() {
    let mut world = World::new();
    spawn_player(&mut world, Point::new(7, 9));
    assert_eq!(world.len(), 1);
    let e = &world.entities[0];
    assert!(e.alive);
    let player = e.player.expect("a player tag");
    assert_eq!(player.map_level, 0);
    assert_eq!(e.position, Some(Point::new(7, 9)));
    let render = e.render.expect("an appearance");
    assert_eq!(render.glyph, GLYPH_PLAYER);
    let health = e.health.expect("health");
    assert_eq!((health.current, health.max), (10, 10));
    let fov = e.field_of_view.as_ref().expect("a field of view");
    assert_eq!(fov.radius, 8);
    assert!(fov.is_dirty);
    assert!(e.enemy.is_none());
    assert!(e.item.is_none());
    assert!(e.amulet.is_none());
}

#[test]
fn spawned_monster_is_a_goblin_or_an_orc() {
    for seed in 0..20u64 {
        let mut world = World::new();
        let mut rng = RandomNumberGenerator::seeded(seed);
        spawn_monster(&mut world, &mut rng, Point::new(4, 4));
        assert_eq!(world.len(), 1);
        let e = &world.entities[0];
        assert!(e.alive);
        assert!(e.enemy.is_some());
        assert!(e.moving_randomly.is_some());
        assert_eq!(e.position, Some(Point::new(4, 4)));
        let health = e.health.expect("health");
        assert_eq!(health.current, health.max);
        let render = e.render.expect("an appearance");
        let name = e.name.as_ref().expect("a name");
        match health.max {
            1 => {
                assert_eq!(render.glyph, GLYPH_GOBLIN);
                assert_eq!(name.0, "Goblin");
            }
            2 => {
                assert_eq!(render.glyph, GLYPH_ORC);
                assert_eq!(name.0, "Orc");
            }
            other => panic!("unexpected monster hit points: {other}"),
        }
        assert!(e.player.is_none());
    }
}

#[test]
fn spawned_amulet_is_the_goal_object() {
    let mut world = World::new();
    spawn_amulet_of_yala(&mut world, Point::new(60, 40));
    assert_eq!(world.len(), 1);
    let e = &world.entities[0];
    assert!(e.alive);
    assert!(e.item.is_some());
    assert!(e.amulet.is_some());
    assert_eq!(e.position, Some(Point::new(60, 40)));
    let render = e.render.expect("an appearance");
    assert_eq!(render.glyph, GLYPH_AMULET);
    assert_eq!(render.glyph, 124);
    let name = e.name.as_ref().expect("a name");
    assert_eq!(name.0, "Amulet of Yala");
    assert!(e.health.is_none());
    assert!(e.enemy.is_none());
}

#[test]
fn monster_rolls_produce_both_kinds() {
    // Across many seeds the ten-sided roll must land both in the goblin
    // band and outside it.
    let mut seen = [false, false];
    for seed in 0..40u64 {
        let mut world = World::new();
        let mut rng = RandomNumberGenerator::seeded(seed);
        spawn_monster(&mut world, &mut rng, Point::new(4, 4));
        let hp = world.entities[0].health.expect("health").max;
        seen[(hp - 1) as usize] = true;
    }
    assert!(seen[0], "no goblin over forty seeds");
    assert!(seen[1], "no orc over forty seeds");
}

#[test]
fn spawn_level_places_one_monster_per_point() {
    let mut world = World::new();
    let mut rng = RandomNumberGenerator::seeded(8);
    let points = vec![Point::new(3, 3), Point::new(10, 12), Point::new(40, 20)];
    spawn_level(&mut world, &mut rng, 0, &points);
    assert_eq!(world.len(), points.len());
    for (k, p) in points.iter().enumerate() {
        let e = &world.entities[k];
        assert!(e.enemy.is_some());
        assert!(e.moving_randomly.is_some());
        assert_eq!(e.position, Some(*p));
    }
}
