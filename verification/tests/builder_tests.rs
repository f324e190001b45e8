use bracket_lib::random::RandomNumberGenerator;
use dungeoncrawl::geometry::{Point, Rect};
use dungeoncrawl::map::{map_idx, DungeonMap, TileType, NUM_TILES};
use dungeoncrawl::map_builder::{MapBuilder, NUM_ROOMS};
use dungeoncrawl::{SCREEN_HEIGHT, SCREEN_WIDTH};

fn intersect(a: &Rect, b: &Rect) -> bool {
    a.x1 <= b.x2 && a.x2 >= b.x1 && a.y1 <= b.y2 && a.y2 >= b.y1
}

#[test]
fn builder_accepts_at_most_the_requested_rooms() {
    for seed in [1u64, 7, 42, 1234] {
        let mut rng = RandomNumberGenerator::seeded(seed);
        let mb = MapBuilder::new(&mut rng);
        assert!(1 <= mb.rooms.len() && mb.rooms.len() <= NUM_ROOMS);
    }
}

#[test]
fn builder_reaches_the_room_target_with_room_to_spare() {
    // With a genuine uniform source the margin leaves ample room for
    // twenty small rooms; a degenerate source that kept repeating one
    // candidate would get stuck at a single room.
    let mut rng = RandomNumberGenerator::seeded(42);
    let mb = MapBuilder::new(&mut rng);
    assert_eq!(mb.rooms.len(), NUM_ROOMS);
}

#[test]
fn builder_rooms_do_not_overlap() {
    let mut rng = RandomNumberGenerator::seeded(99);
    let mb = MapBuilder::new(&mut rng);
    for i in 0..mb.rooms.len() {
        for j in (i + 1)..mb.rooms.len() {
            assert!(!intersect(&mb.rooms[i], &mb.rooms[j]));
        }
    }
}

#[test]
fn builder_rooms_lie_inside_the_margin() {
    let mut rng = RandomNumberGenerator::seeded(5);
    let mb = MapBuilder::new(&mut rng);
    for r in &mb.rooms {
        assert!(1 <= r.x1 && r.x1 < r.x2 && r.x2 <= SCREEN_WIDTH - 2);
        assert!(1 <= r.y1 && r.y1 < r.y2 && r.y2 <= SCREEN_HEIGHT - 2);
    }
}

#[test]
fn builder_room_interiors_are_floor() {
    let mut rng = RandomNumberGenerator::seeded(2024);
    let mb = MapBuilder::new(&mut rng);
    assert_eq!(mb.map.tiles.len(), NUM_TILES);
    for r in &mb.rooms {
        for y in r.y1..r.y2 {
            for x in r.x1..r.x2 {
                assert_eq!(mb.map.tiles[map_idx(x, y)], TileType::Floor);
            }
        }
    }
}

#[test]
fn builder_starts_the_player_in_the_first_room() {
    let mut rng = RandomNumberGenerator::seeded(314);
    let mb = MapBuilder::new(&mut rng);
    let first = &mb.rooms[0];
    assert_eq!(mb.player_start, Point::new((first.x1 + first.x2) / 2, (first.y1 + first.y2) / 2));
    assert!(mb.map.can_enter_tile(mb.player_start));
}

#[test]
fn fill_sets_every_tile() {
    let mut mb = MapBuilder {
        map: DungeonMap::new(),
        rooms: Vec::new(),
        player_start: Point::zero(),
    };
    mb.fill(TileType::Wall);
    assert!(mb.map.tiles.iter().all(|t| *t == TileType::Wall));
}

#[test]
fn horizontal_tunnel_carves_inclusive_span() {
    let mut mb = MapBuilder {
        map: DungeonMap::new(),
        rooms: Vec::new(),
        player_start: Point::zero(),
    };
    mb.fill(TileType::Wall);
    mb.apply_horizontal_tunnel(5, 2, 3);
    for i in 0..NUM_TILES {
        let x = (i % SCREEN_WIDTH as usize) as i32;
        let y = (i / SCREEN_WIDTH as usize) as i32;
        let expected = if y == 3 && (2..=5).contains(&x) {
            TileType::Floor
        } else {
            TileType::Wall
        };
        assert_eq!(mb.map.tiles[i], expected);
    }
}

#[test]
fn vertical_tunnel_carves_inclusive_span() {
    let mut mb = MapBuilder {
        map: DungeonMap::new(),
        rooms: Vec::new(),
        player_start: Point::zero(),
    };
    mb.fill(TileType::Wall);
    mb.apply_vertical_tunnel(7, 4, 10);
    for i in 0..NUM_TILES {
        let x = (i % SCREEN_WIDTH as usize) as i32;
        let y = (i / SCREEN_WIDTH as usize) as i32;
        let expected = if x == 10 && (4..=7).contains(&y) {
            TileType::Floor
        } else {
            TileType::Wall
        };
        assert_eq!(mb.map.tiles[i], expected);
    }
}

#[test]
fn tunnels_skip_cells_outside_the_grid() {
    let mut mb = MapBuilder {
        map: DungeonMap::new(),
        rooms: Vec::new(),
        player_start: Point::zero(),
    };
    mb.fill(TileType::Wall);
    // A column left of the grid: nothing changes, nothing panics.
    mb.apply_vertical_tunnel(-5, 3, -1);
    assert_eq!(mb.map.tiles.len(), NUM_TILES);
    assert!(mb.map.tiles.iter().all(|t| *t == TileType::Wall));
    // A row that starts off-grid: only the in-bounds part is carved.
    mb.apply_horizontal_tunnel(-3, 2, 0);
    for x in 0..=2 {
        assert_eq!(mb.map.tiles[map_idx(x, 0)], TileType::Floor);
    }
    assert_eq!(mb.map.tiles[map_idx(3, 0)], TileType::Wall);
}

fn center(r: &Rect) -> Point {
    Point::new((r.x1 + r.x2) / 2, (r.y1 + r.y2) / 2)
}

fn horizontal_leg_is_floor(map: &DungeonMap, x1: i32, x2: i32, y: i32) -> bool {
    (x1.min(x2)..=x1.max(x2)).all(|x| map.tiles[map_idx(x, y)] == TileType::Floor)
}

fn vertical_leg_is_floor(map: &DungeonMap, x: i32, y1: i32, y2: i32) -> bool {
    (y1.min(y2)..=y1.max(y2)).all(|y| map.tiles[map_idx(x, y)] == TileType::Floor)
}

#[test]
fn corridors_join_adjacent_rooms() {
    for seed in [4u64, 23, 2024] {
        let mut rng = RandomNumberGenerator::seeded(seed);
        let mb = MapBuilder::new(&mut rng);
        let mut sorted = mb.rooms.clone();
        sorted.sort_by(|a, b| center(a).x.cmp(&center(b).x));
        for pair in sorted.windows(2) {
            let prev = center(&pair[0]);
            let new = center(&pair[1]);
            // One of the two L-shaped leg orders must be fully carved.
            let h_then_v = horizontal_leg_is_floor(&mb.map, prev.x, new.x, prev.y)
                && vertical_leg_is_floor(&mb.map, new.x, prev.y, new.y);
            let v_then_h = vertical_leg_is_floor(&mb.map, prev.x, prev.y, new.y)
                && horizontal_leg_is_floor(&mb.map, prev.x, new.x, new.y);
            assert!(h_then_v || v_then_h);
        }
    }
}

#[test]
fn all_room_centres_are_mutually_reachable() {
    // The carved corridors leave every room's centre in one 4-connected
    // floor component with the player start.
    let mut rng = RandomNumberGenerator::seeded(6);
    let mb = MapBuilder::new(&mut rng);
    let mut reached = vec![false; NUM_TILES];
    let start = map_idx(mb.player_start.x, mb.player_start.y);
    let mut queue = vec![start];
    reached[start] = true;
    while let Some(idx) = queue.pop() {
        for exit in mb.map.get_available_exits(idx) {
            if !reached[exit] {
                reached[exit] = true;
                queue.push(exit);
            }
        }
    }
    for r in &mb.rooms {
        let c = center(r);
        assert!(reached[map_idx(c.x, c.y)]);
    }
}

#[test]
fn grid_boundary_stays_wall() {
    let mut rng = RandomNumberGenerator::seeded(31);
    let mb = MapBuilder::new(&mut rng);
    for x in 0..SCREEN_WIDTH {
        assert_eq!(mb.map.tiles[map_idx(x, 0)], TileType::Wall);
        assert_eq!(mb.map.tiles[map_idx(x, SCREEN_HEIGHT - 1)], TileType::Wall);
    }
    for y in 0..SCREEN_HEIGHT {
        assert_eq!(mb.map.tiles[map_idx(0, y)], TileType::Wall);
        assert_eq!(mb.map.tiles[map_idx(SCREEN_WIDTH - 1, y)], TileType::Wall);
    }
}

#[test]
fn every_floor_tile_is_room_or_corridor() {
    // Carving completeness: each floor tile lies in an accepted room or on
    // an L-leg between adjacent centre-sorted room centres.
    let mut rng = RandomNumberGenerator::seeded(58);
    let mb = MapBuilder::new(&mut rng);
    let mut sorted = mb.rooms.clone();
    sorted.sort_by(|a, b| center(a).x.cmp(&center(b).x));
    for i in 0..NUM_TILES {
        if mb.map.tiles[i] != TileType::Floor {
            continue;
        }
        let x = (i % SCREEN_WIDTH as usize) as i32;
        let y = (i / SCREEN_WIDTH as usize) as i32;
        let in_room = mb
            .rooms
            .iter()
            .any(|r| r.x1 <= x && x < r.x2 && r.y1 <= y && y < r.y2);
        let on_leg = sorted.windows(2).any(|pair| {
            let prev = center(&pair[0]);
            let new = center(&pair[1]);
            let on_h1 = y == prev.y && (prev.x.min(new.x)..=prev.x.max(new.x)).contains(&x);
            let on_v1 = x == new.x && (prev.y.min(new.y)..=prev.y.max(new.y)).contains(&y);
            let on_v2 = x == prev.x && (prev.y.min(new.y)..=prev.y.max(new.y)).contains(&y);
            let on_h2 = y == new.y && (prev.x.min(new.x)..=prev.x.max(new.x)).contains(&x);
            on_h1 || on_v1 || on_v2 || on_h2
        });
        assert!(in_room || on_leg, "stray floor tile at ({x}, {y})");
    }
}

#[test]
fn build_corridors_only_adds_floor() {
    let mut rng = RandomNumberGenerator::seeded(77);
    let mut mb = MapBuilder {
        map: DungeonMap::new(),
        rooms: Vec::new(),
        player_start: Point::zero(),
    };
    mb.fill(TileType::Wall);
    mb.build_random_rooms(&mut rng);
    let before = mb.map.tiles.clone();
    mb.build_corridors(&mut rng);
    assert_eq!(mb.map.tiles.len(), before.len());
    for i in 0..NUM_TILES {
        if mb.map.tiles[i] != before[i] {
            assert_eq!(mb.map.tiles[i], TileType::Floor);
        }
    }
}
