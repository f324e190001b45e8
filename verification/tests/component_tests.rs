use dungeoncrawl::camera::Camera;
use dungeoncrawl::components::{ColorPair, FieldOfView, Rgb};
use dungeoncrawl::geometry::{Direction, Point, Rect};
use dungeoncrawl::map::{map_idx, DungeonMap, TileType};
use dungeoncrawl::player::{Player, PLAYER_GLYPH};

#[test]
fn camera_centres_on_the_player() {
    let cam = Camera::new(Point::new(40, 25));
    assert_eq!(cam.left_x, 20);
    assert_eq!(cam.right_x, 60);
    assert_eq!(cam.top_y, 13);
    assert_eq!(cam.bottom_y, 37);
}

#[test]
fn camera_follows_a_move() {
    let mut cam = Camera::new(Point::new(40, 25));
    cam.on_player_move(Point::new(10, 8));
    assert_eq!(cam.left_x, -10);
    assert_eq!(cam.right_x, 30);
    assert_eq!(cam.top_y, -4);
    assert_eq!(cam.bottom_y, 20);
}

#[test]
fn field_of_view_starts_dirty_and_empty() {
    let fov = FieldOfView::new(8);
    assert_eq!(fov.radius, 8);
    assert!(fov.is_dirty);
    assert!(fov.visible_tiles.is_empty());
}

#[test]
fn clone_dirty_keeps_the_radius_only() {
    let mut fov = FieldOfView::new(6);
    fov.visible_tiles.push(Point::new(1, 2));
    fov.is_dirty = false;
    let copy = fov.clone_dirty();
    assert_eq!(copy.radius, 6);
    assert!(copy.is_dirty);
    assert!(copy.visible_tiles.is_empty());
}

#[test]
fn colors_are_eight_bit() {
    let pair = ColorPair::new(Rgb::white(), Rgb::black());
    assert_eq!((pair.fg.r, pair.fg.g, pair.fg.b), (255, 255, 255));
    assert_eq!((pair.bg.r, pair.bg.g, pair.bg.b), (0, 0, 0));
}

#[test]
fn direction_deltas_are_unit_steps() {
    assert_eq!(Direction::Left.delta(), Point::new(-1, 0));
    assert_eq!(Direction::Right.delta(), Point::new(1, 0));
    assert_eq!(Direction::Up.delta(), Point::new(0, -1));
    assert_eq!(Direction::Down.delta(), Point::new(0, 1));
}

#[test]
fn rect_center_and_intersection() {
    let a = Rect::with_size(2, 3, 4, 6);
    assert_eq!(a.x2, 6);
    assert_eq!(a.y2, 9);
    assert_eq!(a.center(), Point::new(4, 6));
    let b = Rect::with_size(5, 8, 3, 3);
    let c = Rect::with_size(20, 20, 2, 2);
    assert!(a.intersect(&b));
    assert!(b.intersect(&a));
    assert!(!a.intersect(&c));
}

#[test]
fn standalone_player_moves_onto_floor() {
    let map = DungeonMap::new();
    let mut cam = Camera::new(Point::new(10, 10));
    let mut player = Player::new(Point::new(10, 10));
    player.update(Some(Direction::Right), &map, &mut cam);
    assert_eq!(player.position, Point::new(11, 10));
    assert_eq!(cam.left_x, 11 - 20);
}

#[test]
fn standalone_player_blocked_by_wall_stays_put() {
    let mut map = DungeonMap::new();
    map.tiles[map_idx(11, 10)] = TileType::Wall;
    let mut cam = Camera::new(Point::new(10, 10));
    let before = cam;
    let mut player = Player::new(Point::new(10, 10));
    player.update(Some(Direction::Right), &map, &mut cam);
    assert_eq!(player.position, Point::new(10, 10));
    assert_eq!(cam, before);
    player.update(None, &map, &mut cam);
    assert_eq!(player.position, Point::new(10, 10));
}

#[test]
fn standalone_player_renders_in_camera_space() {
    let cam = Camera::new(Point::new(25, 20));
    let player = Player::new(Point::new(25, 20));
    let (pos, glyph) = player.render(&cam);
    assert_eq!(pos, Point::new(20, 12));
    assert_eq!(glyph, PLAYER_GLYPH);
    assert_eq!(glyph, 64);
}
