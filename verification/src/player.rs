//! The standalone player of the simplest game loop: it holds its own
//! position, moves directly on a recognised key when the destination is
//! enterable, and projects itself into camera space for drawing.
use vstd::prelude::*;
use crate::camera::{camera_centered_on, camera_fits, screen_pos, Camera};
use crate::components::FontCharType;
use crate::geometry::{direction_delta, point_plus, point_plus_fits, Direction, Point};
use crate::map::DungeonMap;

verus! {

/// The glyph the player is drawn with: `@`.
pub const PLAYER_GLYPH: FontCharType = 64;

/// The player, addressed directly rather than through the world.
pub struct Player {
    /// The player's current map position.
    pub position: Point,
}

impl Player {
    /// A player standing at `position`.
    pub fn new(position: Point) -> (player: Player)
        ensures
            player.position == position,
    {
        Player { position }
    }

    /// Consume the tick's optional directional key: a recognised direction
    /// whose destination tile is enterable moves the player there and
    /// re-centres the camera; anything else changes nothing.
    pub fn update(&mut self, key: Option<Direction>, map: &DungeonMap, camera: &mut Camera)
        requires
            map.wf(),
            forall|d: Direction| point_plus_fits(old(self).position, direction_delta(d)),
        ensures
            match key {
                None => *final(self) == *old(self) && *final(camera) == *old(camera),
                Some(d) => {
                    let dest = point_plus(old(self).position, direction_delta(d));
                    if map.spec_can_enter(dest) {
                        &&& final(self).position == dest
                        &&& *final(camera) == camera_centered_on(dest)
                    } else {
                        &&& *final(self) == *old(self)
                        &&& *final(camera) == *old(camera)
                    }
                },
            },
    {
        if let Some(d) = key {
            let delta = d.delta();
            let new_position = Point { x: self.position.x + delta.x, y: self.position.y + delta.y };
            if map.can_enter_tile(new_position) {
                self.position = new_position;
                camera.on_player_move(new_position);
            }
        }
    }

    /// The player's glyph placement in camera space.
    pub fn render(&self, camera: &Camera) -> (r: (Point, FontCharType))
        requires
            i32::MIN <= self.position.x - camera.left_x <= i32::MAX,
            i32::MIN <= self.position.y - camera.top_y <= i32::MAX,
        ensures
            r.0 == screen_pos(self.position, *camera),
            r.1 == PLAYER_GLYPH,
    {
        (
            Point {
                x: self.position.x - camera.left_x,
                y: self.position.y - camera.top_y,
            },
            PLAYER_GLYPH,
        )
    }
}

} // verus!
