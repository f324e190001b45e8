//! The camera: a viewport rectangle kept centred on a tracked position.
//! A pure read-side projection, never a source of truth.
use vstd::prelude::*;
use crate::geometry::Point;
use crate::{DISPLAY_HEIGHT, DISPLAY_WIDTH};

verus! {

/// A rectangular viewport derived from a tracked entity's position and the
/// fixed display size.
#[derive(Clone, Copy, PartialEq, Eq, Structural, Debug)]
pub struct Camera {
    /// Camera view left boundary.
    pub left_x: i32,
    /// Camera view right boundary.
    pub right_x: i32,
    /// Camera view top boundary.
    pub top_y: i32,
    /// Camera view bottom boundary.
    pub bottom_y: i32,
}

/// The camera centred on `p`: half the display extends to each side.
pub open spec fn camera_centered_on(p: Point) -> Camera {
    Camera {
        left_x: (p.x - DISPLAY_WIDTH / 2) as i32,
        right_x: (p.x + DISPLAY_WIDTH / 2) as i32,
        top_y: (p.y - DISPLAY_HEIGHT / 2) as i32,
        bottom_y: (p.y + DISPLAY_HEIGHT / 2) as i32,
    }
}

/// The centring arithmetic stays within `i32`.
pub open spec fn camera_fits(p: Point) -> bool {
    &&& i32::MIN <= p.x - DISPLAY_WIDTH / 2
    &&& p.x + DISPLAY_WIDTH / 2 <= i32::MAX
    &&& i32::MIN <= p.y - DISPLAY_HEIGHT / 2
    &&& p.y + DISPLAY_HEIGHT / 2 <= i32::MAX
}

/// A map point shifted into camera space: the viewport's top-left corner
/// becomes the origin.
pub open spec fn screen_pos(p: Point, cam: Camera) -> Point {
    Point { x: (p.x - cam.left_x) as i32, y: (p.y - cam.top_y) as i32 }
}

impl Camera {
    /// A camera centred on the player's position.
    pub fn new(player_position: Point) -> (c: Camera)
        requires
            camera_fits(player_position),
        ensures
            c == camera_centered_on(player_position),
    {
        Camera {
            left_x: player_position.x - DISPLAY_WIDTH / 2,
            right_x: player_position.x + DISPLAY_WIDTH / 2,
            top_y: player_position.y - DISPLAY_HEIGHT / 2,
            bottom_y: player_position.y + DISPLAY_HEIGHT / 2,
        }
    }

    /// Re-centre the camera after the player moved.
    pub fn on_player_move(&mut self, player_position: Point)
        requires
            camera_fits(player_position),
        ensures
            *final(self) == camera_centered_on(player_position),
    {
        self.left_x = player_position.x - DISPLAY_WIDTH / 2;
        self.right_x = player_position.x + DISPLAY_WIDTH / 2;
        self.top_y = player_position.y - DISPLAY_HEIGHT / 2;
        self.bottom_y = player_position.y + DISPLAY_HEIGHT / 2;
    }
}

} // verus!
