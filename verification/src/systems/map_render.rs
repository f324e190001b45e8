//! The map render projection: one glyph placement per in-bounds tile the
//! camera viewport covers, row by row. Read-only; the caller draws them.
use vstd::prelude::*;
use crate::camera::{screen_pos, Camera};
use crate::components::FontCharType;
use crate::geometry::Point;
use crate::map::{map_idx, spec_idx, spec_in_bounds, DungeonMap, TileType};

verus! {

/// The glyph a tile is drawn with: `.` for floor, `#` for wall.
pub open spec fn spec_glyph(t: TileType) -> FontCharType {
    match t {
        TileType::Floor => 46u16,
        TileType::Wall => 35u16,
    }
}

/// The placement for the cell at `(x, y)`: its camera-space point and its
/// tile's glyph when in bounds, nothing when the viewport hangs over the
/// grid edge there.
pub open spec fn map_cell(map: DungeonMap, cam: Camera, x: int, y: int) -> Seq<
    (Point, FontCharType),
> {
    let p = Point { x: x as i32, y: y as i32 };
    if spec_in_bounds(p) {
        seq![(screen_pos(p, cam), spec_glyph(map.tiles@[spec_idx(p)]))]
    } else {
        Seq::empty()
    }
}

/// The placements of the first `k` cells of viewport row `y`, scanning
/// from the left edge, right edge excluded.
pub open spec fn map_row_list(map: DungeonMap, cam: Camera, y: int, k: int) -> Seq<
    (Point, FontCharType),
>
    decreases k,
{
    if k <= 0 {
        Seq::empty()
    } else {
        map_row_list(map, cam, y, k - 1) + map_cell(map, cam, cam.left_x + k - 1, y)
    }
}

/// The placements of the first `r` viewport rows, scanning from the top
/// edge, bottom edge included by the caller's row count.
pub open spec fn map_grid_list(map: DungeonMap, cam: Camera, r: int) -> Seq<(Point, FontCharType)>
    decreases r,
{
    if r <= 0 {
        Seq::empty()
    } else {
        map_grid_list(map, cam, r - 1) + map_row_list(
            map,
            cam,
            cam.top_y + r - 1,
            cam.right_x - cam.left_x,
        )
    }
}

/// The camera viewport's arithmetic stays within `i32`: its width and its
/// row indices (bottom edge included) fit.
pub open spec fn viewport_fits(cam: Camera) -> bool {
    &&& cam.bottom_y < i32::MAX
    &&& cam.left_x <= cam.right_x
    &&& cam.top_y <= cam.bottom_y + 1
    &&& cam.right_x - cam.left_x <= i32::MAX
    &&& cam.bottom_y - cam.top_y + 1 <= i32::MAX
}

/// The draw list of the map: one placement per in-bounds cell the viewport
/// covers, rows top to bottom (bottom edge included), cells left to right
/// (right edge excluded), each shifted into camera space.
pub fn map_render(map: &DungeonMap, camera: &Camera) -> (r: Vec<(Point, FontCharType)>)
    requires
        map.wf(),
        viewport_fits(*camera),
    ensures
        r@ == map_grid_list(
            *map,
            *camera,
            if camera.top_y <= camera.bottom_y {
                camera.bottom_y - camera.top_y + 1
            } else {
                0
            },
        ),
{
    let mut out: Vec<(Point, FontCharType)> = Vec::new();
    let mut y = camera.top_y;
    while y <= camera.bottom_y
        invariant
            map.wf(),
            viewport_fits(*camera),
            camera.top_y <= y,
            y <= camera.bottom_y + 1,
            out@ == map_grid_list(*map, *camera, y - camera.top_y),
        decreases camera.bottom_y + 1 - y,
    {
        let mut x = camera.left_x;
        while x < camera.right_x
            invariant
                map.wf(),
                viewport_fits(*camera),
                camera.top_y <= y <= camera.bottom_y,
                camera.left_x <= x <= camera.right_x,
                out@ == map_grid_list(*map, *camera, y - camera.top_y) + map_row_list(
                    *map,
                    *camera,
                    y as int,
                    x - camera.left_x,
                ),
            decreases camera.right_x - x,
        {
            let pt = Point { x, y };
            if map.in_bounds(pt) {
                let idx = map_idx(x, y);
                let glyph: FontCharType = match map.tiles[idx] {
                    TileType::Floor => 46u16,
                    TileType::Wall => 35u16,
                };
                out.push((Point { x: x - camera.left_x, y: y - camera.top_y }, glyph));
            }
            proof {
                assert(out@ =~= map_grid_list(*map, *camera, y - camera.top_y) + map_row_list(
                    *map,
                    *camera,
                    y as int,
                    x - camera.left_x + 1,
                ));
            }
            x += 1;
        }
        proof {
            assert(out@ =~= map_grid_list(*map, *camera, y - camera.top_y + 1));
        }
        y += 1;
    }
    proof {
        if camera.top_y > camera.bottom_y {
            assert(out@ =~= map_grid_list(*map, *camera, 0));
        }
    }
    out
}

} // verus!
