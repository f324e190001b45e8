//! The dungeon map: a fixed-size grid of wall and floor tiles with
//! bounds-checked spatial queries and a pathing view (the orthogonal
//! exits of a tile, for an external shortest-path or visibility search).
use vstd::prelude::*;
use crate::geometry::Point;
use crate::{SCREEN_HEIGHT, SCREEN_WIDTH};

verus! {

/// The total number of tiles in the grid: `SCREEN_WIDTH * SCREEN_HEIGHT`.
pub const NUM_TILES: usize = 80 * 50;

/// Classification of one grid cell.
#[derive(Copy, Clone, PartialEq, Eq, Structural, Debug)]
pub enum TileType {
    /// A wall tile; entities can never stand on it.
    Wall,
    /// A floor tile; entities can enter it.
    Floor,
}

/// The game map: a row-major grid (`index = y * SCREEN_WIDTH + x`) of
/// `SCREEN_WIDTH x SCREEN_HEIGHT` tiles.
pub struct DungeonMap {
    /// The tile grid; always exactly `NUM_TILES` long.
    pub tiles: Vec<TileType>,
}

/// Whether `p` lies inside the grid.
pub open spec fn spec_in_bounds(p: Point) -> bool {
    0 <= p.x < SCREEN_WIDTH && 0 <= p.y < SCREEN_HEIGHT
}

/// Row-major index of a point.
pub open spec fn spec_idx(p: Point) -> int {
    p.y * SCREEN_WIDTH + p.x
}

/// The point whose row-major index is `i`.
pub open spec fn idx_point(i: int) -> Point {
    Point { x: (i % (SCREEN_WIDTH as int)) as i32, y: (i / (SCREEN_WIDTH as int)) as i32 }
}

/// Indices below `NUM_TILES` decode to in-bounds points and back.
pub proof fn lemma_idx_point_roundtrip(i: int)
    requires
        0 <= i < NUM_TILES,
    ensures
        spec_in_bounds(idx_point(i)),
        spec_idx(idx_point(i)) == i,
{
    vstd::arithmetic::div_mod::lemma_fundamental_div_mod(i, SCREEN_WIDTH as int);
}

/// In-bounds points encode to indices below `NUM_TILES` and back.
pub proof fn lemma_point_idx_roundtrip(p: Point)
    requires
        spec_in_bounds(p),
    ensures
        0 <= spec_idx(p) < NUM_TILES,
        idx_point(spec_idx(p)) == p,
{
    vstd::arithmetic::div_mod::lemma_fundamental_div_mod_converse(
        spec_idx(p),
        SCREEN_WIDTH as int,
        p.y as int,
        p.x as int,
    );
}

/// Row-major index of `(x, y)`.
pub fn map_idx(x: i32, y: i32) -> (idx: usize)
    requires
        0 <= x < SCREEN_WIDTH,
        0 <= y < SCREEN_HEIGHT,
    ensures
        idx == spec_idx(Point { x, y }),
        idx < NUM_TILES,
{
    ((y * SCREEN_WIDTH) + x) as usize
}

impl DungeonMap {
    /// The grid holds exactly `NUM_TILES` tiles.
    pub open spec fn wf(self) -> bool {
        self.tiles@.len() == NUM_TILES
    }

    /// The tile at an in-bounds point.
    pub open spec fn spec_tile_at(self, p: Point) -> TileType {
        self.tiles@[spec_idx(p)]
    }

    /// An entity can enter a tile iff the point is in bounds and the tile
    /// there is floor.
    pub open spec fn spec_can_enter(self, p: Point) -> bool {
        spec_in_bounds(p) && self.spec_tile_at(p) == TileType::Floor
    }

    /// A map consisting entirely of floor tiles.
    pub fn new() -> (m: DungeonMap)
        ensures
            m.wf(),
            forall|i: int| 0 <= i < NUM_TILES ==> m.tiles@[i] == TileType::Floor,
    {
        let mut tiles: Vec<TileType> = Vec::new();
        while tiles.len() < NUM_TILES
            invariant
                tiles@.len() <= NUM_TILES,
                forall|i: int| 0 <= i < tiles@.len() ==> tiles@[i] == TileType::Floor,
            decreases NUM_TILES - tiles@.len(),
        {
            tiles.push(TileType::Floor);
        }
        DungeonMap { tiles }
    }

    /// Whether the point is within the grid boundaries.
    pub fn in_bounds(&self, point: Point) -> (r: bool)
        ensures
            r == spec_in_bounds(point),
    {
        point.x >= 0 && point.x < SCREEN_WIDTH && point.y >= 0 && point.y < SCREEN_HEIGHT
    }

    /// Whether an entity can enter the tile: in bounds and floor. Out-of-range
    /// points (negative or past the grid edge) answer false.
    pub fn can_enter_tile(&self, point: Point) -> (r: bool)
        requires
            self.wf(),
        ensures
            r == self.spec_can_enter(point),
    {
        self.in_bounds(point) && self.tiles[map_idx(point.x, point.y)] == TileType::Floor
    }

    /// The row-major index of the point, or nothing when it is out of bounds.
    /// Never panics.
    pub fn try_idx(&self, point: Point) -> (r: Option<usize>)
        ensures
            match r {
                Some(idx) => spec_in_bounds(point) && idx == spec_idx(point),
                None => !spec_in_bounds(point),
            },
    {
        if !self.in_bounds(point) {
            None
        } else {
            Some(map_idx(point.x, point.y))
        }
    }

    /// The point whose row-major index is `idx`.
    pub fn index_to_point(idx: usize) -> (p: Point)
        requires
            idx < NUM_TILES,
        ensures
            p == idx_point(idx as int),
            spec_in_bounds(p),
            spec_idx(p) == idx,
    {
        let p = Point { x: (idx % (SCREEN_WIDTH as usize)) as i32, y: (idx / (SCREEN_WIDTH as usize)) as i32 };
        proof {
            vstd::arithmetic::div_mod::lemma_fundamental_div_mod(idx as int, SCREEN_WIDTH as int);
        }
        p
    }

    /// The exit one step from `loc` by `delta`: the destination's index when
    /// that tile can be entered, nothing otherwise.
    pub fn valid_exit(&self, loc: Point, delta: Point) -> (r: Option<usize>)
        requires
            self.wf(),
            i32::MIN <= loc.x + delta.x <= i32::MAX,
            i32::MIN <= loc.y + delta.y <= i32::MAX,
        ensures
            ({
                let dest = Point { x: (loc.x + delta.x) as i32, y: (loc.y + delta.y) as i32 };
                match r {
                    Some(idx) => self.spec_can_enter(dest) && idx == spec_idx(dest),
                    None => !self.spec_can_enter(dest),
                }
            }),
    {
        let destination = Point { x: loc.x + delta.x, y: loc.y + delta.y };
        if self.in_bounds(destination) {
            if self.can_enter_tile(destination) {
                Some(map_idx(destination.x, destination.y))
            } else {
                None
            }
        } else {
            None
        }
    }

    /// The single exit toward `(dx, dy)` as a sequence: the destination index
    /// when it can be entered, empty otherwise.
    pub open spec fn spec_exit(self, loc: Point, dx: int, dy: int) -> Seq<int> {
        let dest = Point { x: (loc.x + dx) as i32, y: (loc.y + dy) as i32 };
        if self.spec_can_enter(dest) {
            seq![spec_idx(dest)]
        } else {
            Seq::empty()
        }
    }

    /// The orthogonally adjacent enterable tiles of the tile at `idx`, as
    /// row-major indices, in left, right, up, down order. Each such step has
    /// unit traversal cost.
    pub open spec fn spec_exits(self, idx: int) -> Seq<int> {
        let loc = idx_point(idx);
        self.spec_exit(loc, -1, 0) + self.spec_exit(loc, 1, 0) + self.spec_exit(loc, 0, -1) + self.spec_exit(
            loc,
            0,
            1,
        )
    }

    /// The orthogonally adjacent enterable tiles of the tile at `idx`, each
    /// reachable at unit cost.
    pub fn get_available_exits(&self, idx: usize) -> (r: Vec<usize>)
        requires
            self.wf(),
            idx < NUM_TILES,
        ensures
            r@.map_values(|v: usize| v as int) == self.spec_exits(idx as int),
    {
        let mut exits: Vec<usize> = Vec::new();
        let location = DungeonMap::index_to_point(idx);
        let ghost loc = location;

        if let Some(i) = self.valid_exit(location, Point { x: -1, y: 0 }) {
            exits.push(i);
        }
        assert(exits@.map_values(|v: usize| v as int) =~= self.spec_exit(loc, -1, 0));
        if let Some(i) = self.valid_exit(location, Point { x: 1, y: 0 }) {
            exits.push(i);
        }
        assert(exits@.map_values(|v: usize| v as int) =~= self.spec_exit(loc, -1, 0) + self.spec_exit(loc, 1, 0));
        if let Some(i) = self.valid_exit(location, Point { x: 0, y: -1 }) {
            exits.push(i);
        }
        assert(exits@.map_values(|v: usize| v as int) =~= self.spec_exit(loc, -1, 0) + self.spec_exit(loc, 1, 0)
            + self.spec_exit(loc, 0, -1));
        if let Some(i) = self.valid_exit(location, Point { x: 0, y: 1 }) {
            exits.push(i);
        }
        assert(exits@.map_values(|v: usize| v as int) =~= self.spec_exits(idx as int));
        exits
    }

    /// The grid dimensions as a point.
    pub fn dimensions() -> (p: Point)
        ensures
            p == (Point { x: SCREEN_WIDTH, y: SCREEN_HEIGHT }),
    {
        Point { x: SCREEN_WIDTH, y: SCREEN_HEIGHT }
    }
}

} // verus!
