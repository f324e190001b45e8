//! The procedural dungeon builder: random room placement with overlap
//! rejection, room carving, L-shaped corridor carving, and the player start
//! point. Rejection sampling is capped, so the builder may accept fewer than
//! the requested rooms, never more, and never corrupts the map.
use vstd::prelude::*;
use crate::geometry::{rect_center, rect_contains, rects_intersect, Point, Rect};
use crate::map::{
    idx_point, lemma_idx_point_roundtrip, lemma_point_idx_roundtrip, map_idx, spec_idx,
    spec_in_bounds, DungeonMap, TileType, NUM_TILES,
};
use crate::rng::rng_range;
use crate::{SCREEN_HEIGHT, SCREEN_WIDTH};

verus! {

/// The number of rooms the builder aims for in a dungeon.
pub const NUM_ROOMS: usize = 20;

/// Safety cap on candidate draws: when pathological size/count ratios keep
/// rejecting candidates, the builder degrades to fewer rooms instead of
/// looping forever.
const MAX_PLACEMENT_ATTEMPTS: usize = 4000;

/// A room the generator may accept: strictly inside the grid, leaving the
/// outermost row and column of the grid as wall.
pub open spec fn room_in_grid(r: Rect) -> bool {
    &&& 1 <= r.x1 < r.x2 <= SCREEN_WIDTH - 2
    &&& 1 <= r.y1 < r.y2 <= SCREEN_HEIGHT - 2
}

/// No two rooms' bounding boxes overlap (inclusive test).
pub open spec fn rooms_disjoint(rooms: Seq<Rect>) -> bool {
    forall|i: int, j: int|
        0 <= i < j < rooms.len() ==> !rects_intersect(rooms[i], rooms[j])
}

/// Every interior cell of `r` is enterable floor on `map`.
pub open spec fn room_carved(map: DungeonMap, r: Rect) -> bool {
    forall|p: Point| #[trigger] rect_contains(r, p) ==> map.spec_can_enter(p)
}

/// Every cell that differs between the two grids was turned to floor.
pub open spec fn only_floored(old_tiles: Seq<TileType>, new_tiles: Seq<TileType>) -> bool {
    &&& new_tiles.len() == old_tiles.len()
    &&& forall|i: int|
        0 <= i < old_tiles.len() && new_tiles[i] != old_tiles[i] ==> new_tiles[i]
            == TileType::Floor
}

/// Turning cells to floor keeps a carved room carved.
pub proof fn lemma_carved_preserved(m1: DungeonMap, m2: DungeonMap, r: Rect)
    requires
        m1.wf(),
        room_carved(m1, r),
        only_floored(m1.tiles@, m2.tiles@),
    ensures
        room_carved(m2, r),
{
    assert forall|p: Point| #[trigger] rect_contains(r, p) implies m2.spec_can_enter(p) by {
        assert(m1.spec_can_enter(p));
        lemma_point_idx_roundtrip(p);
    }
}

/// Floor-only changes compose.
pub proof fn lemma_only_floored_trans(a: Seq<TileType>, b: Seq<TileType>, c: Seq<TileType>)
    requires
        only_floored(a, b),
        only_floored(b, c),
    ensures
        only_floored(a, c),
{
}

/// The smaller of two integers.
pub open spec fn spec_min(a: int, b: int) -> int {
    if a <= b {
        a
    } else {
        b
    }
}

/// The larger of two integers.
pub open spec fn spec_max(a: int, b: int) -> int {
    if a <= b {
        b
    } else {
        a
    }
}

/// Whether `p` lies on the vertical corridor leg at column `x` spanning the
/// rows between `y1` and `y2` inclusive.
pub open spec fn on_vertical_leg(x: int, y1: int, y2: int, p: Point) -> bool {
    p.x == x && spec_min(y1, y2) <= p.y <= spec_max(y1, y2)
}

/// Whether `p` lies on the horizontal corridor leg at row `y` spanning the
/// columns between `x1` and `x2` inclusive.
pub open spec fn on_horizontal_leg(x1: int, x2: int, y: int, p: Point) -> bool {
    p.y == y && spec_min(x1, x2) <= p.x <= spec_max(x1, x2)
}

/// Whether grid cell `i` lies in some accepted room's interior.
pub open spec fn in_some_room(rooms: Seq<Rect>, i: int) -> bool {
    exists|k: int| 0 <= k < rooms.len() && rect_contains(#[trigger] rooms[k], idx_point(i))
}

/// Every in-grid cell of the horizontal leg at row `y` spanning the
/// columns between `x1` and `x2` inclusive is floor on `map`.
pub open spec fn leg_floor_h(map: DungeonMap, x1: int, x2: int, y: int) -> bool {
    forall|i: int|
        0 <= i < NUM_TILES && on_horizontal_leg(x1, x2, y, #[trigger] idx_point(i))
            ==> map.tiles@[i] == TileType::Floor
}

/// Every in-grid cell of the vertical leg at column `x` spanning the rows
/// between `y1` and `y2` inclusive is floor on `map`.
pub open spec fn leg_floor_v(map: DungeonMap, x: int, y1: int, y2: int) -> bool {
    forall|i: int|
        0 <= i < NUM_TILES && on_vertical_leg(x, y1, y2, #[trigger] idx_point(i)) ==> map.tiles@[i]
            == TileType::Floor
}

/// An L-shaped corridor joins `prev` to `new` on `map`: the coin flip
/// picks horizontal-then-vertical or vertical-then-horizontal leg order;
/// both legs are inclusive of both endpoints, and every in-grid cell of
/// both legs is floor.
pub open spec fn corridor_at(map: DungeonMap, prev: Point, new: Point, flip: bool) -> bool {
    if flip {
        leg_floor_h(map, prev.x as int, new.x as int, prev.y as int) && leg_floor_v(
            map,
            new.x as int,
            prev.y as int,
            new.y as int,
        )
    } else {
        leg_floor_v(map, prev.x as int, prev.y as int, new.y as int) && leg_floor_h(
            map,
            prev.x as int,
            new.x as int,
            new.y as int,
        )
    }
}

/// Whether grid cell `i` lies on either leg of the L-corridor from `prev`
/// to `new` under `flip`.
pub open spec fn on_corridor_leg(prev: Point, new: Point, flip: bool, i: int) -> bool {
    if flip {
        on_horizontal_leg(prev.x as int, new.x as int, prev.y as int, idx_point(i))
            || on_vertical_leg(new.x as int, prev.y as int, new.y as int, idx_point(i))
    } else {
        on_vertical_leg(prev.x as int, prev.y as int, new.y as int, idx_point(i))
            || on_horizontal_leg(prev.x as int, new.x as int, new.y as int, idx_point(i))
    }
}

/// Whether grid cell `i` lies on some corridor of the plan.
pub open spec fn on_some_leg(sorted: Seq<Rect>, flips: Seq<bool>, i: int) -> bool {
    exists|k: int|
        1 <= k < sorted.len() && on_corridor_leg(
            rect_center(sorted[k - 1]),
            rect_center(#[trigger] sorted[k]),
            flips[k],
            i,
        )
}

/// A corridor plan over the accepted rooms: the accepted rooms, as many
/// and each present, re-ordered by ascending centre x and all inside the
/// grid margin, with one coin flip per adjacent pair (slot zero unused).
pub open spec fn corridor_plan(rooms: Seq<Rect>, sorted: Seq<Rect>, flips: Seq<bool>) -> bool {
    &&& sorted.len() == rooms.len()
    &&& forall|j: int| 0 <= j < rooms.len() ==> sorted.contains(#[trigger] rooms[j])
    &&& forall|k: int| 0 <= k < sorted.len() ==> room_in_grid(#[trigger] sorted[k])
    &&& forall|a: int, b: int|
        0 <= a < b < sorted.len() ==> rect_center(#[trigger] sorted[a]).x <= rect_center(
            #[trigger] sorted[b],
        ).x
    &&& flips.len() == sorted.len()
}

/// What corridor building did to the map: a corridor plan over the
/// accepted rooms was carved — each adjacent pair of the plan is joined by
/// its L-corridor on the new map — and every cell that changed was turned
/// to floor on one of the plan's legs.
pub open spec fn corridors_built(
    old_map: DungeonMap,
    new_map: DungeonMap,
    rooms: Seq<Rect>,
    sorted: Seq<Rect>,
    flips: Seq<bool>,
) -> bool {
    &&& corridor_plan(rooms, sorted, flips)
    &&& forall|k: int|
        1 <= k < sorted.len() ==> #[trigger] corridor_at(
            new_map,
            rect_center(sorted[k - 1]),
            rect_center(sorted[k]),
            flips[k],
        )
    &&& new_map.tiles@.len() == old_map.tiles@.len()
    &&& forall|i: int|
        0 <= i < NUM_TILES && new_map.tiles@[i] != old_map.tiles@[i] ==> new_map.tiles@[i]
            == TileType::Floor && on_some_leg(sorted, flips, i)
}

/// The outermost row and column of the grid.
pub open spec fn on_grid_boundary(p: Point) -> bool {
    p.x == 0 || p.x == SCREEN_WIDTH - 1 || p.y == 0 || p.y == SCREEN_HEIGHT - 1
}

/// The centre of a room inside the grid margin keeps the margin: both
/// coordinates stay at least one cell away from the grid edge.
pub proof fn lemma_center_margin(r: Rect)
    requires
        room_in_grid(r),
    ensures
        1 <= rect_center(r).x <= SCREEN_WIDTH - 2,
        1 <= rect_center(r).y <= SCREEN_HEIGHT - 2,
{
}

/// A room's centre lies in its own interior.
pub proof fn lemma_center_in_room(r: Rect)
    requires
        room_in_grid(r),
    ensures
        rect_contains(r, rect_center(r)),
{
}

/// Turning cells to floor keeps a carved corridor carved.
pub proof fn lemma_corridor_preserved(
    m1: DungeonMap,
    m2: DungeonMap,
    prev: Point,
    new: Point,
    flip: bool,
)
    requires
        corridor_at(m1, prev, new, flip),
        only_floored(m1.tiles@, m2.tiles@),
        m1.wf(),
    ensures
        corridor_at(m2, prev, new, flip),
{
}

/// The procedural map builder: the generated map, the accepted rooms in the
/// order they were accepted, and the player start point.
pub struct MapBuilder {
    /// The map under construction.
    pub map: DungeonMap,
    /// The accepted rooms, in insertion order.
    pub rooms: Vec<Rect>,
    /// The player start: the centre of the first accepted room.
    pub player_start: Point,
}

impl MapBuilder {
    /// A fully generated dungeon: floor exactly on the accepted rooms'
    /// interiors and the corridors joining them, wall everywhere else, the
    /// outermost row and column included; rooms lie inside the grid margin,
    /// are pairwise non-overlapping and fully enterable; each adjacent pair
    /// of rooms in ascending centre-x order is joined by an L-corridor; the
    /// player starts at the centre of the first accepted room.
    pub fn new(rng: &mut bracket_lib::random::RandomNumberGenerator) -> (mb: MapBuilder)
        ensures
            mb.map.wf(),
            1 <= mb.rooms@.len() <= NUM_ROOMS,
            forall|k: int| 0 <= k < mb.rooms@.len() ==> room_in_grid(#[trigger] mb.rooms@[k]),
            rooms_disjoint(mb.rooms@),
            forall|k: int|
                0 <= k < mb.rooms@.len() ==> room_carved(mb.map, #[trigger] mb.rooms@[k]),
            exists|sorted: Seq<Rect>, flips: Seq<bool>|
                {
                    &&& corridor_plan(mb.rooms@, sorted, flips)
                    &&& forall|k: int|
                        1 <= k < sorted.len() ==> #[trigger] corridor_at(
                            mb.map,
                            rect_center(sorted[k - 1]),
                            rect_center(sorted[k]),
                            flips[k],
                        )
                    &&& forall|i: int|
                        0 <= i < NUM_TILES ==> ((#[trigger] mb.map.tiles@[i]) == TileType::Floor
                            <==> in_some_room(mb.rooms@, i) || on_some_leg(sorted, flips, i))
                },
            forall|i: int|
                0 <= i < NUM_TILES && on_grid_boundary(#[trigger] idx_point(i)) ==> mb.map.tiles@[i]
                    == TileType::Wall,
            mb.player_start == rect_center(mb.rooms@[0]),
    {
        let mut mb = MapBuilder {
            map: DungeonMap::new(),
            rooms: Vec::new(),
            player_start: Point::zero(),
        };
        mb.fill(TileType::Wall);
        let ghost wall_map = mb.map;
        mb.build_random_rooms(rng);
        let ghost mid_map = mb.map;
        mb.build_corridors(rng);
        mb.player_start = mb.rooms[0].center();
        proof {
            assert forall|k: int| 0 <= k < mb.rooms@.len() implies room_carved(
                mb.map,
                #[trigger] mb.rooms@[k],
            ) by {
                lemma_carved_preserved(mid_map, mb.map, mb.rooms@[k]);
            }

            // Rooms alone put the floor down on the intermediate map.
            assert forall|i: int| 0 <= i < NUM_TILES implies ((#[trigger] mid_map.tiles@[i])
                == TileType::Floor <==> in_some_room(mb.rooms@, i)) by {
                if mid_map.tiles@[i] == TileType::Floor {
                    assert(mid_map.tiles@[i] != wall_map.tiles@[i]);
                }
                if in_some_room(mb.rooms@, i) {
                    let k = choose|k: int|
                        0 <= k < mb.rooms@.len() && rect_contains(
                            #[trigger] mb.rooms@[k],
                            idx_point(i),
                        );
                    assert(room_carved(mid_map, mb.rooms@[k]));
                    assert(mid_map.spec_can_enter(idx_point(i)));
                    lemma_idx_point_roundtrip(i);
                }
            }

            // Corridor building adds exactly its plan's legs.
            let (sorted, flips) = choose|sorted: Seq<Rect>, flips: Seq<bool>|
                corridors_built(mid_map, mb.map, mb.rooms@, sorted, flips);
            assert forall|i: int| 0 <= i < NUM_TILES implies ((#[trigger] mb.map.tiles@[i])
                == TileType::Floor <==> in_some_room(mb.rooms@, i) || on_some_leg(
                sorted,
                flips,
                i,
            )) by {
                if mb.map.tiles@[i] == TileType::Floor && mb.map.tiles@[i] == mid_map.tiles@[i] {
                    assert(in_some_room(mb.rooms@, i));
                }
                if on_some_leg(sorted, flips, i) {
                    let m = choose|m: int|
                        1 <= m < sorted.len() && on_corridor_leg(
                            rect_center(sorted[m - 1]),
                            rect_center(#[trigger] sorted[m]),
                            flips[m],
                            i,
                        );
                    assert(corridor_at(
                        mb.map,
                        rect_center(sorted[m - 1]),
                        rect_center(sorted[m]),
                        flips[m],
                    ));
                    assert(mb.map.tiles@[i] == TileType::Floor);
                }
                if in_some_room(mb.rooms@, i) {
                    assert(mid_map.tiles@[i] == TileType::Floor);
                    assert(mb.map.tiles@[i] == TileType::Floor);
                }
            }

            // Nothing reaches the outermost row or column: rooms keep the
            // margin, and corridor legs run between room centres, which
            // keep it too.
            assert forall|i: int|
                0 <= i < NUM_TILES && on_grid_boundary(idx_point(i)) implies mb.map.tiles@[i]
                == TileType::Wall by {
                if mb.map.tiles@[i] == TileType::Floor {
                    if in_some_room(mb.rooms@, i) {
                        let k = choose|k: int|
                            0 <= k < mb.rooms@.len() && rect_contains(
                                #[trigger] mb.rooms@[k],
                                idx_point(i),
                            );
                        assert(room_in_grid(mb.rooms@[k]));
                        assert(false);
                    } else {
                        assert(on_some_leg(sorted, flips, i));
                        let m = choose|m: int|
                            1 <= m < sorted.len() && on_corridor_leg(
                                rect_center(sorted[m - 1]),
                                rect_center(#[trigger] sorted[m]),
                                flips[m],
                                i,
                            );
                        lemma_center_margin(sorted[m - 1]);
                        lemma_center_margin(sorted[m]);
                        assert(false);
                    }
                }
            }

            // The plan carries over to the finished builder verbatim.
            assert({
                &&& corridor_plan(mb.rooms@, sorted, flips)
                &&& forall|k: int|
                    1 <= k < sorted.len() ==> #[trigger] corridor_at(
                        mb.map,
                        rect_center(sorted[k - 1]),
                        rect_center(sorted[k]),
                        flips[k],
                    )
                &&& forall|i: int|
                    0 <= i < NUM_TILES ==> ((#[trigger] mb.map.tiles@[i]) == TileType::Floor
                        <==> in_some_room(mb.rooms@, i) || on_some_leg(sorted, flips, i))
            });
        }
        mb
    }

    /// Set every tile of the map to `tile`.
    pub fn fill(&mut self, tile: TileType)
        requires
            old(self).map.wf(),
        ensures
            final(self).map.wf(),
            forall|i: int| 0 <= i < NUM_TILES ==> final(self).map.tiles@[i] == tile,
            final(self).rooms == old(self).rooms,
            final(self).player_start == old(self).player_start,
    {
        let mut i: usize = 0;
        while i < self.map.tiles.len()
            invariant
                self.map.wf(),
                i <= NUM_TILES,
                forall|k: int| 0 <= k < i ==> self.map.tiles@[k] == tile,
                self.rooms == old(self).rooms,
                self.player_start == old(self).player_start,
            decreases NUM_TILES - i,
        {
            self.map.tiles.set(i, tile);
            i += 1;
        }
    }

    /// Carve the interior of an accepted room to floor. Cells on the
    /// outermost grid row or column are skipped, preserving an outer wall.
    fn carve_room(&mut self, room: Rect)
        requires
            old(self).map.wf(),
            room_in_grid(room),
        ensures
            final(self).map.wf(),
            forall|i: int|
                0 <= i < NUM_TILES ==> final(self).map.tiles@[i] == (if rect_contains(
                    room,
                    idx_point(i),
                ) {
                    TileType::Floor
                } else {
                    old(self).map.tiles@[i]
                }),
            final(self).rooms == old(self).rooms,
            final(self).player_start == old(self).player_start,
    {
        let mut y = room.y1;
        while y < room.y2
            invariant
                self.map.wf(),
                room_in_grid(room),
                room.y1 <= y <= room.y2,
                forall|i: int|
                    0 <= i < NUM_TILES ==> self.map.tiles@[i] == (if rect_contains(
                        room,
                        idx_point(i),
                    ) && idx_point(i).y < y {
                        TileType::Floor
                    } else {
                        old(self).map.tiles@[i]
                    }),
                self.rooms == old(self).rooms,
                self.player_start == old(self).player_start,
            decreases room.y2 - y,
        {
            let mut x = room.x1;
            while x < room.x2
                invariant
                    self.map.wf(),
                    room_in_grid(room),
                    room.y1 <= y < room.y2,
                    room.x1 <= x <= room.x2,
                    forall|i: int|
                        0 <= i < NUM_TILES ==> self.map.tiles@[i] == (if rect_contains(
                            room,
                            idx_point(i),
                        ) && (idx_point(i).y < y || (idx_point(i).y == y && idx_point(i).x < x)) {
                            TileType::Floor
                        } else {
                            old(self).map.tiles@[i]
                        }),
                    self.rooms == old(self).rooms,
                    self.player_start == old(self).player_start,
                decreases room.x2 - x,
            {
                if x > 0 && x < SCREEN_WIDTH && y > 0 && y < SCREEN_HEIGHT {
                    let idx = map_idx(x, y);
                    self.map.tiles.set(idx, TileType::Floor);
                    proof {
                        lemma_point_idx_roundtrip(Point { x, y });
                    }
                }
                x += 1;
            }
            y += 1;
        }
    }

    /// Draw candidate rooms with uniformly random position and size inside
    /// the grid margin, rejecting a candidate that overlaps an accepted
    /// room, until the target count is reached or the attempt cap runs out.
    /// Accepted rooms are carved to floor as they are accepted.
    pub fn build_random_rooms(&mut self, rng: &mut bracket_lib::random::RandomNumberGenerator)
        requires
            old(self).map.wf(),
            old(self).rooms@.len() == 0,
        ensures
            final(self).map.wf(),
            1 <= final(self).rooms@.len() <= NUM_ROOMS,
            forall|k: int|
                0 <= k < final(self).rooms@.len() ==> room_in_grid(#[trigger] final(self).rooms@[k]),
            rooms_disjoint(final(self).rooms@),
            forall|k: int|
                0 <= k < final(self).rooms@.len() ==> room_carved(
                    final(self).map,
                    #[trigger] final(self).rooms@[k],
                ),
            only_floored(old(self).map.tiles@, final(self).map.tiles@),
            forall|i: int|
                0 <= i < NUM_TILES && final(self).map.tiles@[i] != old(self).map.tiles@[i]
                    ==> in_some_room(final(self).rooms@, i),
            final(self).player_start == old(self).player_start,
    {
        let mut attempts: usize = 0;
        while self.rooms.len() < NUM_ROOMS && attempts < MAX_PLACEMENT_ATTEMPTS
            invariant
                self.map.wf(),
                self.rooms@.len() <= NUM_ROOMS,
                attempts >= 1 ==> self.rooms@.len() >= 1,
                attempts <= MAX_PLACEMENT_ATTEMPTS,
                forall|k: int|
                    0 <= k < self.rooms@.len() ==> room_in_grid(#[trigger] self.rooms@[k]),
                rooms_disjoint(self.rooms@),
                forall|k: int|
                    0 <= k < self.rooms@.len() ==> room_carved(
                        self.map,
                        #[trigger] self.rooms@[k],
                    ),
                only_floored(old(self).map.tiles@, self.map.tiles@),
                forall|i: int|
                    0 <= i < NUM_TILES && self.map.tiles@[i] != old(self).map.tiles@[i]
                        ==> in_some_room(self.rooms@, i),
                self.player_start == old(self).player_start,
            decreases MAX_PLACEMENT_ATTEMPTS - attempts,
        {
            attempts += 1;
            let x = rng_range(rng, 1, SCREEN_WIDTH - 10);
            let y = rng_range(rng, 1, SCREEN_HEIGHT - 10);
            let w = rng_range(rng, 2, 10);
            let h = rng_range(rng, 2, 10);
            let room = Rect::with_size(x, y, w, h);
            let mut overlap = false;
            let mut ri: usize = 0;
            while ri < self.rooms.len()
                invariant
                    ri <= self.rooms@.len(),
                    overlap == exists|j: int|
                        0 <= j < ri && rects_intersect(#[trigger] self.rooms@[j], room),
                decreases self.rooms@.len() - ri,
            {
                if self.rooms[ri].intersect(&room) {
                    overlap = true;
                }
                ri += 1;
            }
            if !overlap {
                let ghost pre_map = self.map;
                self.carve_room(room);
                proof {
                    assert(only_floored(pre_map.tiles@, self.map.tiles@));
                    assert forall|k: int| 0 <= k < self.rooms@.len() implies room_carved(
                        self.map,
                        #[trigger] self.rooms@[k],
                    ) by {
                        lemma_carved_preserved(pre_map, self.map, self.rooms@[k]);
                    }
                    assert(room_carved(self.map, room)) by {
                        assert forall|p: Point| #[trigger] rect_contains(room, p) implies self
                            .map
                            .spec_can_enter(p) by {
                            lemma_point_idx_roundtrip(p);
                        }
                    }
                }
                let ghost rooms_before = self.rooms@;
                self.rooms.push(room);
                proof {
                    assert forall|i: int|
                        0 <= i < NUM_TILES && self.map.tiles@[i] != old(self).map.tiles@[i] implies in_some_room(
                        self.rooms@,
                        i,
                    ) by {
                        if self.map.tiles@[i] == pre_map.tiles@[i] {
                            // Changed before this candidate: its room witness
                            // keeps its index after the push.
                            assert(in_some_room(rooms_before, i));
                            let k = choose|k: int|
                                0 <= k < rooms_before.len() && rect_contains(
                                    #[trigger] rooms_before[k],
                                    idx_point(i),
                                );
                            assert(self.rooms@[k] == rooms_before[k]);
                            assert(rect_contains(self.rooms@[k], idx_point(i)));
                        } else {
                            // Changed by this candidate's carving: the new room
                            // covers it.
                            assert(rect_contains(room, idx_point(i)));
                            assert(self.rooms@[self.rooms@.len() - 1] == room);
                            assert(rect_contains(
                                self.rooms@[self.rooms@.len() - 1],
                                idx_point(i),
                            ));
                        }
                    }
                }
            }
        }
    }

    /// Carve a vertical corridor leg at column `x` between rows `y1` and
    /// `y2`, inclusive of both endpoints. Cells outside the grid are
    /// silently skipped, never an error.
    pub fn apply_vertical_tunnel(&mut self, y1: i32, y2: i32, x: i32)
        requires
            old(self).map.wf(),
            y1 < i32::MAX,
            y2 < i32::MAX,
        ensures
            final(self).map.wf(),
            forall|i: int|
                0 <= i < NUM_TILES ==> final(self).map.tiles@[i] == (if on_vertical_leg(
                    x as int,
                    y1 as int,
                    y2 as int,
                    idx_point(i),
                ) {
                    TileType::Floor
                } else {
                    old(self).map.tiles@[i]
                }),
            final(self).rooms == old(self).rooms,
            final(self).player_start == old(self).player_start,
    {
        let y_min = if y1 < y2 { y1 } else { y2 };
        let y_max = if y1 < y2 { y2 } else { y1 };
        let mut y = y_min;
        while y <= y_max
            invariant
                self.map.wf(),
                y_min == spec_min(y1 as int, y2 as int),
                y_max == spec_max(y1 as int, y2 as int),
                y_max < i32::MAX,
                y_min <= y,
                y <= y_max + 1,
                forall|i: int|
                    0 <= i < NUM_TILES ==> self.map.tiles@[i] == (if on_vertical_leg(
                        x as int,
                        y1 as int,
                        y2 as int,
                        idx_point(i),
                    ) && idx_point(i).y < y {
                        TileType::Floor
                    } else {
                        old(self).map.tiles@[i]
                    }),
                self.rooms == old(self).rooms,
                self.player_start == old(self).player_start,
            decreases y_max + 1 - y,
        {
            if let Some(idx) = self.map.try_idx(Point { x, y }) {
                self.map.tiles.set(idx, TileType::Floor);
                proof {
                    lemma_point_idx_roundtrip(Point { x, y });
                }
            }
            y += 1;
        }
    }

    /// Carve a horizontal corridor leg at row `y` between columns `x1` and
    /// `x2`, inclusive of both endpoints. Cells outside the grid are
    /// silently skipped, never an error.
    pub fn apply_horizontal_tunnel(&mut self, x1: i32, x2: i32, y: i32)
        requires
            old(self).map.wf(),
            x1 < i32::MAX,
            x2 < i32::MAX,
        ensures
            final(self).map.wf(),
            forall|i: int|
                0 <= i < NUM_TILES ==> final(self).map.tiles@[i] == (if on_horizontal_leg(
                    x1 as int,
                    x2 as int,
                    y as int,
                    idx_point(i),
                ) {
                    TileType::Floor
                } else {
                    old(self).map.tiles@[i]
                }),
            final(self).rooms == old(self).rooms,
            final(self).player_start == old(self).player_start,
    {
        let x_min = if x1 < x2 { x1 } else { x2 };
        let x_max = if x1 < x2 { x2 } else { x1 };
        let mut x = x_min;
        while x <= x_max
            invariant
                self.map.wf(),
                x_min == spec_min(x1 as int, x2 as int),
                x_max == spec_max(x1 as int, x2 as int),
                x_max < i32::MAX,
                x_min <= x,
                x <= x_max + 1,
                forall|i: int|
                    0 <= i < NUM_TILES ==> self.map.tiles@[i] == (if on_horizontal_leg(
                        x1 as int,
                        x2 as int,
                        y as int,
                        idx_point(i),
                    ) && idx_point(i).x < x {
                        TileType::Floor
                    } else {
                        old(self).map.tiles@[i]
                    }),
                self.rooms == old(self).rooms,
                self.player_start == old(self).player_start,
            decreases x_max + 1 - x,
        {
            if let Some(idx) = self.map.try_idx(Point { x, y }) {
                self.map.tiles.set(idx, TileType::Floor);
                proof {
                    lemma_point_idx_roundtrip(Point { x, y });
                }
            }
            x += 1;
        }
    }

    /// Join each adjacent pair of rooms, in ascending order of their centre
    /// x coordinate, with an L-shaped corridor; a coin flip picks which leg
    /// is carved first. For some plan over the accepted rooms — they
    /// re-ordered by centre x, one flip per adjacent pair — every corridor
    /// of the plan is floor afterwards, and nothing but the plan's legs
    /// changed.
    pub fn build_corridors(&mut self, rng: &mut bracket_lib::random::RandomNumberGenerator)
        requires
            old(self).map.wf(),
            forall|k: int|
                0 <= k < old(self).rooms@.len() ==> room_in_grid(#[trigger] old(self).rooms@[k]),
        ensures
            final(self).map.wf(),
            only_floored(old(self).map.tiles@, final(self).map.tiles@),
            final(self).rooms == old(self).rooms,
            final(self).player_start == old(self).player_start,
            exists|sorted: Seq<Rect>, flips: Seq<bool>|
                corridors_built(
                    old(self).map,
                    final(self).map,
                    old(self).rooms@,
                    sorted,
                    flips,
                ),
    {
        // Sort a copy of the rooms by ascending centre x; the stored room
        // list keeps its insertion order for spawn placement.
        let mut sorted: Vec<Rect> = Vec::new();
        let mut i: usize = 0;
        while i < self.rooms.len()
            invariant
                i <= self.rooms@.len(),
                sorted@.len() == i,
                forall|k: int|
                    0 <= k < old(self).rooms@.len() ==> room_in_grid(
                        #[trigger] old(self).rooms@[k],
                    ),
                self == old(self),
                forall|k: int| 0 <= k < sorted@.len() ==> room_in_grid(#[trigger] sorted@[k]),
                forall|a: int, b: int|
                    0 <= a < b < sorted@.len() ==> rect_center(#[trigger] sorted@[a]).x
                        <= rect_center(#[trigger] sorted@[b]).x,
                forall|j: int| 0 <= j < i ==> sorted@.contains(#[trigger] self.rooms@[j]),
            decreases self.rooms@.len() - i,
        {
            let room = self.rooms[i];
            let cx = (room.x1 + room.x2) / 2;
            let mut j: usize = sorted.len();
            while j > 0
                invariant
                    j <= sorted@.len(),
                    room_in_grid(room),
                    cx == rect_center(room).x,
                    forall|k: int| 0 <= k < sorted@.len() ==> room_in_grid(#[trigger] sorted@[k]),
                    forall|k: int|
                        j <= k < sorted@.len() ==> rect_center(#[trigger] sorted@[k]).x
                            > rect_center(room).x,
                ensures
                    j <= sorted@.len(),
                    forall|k: int|
                        j <= k < sorted@.len() ==> rect_center(#[trigger] sorted@[k]).x
                            > rect_center(room).x,
                    j > 0 ==> rect_center(sorted@[j - 1]).x <= rect_center(room).x,
                decreases j,
            {
                let prev = sorted[j - 1];
                if (prev.x1 + prev.x2) / 2 > cx {
                    j -= 1;
                } else {
                    break;
                }
            }
            let ghost s_before = sorted@;
            sorted.insert(j, room);
            proof {
                s_before.insert_ensures(j as int, room);
                assert forall|jj: int| 0 <= jj < i + 1 implies sorted@.contains(
                    #[trigger] self.rooms@[jj],
                ) by {
                    if jj < i {
                        let w = choose|w: int|
                            0 <= w < s_before.len() && s_before[w] == self.rooms@[jj];
                        if w < j {
                            assert(sorted@[w] == self.rooms@[jj]);
                        } else {
                            assert(sorted@[w + 1] == self.rooms@[jj]);
                        }
                    } else {
                        assert(sorted@[j as int] == self.rooms@[jj]);
                    }
                }
            }
            i += 1;
        }

        // Carve an L-shaped corridor between each adjacent pair of centres,
        // recording the coin flips as the carved plan.
        let ghost mut flips: Seq<bool> = Seq::new(sorted@.len(), |m: int| false);
        let mut k: usize = 1;
        while k < sorted.len()
            invariant
                self.map.wf(),
                k >= 1,
                sorted@.len() >= 1 ==> k <= sorted@.len(),
                forall|m: int| 0 <= m < sorted@.len() ==> room_in_grid(#[trigger] sorted@[m]),
                only_floored(old(self).map.tiles@, self.map.tiles@),
                self.rooms == old(self).rooms,
                self.player_start == old(self).player_start,
                flips.len() == sorted@.len(),
                forall|m: int|
                    1 <= m < k ==> #[trigger] corridor_at(
                        self.map,
                        rect_center(sorted@[m - 1]),
                        rect_center(sorted@[m]),
                        flips[m],
                    ),
                forall|i: int|
                    0 <= i < NUM_TILES && self.map.tiles@[i] != old(self).map.tiles@[i]
                        ==> self.map.tiles@[i] == TileType::Floor && exists|m: int|
                        1 <= m < k && m < sorted@.len() && on_corridor_leg(
                            rect_center(sorted@[m - 1]),
                            rect_center(#[trigger] sorted@[m]),
                            flips[m],
                            i,
                        ),
            decreases sorted@.len() - k,
        {
            let prev = sorted[k - 1].center();
            let new = sorted[k].center();
            let ghost pre_map = self.map;
            let ghost flips_before = flips;
            let flip = rng_range(rng, 0, 2) == 1;

            if flip {
                self.apply_horizontal_tunnel(prev.x, new.x, prev.y);
                self.apply_vertical_tunnel(prev.y, new.y, new.x);
            } else {
                self.apply_vertical_tunnel(prev.y, new.y, prev.x);
                self.apply_horizontal_tunnel(prev.x, new.x, new.y);
            }
            proof {
                flips = flips.update(k as int, flip);
                lemma_only_floored_trans(old(self).map.tiles@, pre_map.tiles@, self.map.tiles@);

                // This pair's corridor is carved: the first leg's cells
                // survive the second tunnel, which only adds floor.
                assert(corridor_at(self.map, prev, new, flip));

                // Earlier corridors survive: this pair's tunnels only add
                // floor too.
                assert forall|m: int| 1 <= m < k + 1 implies #[trigger] corridor_at(
                    self.map,
                    rect_center(sorted@[m - 1]),
                    rect_center(sorted@[m]),
                    flips[m],
                ) by {
                    if m < k {
                        assert(flips[m] == flips_before[m]);
                        lemma_corridor_preserved(
                            pre_map,
                            self.map,
                            rect_center(sorted@[m - 1]),
                            rect_center(sorted@[m]),
                            flips_before[m],
                        );
                    } else {
                        assert(flips[m] == flip);
                    }
                }

                // Every changed cell lies on some pair's leg: earlier
                // changes keep their witness, this iteration's lie on this
                // pair's legs.
                assert forall|i: int|
                    0 <= i < NUM_TILES && self.map.tiles@[i] != old(self).map.tiles@[i] implies (
                self.map.tiles@[i] == TileType::Floor && exists|m: int|
                    1 <= m < k + 1 && m < sorted@.len() && on_corridor_leg(
                        rect_center(sorted@[m - 1]),
                        rect_center(#[trigger] sorted@[m]),
                        flips[m],
                        i,
                    )) by {
                    if self.map.tiles@[i] == pre_map.tiles@[i] {
                        let m = choose|m: int|
                            1 <= m < k && m < sorted@.len() && on_corridor_leg(
                                rect_center(sorted@[m - 1]),
                                rect_center(#[trigger] sorted@[m]),
                                flips_before[m],
                                i,
                            );
                        assert(flips[m] == flips_before[m]);
                        assert(on_corridor_leg(
                            rect_center(sorted@[m - 1]),
                            rect_center(sorted@[m]),
                            flips[m],
                            i,
                        ));
                    } else {
                        assert(on_corridor_leg(prev, new, flip, i));
                        assert(flips[k as int] == flip);
                        assert(on_corridor_leg(
                            rect_center(sorted@[k - 1]),
                            rect_center(sorted@[k as int]),
                            flips[k as int],
                            i,
                        ));
                    }
                }
            }
            k += 1;
        }
        proof {
            assert(corridor_plan(old(self).rooms@, sorted@, flips));
            assert forall|i: int|
                0 <= i < NUM_TILES && self.map.tiles@[i] != old(self).map.tiles@[i] implies (
            self.map.tiles@[i] == TileType::Floor && on_some_leg(sorted@, flips, i)) by {
                let m = choose|m: int|
                    1 <= m < k && m < sorted@.len() && on_corridor_leg(
                        rect_center(sorted@[m - 1]),
                        rect_center(#[trigger] sorted@[m]),
                        flips[m],
                        i,
                    );
                assert(1 <= m < sorted@.len());
                assert(on_corridor_leg(
                    rect_center(sorted@[m - 1]),
                    rect_center(sorted@[m]),
                    flips[m],
                    i,
                ));
            }
            assert(corridors_built(old(self).map, self.map, old(self).rooms@, sorted@, flips));
        }
    }
}

} // verus!
