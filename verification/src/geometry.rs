//! Integer points, room rectangles, and the four movement directions.
use vstd::prelude::*;

verus! {

/// An integer 2-D coordinate, used both as a map position and as a movement
/// delta. Compared by equality of its fields.
#[derive(Clone, Copy, PartialEq, Eq, Structural, Debug, Hash)]
pub struct Point {
    pub x: i32,
    pub y: i32,
}

impl Point {
    pub fn new(x: i32, y: i32) -> (p: Point)
        ensures
            p == (Point { x, y }),
    {
        Point { x, y }
    }

    pub fn zero() -> (p: Point)
        ensures
            p == (Point { x: 0, y: 0 }),
    {
        Point { x: 0, y: 0 }
    }
}

/// One of the four unit movement directions a key press or a random walk
/// can pick.
#[derive(Clone, Copy, PartialEq, Eq, Structural, Debug)]
pub enum Direction {
    Left,
    Right,
    Up,
    Down,
}

/// The unit delta a direction stands for.
pub open spec fn direction_delta(d: Direction) -> Point {
    match d {
        Direction::Left => Point { x: -1i32, y: 0 },
        Direction::Right => Point { x: 1, y: 0 },
        Direction::Up => Point { x: 0, y: -1i32 },
        Direction::Down => Point { x: 0, y: 1 },
    }
}

impl Direction {
    pub fn delta(self) -> (p: Point)
        ensures
            p == direction_delta(self),
    {
        match self {
            Direction::Left => Point { x: -1, y: 0 },
            Direction::Right => Point { x: 1, y: 0 },
            Direction::Up => Point { x: 0, y: -1 },
            Direction::Down => Point { x: 0, y: 1 },
        }
    }
}

/// The sum of two points, coordinate by coordinate (with the machine's
/// 32-bit wraparound; callers keep the sums in range).
pub open spec fn point_plus(a: Point, b: Point) -> Point {
    Point { x: (a.x + b.x) as i32, y: (a.y + b.y) as i32 }
}

/// Both coordinate sums of the two points stay within `i32`.
pub open spec fn point_plus_fits(a: Point, b: Point) -> bool {
    i32::MIN <= a.x + b.x <= i32::MAX && i32::MIN <= a.y + b.y <= i32::MAX
}

/// An axis-aligned room rectangle. Its interior (the cells carved to floor)
/// spans `[x1, x2) x [y1, y2)`.
#[derive(Clone, Copy, PartialEq, Eq, Structural, Debug)]
pub struct Rect {
    pub x1: i32,
    pub y1: i32,
    pub x2: i32,
    pub y2: i32,
}

/// Whether `p` lies in the interior of `r`.
pub open spec fn rect_contains(r: Rect, p: Point) -> bool {
    r.x1 <= p.x < r.x2 && r.y1 <= p.y < r.y2
}

/// Inclusive bounding-box overlap test between two rectangles.
pub open spec fn rects_intersect(a: Rect, b: Rect) -> bool {
    a.x1 <= b.x2 && a.x2 >= b.x1 && a.y1 <= b.y2 && a.y2 >= b.y1
}

/// The center of a rectangle, rounding each coordinate down.
pub open spec fn rect_center(r: Rect) -> Point {
    Point { x: ((r.x1 + r.x2) / 2) as i32, y: ((r.y1 + r.y2) / 2) as i32 }
}

impl Rect {
    /// Build a rectangle from a corner position and a width and height.
    pub fn with_size(x: i32, y: i32, w: i32, h: i32) -> (r: Rect)
        requires
            i32::MIN <= x + w <= i32::MAX,
            i32::MIN <= y + h <= i32::MAX,
        ensures
            r == (Rect { x1: x, y1: y, x2: (x + w) as i32, y2: (y + h) as i32 }),
    {
        Rect { x1: x, y1: y, x2: x + w, y2: y + h }
    }

    /// Inclusive bounding-box overlap test with another rectangle.
    pub fn intersect(&self, other: &Rect) -> (r: bool)
        ensures
            r == rects_intersect(*self, *other),
    {
        self.x1 <= other.x2 && self.x2 >= other.x1 && self.y1 <= other.y2 && self.y2 >= other.y1
    }

    /// The center of the rectangle.
    pub fn center(&self) -> (p: Point)
        requires
            0 <= self.x1 + self.x2 <= i32::MAX,
            0 <= self.y1 + self.y2 <= i32::MAX,
        ensures
            p == rect_center(*self),
    {
        Point { x: (self.x1 + self.x2) / 2, y: (self.y1 + self.y2) / 2 }
    }
}

} // verus!
