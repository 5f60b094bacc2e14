use vstd::prelude::*;

verus! {

/// Horizontal direction an actor faces.
#[derive(Debug, Clone, Copy, PartialEq, Eq, Structural)]
pub enum Direction {
    Left,
    Right,
}

impl Direction {
    /// The sign of the direction: `-1` for left, `+1` for right.
    pub open spec fn sign(self) -> int {
        match self {
            Direction::Left => -1,
            Direction::Right => 1,
        }
    }

    /// Multiplier that turns a speed into a signed horizontal velocity.
    pub fn mult(&self) -> (m: i64)
        ensures
            m == self.sign(),
    {
        match self {
            Direction::Left => -1,
            Direction::Right => 1,
        }
    }
}

/// A point or displacement of the plane with unbounded integer coordinates:
/// the mathematical value of a [`Vec2`].
pub struct Vector {
    pub x: int,
    pub y: int,
}

/// An axis-aligned rectangle with unbounded integer coordinates: the
/// mathematical value of a [`Rect`]. `(x, y)` is the bottom left corner.
pub struct Aabb {
    pub x: int,
    pub y: int,
    pub w: int,
    pub h: int,
}

/// The larger of two integers.
pub open spec fn max_int(a: int, b: int) -> int {
    if a >= b {
        a
    } else {
        b
    }
}

/// The smaller of two integers.
pub open spec fn min_int(a: int, b: int) -> int {
    if a <= b {
        a
    } else {
        b
    }
}

impl Vector {
    /// Component-wise sum.
    pub open spec fn plus(self, d: Vector) -> Vector {
        Vector { x: self.x + d.x, y: self.y + d.y }
    }
}

impl Aabb {
    /// The x coordinate of the right edge.
    pub open spec fn right(self) -> int {
        self.x + self.w
    }

    /// The y coordinate of the top edge.
    pub open spec fn top(self) -> int {
        self.y + self.h
    }

    /// Both extents are strictly positive.
    pub open spec fn solid(self) -> bool {
        self.w > 0 && self.h > 0
    }

    /// The rectangle of the same size whose bottom left corner is `p`.
    pub open spec fn at(self, p: Vector) -> Aabb {
        Aabb { x: p.x, y: p.y, w: self.w, h: self.h }
    }

    /// The bottom left corner.
    pub open spec fn origin(self) -> Vector {
        Vector { x: self.x, y: self.y }
    }

    /// `self` lies inside `outer`, edges included.
    pub open spec fn within(self, outer: Aabb) -> bool {
        &&& outer.x <= self.x
        &&& self.right() <= outer.right()
        &&& outer.y <= self.y
        &&& self.top() <= outer.top()
    }

    /// The open intervals of the two rectangles meet on both axes. Rectangles
    /// that only share an edge or a corner do not overlap.
    pub open spec fn overlaps(self, other: Aabb) -> bool {
        &&& self.x < other.right()
        &&& self.right() > other.x
        &&& self.y < other.top()
        &&& self.top() > other.y
    }

    /// The intersection of the two rectangles, or `None` where it has no
    /// interior.
    pub open spec fn clip(self, other: Aabb) -> Option<Aabb> {
        let x = max_int(self.x, other.x);
        let y = max_int(self.y, other.y);
        let w = min_int(self.right(), other.right()) - x;
        let h = min_int(self.top(), other.top()) - y;
        if w <= 0 || h <= 0 {
            None
        } else {
            Some(Aabb { x, y, w, h })
        }
    }
}

/// A point or displacement, in length units (or, for a velocity, in length
/// units per second).
#[derive(Debug, Clone, Copy, PartialEq, Eq, Structural)]
pub struct Vec2 {
    pub x: i64,
    pub y: i64,
}

/// A position in game space.
pub type Point2 = Vec2;

/// A width and a height.
pub type Dimensions = Vec2;

impl View for Vec2 {
    type V = Vector;

    open spec fn view(&self) -> Vector {
        Vector { x: self.x as int, y: self.y as int }
    }
}

impl Vec2 {
    /// The vector with the given components.
    pub fn new(x: i64, y: i64) -> (v: Vec2)
        ensures
            v.x == x,
            v.y == y,
    {
        Vec2 { x, y }
    }
}

/// An axis-aligned rectangle in game space; `(x, y)` is its bottom left
/// corner, `w` and `h` its width and height.
#[derive(Debug, Clone, Copy, PartialEq, Eq, Structural)]
pub struct Rect {
    pub x: i64,
    pub y: i64,
    pub w: i64,
    pub h: i64,
}

impl View for Rect {
    type V = Aabb;

    open spec fn view(&self) -> Aabb {
        Aabb { x: self.x as int, y: self.y as int, w: self.w as int, h: self.h as int }
    }
}

/// Intersection tests between rectangles.
pub trait RectExt {
    /// Whether the interiors of the two rectangles meet.
    fn collides_with(&self, other: &Rect) -> bool;

    /// The rectangle that both cover, if it has an interior.
    fn clip(&self, other: &Rect) -> Option<Rect>;
}

impl RectExt for Rect {
    /// Touching edges are not a collision. The test is exact for every pair
    /// of rectangles, whatever their coordinates.
    fn collides_with(&self, other: &Rect) -> (hit: bool)
        ensures
            hit == self@.overlaps(other@),
    {
        let ax: i128 = self.x as i128;
        let ay: i128 = self.y as i128;
        let bx: i128 = other.x as i128;
        let by: i128 = other.y as i128;
        ax < bx + other.w as i128 && ax + self.w as i128 > bx && ay < by + other.h as i128 && ay
            + self.h as i128 > by
    }

    /// Returns the intersection rectangle exactly when it has positive width
    /// and height.
    fn clip(&self, other: &Rect) -> (clipped: Option<Rect>)
        ensures
            match clipped {
                Some(c) => self@.clip(other@) == Some(c@),
                None => self@.clip(other@) is None,
            },
    {
        let min_x: i64 = if self.x >= other.x {
            self.x
        } else {
            other.x
        };
        let min_y: i64 = if self.y >= other.y {
            self.y
        } else {
            other.y
        };
        let a_right: i128 = self.x as i128 + self.w as i128;
        let b_right: i128 = other.x as i128 + other.w as i128;
        let a_top: i128 = self.y as i128 + self.h as i128;
        let b_top: i128 = other.y as i128 + other.h as i128;
        let max_x: i128 = if a_right <= b_right {
            a_right
        } else {
            b_right
        };
        let max_y: i128 = if a_top <= b_top {
            a_top
        } else {
            b_top
        };
        let w: i128 = max_x - min_x as i128;
        let h: i128 = max_y - min_y as i128;
        if w <= 0 || h <= 0 {
            return None;
        }
        Some(Rect { x: min_x, y: min_y, w: w as i64, h: h as i64 })
    }
}

/// Overlap does not depend on the order of the two rectangles.
pub proof fn lemma_overlaps_symmetric(a: Aabb, b: Aabb)
    ensures
        a.overlaps(b) == b.overlaps(a),
{
}

/// Clipping does not depend on the order of the two rectangles: both orders
/// give a rectangle or neither does, and the rectangles are equal.
pub proof fn lemma_clip_symmetric(a: Aabb, b: Aabb)
    ensures
        a.clip(b) == b.clip(a),
{
}

/// Two rectangles with positive extents have an intersection rectangle
/// exactly when they overlap.
pub proof fn lemma_clip_iff_overlaps(a: Aabb, b: Aabb)
    requires
        a.solid(),
        b.solid(),
    ensures
        a.clip(b) is Some <==> a.overlaps(b),
{
}

/// The intersection rectangle has positive extents, lies inside both
/// rectangles, and is no larger than either.
pub proof fn lemma_clip_inside(a: Aabb, b: Aabb)
    requires
        a.clip(b) is Some,
    ensures
        a.clip(b).unwrap().solid(),
        a.clip(b).unwrap().within(a),
        a.clip(b).unwrap().within(b),
        a.overlaps(b),
{
}

} // verus!
