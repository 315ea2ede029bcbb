//! Integer points: the machine representation and its mathematical model.
use vstd::prelude::*;

verus! {

/// A point of the integer plane, without bounds. Cell and pixel coordinates
/// are stated over this type.
pub struct Vector2I {
    pub x: int,
    pub y: int,
}

impl Vector2I {
    /// Component-wise sum.
    pub open spec fn plus(self, rhs: Vector2I) -> Vector2I {
        Vector2I { x: self.x + rhs.x, y: self.y + rhs.y }
    }

    /// Component-wise difference.
    pub open spec fn minus(self, rhs: Vector2I) -> Vector2I {
        Vector2I { x: self.x - rhs.x, y: self.y - rhs.y }
    }

    /// Both components multiplied by `k`.
    pub open spec fn scaled(self, k: int) -> Vector2I {
        Vector2I { x: self.x * k, y: self.y * k }
    }

    /// Whether both components are in the range of `i32`, so that a `Point`
    /// can hold this value.
    pub open spec fn fits(self) -> bool {
        &&& i32::MIN <= self.x <= i32::MAX
        &&& i32::MIN <= self.y <= i32::MAX
    }

    /// Whether this is one of the four unit steps left, right, up or down.
    pub open spec fn is_cardinal(self) -> bool {
        exists|d: Direction| self == #[trigger] d.offset()
    }
}

/// A point with 32-bit coordinates.
#[derive(Clone, Copy, Debug, PartialEq, Eq, Structural)]
pub struct Point {
    pub x: i32,
    pub y: i32,
}

/// The four directions in which an entity can leave a cell.
#[derive(Clone, Copy, Debug, PartialEq, Eq, Structural)]
pub enum Direction {
    Left,
    Right,
    Up,
    Down,
}

impl Direction {
    /// The unit step of this direction. Rows are counted downwards, so up is
    /// `(0, -1)`.
    pub open spec fn offset(self) -> Vector2I {
        match self {
            Direction::Left => Vector2I { x: -1, y: 0 },
            Direction::Right => Vector2I { x: 1, y: 0 },
            Direction::Up => Vector2I { x: 0, y: -1 },
            Direction::Down => Vector2I { x: 0, y: 1 },
        }
    }

    /// The unit step of this direction as a `Point`.
    pub fn delta(self) -> (d: Point)
        ensures
            d@ == self.offset(),
    {
        match self {
            Direction::Left => Point { x: -1, y: 0 },
            Direction::Right => Point { x: 1, y: 0 },
            Direction::Up => Point { x: 0, y: -1 },
            Direction::Down => Point { x: 0, y: 1 },
        }
    }
}

impl Point {
    /// The point that holds `v`. Use it only where `v.fits()`.
    pub open spec fn holding(v: Vector2I) -> Point {
        Point { x: v.x as i32, y: v.y as i32 }
    }
}

impl View for Point {
    type V = Vector2I;

    open spec fn view(&self) -> Vector2I {
        Vector2I { x: self.x as int, y: self.y as int }
    }
}

impl core::ops::Add for Point {
    type Output = Point;

    /// Component-wise sum. Both coordinates of the sum must be in the
    /// range of `i32`.
    fn add(self, rhs: Point) -> (sum: Point)
        ensures
            sum@ == self@.plus(rhs@),
    {
        Point { x: self.x + rhs.x, y: self.y + rhs.y }
    }
}

impl vstd::std_specs::ops::AddSpecImpl for Point {
    open spec fn obeys_add_spec() -> bool {
        true
    }

    open spec fn add_req(self, rhs: Point) -> bool {
        self@.plus(rhs@).fits()
    }

    open spec fn add_spec(self, rhs: Point) -> Point {
        Point { x: (self.x + rhs.x) as i32, y: (self.y + rhs.y) as i32 }
    }
}

impl core::ops::Sub for Point {
    type Output = Point;

    /// Component-wise difference. Both coordinates of the difference must
    /// be in the range of `i32`.
    fn sub(self, rhs: Point) -> (difference: Point)
        ensures
            difference@ == self@.minus(rhs@),
    {
        Point { x: self.x - rhs.x, y: self.y - rhs.y }
    }
}

impl vstd::std_specs::ops::SubSpecImpl for Point {
    open spec fn obeys_sub_spec() -> bool {
        true
    }

    open spec fn sub_req(self, rhs: Point) -> bool {
        self@.minus(rhs@).fits()
    }

    open spec fn sub_spec(self, rhs: Point) -> Point {
        Point { x: (self.x - rhs.x) as i32, y: (self.y - rhs.y) as i32 }
    }
}

/// Adding a delta and then subtracting the same delta gives the point one
/// began with: where `p + delta` can be computed, so can `(p + delta) - delta`,
/// and it is `p`. This covers the four unit steps of `Direction`.
pub proof fn lemma_add_sub_round_trip(p: Point, delta: Point)
    requires
        p@.plus(delta@).fits(),
    ensures
        p@.plus(delta@).minus(delta@).fits(),
        p@.plus(delta@).minus(delta@) == p@,
        forall|sum: Point, back: Point|
            sum@ == p@.plus(delta@) && #[trigger] back@ == #[trigger] sum@.minus(delta@) ==> back
                == p,
{
}

/// Subtracting a delta and then adding it again gives the point one began
/// with: where `p - delta` can be computed, so can `(p - delta) + delta`, and
/// it is `p`.
pub proof fn lemma_sub_add_round_trip(p: Point, delta: Point)
    requires
        p@.minus(delta@).fits(),
    ensures
        p@.minus(delta@).plus(delta@).fits(),
        p@.minus(delta@).plus(delta@) == p@,
        forall|difference: Point, back: Point|
            difference@ == p@.minus(delta@) && #[trigger] back@ == #[trigger] difference@.plus(
                delta@,
            ) ==> back == p,
{
}

} // verus!
