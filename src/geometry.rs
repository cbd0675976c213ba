use vstd::prelude::*;

verus! {

/// A displacement or position in window space, in whole device units.
#[derive(Clone, Copy, Debug, PartialEq, Eq, Structural)]
pub struct Vec2 {
    pub x: i64,
    pub y: i64,
}

/// The nearest `i64` value to `v`.
pub open spec fn clamp(v: int) -> int {
    if v < i64::MIN {
        i64::MIN as int
    } else if v > i64::MAX {
        i64::MAX as int
    } else {
        v
    }
}

/// The sum of two vectors, each component held to the `i64` range.
pub open spec fn sat_add(a: (int, int), b: (int, int)) -> (int, int) {
    (clamp(a.0 + b.0), clamp(a.1 + b.1))
}

/// The mathematical value of a vector: a pair of unbounded integers.
impl View for Vec2 {
    type V = (int, int);

    open spec fn view(&self) -> (int, int) {
        (self.x as int, self.y as int)
    }
}

impl Vec2 {
    /// The zero vector.
    pub fn zero() -> (r: Vec2)
        ensures
            r@ == (0int, 0int),
    {
        Vec2 { x: 0, y: 0 }
    }

    pub fn new(x: i64, y: i64) -> (r: Vec2)
        ensures
            r.x == x,
            r.y == y,
    {
        Vec2 { x, y }
    }

    /// Component-wise sum, held to the `i64` range where it would leave it.
    pub fn saturating_add(self, other: Vec2) -> (r: Vec2)
        ensures
            r@ == sat_add(self@, other@),
    {
        let x = self.x as i128 + other.x as i128;
        let y = self.y as i128 + other.y as i128;
        let x = if x < i64::MIN as i128 {
            i64::MIN
        } else if x > i64::MAX as i128 {
            i64::MAX
        } else {
            x as i64
        };
        let y = if y < i64::MIN as i128 {
            i64::MIN
        } else if y > i64::MAX as i128 {
            i64::MAX
        } else {
            y as i64
        };
        Vec2 { x, y }
    }
}

} // verus!
