//! Integer positions and displacements on the tile grid.

use vstd::prelude::*;

verus! {

/// A position or a displacement, in whole tiles.
#[derive(Debug, Clone, Copy, PartialEq, Eq, Structural)]
pub struct Vector2 {
    pub x: i16,
    pub y: i16,
}

/// Whether both coordinates can be held by a `Vector2`.
pub open spec fn representable(x: int, y: int) -> bool {
    i16::MIN <= x <= i16::MAX && i16::MIN <= y <= i16::MAX
}

impl Vector2 {
    /// The componentwise sum, meaningful where it is `representable`.
    pub open spec fn plus(self, other: Vector2) -> Vector2 {
        Vector2 { x: (self.x + other.x) as i16, y: (self.y + other.y) as i16 }
    }

    /// The vector (0, 0).
    pub fn new() -> (v: Vector2)
        ensures
            v == (Vector2 { x: 0, y: 0 }),
    {
        Vector2 { x: 0, y: 0 }
    }

    /// The vector (0, 0), for initialising shared state.
    pub fn const_new() -> (v: Vector2)
        ensures
            v == (Vector2 { x: 0, y: 0 }),
    {
        Vector2 { x: 0, y: 0 }
    }

    /// Componentwise addition of two vectors whose sum is representable.
    pub fn add(self, other: Vector2) -> (sum: Vector2)
        requires
            representable(self.x + other.x, self.y + other.y),
        ensures
            sum.x == self.x + other.x,
            sum.y == self.y + other.y,
            sum == self.plus(other),
    {
        Vector2 { x: self.x + other.x, y: self.y + other.y }
    }

    /// Componentwise addition, or `None` where a coordinate would leave the
    /// range of `i16`.
    pub fn checked_add(self, other: Vector2) -> (sum: Option<Vector2>)
        ensures
            sum is Some <==> representable(self.x + other.x, self.y + other.y),
            sum is Some ==> sum == Some(self.plus(other)),
            sum matches Some(v) ==> v.x == self.x + other.x && v.y == self.y + other.y,
    {
        match (self.x.checked_add(other.x), self.y.checked_add(other.y)) {
            (Some(x), Some(y)) => Some(Vector2 { x, y }),
            _ => None,
        }
    }
}

} // verus!
