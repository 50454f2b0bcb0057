//! Integer board coordinates and offsets.

use vstd::prelude::*;

verus! {

/// A point or an offset on the board; `y` grows upwards.
#[derive(Clone, Copy, Debug, PartialEq, Eq, Structural)]
pub struct Position {
    pub x: i32,
    pub y: i32,
}

impl Position {
    pub fn new(x: i32, y: i32) -> (r: Self)
        ensures
            r.x == x,
            r.y == y,
    {
        Position { x, y }
    }

    pub fn left() -> (r: Self)
        ensures
            r.x == -1,
            r.y == 0,
    {
        Position { x: -1, y: 0 }
    }

    pub fn right() -> (r: Self)
        ensures
            r.x == 1,
            r.y == 0,
    {
        Position { x: 1, y: 0 }
    }

    pub fn up() -> (r: Self)
        ensures
            r.x == 0,
            r.y == 1,
    {
        Position { x: 0, y: 1 }
    }

    pub fn down() -> (r: Self)
        ensures
            r.x == 0,
            r.y == -1,
    {
        Position { x: 0, y: -1 }
    }

    /// Component-wise sum.
    pub fn add(self, rhs: Position) -> (r: Position)
        requires
            i32::MIN <= self.x + rhs.x <= i32::MAX,
            i32::MIN <= self.y + rhs.y <= i32::MAX,
        ensures
            r.x == self.x + rhs.x,
            r.y == self.y + rhs.y,
    {
        Position { x: self.x + rhs.x, y: self.y + rhs.y }
    }

    /// Component-wise difference.
    pub fn sub(self, rhs: Position) -> (r: Position)
        requires
            i32::MIN <= self.x - rhs.x <= i32::MAX,
            i32::MIN <= self.y - rhs.y <= i32::MAX,
        ensures
            r.x == self.x - rhs.x,
            r.y == self.y - rhs.y,
    {
        Position { x: self.x - rhs.x, y: self.y - rhs.y }
    }

    /// Both components scaled by `k`.
    pub fn mul(self, k: i32) -> (r: Position)
        requires
            i32::MIN <= self.x * k <= i32::MAX,
            i32::MIN <= self.y * k <= i32::MAX,
        ensures
            r.x == self.x * k,
            r.y == self.y * k,
    {
        Position { x: self.x * k, y: self.y * k }
    }

    /// The same offset pointing the other way.
    pub fn neg(self) -> (r: Position)
        requires
            self.x > i32::MIN,
            self.y > i32::MIN,
        ensures
            r.x == -self.x,
            r.y == -self.y,
    {
        Position { x: -self.x, y: -self.y }
    }

    pub fn add_assign(&mut self, rhs: Position)
        requires
            i32::MIN <= old(self).x + rhs.x <= i32::MAX,
            i32::MIN <= old(self).y + rhs.y <= i32::MAX,
        ensures
            final(self).x == old(self).x + rhs.x,
            final(self).y == old(self).y + rhs.y,
    {
        *self = Position { x: self.x + rhs.x, y: self.y + rhs.y };
    }

    pub fn sub_assign(&mut self, rhs: Position)
        requires
            i32::MIN <= old(self).x - rhs.x <= i32::MAX,
            i32::MIN <= old(self).y - rhs.y <= i32::MAX,
        ensures
            final(self).x == old(self).x - rhs.x,
            final(self).y == old(self).y - rhs.y,
    {
        *self = Position { x: self.x - rhs.x, y: self.y - rhs.y };
    }
}

} // verus!
