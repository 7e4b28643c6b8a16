use vstd::prelude::*;

verus! {

/// A position whose three coordinates are ordered keys: signed integers that
/// compare exactly as the quantities they stand for.
#[derive(Clone, Copy, Debug, PartialEq, Eq, Structural)]
pub struct Point {
    pub x: i32,
    pub y: i32,
    pub z: i32,
}

impl Point {
    /// The coordinate on an axis: `0` is x, `1` is y, anything else is z.
    pub open spec fn index_spec(self, axis: int) -> int {
        if axis == 0 {
            self.x as int
        } else if axis == 1 {
            self.y as int
        } else {
            self.z as int
        }
    }

    /// The coordinate on an axis: `0` is x, `1` is y, anything else is z.
    pub fn index(&self, axis: usize) -> (r: i32)
        ensures
            r == self.index_spec(axis as int),
    {
        if axis == 0 {
            self.x
        } else if axis == 1 {
            self.y
        } else {
            self.z
        }
    }
}

} // verus!
