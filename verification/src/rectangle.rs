use vstd::prelude::*;

use crate::bounding_volume::AxisAlignedBoundingBox;
use crate::point::Point;
use crate::sphere::in_interval;

verus! {

/// Whether a coordinate lies within an extent, ends included.
pub open spec fn within_extent(c: i32, extent: (i32, i32)) -> bool {
    extent.0 <= c <= extent.1
}

/// A rectangle in a plane of constant z: its extents along x and y,
/// the plane's coordinate `k`, and the handle of its material.
#[derive(Clone, Copy, Debug)]
pub struct XYRect {
    pub x: (i32, i32),
    pub y: (i32, i32),
    pub k: i32,
    pub material: usize,
}

impl XYRect {
    /// Whether a crossing of the plane counts as a hit: its parameter `t`
    /// lies in the interval, and the point where the ray crosses the plane
    /// lies within both extents.
    pub open spec fn accepts_spec(self, t: i32, t_min: i32, t_max: i32, x: i32, y: i32) -> bool {
        &&& in_interval(t as int, t_min as int, t_max as int)
        &&& within_extent(x, self.x)
        &&& within_extent(y, self.y)
    }

    /// Decides whether a ray that crosses the plane at parameter `t`, in
    /// the point with the given two coordinates, hits the rectangle.
    pub fn hit(&self, t: i32, t_min: i32, t_max: i32, x: i32, y: i32) -> (r: bool)
        ensures
            r == self.accepts_spec(t, t_min, t_max, x, y),
    {
        if t < t_min || t > t_max {
            return false;
        }
        if x < self.x.0 || x > self.x.1 || y < self.y.0 || y > self.y.1 {
            return false;
        }
        true
    }

    /// The box around the rectangle, as a value.
    pub open spec fn bounds(self, below: i32, above: i32) -> AxisAlignedBoundingBox {
        AxisAlignedBoundingBox {
            minimum: Point { x: self.x.0, y: self.y.0, z: below },
            maximum: Point { x: self.x.1, y: self.y.1, z: above },
        }
    }

    /// The box around the rectangle: its extents in the plane, and across
    /// the plane from `below` to `above`, the plane's coordinate less and
    /// plus a small padding.
    pub fn bounding_box(&self, below: i32, above: i32) -> (r: AxisAlignedBoundingBox)
        ensures
            r == self.bounds(below, above),
    {
        AxisAlignedBoundingBox {
            minimum: Point { x: self.x.0, y: self.y.0, z: below },
            maximum: Point { x: self.x.1, y: self.y.1, z: above },
        }
    }
}

/// A rectangle in a plane of constant y: its extents along x and z,
/// the plane's coordinate `k`, and the handle of its material.
#[derive(Clone, Copy, Debug)]
pub struct XZRect {
    pub x: (i32, i32),
    pub z: (i32, i32),
    pub k: i32,
    pub material: usize,
}

impl XZRect {
    /// Whether a crossing of the plane counts as a hit: its parameter `t`
    /// lies in the interval, and the point where the ray crosses the plane
    /// lies within both extents.
    pub open spec fn accepts_spec(self, t: i32, t_min: i32, t_max: i32, x: i32, z: i32) -> bool {
        &&& in_interval(t as int, t_min as int, t_max as int)
        &&& within_extent(x, self.x)
        &&& within_extent(z, self.z)
    }

    /// Decides whether a ray that crosses the plane at parameter `t`, in
    /// the point with the given two coordinates, hits the rectangle.
    pub fn hit(&self, t: i32, t_min: i32, t_max: i32, x: i32, z: i32) -> (r: bool)
        ensures
            r == self.accepts_spec(t, t_min, t_max, x, z),
    {
        if t < t_min || t > t_max {
            return false;
        }
        if x < self.x.0 || x > self.x.1 || z < self.z.0 || z > self.z.1 {
            return false;
        }
        true
    }

    /// The box around the rectangle, as a value.
    pub open spec fn bounds(self, below: i32, above: i32) -> AxisAlignedBoundingBox {
        AxisAlignedBoundingBox {
            minimum: Point { x: self.x.0, y: below, z: self.z.0 },
            maximum: Point { x: self.x.1, y: above, z: self.z.1 },
        }
    }

    /// The box around the rectangle: its extents in the plane, and across
    /// the plane from `below` to `above`, the plane's coordinate less and
    /// plus a small padding.
    pub fn bounding_box(&self, below: i32, above: i32) -> (r: AxisAlignedBoundingBox)
        ensures
            r == self.bounds(below, above),
    {
        AxisAlignedBoundingBox {
            minimum: Point { x: self.x.0, y: below, z: self.z.0 },
            maximum: Point { x: self.x.1, y: above, z: self.z.1 },
        }
    }
}

/// A rectangle in a plane of constant x: its extents along y and z,
/// the plane's coordinate `k`, and the handle of its material.
#[derive(Clone, Copy, Debug)]
pub struct YZRect {
    pub y: (i32, i32),
    pub z: (i32, i32),
    pub k: i32,
    pub material: usize,
}

impl YZRect {
    /// Whether a crossing of the plane counts as a hit: its parameter `t`
    /// lies in the interval, and the point where the ray crosses the plane
    /// lies within both extents.
    pub open spec fn accepts_spec(self, t: i32, t_min: i32, t_max: i32, y: i32, z: i32) -> bool {
        &&& in_interval(t as int, t_min as int, t_max as int)
        &&& within_extent(y, self.y)
        &&& within_extent(z, self.z)
    }

    /// Decides whether a ray that crosses the plane at parameter `t`, in
    /// the point with the given two coordinates, hits the rectangle.
    pub fn hit(&self, t: i32, t_min: i32, t_max: i32, y: i32, z: i32) -> (r: bool)
        ensures
            r == self.accepts_spec(t, t_min, t_max, y, z),
    {
        if t < t_min || t > t_max {
            return false;
        }
        if y < self.y.0 || y > self.y.1 || z < self.z.0 || z > self.z.1 {
            return false;
        }
        true
    }

    /// The box around the rectangle, as a value.
    pub open spec fn bounds(self, below: i32, above: i32) -> AxisAlignedBoundingBox {
        AxisAlignedBoundingBox {
            minimum: Point { x: below, y: self.y.0, z: self.z.0 },
            maximum: Point { x: above, y: self.y.1, z: self.z.1 },
        }
    }

    /// The box around the rectangle: its extents in the plane, and across
    /// the plane from `below` to `above`, the plane's coordinate less and
    /// plus a small padding.
    pub fn bounding_box(&self, below: i32, above: i32) -> (r: AxisAlignedBoundingBox)
        ensures
            r == self.bounds(below, above),
    {
        AxisAlignedBoundingBox {
            minimum: Point { x: below, y: self.y.0, z: self.z.0 },
            maximum: Point { x: above, y: self.y.1, z: self.z.1 },
        }
    }
}

/// The box around a rectangle with ordered extents, padded to both sides
/// of its plane, is well formed, holds the rectangle, and has a thickness
/// across the plane.
pub proof fn lemma_xyrect_box_is_thick(rect: XYRect, below: i32, above: i32)
    requires
        rect.x.0 <= rect.x.1,
        rect.y.0 <= rect.y.1,
        below < rect.k < above,
    ensures
        rect.bounds(below, above).well_formed(),
        rect.bounds(below, above).minimum.z < rect.bounds(below, above).maximum.z,
        forall|p: Point|
            p.z == rect.k && within_extent(p.x, rect.x) && within_extent(p.y, rect.y)
                ==> rect.bounds(below, above).contains(p),
{
}

/// The box around a rectangle with ordered extents, padded to both sides
/// of its plane, is well formed, holds the rectangle, and has a thickness
/// across the plane.
pub proof fn lemma_xzrect_box_is_thick(rect: XZRect, below: i32, above: i32)
    requires
        rect.x.0 <= rect.x.1,
        rect.z.0 <= rect.z.1,
        below < rect.k < above,
    ensures
        rect.bounds(below, above).well_formed(),
        rect.bounds(below, above).minimum.y < rect.bounds(below, above).maximum.y,
        forall|p: Point|
            p.y == rect.k && within_extent(p.x, rect.x) && within_extent(p.z, rect.z)
                ==> rect.bounds(below, above).contains(p),
{
}

/// The box around a rectangle with ordered extents, padded to both sides
/// of its plane, is well formed, holds the rectangle, and has a thickness
/// across the plane.
pub proof fn lemma_yzrect_box_is_thick(rect: YZRect, below: i32, above: i32)
    requires
        rect.y.0 <= rect.y.1,
        rect.z.0 <= rect.z.1,
        below < rect.k < above,
    ensures
        rect.bounds(below, above).well_formed(),
        rect.bounds(below, above).minimum.x < rect.bounds(below, above).maximum.x,
        forall|p: Point|
            p.x == rect.k && within_extent(p.y, rect.y) && within_extent(p.z, rect.z)
                ==> rect.bounds(below, above).contains(p),
{
}

} // verus!
