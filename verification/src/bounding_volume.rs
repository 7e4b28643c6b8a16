use vstd::prelude::*;

use crate::point::Point;

verus! {

/// The smaller of two keys.
pub open spec fn min_key(a: int, b: int) -> int {
    if a <= b {
        a
    } else {
        b
    }
}

/// The larger of two keys.
pub open spec fn max_key(a: int, b: int) -> int {
    if a >= b {
        a
    } else {
        b
    }
}

fn lesser(a: i32, b: i32) -> (r: i32)
    ensures
        r == min_key(a as int, b as int),
{
    if a <= b {
        a
    } else {
        b
    }
}

fn greater(a: i32, b: i32) -> (r: i32)
    ensures
        r == max_key(a as int, b as int),
{
    if a >= b {
        a
    } else {
        b
    }
}

/// Where a ray crosses the two planes that bound a box along one axis.
///
/// A crossing is `None` where the ray parameter at the plane is undefined
/// (the ray runs inside the plane); such a crossing constrains nothing.
/// `reversed` says that the ray travels towards smaller coordinates on this
/// axis, so that it meets the plane of the maximum first.
#[derive(Clone, Copy, Debug)]
pub struct Slab {
    pub at_minimum: Option<i32>,
    pub at_maximum: Option<i32>,
    pub reversed: bool,
}

impl Slab {
    /// The crossing at which the ray enters the slab.
    pub open spec fn enter(self) -> Option<i32> {
        if self.reversed {
            self.at_maximum
        } else {
            self.at_minimum
        }
    }

    /// The crossing at which the ray leaves the slab.
    pub open spec fn exit(self) -> Option<i32> {
        if self.reversed {
            self.at_minimum
        } else {
            self.at_maximum
        }
    }

    /// The lower bound `lo` of a parameter interval, raised to the entry
    /// crossing where that lies above it.
    pub open spec fn raise(self, lo: int) -> int {
        match self.enter() {
            Some(t) => max_key(lo, t as int),
            None => lo,
        }
    }

    /// The upper bound `hi` of a parameter interval, lowered to the exit
    /// crossing where that lies below it.
    pub open spec fn lower(self, hi: int) -> int {
        match self.exit() {
            Some(t) => min_key(hi, t as int),
            None => hi,
        }
    }

    /// Whether the whole interval from `t_min` to `t_max` lies between the
    /// two crossings.
    pub open spec fn covers(self, t_min: int, t_max: int) -> bool {
        &&& self.enter() matches Some(t) ==> t <= t_min
        &&& self.exit() matches Some(t) ==> t_max <= t
    }
}

/// An axis-aligned box given by its two extreme corners.
#[derive(Clone, Copy, Debug, PartialEq, Eq, Structural)]
pub struct AxisAlignedBoundingBox {
    pub minimum: Point,
    pub maximum: Point,
}

impl AxisAlignedBoundingBox {
    /// `minimum` lies below `maximum` on every axis.
    pub open spec fn well_formed(self) -> bool {
        &&& self.minimum.x <= self.maximum.x
        &&& self.minimum.y <= self.maximum.y
        &&& self.minimum.z <= self.maximum.z
    }

    /// Whether the point lies in the box, faces included.
    pub open spec fn contains(self, p: Point) -> bool {
        &&& self.minimum.x <= p.x <= self.maximum.x
        &&& self.minimum.y <= p.y <= self.maximum.y
        &&& self.minimum.z <= p.z <= self.maximum.z
    }

    /// Whether `inner` lies in the box: its extent on every axis is within
    /// this box's extent.
    pub open spec fn encloses(self, inner: Self) -> bool {
        &&& self.minimum.x <= inner.minimum.x
        &&& self.minimum.y <= inner.minimum.y
        &&& self.minimum.z <= inner.minimum.z
        &&& inner.maximum.x <= self.maximum.x
        &&& inner.maximum.y <= self.maximum.y
        &&& inner.maximum.z <= self.maximum.z
    }

    /// The parameter at which a ray that starts its interval at `t_min` is
    /// inside all three slabs.
    pub open spec fn entry(slabs: Seq<Slab>, t_min: int) -> int {
        slabs[2].raise(slabs[1].raise(slabs[0].raise(t_min)))
    }

    /// The parameter at which a ray that ends its interval at `t_max` has
    /// left one of the three slabs.
    pub open spec fn departure(slabs: Seq<Slab>, t_max: int) -> int {
        slabs[2].lower(slabs[1].lower(slabs[0].lower(t_max)))
    }

    /// The slab test: the ray is inside all three slabs somewhere strictly
    /// between `t_min` and `t_max`.
    pub open spec fn hit_spec(slabs: Seq<Slab>, t_min: int, t_max: int) -> bool {
        Self::entry(slabs, t_min) < Self::departure(slabs, t_max)
    }

    /// Decides from the crossings of a ray with the three slabs of a box
    /// whether the ray meets the box between `t_min` and `t_max`.
    pub fn hit(slabs: &[Slab; 3], t_min: i32, t_max: i32) -> (r: bool)
        ensures
            r == Self::hit_spec(slabs@, t_min as int, t_max as int),
    {
        let mut lo: i32 = t_min;
        let mut hi: i32 = t_max;
        let mut a: usize = 0;
        while a < 3
            invariant
                a <= 3,
                t_min <= lo,
                hi <= t_max,
                a == 0 ==> lo == t_min && hi == t_max,
                a == 1 ==> lo == slabs@[0].raise(t_min as int) && hi == slabs@[0].lower(
                    t_max as int,
                ),
                a == 2 ==> lo == slabs@[1].raise(slabs@[0].raise(t_min as int)) && hi
                    == slabs@[1].lower(slabs@[0].lower(t_max as int)),
                a == 3 ==> lo == Self::entry(slabs@, t_min as int) && hi == Self::departure(
                    slabs@,
                    t_max as int,
                ),
                lo < hi || a == 0,
            decreases 3 - a,
        {
            let slab = slabs[a];
            let (t0, t1) = if slab.reversed {
                (slab.at_maximum, slab.at_minimum)
            } else {
                (slab.at_minimum, slab.at_maximum)
            };
            if let Some(t) = t0 {
                lo = greater(lo, t);
            }
            if let Some(t) = t1 {
                hi = lesser(hi, t);
            }
            if hi <= lo {
                return false;
            }
            a += 1;
        }
        true
    }

    /// The union of two boxes, as a value.
    pub open spec fn union(box0: Self, box1: Self) -> Self {
        AxisAlignedBoundingBox {
            minimum: Point {
                x: min_key(box0.minimum.x as int, box1.minimum.x as int) as i32,
                y: min_key(box0.minimum.y as int, box1.minimum.y as int) as i32,
                z: min_key(box0.minimum.z as int, box1.minimum.z as int) as i32,
            },
            maximum: Point {
                x: max_key(box0.maximum.x as int, box1.maximum.x as int) as i32,
                y: max_key(box0.maximum.y as int, box1.maximum.y as int) as i32,
                z: max_key(box0.maximum.z as int, box1.maximum.z as int) as i32,
            },
        }
    }

    /// The smallest box that holds both `box0` and `box1`.
    pub fn surrounding_box(box0: Self, box1: Self) -> (r: Self)
        ensures
            r == Self::union(box0, box1),
    {
        AxisAlignedBoundingBox {
            minimum: Point {
                x: lesser(box0.minimum.x, box1.minimum.x),
                y: lesser(box0.minimum.y, box1.minimum.y),
                z: lesser(box0.minimum.z, box1.minimum.z),
            },
            maximum: Point {
                x: greater(box0.maximum.x, box1.maximum.x),
                y: greater(box0.maximum.y, box1.maximum.y),
                z: greater(box0.maximum.z, box1.maximum.z),
            },
        }
    }

    /// One of the eight corners: each flag picks the maximum on its axis,
    /// its absence the minimum.
    pub open spec fn corner_spec(self, i: bool, j: bool, k: bool) -> Point {
        Point {
            x: if i {
                self.maximum.x
            } else {
                self.minimum.x
            },
            y: if j {
                self.maximum.y
            } else {
                self.minimum.y
            },
            z: if k {
                self.maximum.z
            } else {
                self.minimum.z
            },
        }
    }

    /// One of the eight corners: each flag picks the maximum on its axis,
    /// its absence the minimum.
    pub fn corner(&self, i: bool, j: bool, k: bool) -> (p: Point)
        ensures
            p == self.corner_spec(i, j, k),
    {
        Point {
            x: if i {
                self.maximum.x
            } else {
                self.minimum.x
            },
            y: if j {
                self.maximum.y
            } else {
                self.minimum.y
            },
            z: if k {
                self.maximum.z
            } else {
                self.minimum.z
            },
        }
    }

    /// The box that shrinks to the single point `p`.
    pub open spec fn at(p: Point) -> Self {
        AxisAlignedBoundingBox { minimum: p, maximum: p }
    }

    /// The smallest box that holds the first `n` of the points; `n` is at
    /// least one.
    pub open spec fn hull(points: Seq<Point>, n: int) -> Self
        decreases n,
    {
        if n <= 1 {
            Self::at(points[0])
        } else {
            Self::union(Self::hull(points, n - 1), Self::at(points[n - 1]))
        }
    }

    /// The smallest box that holds all the points, or `None` where there is
    /// no point.
    pub fn enclosing(points: &Vec<Point>) -> (r: Option<Self>)
        ensures
            points@.len() == 0 ==> r is None,
            points@.len() > 0 ==> r == Some(Self::hull(points@, points@.len() as int)),
    {
        if points.len() == 0 {
            return None;
        }
        let mut bound = AxisAlignedBoundingBox { minimum: points[0], maximum: points[0] };
        let mut n: usize = 1;
        while n < points.len()
            invariant
                1 <= n <= points@.len(),
                bound == Self::hull(points@, n as int),
            decreases points@.len() - n,
        {
            let p = points[n];
            bound = Self::surrounding_box(bound, AxisAlignedBoundingBox { minimum: p, maximum: p });
            n += 1;
        }
        Some(bound)
    }
}

/// A ray segment that runs between the two planes of every slab meets the
/// box: where each slab covers the interval from `t_min` to `t_max`, and the
/// interval is not empty, the slab test succeeds.
pub proof fn lemma_contained_segment_hits(slabs: Seq<Slab>, t_min: int, t_max: int)
    requires
        slabs.len() == 3,
        t_min < t_max,
        forall|a: int| 0 <= a < 3 ==> (#[trigger] slabs[a]).covers(t_min, t_max),
    ensures
        AxisAlignedBoundingBox::hit_spec(slabs, t_min, t_max),
{
    assert(slabs[0].covers(t_min, t_max) && slabs[1].covers(t_min, t_max) && slabs[2].covers(
        t_min,
        t_max,
    ));
}

/// The slab test is monotone in the interval: a ray that meets the box
/// within a narrow interval meets it within every wider one.
pub proof fn lemma_hit_widens(slabs: Seq<Slab>, t_min: int, t_max: int, wide_min: int, wide_max: int)
    requires
        slabs.len() == 3,
        wide_min <= t_min,
        t_max <= wide_max,
        AxisAlignedBoundingBox::hit_spec(slabs, t_min, t_max),
    ensures
        AxisAlignedBoundingBox::hit_spec(slabs, wide_min, wide_max),
{
}

/// The surrounding box holds both boxes, and is held by every box that
/// holds both.
pub proof fn lemma_surrounding_box_is_least(
    box0: AxisAlignedBoundingBox,
    box1: AxisAlignedBoundingBox,
    other: AxisAlignedBoundingBox,
)
    ensures
        AxisAlignedBoundingBox::union(box0, box1).encloses(box0),
        AxisAlignedBoundingBox::union(box0, box1).encloses(box1),
        other.encloses(box0) && other.encloses(box1) ==> other.encloses(
            AxisAlignedBoundingBox::union(box0, box1),
        ),
        box0.well_formed() || box1.well_formed() ==> AxisAlignedBoundingBox::union(
            box0,
            box1,
        ).well_formed(),
{
}

/// The surrounding box does not depend on the order of the two boxes, nor
/// on how three boxes are grouped.
pub proof fn lemma_surrounding_box_commutes(
    a: AxisAlignedBoundingBox,
    b: AxisAlignedBoundingBox,
    c: AxisAlignedBoundingBox,
)
    ensures
        AxisAlignedBoundingBox::union(a, b) == AxisAlignedBoundingBox::union(b, a),
        AxisAlignedBoundingBox::union(AxisAlignedBoundingBox::union(a, b), c)
            == AxisAlignedBoundingBox::union(a, AxisAlignedBoundingBox::union(b, c)),
        AxisAlignedBoundingBox::union(a, a) == a,
{
}

/// The hull of a sequence of points holds each of them, and each of its six
/// coordinates is the coordinate of one of the points.
pub proof fn lemma_hull_bounds(points: Seq<Point>, n: int)
    requires
        1 <= n <= points.len(),
    ensures
        forall|i: int|
            0 <= i < n ==> AxisAlignedBoundingBox::hull(points, n).contains(#[trigger] points[i]),
        exists|i: int| 0 <= i < n && AxisAlignedBoundingBox::hull(points, n).minimum.x == points[i].x,
        exists|i: int| 0 <= i < n && AxisAlignedBoundingBox::hull(points, n).minimum.y == points[i].y,
        exists|i: int| 0 <= i < n && AxisAlignedBoundingBox::hull(points, n).minimum.z == points[i].z,
        exists|i: int| 0 <= i < n && AxisAlignedBoundingBox::hull(points, n).maximum.x == points[i].x,
        exists|i: int| 0 <= i < n && AxisAlignedBoundingBox::hull(points, n).maximum.y == points[i].y,
        exists|i: int| 0 <= i < n && AxisAlignedBoundingBox::hull(points, n).maximum.z == points[i].z,
    decreases n,
{
    let h = AxisAlignedBoundingBox::hull(points, n);
    if n <= 1 {
        assert(h.minimum.x == points[0].x);
        assert(h.minimum.y == points[0].y);
        assert(h.minimum.z == points[0].z);
        assert(h.maximum.x == points[0].x);
        assert(h.maximum.y == points[0].y);
        assert(h.maximum.z == points[0].z);
    } else {
        lemma_hull_bounds(points, n - 1);
        let g = AxisAlignedBoundingBox::hull(points, n - 1);
        let last = n - 1;
        let i0 = choose|i: int| 0 <= i < n - 1 && g.minimum.x == points[i].x;
        let i1 = choose|i: int| 0 <= i < n - 1 && g.minimum.y == points[i].y;
        let i2 = choose|i: int| 0 <= i < n - 1 && g.minimum.z == points[i].z;
        let i3 = choose|i: int| 0 <= i < n - 1 && g.maximum.x == points[i].x;
        let i4 = choose|i: int| 0 <= i < n - 1 && g.maximum.y == points[i].y;
        let i5 = choose|i: int| 0 <= i < n - 1 && g.maximum.z == points[i].z;
        assert(h.minimum.x == points[i0].x || h.minimum.x == points[last].x);
        assert(h.minimum.y == points[i1].y || h.minimum.y == points[last].y);
        assert(h.minimum.z == points[i2].z || h.minimum.z == points[last].z);
        assert(h.maximum.x == points[i3].x || h.maximum.x == points[last].x);
        assert(h.maximum.y == points[i4].y || h.maximum.y == points[last].y);
        assert(h.maximum.z == points[i5].z || h.maximum.z == points[last].z);
        assert forall|i: int| 0 <= i < n implies h.contains(#[trigger] points[i]) by {
            if i < n - 1 {
                assert(g.contains(points[i]));
            }
        }
    }
}

} // verus!
