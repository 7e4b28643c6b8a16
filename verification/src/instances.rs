use vstd::prelude::*;

use crate::bounding_volume::AxisAlignedBoundingBox;
use crate::point::Point;

verus! {

/// An object turned about the y axis, with the box that bounds it after
/// the turn.
#[derive(Clone, Copy, Debug)]
pub struct RotateY {
    pub object: usize,
    pub bound_box: Option<AxisAlignedBoundingBox>,
}

impl RotateY {
    /// The eight corners of a box: the minimum on every axis first, then
    /// with z, y and x going over to the maximum as the binary digits of
    /// the position say.
    pub open spec fn corners(b: AxisAlignedBoundingBox) -> Seq<Point> {
        Seq::new(8, |n: int| b.corner_spec(n / 4 == 1, (n / 2) % 2 == 1, n % 2 == 1))
    }

    /// Whether `turned` holds, corner by corner, what `turn` may have made
    /// of the corners of the box.
    pub open spec fn turned_corners<F: Fn(Point) -> Point>(
        b: AxisAlignedBoundingBox,
        turn: F,
        turned: Seq<Point>,
    ) -> bool {
        &&& turned.len() == 8
        &&& forall|n: int|
            0 <= n < 8 ==> call_ensures(turn, (Self::corners(b)[n],), #[trigger] turned[n])
    }

    /// Wraps an object whose box is `child`, if it has one. `turn` turns a
    /// point about the axis; the new box is the smallest that holds the
    /// eight turned corners of the old one.
    pub fn new<F: Fn(Point) -> Point>(
        object: usize,
        child: Option<AxisAlignedBoundingBox>,
        turn: &F,
    ) -> (r: Self)
        requires
            forall|p: Point| call_requires(*turn, (p,)),
        ensures
            r.object == object,
            child is None ==> r.bound_box is None,
            child matches Some(b) ==> exists|turned: Seq<Point>|
                #![auto]
                Self::turned_corners(b, *turn, turned) && r.bound_box == Some(
                    AxisAlignedBoundingBox::hull(turned, 8),
                ),
    {
        let b = match child {
            None => {
                return Self { object, bound_box: None };
            },
            Some(b) => b,
        };
        let mut turned: Vec<Point> = Vec::with_capacity(8);
        let mut n: usize = 0;
        while n < 8
            invariant
                n <= 8,
                turned@.len() == n,
                forall|p: Point| call_requires(*turn, (p,)),
                forall|m: int|
                    0 <= m < n ==> call_ensures(
                        *turn,
                        (Self::corners(b)[m],),
                        #[trigger] turned@[m],
                    ),
            decreases 8 - n,
        {
            let corner = b.corner(n / 4 == 1, (n / 2) % 2 == 1, n % 2 == 1);
            let tester = turn(corner);
            turned.push(tester);
            n += 1;
        }
        let bound_box = AxisAlignedBoundingBox::enclosing(&turned);
        assert(Self::turned_corners(b, *turn, turned@));
        Self { object, bound_box }
    }

    /// The box that was worked out when the object was wrapped.
    pub fn bounding_box(&self) -> (r: Option<AxisAlignedBoundingBox>)
        ensures
            r == self.bound_box,
    {
        self.bound_box
    }
}

} // verus!
