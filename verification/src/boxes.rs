use vstd::prelude::*;

use crate::bounding_volume::AxisAlignedBoundingBox;
use crate::point::Point;
use crate::rectangle::{XYRect, XZRect, YZRect};

verus! {

/// One face of a box.
#[derive(Clone, Copy, Debug)]
pub enum Face {
    XY(XYRect),
    XZ(XZRect),
    YZ(YZRect),
}

/// A box with its faces along the axes, made of six rectangles.
pub struct AxisAlignedBox {
    pub box_min: Point,
    pub box_max: Point,
    pub faces: Vec<Face>,
}

impl AxisAlignedBox {
    /// The six faces of the box between two corners: for each pair of
    /// axes the rectangle in the plane of the far corner, then the one in
    /// the plane of the near corner (for x and z: near, then far).
    pub open spec fn faces_between(point_min: Point, point_max: Point, mat: usize) -> Seq<Face> {
        seq![
            Face::XY(
                XYRect {
                    x: (point_min.x, point_max.x),
                    y: (point_min.y, point_max.y),
                    k: point_max.z,
                    material: mat,
                },
            ),
            Face::XY(
                XYRect {
                    x: (point_min.x, point_max.x),
                    y: (point_min.y, point_max.y),
                    k: point_min.z,
                    material: mat,
                },
            ),
            Face::XZ(
                XZRect {
                    x: (point_min.x, point_max.x),
                    z: (point_min.z, point_max.z),
                    k: point_min.y,
                    material: mat,
                },
            ),
            Face::XZ(
                XZRect {
                    x: (point_min.x, point_max.x),
                    z: (point_min.z, point_max.z),
                    k: point_max.y,
                    material: mat,
                },
            ),
            Face::YZ(
                YZRect {
                    y: (point_min.y, point_max.y),
                    z: (point_min.z, point_max.z),
                    k: point_max.x,
                    material: mat,
                },
            ),
            Face::YZ(
                YZRect {
                    y: (point_min.y, point_max.y),
                    z: (point_min.z, point_max.z),
                    k: point_min.x,
                    material: mat,
                },
            ),
        ]
    }

    /// The box between two corners, all of whose faces have the material
    /// `mat`.
    pub fn new(point_min: Point, point_max: Point, mat: usize) -> (r: Self)
        ensures
            r.box_min == point_min,
            r.box_max == point_max,
            r.faces@ == Self::faces_between(point_min, point_max, mat),
    {
        let mut faces: Vec<Face> = Vec::new();
        faces.push(
            Face::XY(
                XYRect {
                    x: (point_min.x, point_max.x),
                    y: (point_min.y, point_max.y),
                    k: point_max.z,
                    material: mat,
                },
            ),
        );
        faces.push(
            Face::XY(
                XYRect {
                    x: (point_min.x, point_max.x),
                    y: (point_min.y, point_max.y),
                    k: point_min.z,
                    material: mat,
                },
            ),
        );
        faces.push(
            Face::XZ(
                XZRect {
                    x: (point_min.x, point_max.x),
                    z: (point_min.z, point_max.z),
                    k: point_min.y,
                    material: mat,
                },
            ),
        );
        faces.push(
            Face::XZ(
                XZRect {
                    x: (point_min.x, point_max.x),
                    z: (point_min.z, point_max.z),
                    k: point_max.y,
                    material: mat,
                },
            ),
        );
        faces.push(
            Face::YZ(
                YZRect {
                    y: (point_min.y, point_max.y),
                    z: (point_min.z, point_max.z),
                    k: point_max.x,
                    material: mat,
                },
            ),
        );
        faces.push(
            Face::YZ(
                YZRect {
                    y: (point_min.y, point_max.y),
                    z: (point_min.z, point_max.z),
                    k: point_min.x,
                    material: mat,
                },
            ),
        );
        Self { box_min: point_min, box_max: point_max, faces }
    }

    /// The box itself, as its own bounding box.
    pub fn bounding_box(&self) -> (r: AxisAlignedBoundingBox)
        ensures
            r.minimum == self.box_min,
            r.maximum == self.box_max,
    {
        AxisAlignedBoundingBox { minimum: self.box_min, maximum: self.box_max }
    }
}

/// Whether the point lies in the plane of the face and within its extents.
pub open spec fn on_face(face: Face, p: Point) -> bool {
    match face {
        Face::XY(r) => p.z == r.k && r.x.0 <= p.x <= r.x.1 && r.y.0 <= p.y <= r.y.1,
        Face::XZ(r) => p.y == r.k && r.x.0 <= p.x <= r.x.1 && r.z.0 <= p.z <= r.z.1,
        Face::YZ(r) => p.x == r.k && r.y.0 <= p.y <= r.y.1 && r.z.0 <= p.z <= r.z.1,
    }
}

/// The six faces are the surface of a box whose corners are in order: a
/// point lies on one of them exactly if it lies in the box and on one of
/// its six bounding planes.
pub proof fn lemma_faces_are_the_surface(point_min: Point, point_max: Point, mat: usize, p: Point)
    requires
        (AxisAlignedBoundingBox { minimum: point_min, maximum: point_max }).well_formed(),
    ensures
        (exists|f: int|
            0 <= f < 6 && on_face(
                #[trigger] AxisAlignedBox::faces_between(point_min, point_max, mat)[f],
                p,
            )) <==> {
            &&& (AxisAlignedBoundingBox { minimum: point_min, maximum: point_max }).contains(p)
            &&& (p.x == point_min.x || p.x == point_max.x || p.y == point_min.y || p.y
                == point_max.y || p.z == point_min.z || p.z == point_max.z)
        },
{
    let faces = AxisAlignedBox::faces_between(point_min, point_max, mat);
    let inside = (AxisAlignedBoundingBox { minimum: point_min, maximum: point_max }).contains(p);
    if exists|f: int| 0 <= f < 6 && on_face(#[trigger] faces[f], p) {
        let f = choose|f: int| 0 <= f < 6 && on_face(#[trigger] faces[f], p);
        assert(f == 0 || f == 1 || f == 2 || f == 3 || f == 4 || f == 5);
    }
    if inside {
        if p.z == point_max.z {
            assert(on_face(faces[0], p));
        } else if p.z == point_min.z {
            assert(on_face(faces[1], p));
        } else if p.y == point_min.y {
            assert(on_face(faces[2], p));
        } else if p.y == point_max.y {
            assert(on_face(faces[3], p));
        } else if p.x == point_max.x {
            assert(on_face(faces[4], p));
        } else if p.x == point_min.x {
            assert(on_face(faces[5], p));
        }
    }
}

} // verus!
