use path_tracer::bounding_volume::{AxisAlignedBoundingBox, Slab};
use path_tracer::key::{from_bits, to_bits};
use path_tracer::point::Point;

fn key(x: f32) -> i32 {
    from_bits(x.to_bits())
}

fn number(k: i32) -> f32 {
    f32::from_bits(to_bits(k))
}

fn point(x: f32, y: f32, z: f32) -> Point {
    Point { x: key(x), y: key(y), z: key(z) }
}

fn aabb(min: (f32, f32, f32), max: (f32, f32, f32)) -> AxisAlignedBoundingBox {
    AxisAlignedBoundingBox { minimum: point(min.0, min.1, min.2), maximum: point(max.0, max.1, max.2) }
}

fn crossing(t: f32) -> Option<i32> {
    if t.is_nan() {
        None
    } else {
        Some(key(t))
    }
}

fn slabs(b: &AxisAlignedBoundingBox, origin: [f32; 3], direction: [f32; 3]) -> [Slab; 3] {
    let mut out = [Slab { at_minimum: None, at_maximum: None, reversed: false }; 3];
    for a in 0..3 {
        let lo = number(b.minimum.index(a));
        let hi = number(b.maximum.index(a));
        out[a] = Slab {
            at_minimum: crossing((lo - origin[a]) / direction[a]),
            at_maximum: crossing((hi - origin[a]) / direction[a]),
            reversed: direction[a] < 0.0,
        };
    }
    out
}

fn plain(enter: i32, exit: i32) -> Slab {
    Slab { at_minimum: Some(enter), at_maximum: Some(exit), reversed: false }
}

#[test]
fn index_picks_the_axis() {
    let p = Point { x: 1, y: 2, z: 3 };
    assert_eq!(p.index(0), 1);
    assert_eq!(p.index(1), 2);
    assert_eq!(p.index(2), 3);
    assert_eq!(p.index(3), 3);
    assert_eq!(p.index(usize::MAX), 3);
}

#[test]
fn surrounding_box_takes_least_and_greatest() {
    let a = AxisAlignedBoundingBox {
        minimum: Point { x: 0, y: 5, z: -3 },
        maximum: Point { x: 4, y: 6, z: 9 },
    };
    let b = AxisAlignedBoundingBox {
        minimum: Point { x: -2, y: 7, z: -1 },
        maximum: Point { x: 1, y: 8, z: 20 },
    };
    let u = AxisAlignedBoundingBox::surrounding_box(a, b);
    assert_eq!(u.minimum, Point { x: -2, y: 5, z: -3 });
    assert_eq!(u.maximum, Point { x: 4, y: 8, z: 20 });
    assert_eq!(AxisAlignedBoundingBox::surrounding_box(b, a), u);
    assert_eq!(AxisAlignedBoundingBox::surrounding_box(a, a), a);
}

#[test]
fn surrounding_box_of_real_boxes() {
    let a = aabb((-1.0, -1.0, -1.0), (1.0, 1.0, 1.0));
    let b = aabb((0.5, -3.0, 0.0), (2.5, 0.0, 0.25));
    let u = AxisAlignedBoundingBox::surrounding_box(a, b);
    assert_eq!(u, aabb((-1.0, -3.0, -1.0), (2.5, 1.0, 1.0)));
}

#[test]
fn corner_picks_minimum_or_maximum() {
    let a = AxisAlignedBoundingBox {
        minimum: Point { x: 1, y: 2, z: 3 },
        maximum: Point { x: 4, y: 5, z: 6 },
    };
    assert_eq!(a.corner(false, false, false), Point { x: 1, y: 2, z: 3 });
    assert_eq!(a.corner(true, false, false), Point { x: 4, y: 2, z: 3 });
    assert_eq!(a.corner(false, true, false), Point { x: 1, y: 5, z: 3 });
    assert_eq!(a.corner(false, false, true), Point { x: 1, y: 2, z: 6 });
    assert_eq!(a.corner(true, true, true), Point { x: 4, y: 5, z: 6 });
}

#[test]
fn enclosing_nothing_is_nothing() {
    assert!(AxisAlignedBoundingBox::enclosing(&Vec::new()).is_none());
}

#[test]
fn enclosing_one_point_is_that_point() {
    let p = Point { x: 7, y: -8, z: 9 };
    let b = AxisAlignedBoundingBox::enclosing(&vec![p]).unwrap();
    assert_eq!(b.minimum, p);
    assert_eq!(b.maximum, p);
}

#[test]
fn enclosing_takes_each_extreme() {
    let ps = vec![
        Point { x: 3, y: 0, z: 0 },
        Point { x: -3, y: 1, z: 5 },
        Point { x: 0, y: -9, z: 2 },
        Point { x: 1, y: 4, z: -7 },
    ];
    let b = AxisAlignedBoundingBox::enclosing(&ps).unwrap();
    assert_eq!(b.minimum, Point { x: -3, y: -9, z: -7 });
    assert_eq!(b.maximum, Point { x: 3, y: 4, z: 5 });
}

#[test]
fn hit_needs_an_overlap_of_all_three_slabs() {
    assert!(AxisAlignedBoundingBox::hit(&[plain(0, 10), plain(2, 8), plain(4, 6)], 0, 100));
    assert!(!AxisAlignedBoundingBox::hit(&[plain(0, 3), plain(2, 8), plain(4, 6)], 0, 100));
    assert!(!AxisAlignedBoundingBox::hit(&[plain(0, 10), plain(2, 4), plain(4, 6)], 0, 100));
}

#[test]
fn hit_refuses_an_interval_that_only_touches() {
    assert!(!AxisAlignedBoundingBox::hit(&[plain(0, 5), plain(0, 5), plain(0, 5)], 5, 9));
    assert!(!AxisAlignedBoundingBox::hit(&[plain(3, 5), plain(3, 5), plain(3, 5)], 0, 3));
    assert!(!AxisAlignedBoundingBox::hit(&[plain(0, 9), plain(0, 9), plain(0, 9)], 4, 4));
    assert!(AxisAlignedBoundingBox::hit(&[plain(0, 9), plain(0, 9), plain(0, 9)], 4, 5));
}

#[test]
fn hit_exchanges_the_crossings_of_a_reversed_slab() {
    let back = Slab { at_minimum: Some(8), at_maximum: Some(2), reversed: true };
    let wrong = Slab { at_minimum: Some(8), at_maximum: Some(2), reversed: false };
    assert!(AxisAlignedBoundingBox::hit(&[back, plain(0, 10), plain(0, 10)], 0, 10));
    assert!(!AxisAlignedBoundingBox::hit(&[wrong, plain(0, 10), plain(0, 10)], 0, 10));
}

#[test]
fn hit_ignores_an_undefined_crossing() {
    let open = Slab { at_minimum: None, at_maximum: None, reversed: false };
    assert!(AxisAlignedBoundingBox::hit(&[open, open, open], 0, 1));
    assert!(AxisAlignedBoundingBox::hit(&[open, plain(-5, 5), open], 0, 1));
    assert!(!AxisAlignedBoundingBox::hit(&[open, plain(2, 5), open], 0, 1));
}

#[test]
fn segment_inside_a_box_hits_over_its_whole_range() {
    let b = aabb((-1.0, -1.0, -1.0), (1.0, 1.0, 1.0));
    let origin = [-0.5, 0.25, 0.0];
    let direction = [1.0, -0.5, 0.75];
    // both ends of the segment from t = 0 to t = 1 lie inside the box
    let s = slabs(&b, origin, direction);
    assert!(AxisAlignedBoundingBox::hit(&s, key(0.0), key(1.0)));
    assert!(AxisAlignedBoundingBox::hit(&s, key(0.25), key(0.75)));
    assert!(AxisAlignedBoundingBox::hit(&s, key(0.0), key(0.001)));
}

#[test]
fn ray_along_an_axis_keeps_its_infinite_crossings() {
    let b = aabb((-1.0, -1.0, -1.0), (1.0, 1.0, 1.0));
    // the direction has two components that are exactly zero
    let inside = slabs(&b, [0.0, 0.0, -5.0], [0.0, 0.0, 1.0]);
    assert!(AxisAlignedBoundingBox::hit(&inside, key(0.001), key(f32::MAX)));
    let beside = slabs(&b, [2.0, 0.0, -5.0], [0.0, 0.0, 1.0]);
    assert!(!AxisAlignedBoundingBox::hit(&beside, key(0.001), key(f32::MAX)));
}

#[test]
fn ray_that_misses_or_points_away() {
    let b = aabb((-1.0, -1.0, -1.0), (1.0, 1.0, 1.0));
    let away = slabs(&b, [0.0, 0.0, -5.0], [0.0, 0.0, -1.0]);
    assert!(!AxisAlignedBoundingBox::hit(&away, key(0.001), key(f32::MAX)));
    let towards = slabs(&b, [0.0, 0.0, 5.0], [0.1, 0.1, -1.0]);
    assert!(AxisAlignedBoundingBox::hit(&towards, key(0.001), key(f32::MAX)));
    let short = slabs(&b, [0.0, 0.0, 5.0], [0.1, 0.1, -1.0]);
    assert!(!AxisAlignedBoundingBox::hit(&short, key(0.001), key(3.5)));
}
