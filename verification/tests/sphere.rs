use path_tracer::key::{from_bits, to_bits, INF_KEY};
use path_tracer::sphere::{hit, hollow, nearest_root};

fn key(x: f32) -> i32 {
    from_bits(x.to_bits())
}

fn number(k: i32) -> f32 {
    f32::from_bits(to_bits(k))
}

#[test]
fn sphere_in_front_of_the_origin_is_hit_at_its_near_side() {
    // centre (0, 0, -1), radius 0.5, ray from the origin along (0, 0, -1)
    let center = [0.0f32, 0.0, -1.0];
    let radius = 0.5f32;
    let origin = [0.0f32, 0.0, 0.0];
    let direction = [0.0f32, 0.0, -1.0];
    let oc = [origin[0] - center[0], origin[1] - center[1], origin[2] - center[2]];
    let b = oc[0] * direction[0] + oc[1] * direction[1] + oc[2] * direction[2];
    let c = oc[0] * oc[0] + oc[1] * oc[1] + oc[2] * oc[2] - radius * radius;
    let discriminant = b * b - c;
    assert!(discriminant >= 0.0);
    let root = discriminant.sqrt();
    let t = nearest_root(key(-b - root), key(-b + root), key(0.001), INF_KEY);
    assert_eq!(t, Some(key(0.5)));
    let t = number(t.unwrap());
    let p = [origin[0] + t * direction[0], origin[1] + t * direction[1], origin[2] + t * direction[2]];
    assert_eq!(p, [0.0, 0.0, -0.5]);
    let normal = [
        (p[0] - center[0]) / radius,
        (p[1] - center[1]) / radius,
        (p[2] - center[2]) / radius,
    ];
    assert_eq!(normal, [0.0, 0.0, 1.0]);
    assert!(!hollow(key(radius)));
}

#[test]
fn nearer_root_is_tried_first() {
    assert_eq!(nearest_root(3, 7, 0, 10), Some(3));
    assert_eq!(nearest_root(3, 7, 3, 7), Some(3));
}

#[test]
fn farther_root_stands_in_for_a_nearer_one_out_of_range() {
    assert_eq!(nearest_root(-3, 7, 0, 10), Some(7));
    assert_eq!(nearest_root(3, 7, 4, 10), Some(7));
    assert_eq!(nearest_root(3, 7, 4, 7), Some(7));
}

#[test]
fn no_root_in_range_is_no_hit() {
    assert_eq!(nearest_root(3, 7, 8, 10), None);
    assert_eq!(nearest_root(3, 7, 4, 6), None);
    assert_eq!(nearest_root(3, 7, 0, 2), None);
    assert_eq!(nearest_root(-7, -3, 0, 10), None);
}

#[test]
fn negative_radius_makes_a_hollow_shell() {
    assert!(hollow(key(-0.4)));
    assert!(!hollow(key(0.4)));
    assert!(!hollow(key(0.0)));
    assert!(!hollow(key(-0.0)));
}

#[test]
fn hit_takes_the_root_that_counts() {
    assert_eq!(hit(Some((3, 7)), 0, 10), Some(3));
    assert_eq!(hit(Some((3, 7)), 4, 10), Some(7));
    assert_eq!(hit(Some((3, 7)), 8, 10), None);
}

#[test]
fn hit_of_a_ray_without_roots_is_a_miss() {
    assert_eq!(hit(None, 0, 10), None);
    assert_eq!(hit(None, i32::MIN, i32::MAX), None);
}
