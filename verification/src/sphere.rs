use vstd::prelude::*;

verus! {

/// Whether a ray parameter lies in the interval, bounds included.
pub open spec fn in_interval(t: int, t_min: int, t_max: int) -> bool {
    t_min <= t <= t_max
}

/// Of the two roots of the intersection equation the one that counts: the
/// nearer where it lies in the interval, else the farther where that does.
pub open spec fn root_chosen(near: i32, far: i32, t_min: i32, t_max: i32) -> Option<i32> {
    if in_interval(near as int, t_min as int, t_max as int) {
        Some(near)
    } else if in_interval(far as int, t_min as int, t_max as int) {
        Some(far)
    } else {
        None
    }
}

/// Picks the root at which a ray meets a sphere within an interval: the
/// nearer root is tried first, then the farther.
pub fn nearest_root(near: i32, far: i32, t_min: i32, t_max: i32) -> (r: Option<i32>)
    ensures
        r == root_chosen(near, far, t_min, t_max),
{
    let mut t = near;
    if t < t_min || t > t_max {
        t = far;
        if t < t_min || t > t_max {
            return None;
        }
    }
    Some(t)
}

/// What a sphere answers to a ray, as a value: nothing where the ray has
/// no roots, and else the root that counts.
pub open spec fn hit_spec(roots: Option<(i32, i32)>, t_min: i32, t_max: i32) -> Option<i32> {
    match roots {
        None => None,
        Some((near, far)) => root_chosen(near, far, t_min, t_max),
    }
}

/// The parameter at which a ray meets a sphere between `t_min` and
/// `t_max`. `roots` holds the two roots of the intersection equation, the
/// nearer first, or nothing where the ray passes the sphere by.
pub fn hit(roots: Option<(i32, i32)>, t_min: i32, t_max: i32) -> (r: Option<i32>)
    ensures
        r == hit_spec(roots, t_min, t_max),
{
    match roots {
        None => None,
        Some((near, far)) => nearest_root(near, far, t_min, t_max),
    }
}

/// Of roots that come in order, the one picked is the least that lies in
/// the interval, and none is picked only where none lies in it.
pub proof fn lemma_root_chosen_is_least(near: i32, far: i32, t_min: i32, t_max: i32)
    requires
        near <= far,
    ensures
        match root_chosen(near, far, t_min, t_max) {
            Some(t) => {
                &&& t == near || t == far
                &&& in_interval(t as int, t_min as int, t_max as int)
                &&& in_interval(near as int, t_min as int, t_max as int) ==> t <= near
                &&& in_interval(far as int, t_min as int, t_max as int) ==> t <= far
            },
            None => !in_interval(near as int, t_min as int, t_max as int) && !in_interval(
                far as int,
                t_min as int,
                t_max as int,
            ),
        },
{
}

/// Whether a sphere is a shell that faces inwards: one with a negative
/// radius, whose normals are turned over.
pub fn hollow(radius: i32) -> (r: bool)
    ensures
        r == (radius < 0),
{
    radius < 0
}

} // verus!
