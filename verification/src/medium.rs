use vstd::prelude::*;

use crate::bounding_volume::{max_key, min_key};
use crate::hittable::HitRecord;
use crate::key::{INF_KEY, NEG_INF_KEY};

verus! {

/// The part of a ray inside a convex boundary that counts for an interval:
/// from the entry, or `t_min` where that lies beyond it, and not before
/// the ray's origin, up to the exit, or `t_max` where that lies before it.
/// There is none where the clipped entry does not lie before the clipped
/// exit.
pub open spec fn segment_inside(entry: i32, exit: i32, t_min: i32, t_max: i32) -> Option<
    (i32, i32),
> {
    let from = max_key(entry as int, t_min as int);
    let to = min_key(exit as int, t_max as int);
    if from >= to {
        None
    } else {
        Some((max_key(from, 0) as i32, to as i32))
    }
}

/// Whether the parameter `t` lies both within the boundary, from the entry
/// up to the exit, and within the interval.
pub open spec fn in_both(t: int, entry: i32, exit: i32, t_min: i32, t_max: i32) -> bool {
    entry <= t && t_min <= t && t < exit && t < t_max
}

/// A medium of constant density inside the boundary of another object.
#[derive(Clone, Copy, Debug)]
pub struct ConstMedium {
    pub boundary: usize,
    pub phase_function: usize,
}

impl ConstMedium {
    /// A medium inside `boundary` that scatters as `phase_function` says.
    pub fn new(boundary: usize, phase_function: usize) -> (r: Self)
        ensures
            r.boundary == boundary,
            r.phase_function == phase_function,
    {
        Self { boundary, phase_function }
    }

    /// Whether `r` is what the medium answers to a ray between `t_min` and
    /// `t_max`, for some run of answers that the callbacks may give.
    ///
    /// The boundary is asked where the ray enters it, on the whole line,
    /// and then where the ray leaves it, from a little `after` the entry
    /// on. Where it has no entry or no exit, or where nothing of the stretch
    /// between them lies in the interval, the medium is missed. Else
    /// `scatter` says whether and where the ray is scattered on the
    /// clipped stretch.
    pub open spec fn hit_outcome<
        S,
        P: Fn(usize, i32, i32) -> Option<HitRecord<S>>,
        A: Fn(i32) -> i32,
        D: Fn(i32, i32) -> Option<HitRecord<S>>,
    >(
        self,
        probe: P,
        after: A,
        scatter: D,
        t_min: i32,
        t_max: i32,
        r: Option<HitRecord<S>>,
    ) -> bool {
        exists|entry: Option<HitRecord<S>>|
            {
                &&& #[trigger] call_ensures(probe, (self.boundary, NEG_INF_KEY, INF_KEY), entry)
                &&& match entry {
                    None => r is None,
                    Some(e) => exists|from: i32, exit: Option<HitRecord<S>>|
                        {
                            &&& call_ensures(after, (e.t,), from)
                            &&& #[trigger] call_ensures(probe, (self.boundary, from, INF_KEY), exit)
                            &&& match exit {
                                None => r is None,
                                Some(x) => match segment_inside(e.t, x.t, t_min, t_max) {
                                    None => r is None,
                                    Some((a, b)) => call_ensures(scatter, (a, b), r),
                                },
                            }
                        },
                }
            }
    }

    /// The answer of the medium to a ray between `t_min` and `t_max`.
    ///
    /// `probe` gives the ray's intersection with the boundary within an
    /// interval, `after` the parameter a little beyond a given one, and
    /// `scatter` what happens to the ray on a stretch inside the medium.
    pub fn hit<
        S,
        P: Fn(usize, i32, i32) -> Option<HitRecord<S>>,
        A: Fn(i32) -> i32,
        D: Fn(i32, i32) -> Option<HitRecord<S>>,
    >(&self, probe: &P, after: &A, scatter: &D, t_min: i32, t_max: i32) -> (r: Option<
        HitRecord<S>,
    >)
        requires
            forall|lo: i32, hi: i32| call_requires(*probe, (self.boundary, lo, hi)),
            forall|t: i32| call_requires(*after, (t,)),
            forall|a: i32, b: i32| call_requires(*scatter, (a, b)),
        ensures
            self.hit_outcome(*probe, *after, *scatter, t_min, t_max, r),
    {
        let entry = match probe(self.boundary, NEG_INF_KEY, INF_KEY) {
            Some(entry) => entry,
            None => {
                return None;
            },
        };
        let from = after(entry.t);
        let exit = match probe(self.boundary, from, INF_KEY) {
            Some(exit) => exit,
            None => {
                return None;
            },
        };
        match Self::segment(entry.t, exit.t, t_min, t_max) {
            Some((a, b)) => scatter(a, b),
            None => None,
        }
    }

    /// Clips the stretch of a ray between its entry into the boundary and
    /// its exit to the interval from `t_min` to `t_max`. `None` says that
    /// the ray does not pass through the medium within the interval.
    pub fn segment(entry: i32, exit: i32, t_min: i32, t_max: i32) -> (r: Option<(i32, i32)>)
        ensures
            r == segment_inside(entry, exit, t_min, t_max),
    {
        let mut from = entry;
        let mut to = exit;
        if from < t_min {
            from = t_min;
        }
        if to > t_max {
            to = t_max;
        }
        if from >= to {
            return None;
        }
        if from < 0 {
            from = 0;
        }
        Some((from, to))
    }
}

/// The clipped stretch does not start behind the ray's origin, nor before
/// the entry or the interval where these lie ahead of the origin; it ends
/// within the boundary and the interval; and there is none exactly where
/// the boundary and the interval have no stretch in common.
pub proof fn lemma_segment_lies_inside(entry: i32, exit: i32, t_min: i32, t_max: i32)
    ensures
        segment_inside(entry, exit, t_min, t_max) matches Some((from, to)) ==> {
            &&& 0 <= from
            &&& from == max_key(max_key(entry as int, t_min as int), 0)
            &&& to == min_key(exit as int, t_max as int)
            &&& to <= exit
            &&& to <= t_max
        },
        segment_inside(entry, exit, t_min, t_max) is None <==> !exists|t: int|
            #[trigger] in_both(t, entry, exit, t_min, t_max),
{
    let from = max_key(entry as int, t_min as int);
    let to = min_key(exit as int, t_max as int);
    if from < to {
        assert(in_both(from, entry, exit, t_min, t_max));
    }
}

} // verus!
