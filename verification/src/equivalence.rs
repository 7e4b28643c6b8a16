use vstd::prelude::*;

use crate::bounding_volume::{AxisAlignedBoundingBox, Slab};
use crate::bvh_node::{BVHNode, Bounded};
use crate::hittable::{first_least, is_nearest, parameter_of, HitRecord};
use crate::hittable_list::HittableList;

verus! {

/// The lesser of two parameters, where a missing one does not count.
pub open spec fn lesser_parameter(a: Option<int>, b: Option<int>) -> Option<int> {
    match (a, b) {
        (Some(x), Some(y)) => if x <= y {
            Some(x)
        } else {
            Some(y)
        },
        (Some(x), None) => Some(x),
        (None, y) => y,
    }
}

/// The parameter `a` where it does not exceed `hi`, else nothing.
pub open spec fn capped(a: Option<int>, hi: int) -> Option<int> {
    match a {
        Some(t) => if t <= hi {
            Some(t)
        } else {
            None
        },
        None => None,
    }
}

/// The least parameter among the answers from position `from` up to `to`.
pub open spec fn least<S>(answers: Seq<Option<HitRecord<S>>>, from: int, to: int) -> Option<int>
    decreases to - from,
{
    if to <= from {
        None
    } else {
        lesser_parameter(least(answers, from, to - 1), parameter_of(answers[to - 1]))
    }
}

/// The handles of the objects of a hierarchy from left to right.
pub open spec fn handles(tree: BVHNode) -> Seq<usize> {
    tree.leaves().map_values(|b: Bounded| b.object)
}

/// Whether every answer lies in the interval that was asked for, and none
/// on its upper bound itself.
pub open spec fn within<S>(answers: Seq<Option<HitRecord<S>>>, t_min: i32, t_max: i32) -> bool {
    forall|i: int|
        0 <= i < answers.len() ==> (#[trigger] answers[i] matches Some(h) ==> t_min <= h.t < t_max)
}

/// Whether `probe` answers for a shorter interval as it did for the whole
/// one: asked for object `i` up to `hi`, it finds the parameter that
/// `answers` holds for that object where this does not exceed `hi`, and
/// nothing else.
pub open spec fn consistent<S, P: Fn(usize, i32, i32) -> Option<HitRecord<S>>>(
    probe: P,
    objects: Seq<usize>,
    answers: Seq<Option<HitRecord<S>>>,
    t_min: i32,
    t_max: i32,
) -> bool {
    forall|i: int, hi: i32, r: Option<HitRecord<S>>|
        0 <= i < objects.len() && hi <= t_max && #[trigger] call_ensures(
            probe,
            (objects[i], t_min, hi),
            r,
        ) ==> parameter_of(r) == capped(parameter_of(answers[i]), hi as int)
}

/// Whether the slab test on a box, over an interval from `t_min` up to
/// `hi`, lets every intersection through that `answers` holds, from
/// position `from` up to `to`, within that interval.
pub open spec fn lets_through<S, C: Fn(&AxisAlignedBoundingBox) -> [Slab; 3]>(
    crossings: C,
    bound_box: AxisAlignedBoundingBox,
    answers: Seq<Option<HitRecord<S>>>,
    from: int,
    to: int,
    t_min: i32,
    t_max: i32,
) -> bool {
    forall|i: int, hi: i32, slabs: [Slab; 3]|
        from <= i < to && t_min < hi <= t_max && #[trigger] call_ensures(
            crossings,
            (&bound_box,),
            slabs,
        ) && (#[trigger] answers[i] matches Some(h) && h.t <= hi) ==> #[trigger] AxisAlignedBoundingBox::hit_spec(
            slabs@,
            t_min as int,
            hi as int,
        )
}

/// Whether every inner box of the hierarchy lets through the intersections
/// of the objects below it, the answers of which stand in `answers` from
/// position `from` on, in the order of the leaves.
pub open spec fn shelters<S, C: Fn(&AxisAlignedBoundingBox) -> [Slab; 3]>(
    tree: BVHNode,
    crossings: C,
    answers: Seq<Option<HitRecord<S>>>,
    from: int,
    t_min: i32,
    t_max: i32,
) -> bool
    decreases tree,
{
    match tree {
        BVHNode::Object(_) => true,
        BVHNode::Pair { bound_box, left_node, right_node } => {
            &&& lets_through(
                crossings,
                bound_box,
                answers,
                from,
                from + tree.leaves().len(),
                t_min,
                t_max,
            )
            &&& shelters(*left_node, crossings, answers, from, t_min, t_max)
            &&& shelters(
                *right_node,
                crossings,
                answers,
                from + left_node.leaves().len(),
                t_min,
                t_max,
            )
        },
    }
}

/// The least parameter of a span is the lesser of the least parameters of
/// its two parts.
pub proof fn lemma_least_split<S>(answers: Seq<Option<HitRecord<S>>>, from: int, mid: int, to: int)
    requires
        from <= mid <= to,
    ensures
        least(answers, from, to) == lesser_parameter(
            least(answers, from, mid),
            least(answers, mid, to),
        ),
    decreases to - mid,
{
    if mid < to {
        lemma_least_split(answers, from, mid, to - 1);
    }
}

/// The least parameter of a span is the parameter of one of its answers
/// and exceeds none of them; it is missing only where every answer is.
pub proof fn lemma_least_bounds<S>(answers: Seq<Option<HitRecord<S>>>, from: int, to: int)
    requires
        0 <= from <= to <= answers.len(),
    ensures
        match least(answers, from, to) {
            Some(t) => {
                &&& exists|i: int| from <= i < to && parameter_of(#[trigger] answers[i]) == Some(t)
                &&& forall|i: int|
                    from <= i < to ==> (#[trigger] answers[i] matches Some(h) ==> t <= h.t)
            },
            None => forall|i: int| from <= i < to ==> #[trigger] answers[i] is None,
        },
    decreases to - from,
{
    if from < to {
        lemma_least_bounds(answers, from, to - 1);
        match least(answers, from, to - 1) {
            Some(t0) => {
                let i0 = choose|i: int|
                    from <= i < to - 1 && parameter_of(#[trigger] answers[i]) == Some(t0);
                let t = least(answers, from, to)->0;
                assert(parameter_of(answers[i0]) == Some(t) || parameter_of(answers[to - 1])
                    == Some(t));
            },
            None => {
                if answers[to - 1] is Some {
                    assert(parameter_of(answers[to - 1]) == least(answers, from, to));
                }
            },
        }
    }
}

/// What a scan keeps has the least parameter of all the answers, where all
/// of them lie below the bound of the scan.
pub proof fn lemma_nearest_is_least<S>(
    answers: Seq<Option<HitRecord<S>>>,
    t_max: int,
    r: Option<HitRecord<S>>,
)
    requires
        is_nearest(answers, t_max, r),
        forall|i: int| 0 <= i < answers.len() ==> (#[trigger] answers[i] matches Some(h) ==> h.t < t_max),
    ensures
        parameter_of(r) == least(answers, 0, answers.len() as int),
{
    lemma_least_bounds(answers, 0, answers.len() as int);
    match r {
        Some(h) => {
            let i = choose|i: int|
                0 <= i < answers.len() && #[trigger] answers[i] == Some(h) && h.t < t_max
                    && first_least(answers, i);
            let t = least(answers, 0, answers.len() as int)->0;
            let j = choose|j: int|
                0 <= j < answers.len() && parameter_of(#[trigger] answers[j]) == Some(t);
            assert(answers[j] matches Some(g) ==> h.t <= g.t);
            assert(answers[i] matches Some(g) ==> t <= g.t);
        },
        None => {
            if least(answers, 0, answers.len() as int) is Some {
                let t = least(answers, 0, answers.len() as int)->0;
                let j = choose|j: int|
                    0 <= j < answers.len() && parameter_of(#[trigger] answers[j]) == Some(t);
                assert(answers[j] matches Some(g) ==> t_max <= g.t);
            }
        },
    }
}

/// What a search of a hierarchy up to `hi` returns, set against the answers
/// that its objects give for the whole interval up to `t_max`: an
/// intersection that is found has the least of their parameters, and where
/// nothing is found none of their parameters lies within `hi`.
pub proof fn lemma_search_is_least<
    S,
    C: Fn(&AxisAlignedBoundingBox) -> [Slab; 3],
    P: Fn(usize, i32, i32) -> Option<HitRecord<S>>,
>(
    tree: BVHNode,
    crossings: C,
    probe: P,
    objects: Seq<usize>,
    answers: Seq<Option<HitRecord<S>>>,
    from: int,
    t_min: i32,
    t_max: i32,
    hi: i32,
    found: Option<HitRecord<S>>,
)
    requires
        0 <= from,
        from + tree.leaves().len() <= objects.len(),
        objects.len() == answers.len(),
        forall|k: int|
            0 <= k < tree.leaves().len() ==> objects[from + k] == (#[trigger] tree.leaves()[k]).object,
        hi <= t_max,
        tree.hit_outcome(crossings, probe, t_min, hi, found),
        within(answers, t_min, t_max),
        consistent(probe, objects, answers, t_min, t_max),
        shelters(tree, crossings, answers, from, t_min, t_max),
    ensures
        found matches Some(h) ==> capped(
            least(answers, from, from + tree.leaves().len()),
            hi as int,
        ) == Some(h.t as int),
        found is None && t_min < hi ==> capped(
            least(answers, from, from + tree.leaves().len()),
            hi as int,
        ) is None,
    decreases tree,
{
    match tree {
        BVHNode::Object(b) => {
            assert(tree.leaves()[0] == b);
            assert(objects[from] == b.object);
            assert(call_ensures(probe, (objects[from], t_min, hi), found));
            assert(least(answers, from, from + 1) == parameter_of(answers[from])) by {
                assert(least(answers, from, from) == None::<int>);
            }
        },
        BVHNode::Pair { bound_box, left_node, right_node } => {
            let n_left = left_node.leaves().len() as int;
            let n = tree.leaves().len() as int;
            let mid = from + n_left;
            let to = from + n;
            assert(n == n_left + right_node.leaves().len());
            assert forall|k: int| 0 <= k < n_left implies objects[from + k] == (
            #[trigger] left_node.leaves()[k]).object by {
                assert(tree.leaves()[k] == left_node.leaves()[k]);
            }
            assert forall|k: int| 0 <= k < right_node.leaves().len() implies objects[mid + k] == (
            #[trigger] right_node.leaves()[k]).object by {
                assert(tree.leaves()[n_left + k] == right_node.leaves()[k]);
            }
            lemma_least_split(answers, from, mid, to);
            lemma_least_bounds(answers, from, mid);
            lemma_least_bounds(answers, mid, to);
            lemma_least_bounds(answers, from, to);
            let slabs = choose|slabs: [Slab; 3]|
                {
                    &&& #[trigger] call_ensures(crossings, (&bound_box,), slabs)
                    &&& if AxisAlignedBoundingBox::hit_spec(slabs@, t_min as int, hi as int) {
                        exists|left: Option<HitRecord<S>>, right: Option<HitRecord<S>>|
                            {
                                &&& left_node.hit_outcome(crossings, probe, t_min, hi, left)
                                &&& right_node.hit_outcome(
                                    crossings,
                                    probe,
                                    t_min,
                                    BVHNode::narrowed(hi, left),
                                    right,
                                )
                                &&& found == #[trigger] BVHNode::preferred(left, right)
                            }
                    } else {
                        found is None
                    }
                };
            if AxisAlignedBoundingBox::hit_spec(slabs@, t_min as int, hi as int) {
                assert(t_min < hi);
                let (left, right) = choose|left: Option<HitRecord<S>>, right: Option<HitRecord<S>>|
                    {
                        &&& left_node.hit_outcome(crossings, probe, t_min, hi, left)
                        &&& right_node.hit_outcome(
                            crossings,
                            probe,
                            t_min,
                            BVHNode::narrowed(hi, left),
                            right,
                        )
                        &&& found == #[trigger] BVHNode::preferred(left, right)
                    };
                lemma_search_is_least(
                    *left_node,
                    crossings,
                    probe,
                    objects,
                    answers,
                    from,
                    t_min,
                    t_max,
                    hi,
                    left,
                );
                let bound = BVHNode::narrowed(hi, left);
                assert(bound <= hi);
                lemma_search_is_least(
                    *right_node,
                    crossings,
                    probe,
                    objects,
                    answers,
                    mid,
                    t_min,
                    t_max,
                    bound,
                    right,
                );
                if right is None && left is Some && bound <= t_min {
                    // the right child was searched over an empty interval:
                    // its answers still lie at or beyond the bound
                    if least(answers, mid, to) is Some {
                        let t = least(answers, mid, to)->0;
                        let j = choose|j: int|
                            mid <= j < to && parameter_of(#[trigger] answers[j]) == Some(t);
                        assert(answers[j] matches Some(g) ==> t_min <= g.t);
                    }
                }
            } else {
                if capped(least(answers, from, to), hi as int) is Some && t_min < hi {
                    let t = least(answers, from, to)->0;
                    let j = choose|j: int|
                        from <= j < to && parameter_of(#[trigger] answers[j]) == Some(t);
                    assert(answers[j] is Some);
                    assert(AxisAlignedBoundingBox::hit_spec(slabs@, t_min as int, hi as int));
                }
            }
        },
    }
}

/// A search of the hierarchy and a scan of the list of its objects find
/// the same parameter.
///
/// This holds of callbacks that answer for a shorter interval as for the
/// whole one (`consistent`) and whose slab tests let the intersections of
/// the objects below a box through (`shelters`), where every answer lies
/// in the interval and below its upper bound (`within`). Which of two
/// objects at the same parameter is returned may differ.
pub proof fn lemma_hierarchy_agrees_with_list<
    S,
    C: Fn(&AxisAlignedBoundingBox) -> [Slab; 3],
    P: Fn(usize, i32, i32) -> Option<HitRecord<S>>,
>(
    tree: BVHNode,
    list: HittableList,
    crossings: C,
    probe: P,
    t_min: i32,
    t_max: i32,
    found: Option<HitRecord<S>>,
    answers: Seq<Option<HitRecord<S>>>,
    scanned: Option<HitRecord<S>>,
)
    requires
        list.objects@ == handles(tree),
        tree.hit_outcome(crossings, probe, t_min, t_max, found),
        list.answered(probe, t_min, t_max, answers),
        is_nearest(answers, t_max as int, scanned),
        within(answers, t_min, t_max),
        consistent(probe, list.objects@, answers, t_min, t_max),
        shelters(tree, crossings, answers, 0, t_min, t_max),
    ensures
        parameter_of(found) == parameter_of(scanned),
{
    let n = answers.len() as int;
    assert(n == tree.leaves().len());
    assert forall|k: int| 0 <= k < tree.leaves().len() implies list.objects@[0 + k] == (
    #[trigger] tree.leaves()[k]).object by {
        assert(handles(tree)[k] == tree.leaves()[k].object);
    }
    lemma_search_is_least(
        tree,
        crossings,
        probe,
        list.objects@,
        answers,
        0,
        t_min,
        t_max,
        t_max,
        found,
    );
    lemma_nearest_is_least(answers, t_max as int, scanned);
    lemma_least_bounds(answers, 0, n);
    if least(answers, 0, n) is Some {
        let t = least(answers, 0, n)->0;
        let j = choose|j: int| 0 <= j < n && parameter_of(#[trigger] answers[j]) == Some(t);
        assert(answers[j] matches Some(g) ==> t_min <= g.t < t_max);
    }
}

} // verus!
