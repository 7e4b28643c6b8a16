use vstd::arithmetic::power2::{lemma2_to64, lemma_pow2_unfold, pow2};
use vstd::prelude::*;
use vstd::seq_lib::lemma_multiset_commutative;

use crate::bounding_volume::{AxisAlignedBoundingBox, Slab};
use crate::hittable::HitRecord;
use crate::point::Point;
use crate::utils::random_int;

verus! {

/// An object as the hierarchy sees it: its handle, the corner by which it
/// is ordered against the others (the minimum of its box at rest), and the
/// box that bounds it over the whole time interval.
#[derive(Clone, Copy, Debug, PartialEq, Eq, Structural)]
pub struct Bounded {
    pub object: usize,
    pub anchor: Point,
    pub bound_box: AxisAlignedBoundingBox,
}

/// A bounding volume hierarchy: a single object, or two hierarchies under
/// the box that surrounds both.
#[derive(Debug)]
pub enum BVHNode {
    Object(Bounded),
    Pair { bound_box: AxisAlignedBoundingBox, left_node: Box<BVHNode>, right_node: Box<BVHNode> },
}

/// Whether the objects from `lo` up to `hi` stand in ascending order of
/// their anchors along `axis`.
pub open spec fn ascending(s: Seq<Bounded>, lo: int, hi: int, axis: int) -> bool {
    forall|i: int, j: int|
        lo <= i <= j < hi ==> (#[trigger] s[i]).anchor.index_spec(axis) <= (
        #[trigger] s[j]).anchor.index_spec(axis)
}

/// Whether, along `axis`, no object of the first half of `s` lies beyond
/// an object of the second half.
pub open spec fn divided(s: Seq<Bounded>, axis: int) -> bool {
    forall|i: int, j: int|
        0 <= i < s.len() / 2 && s.len() / 2 <= j < s.len() ==> (#[trigger] s[i]).anchor.index_spec(
            axis,
        ) <= (#[trigger] s[j]).anchor.index_spec(axis)
}

/// Whether `s` is split at the median all the way down: it is divided
/// along one of the three axes, and so is each half in turn.
pub open spec fn median_split(s: Seq<Bounded>) -> bool
    decreases s.len(),
{
    if s.len() <= 1 {
        true
    } else {
        &&& exists|axis: int| 0 <= axis < 3 && #[trigger] divided(s, axis)
        &&& median_split(s.subrange(0, s.len() as int / 2))
        &&& median_split(s.subrange(s.len() as int / 2, s.len() as int))
    }
}

/// The hierarchy that halves `s` at its middle until single objects are
/// left, with each box the union of the two below it.
pub open spec fn balanced_tree(s: Seq<Bounded>) -> BVHNode
    decreases s.len(),
{
    if s.len() <= 1 {
        BVHNode::Object(s[0])
    } else {
        let left = balanced_tree(s.subrange(0, s.len() as int / 2));
        let right = balanced_tree(s.subrange(s.len() as int / 2, s.len() as int));
        BVHNode::Pair {
            bound_box: AxisAlignedBoundingBox::union(left.bounds(), right.bounds()),
            left_node: Box::new(left),
            right_node: Box::new(right),
        }
    }
}

/// `<[T]>::sort_unstable_by_key` of std on the part of the vector from
/// `lo` up to `hi`, keyed by the anchor's coordinate along `axis`. As std
/// documents it: that part comes out in ascending order of the key and
/// holds what it held before; nothing is said of the order of equal keys.
/// The rest of the vector is not touched.
#[verifier::external_body]
fn sort_span(objects: &mut Vec<Bounded>, lo: usize, hi: usize, axis: usize)
    requires
        lo <= hi <= old(objects)@.len(),
    ensures
        final(objects)@.len() == old(objects)@.len(),
        forall|k: int|
            0 <= k < lo || hi <= k < old(objects)@.len() ==> final(objects)@[k] == old(objects)@[k],
        final(objects)@.subrange(lo as int, hi as int).to_multiset() == old(objects)@.subrange(
            lo as int,
            hi as int,
        ).to_multiset(),
        ascending(final(objects)@, lo as int, hi as int, axis as int),
{
    objects[lo..hi].sort_unstable_by_key(|b| b.anchor.index(axis));
}

impl BVHNode {
    /// The box that bounds the whole hierarchy.
    pub open spec fn bounds(self) -> AxisAlignedBoundingBox {
        match self {
            BVHNode::Object(b) => b.bound_box,
            BVHNode::Pair { bound_box, .. } => bound_box,
        }
    }

    /// The objects of the hierarchy from left to right.
    pub open spec fn leaves(self) -> Seq<Bounded>
        decreases self,
    {
        match self {
            BVHNode::Object(b) => seq![b],
            BVHNode::Pair { left_node, right_node, .. } => left_node.leaves() + right_node.leaves(),
        }
    }

    /// The number of levels below the root.
    pub open spec fn depth(self) -> nat
        decreases self,
    {
        match self {
            BVHNode::Object(_) => 0,
            BVHNode::Pair { left_node, right_node, .. } => {
                let l = left_node.depth();
                let r = right_node.depth();
                if l >= r {
                    l + 1
                } else {
                    r + 1
                }
            },
        }
    }

    /// Every inner box is the union of the boxes of its two children.
    pub open spec fn well_formed(self) -> bool
        decreases self,
    {
        match self {
            BVHNode::Object(_) => true,
            BVHNode::Pair { bound_box, left_node, right_node } => {
                &&& bound_box == AxisAlignedBoundingBox::union(
                    left_node.bounds(),
                    right_node.bounds(),
                )
                &&& left_node.well_formed()
                &&& right_node.well_formed()
            },
        }
    }

    /// The box that bounds the whole hierarchy.
    pub fn bounding_box(&self) -> (r: AxisAlignedBoundingBox)
        ensures
            r == self.bounds(),
    {
        match self {
            BVHNode::Object(b) => b.bound_box,
            BVHNode::Pair { bound_box, .. } => *bound_box,
        }
    }

    /// The upper bound for the search of the right child: the parameter of
    /// what the left child found, or `t_max` where it found nothing.
    pub open spec fn narrowed<S>(t_max: i32, left: Option<HitRecord<S>>) -> i32 {
        match left {
            Some(h) => h.t,
            None => t_max,
        }
    }

    /// Of the answers of the two children the one that stands: the right
    /// child's where it found something, else the left child's.
    pub open spec fn preferred<S>(
        left: Option<HitRecord<S>>,
        right: Option<HitRecord<S>>,
    ) -> Option<HitRecord<S>> {
        if right is Some {
            right
        } else {
            left
        }
    }

    /// The upper bound for the search of the right child: the parameter of
    /// what the left child found, or `t_max` where it found nothing.
    pub fn narrow<S>(t_max: i32, left: &Option<HitRecord<S>>) -> (r: i32)
        ensures
            r == Self::narrowed(t_max, *left),
    {
        match left {
            Some(h) => h.t,
            None => t_max,
        }
    }

    /// Of the answers of the two children the one that stands: the right
    /// child's where it found something, else the left child's.
    pub fn prefer<S>(left: Option<HitRecord<S>>, right: Option<HitRecord<S>>) -> (r: Option<
        HitRecord<S>,
    >)
        ensures
            r == Self::preferred(left, right),
    {
        if right.is_some() {
            right
        } else {
            left
        }
    }

    /// Whether the two callbacks may be asked all that a search of this
    /// hierarchy from `t_min` can ask: `crossings` for every inner box, and
    /// `probe` for every object with any upper bound.
    pub open spec fn askable<
        S,
        C: Fn(&AxisAlignedBoundingBox) -> [Slab; 3],
        P: Fn(usize, i32, i32) -> Option<HitRecord<S>>,
    >(self, crossings: C, probe: P, t_min: i32) -> bool
        decreases self,
    {
        match self {
            BVHNode::Object(b) => forall|hi: i32| call_requires(probe, (b.object, t_min, hi)),
            BVHNode::Pair { bound_box, left_node, right_node } => {
                &&& call_requires(crossings, (&bound_box,))
                &&& left_node.askable(crossings, probe, t_min)
                &&& right_node.askable(crossings, probe, t_min)
            },
        }
    }

    /// Whether `r` is what a search of this hierarchy between `t_min` and
    /// `t_max` returns, for some run of answers that the callbacks may give.
    ///
    /// A single object answers for itself. Under an inner box nothing is
    /// found where the slab test on the box fails; else the left child is
    /// searched, then the right child up to what the left child found, and
    /// the right child's answer stands where there is one.
    pub open spec fn hit_outcome<
        S,
        C: Fn(&AxisAlignedBoundingBox) -> [Slab; 3],
        P: Fn(usize, i32, i32) -> Option<HitRecord<S>>,
    >(self, crossings: C, probe: P, t_min: i32, t_max: i32, r: Option<HitRecord<S>>) -> bool
        decreases self,
    {
        match self {
            BVHNode::Object(b) => call_ensures(probe, (b.object, t_min, t_max), r),
            BVHNode::Pair { bound_box, left_node, right_node } => exists|slabs: [Slab; 3]|
                {
                    &&& #[trigger] call_ensures(crossings, (&bound_box,), slabs)
                    &&& if AxisAlignedBoundingBox::hit_spec(slabs@, t_min as int, t_max as int) {
                        exists|left: Option<HitRecord<S>>, right: Option<HitRecord<S>>|
                            {
                                &&& left_node.hit_outcome(crossings, probe, t_min, t_max, left)
                                &&& right_node.hit_outcome(
                                    crossings,
                                    probe,
                                    t_min,
                                    Self::narrowed(t_max, left),
                                    right,
                                )
                                &&& r == #[trigger] Self::preferred(left, right)
                            }
                    } else {
                        r is None
                    }
                },
        }
    }

    /// The nearest intersection of a ray with the objects of the hierarchy
    /// between `t_min` and `t_max`.
    ///
    /// `crossings` gives the ray's crossings with the slabs of a box, and
    /// `probe` the ray's intersection with one object within an interval.
    pub fn hit<
        S,
        C: Fn(&AxisAlignedBoundingBox) -> [Slab; 3],
        P: Fn(usize, i32, i32) -> Option<HitRecord<S>>,
    >(&self, crossings: &C, probe: &P, t_min: i32, t_max: i32) -> (r: Option<HitRecord<S>>)
        requires
            self.askable(*crossings, *probe, t_min),
        ensures
            self.hit_outcome(*crossings, *probe, t_min, t_max, r),
        decreases self,
    {
        match self {
            BVHNode::Object(b) => probe(b.object, t_min, t_max),
            BVHNode::Pair { bound_box, left_node, right_node } => {
                let slabs = crossings(bound_box);
                if !AxisAlignedBoundingBox::hit(&slabs, t_min, t_max) {
                    return None;
                }
                let left = left_node.hit(crossings, probe, t_min, t_max);
                let bound = Self::narrow(t_max, &left);
                let right = right_node.hit(crossings, probe, t_min, bound);
                Self::prefer(left, right)
            },
        }
    }

    /// Builds the hierarchy over the given objects, of which there must be
    /// one at least.
    ///
    /// At each level an axis is drawn at random, the objects are sorted by
    /// their anchors along it and split at the median. The vector is left
    /// in the order of the leaves: it holds the objects it held, and the
    /// hierarchy is the balanced one over that order.
    pub fn create_tree(objects: &mut Vec<Bounded>) -> (tree: BVHNode)
        requires
            old(objects)@.len() >= 1,
        ensures
            final(objects)@.to_multiset() == old(objects)@.to_multiset(),
            median_split(final(objects)@),
            tree == balanced_tree(final(objects)@),
            tree.leaves() == final(objects)@,
            tree.well_formed(),
    {
        let n = objects.len();
        proof {
            assert(objects@.subrange(0, n as int) == objects@);
        }
        let tree = Self::build(objects, 0, n);
        proof {
            assert(objects@.subrange(0, n as int) == objects@);
            lemma_balanced_tree_holds_its_objects(objects@);
        }
        tree
    }

    /// Builds the hierarchy over the objects from `lo` up to `hi`, and
    /// leaves the rest of the vector as it was.
    fn build(objects: &mut Vec<Bounded>, lo: usize, hi: usize) -> (tree: BVHNode)
        requires
            lo < hi <= old(objects)@.len(),
        ensures
            final(objects)@.len() == old(objects)@.len(),
            forall|k: int|
                0 <= k < lo || hi <= k < old(objects)@.len() ==> final(objects)@[k] == old(
                    objects,
                )@[k],
            final(objects)@.subrange(lo as int, hi as int).to_multiset() == old(objects)@.subrange(
                lo as int,
                hi as int,
            ).to_multiset(),
            median_split(final(objects)@.subrange(lo as int, hi as int)),
            tree == balanced_tree(final(objects)@.subrange(lo as int, hi as int)),
        decreases hi - lo,
    {
        let axis = random_int(0, 2) as usize;
        if hi - lo == 1 {
            return BVHNode::Object(objects[lo]);
        }
        sort_span(objects, lo, hi, axis);
        let ghost sorted = objects@;
        let mid = lo + (hi - lo) / 2;
        let left_node = Self::build(objects, lo, mid);
        let ghost halfway = objects@;
        let right_node = Self::build(objects, mid, hi);
        let bound_box = AxisAlignedBoundingBox::surrounding_box(
            left_node.bounding_box(),
            right_node.bounding_box(),
        );
        proof {
            let done = objects@;
            let span = done.subrange(lo as int, hi as int);
            let half = span.len() as int / 2;
            assert(half == mid - lo);
            assert(span.subrange(0, half) == done.subrange(lo as int, mid as int));
            assert(span.subrange(half, span.len() as int) == done.subrange(mid as int, hi as int));
            assert(done.subrange(lo as int, mid as int) == halfway.subrange(lo as int, mid as int));
            assert(halfway.subrange(mid as int, hi as int) == sorted.subrange(mid as int, hi as int));
            lemma_divided_after_shuffle(sorted, done, lo as int, mid as int, hi as int, axis as int);
            assert(divided(span, axis as int)) by {
                assert forall|i: int, j: int| 0 <= i < half && half <= j < span.len() implies (
                #[trigger] span[i]).anchor.index_spec(axis as int) <= (
                #[trigger] span[j]).anchor.index_spec(axis as int) by {
                    assert(span[i] == done[lo + i]);
                    assert(span[j] == done[lo + j]);
                }
            }
            lemma_multiset_commutative(
                done.subrange(lo as int, mid as int),
                done.subrange(mid as int, hi as int),
            );
            lemma_multiset_commutative(
                sorted.subrange(lo as int, mid as int),
                sorted.subrange(mid as int, hi as int),
            );
            assert(span == done.subrange(lo as int, mid as int) + done.subrange(
                mid as int,
                hi as int,
            ));
            assert(sorted.subrange(lo as int, hi as int) == sorted.subrange(lo as int, mid as int)
                + sorted.subrange(mid as int, hi as int));
        }
        BVHNode::Pair {
            bound_box,
            left_node: Box::new(left_node),
            right_node: Box::new(right_node),
        }
    }
}

/// Where a span is in ascending order and each of its two parts is then
/// rearranged within itself, no object of the first part lies beyond one of
/// the second.
proof fn lemma_divided_after_shuffle(
    sorted: Seq<Bounded>,
    done: Seq<Bounded>,
    lo: int,
    mid: int,
    hi: int,
    axis: int,
)
    requires
        0 <= lo <= mid <= hi <= sorted.len(),
        done.len() == sorted.len(),
        ascending(sorted, lo, hi, axis),
        done.subrange(lo, mid).to_multiset() == sorted.subrange(lo, mid).to_multiset(),
        done.subrange(mid, hi).to_multiset() == sorted.subrange(mid, hi).to_multiset(),
    ensures
        forall|i: int, j: int|
            lo <= i < mid && mid <= j < hi ==> (#[trigger] done[i]).anchor.index_spec(axis) <= (
            #[trigger] done[j]).anchor.index_spec(axis),
{
    let a_new = done.subrange(lo, mid);
    let a_old = sorted.subrange(lo, mid);
    let b_new = done.subrange(mid, hi);
    let b_old = sorted.subrange(mid, hi);
    a_new.to_multiset_ensures();
    a_old.to_multiset_ensures();
    b_new.to_multiset_ensures();
    b_old.to_multiset_ensures();
    assert forall|i: int, j: int| lo <= i < mid && mid <= j < hi implies (
    #[trigger] done[i]).anchor.index_spec(axis) <= (#[trigger] done[j]).anchor.index_spec(axis) by {
        assert(a_new[i - lo] == done[i]);
        assert(a_new.contains(done[i]));
        assert(a_new.to_multiset().count(done[i]) > 0);
        assert(a_old.to_multiset().count(done[i]) > 0);
        assert(a_old.contains(done[i]));
        let i0 = choose|k: int| 0 <= k < a_old.len() && a_old[k] == done[i];
        assert(sorted[lo + i0] == done[i]);
        assert(b_new[j - mid] == done[j]);
        assert(b_new.contains(done[j]));
        assert(b_new.to_multiset().count(done[j]) > 0);
        assert(b_old.to_multiset().count(done[j]) > 0);
        assert(b_old.contains(done[j]));
        let j0 = choose|k: int| 0 <= k < b_old.len() && b_old[k] == done[j];
        assert(sorted[mid + j0] == done[j]);
    }
}


/// The balanced hierarchy over a sequence of objects holds exactly those
/// objects, from left to right in the order of the sequence; each of its
/// inner boxes is the union of the two below it; and its root box holds the
/// box of every object.
pub proof fn lemma_balanced_tree_holds_its_objects(s: Seq<Bounded>)
    requires
        s.len() >= 1,
    ensures
        balanced_tree(s).leaves() == s,
        balanced_tree(s).well_formed(),
        forall|i: int|
            0 <= i < s.len() ==> balanced_tree(s).bounds().encloses((#[trigger] s[i]).bound_box),
    decreases s.len(),
{
    if s.len() > 1 {
        let half = s.len() as int / 2;
        let a = s.subrange(0, half);
        let b = s.subrange(half, s.len() as int);
        lemma_balanced_tree_holds_its_objects(a);
        lemma_balanced_tree_holds_its_objects(b);
        assert(a + b == s);
        assert forall|i: int| 0 <= i < s.len() implies balanced_tree(s).bounds().encloses(
            (#[trigger] s[i]).bound_box,
        ) by {
            if i < half {
                assert(a[i] == s[i]);
            } else {
                assert(b[i - half] == s[i]);
            }
        }
    } else {
        assert(seq![s[0]] == s);
    }
}

/// The balanced hierarchy is no deeper than halving allows: over at most
/// two to the power of `d` objects it has at most `d` levels below its
/// root.
pub proof fn lemma_balanced_tree_is_shallow(s: Seq<Bounded>, d: nat)
    requires
        1 <= s.len() <= pow2(d),
    ensures
        balanced_tree(s).depth() <= d,
    decreases s.len(),
{
    if s.len() > 1 {
        if d == 0 {
            lemma2_to64();
        } else {
            lemma_pow2_unfold(d);
            let half = s.len() as int / 2;
            lemma_balanced_tree_is_shallow(s.subrange(0, half), (d - 1) as nat);
            lemma_balanced_tree_is_shallow(s.subrange(half, s.len() as int), (d - 1) as nat);
        }
    }
}

} // verus!
