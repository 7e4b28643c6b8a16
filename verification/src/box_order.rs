use std::cmp::Ordering;
use vstd::prelude::*;

use crate::bvh_node::Bounded;

verus! {

/// Whether `lhs` comes before `rhs` along an axis: its anchor lies lower.
pub open spec fn comes_before(lhs: Bounded, rhs: Bounded, axis: int) -> bool {
    lhs.anchor.index_spec(axis) < rhs.anchor.index_spec(axis)
}

/// Whether `lhs` comes before `rhs` along an axis: its anchor lies lower.
pub fn box_compare(lhs: &Bounded, rhs: &Bounded, axis: usize) -> (r: bool)
    ensures
        r == comes_before(*lhs, *rhs, axis as int),
{
    lhs.anchor.index(axis) < rhs.anchor.index(axis)
}

/// Orders two objects by their anchors along x: `Less` where the first
/// comes before the second, else `Greater`.
pub fn box_cmp_x(lhs: &Bounded, rhs: &Bounded) -> (r: Ordering)
    ensures
        comes_before(*lhs, *rhs, 0) ==> r == Ordering::Less,
        !comes_before(*lhs, *rhs, 0) ==> r == Ordering::Greater,
{
    if box_compare(lhs, rhs, 0) {
        return Ordering::Less;
    }
    Ordering::Greater
}

/// Orders two objects by their anchors along y: `Less` where the first
/// comes before the second, else `Greater`.
pub fn box_cmp_y(lhs: &Bounded, rhs: &Bounded) -> (r: Ordering)
    ensures
        comes_before(*lhs, *rhs, 1) ==> r == Ordering::Less,
        !comes_before(*lhs, *rhs, 1) ==> r == Ordering::Greater,
{
    if box_compare(lhs, rhs, 1) {
        return Ordering::Less;
    }
    Ordering::Greater
}

/// Orders two objects by their anchors along z: `Less` where the first
/// comes before the second, else `Greater`.
pub fn box_cmp_z(lhs: &Bounded, rhs: &Bounded) -> (r: Ordering)
    ensures
        comes_before(*lhs, *rhs, 2) ==> r == Ordering::Less,
        !comes_before(*lhs, *rhs, 2) ==> r == Ordering::Greater,
{
    if box_compare(lhs, rhs, 2) {
        return Ordering::Less;
    }
    Ordering::Greater
}

} // verus!
