use vstd::prelude::*;

use crate::bounding_volume::AxisAlignedBoundingBox;
use crate::bvh_node::{balanced_tree, median_split, BVHNode, Bounded};
use crate::hittable_list::HittableList;

verus! {

/// A fault in how a scene was put together. It is found before rendering
/// starts, not while a ray is traced.
#[derive(Clone, Copy, Debug, PartialEq, Eq, Structural)]
pub enum ConfigError {
    /// A hierarchy was asked for over no object at all.
    EmptyScene,
    /// The object at this position has no bounding box, so it cannot stand
    /// in a hierarchy.
    Unbounded(usize),
    /// There is no light to sample.
    NoLights,
    /// There are more lights than a position can be drawn for.
    TooManyLights,
}

/// The two boxes of an object that a hierarchy needs: the one at rest, by
/// which it is ordered, and the one over the whole time interval, which
/// bounds it. An object without bounds has neither.
#[derive(Clone, Copy, Debug)]
pub struct Extent {
    pub at_rest: Option<AxisAlignedBoundingBox>,
    pub swept: Option<AxisAlignedBoundingBox>,
}

impl Extent {
    /// Whether the object has both boxes.
    pub open spec fn bounded(self) -> bool {
        self.at_rest is Some && self.swept is Some
    }

    /// The object as a hierarchy sees it, where it has both boxes.
    pub open spec fn as_bounded(self, object: usize) -> Bounded {
        Bounded { object, anchor: self.at_rest->0.minimum, bound_box: self.swept->0 }
    }
}

/// What `bound` returns for the extents of a scene.
pub open spec fn bound_spec(extents: Seq<Extent>) -> Result<Seq<Bounded>, ConfigError> {
    if extents.len() == 0 {
        Err(ConfigError::EmptyScene)
    } else if exists|i: int| 0 <= i < extents.len() && !(#[trigger] extents[i]).bounded() {
        Err(ConfigError::Unbounded(first_unbounded(extents, 0) as usize))
    } else {
        Ok(Seq::new(extents.len(), |i: int| extents[i].as_bounded(i as usize)))
    }
}

/// The position of the first object, from `from` on, that lacks a box; the
/// number of objects where there is none.
pub open spec fn first_unbounded(extents: Seq<Extent>, from: int) -> int
    decreases extents.len() - from,
{
    if from >= extents.len() {
        extents.len() as int
    } else if !extents[from].bounded() {
        from
    } else {
        first_unbounded(extents, from + 1)
    }
}

/// Checks that every object of a scene has its boxes and hands them on in
/// the form in which a hierarchy is built over them; the handle of an
/// object is its position. The first object without a box is reported.
pub fn bound(extents: &Vec<Extent>) -> (r: Result<Vec<Bounded>, ConfigError>)
    ensures
        match (r, bound_spec(extents@)) {
            (Ok(objects), Ok(expected)) => objects@ == expected,
            (Err(e), Err(expected)) => e == expected,
            _ => false,
        },
{
    if extents.len() == 0 {
        return Err(ConfigError::EmptyScene);
    }
    let mut objects: Vec<Bounded> = Vec::with_capacity(extents.len());
    let mut i: usize = 0;
    while i < extents.len()
        invariant
            i <= extents@.len(),
            objects@.len() == i,
            forall|k: int| 0 <= k < i ==> (#[trigger] extents@[k]).bounded(),
            forall|k: int| 0 <= k < i ==> #[trigger] objects@[k] == extents@[k].as_bounded(k as usize),
            first_unbounded(extents@, 0) == first_unbounded(extents@, i as int),
        decreases extents@.len() - i,
    {
        let extent = extents[i];
        match (extent.at_rest, extent.swept) {
            (Some(at_rest), Some(swept)) => {
                objects.push(Bounded { object: i, anchor: at_rest.minimum, bound_box: swept });
            },
            _ => {
                return Err(ConfigError::Unbounded(i));
            },
        }
        i += 1;
    }
    Ok(objects)
}

/// Builds the hierarchy over a scene, or says what is wrong with the scene.
/// With the hierarchy come the objects in the order of its leaves.
pub fn create_tree(extents: &Vec<Extent>) -> (r: Result<(BVHNode, Vec<Bounded>), ConfigError>)
    ensures
        match (r, bound_spec(extents@)) {
            (Ok((tree, leaves)), Ok(objects)) => {
                &&& leaves@.to_multiset() == objects.to_multiset()
                &&& median_split(leaves@)
                &&& tree == balanced_tree(leaves@)
                &&& tree.leaves() == leaves@
                &&& tree.well_formed()
            },
            (Err(e), Err(expected)) => e == expected,
            _ => false,
        },
{
    match bound(extents) {
        Err(e) => Err(e),
        Ok(objects) => {
            let mut leaves = objects;
            let tree = BVHNode::create_tree(&mut leaves);
            Ok((tree, leaves))
        },
    }
}

/// Checks that the lights can be sampled: there is one at least, and not
/// more than a position can be drawn for.
pub fn check_lights(lights: &HittableList) -> (r: Result<(), ConfigError>)
    ensures
        lights.objects@.len() == 0 ==> r == Err::<(), ConfigError>(ConfigError::NoLights),
        lights.objects@.len() > u32::MAX ==> r == Err::<(), ConfigError>(
            ConfigError::TooManyLights,
        ),
        0 < lights.objects@.len() <= u32::MAX ==> r is Ok,
{
    if lights.objects.len() == 0 {
        Err(ConfigError::NoLights)
    } else if lights.objects.len() > u32::MAX as usize {
        Err(ConfigError::TooManyLights)
    } else {
        Ok(())
    }
}

/// The object that is reported as lacking a box does lack one, and every
/// object before it has its boxes.
pub proof fn lemma_first_unbounded(extents: Seq<Extent>, from: int)
    requires
        0 <= from <= extents.len(),
    ensures
        from <= first_unbounded(extents, from) <= extents.len(),
        first_unbounded(extents, from) < extents.len() ==> !extents[first_unbounded(
            extents,
            from,
        )].bounded(),
        forall|k: int| from <= k < first_unbounded(extents, from) ==> (#[trigger] extents[k]).bounded(),
    decreases extents.len() - from,
{
    if from < extents.len() && extents[from].bounded() {
        lemma_first_unbounded(extents, from + 1);
    }
}

} // verus!
