use vstd::prelude::*;

verus! {

/// What is known of one intersection once a ray has met a surface.
///
/// `t` is the ordered key of the ray parameter. `surface` is whatever the
/// caller records of the point that was hit (position, normal, surface
/// coordinates, material); nothing here looks inside it.
#[derive(Debug)]
pub struct HitRecord<S> {
    pub surface: S,
    pub t: i32,
    pub front_face: bool,
}

impl<S> HitRecord<S> {
    /// The same intersection seen from the other side of the surface.
    pub open spec fn flipped_spec(self) -> Self {
        HitRecord { surface: self.surface, t: self.t, front_face: !self.front_face }
    }

    /// The same intersection seen from the other side of the surface.
    pub fn flipped(self) -> (r: Self)
        ensures
            r == self.flipped_spec(),
    {
        HitRecord { surface: self.surface, t: self.t, front_face: !self.front_face }
    }
}

/// The ray parameter of an answer, where there is one.
pub open spec fn parameter_of<S>(answer: Option<HitRecord<S>>) -> Option<int> {
    match answer {
        Some(h) => Some(h.t as int),
        None => None,
    }
}

/// Whether `r` is what a scan of the answers in order keeps: the first of
/// the intersections with the least parameter, provided that parameter lies
/// below `t_max`; nothing where no answer lies below `t_max`.
pub open spec fn is_nearest<S>(
    answers: Seq<Option<HitRecord<S>>>,
    t_max: int,
    r: Option<HitRecord<S>>,
) -> bool {
    match r {
        None => forall|j: int|
            0 <= j < answers.len() ==> (#[trigger] answers[j] matches Some(g) ==> t_max <= g.t),
        Some(h) => exists|i: int|
            {
                &&& 0 <= i < answers.len()
                &&& #[trigger] answers[i] == Some(h)
                &&& h.t < t_max
                &&& first_least(answers, i)
            },
    }
}

/// Whether the answer at `i` is an intersection whose parameter no other
/// answer undercuts and no earlier answer equals.
pub open spec fn first_least<S>(answers: Seq<Option<HitRecord<S>>>, i: int) -> bool {
    &&& 0 <= i < answers.len()
    &&& answers[i] is Some
    &&& forall|j: int|
        0 <= j < answers.len() ==> (#[trigger] answers[j] matches Some(g) ==> {
            &&& answers[i]->0.t <= g.t
            &&& j < i ==> answers[i]->0.t < g.t
        })
}

/// An inverting wrapper: the object seen with its faces exchanged.
#[derive(Clone, Copy, Debug)]
pub struct FlipFace {
    pub object: usize,
}

impl FlipFace {
    /// The answer of the wrapped object with its face turned over.
    pub open spec fn turned<S>(inner: Option<HitRecord<S>>) -> Option<HitRecord<S>> {
        match inner {
            Some(h) => Some(h.flipped_spec()),
            None => None,
        }
    }

    /// What the wrapper answers where the wrapped object answered `inner`:
    /// the same intersection with its face turned over, and a miss for a
    /// miss. The geometry is left as it was.
    pub fn hit<S>(&self, inner: Option<HitRecord<S>>) -> (r: Option<HitRecord<S>>)
        ensures
            r == Self::turned(inner),
    {
        match inner {
            Some(h) => Some(h.flipped()),
            None => None,
        }
    }
}

/// Turning a face over twice gives the intersection back.
pub proof fn lemma_flip_is_involution<S>(h: HitRecord<S>)
    ensures
        h.flipped_spec().flipped_spec() == h,
        h.flipped_spec().t == h.t,
        h.flipped_spec().surface == h.surface,
{
}

/// A scan keeps one answer at most: two results that both meet `is_nearest`
/// are the same.
pub proof fn lemma_nearest_is_unique<S>(
    answers: Seq<Option<HitRecord<S>>>,
    t_max: int,
    r1: Option<HitRecord<S>>,
    r2: Option<HitRecord<S>>,
)
    requires
        is_nearest(answers, t_max, r1),
        is_nearest(answers, t_max, r2),
    ensures
        r1 == r2,
{
    match (r1, r2) {
        (Some(h1), Some(h2)) => {
            let i1 = choose|i: int|
                0 <= i < answers.len() && #[trigger] answers[i] == Some(h1) && h1.t < t_max
                    && first_least(answers, i);
            let i2 = choose|i: int|
                0 <= i < answers.len() && #[trigger] answers[i] == Some(h2) && h2.t < t_max
                    && first_least(answers, i);
            assert(answers[i1] matches Some(g) ==> answers[i2]->0.t <= g.t);
            assert(answers[i2] matches Some(g) ==> answers[i1]->0.t <= g.t);
            if i1 < i2 {
                assert(answers[i1] matches Some(g) ==> answers[i2]->0.t < g.t);
            } else if i2 < i1 {
                assert(answers[i2] matches Some(g) ==> answers[i1]->0.t < g.t);
            }
        },
        (Some(h1), None) => {
            let i1 = choose|i: int|
                0 <= i < answers.len() && #[trigger] answers[i] == Some(h1) && h1.t < t_max
                    && first_least(answers, i);
            assert(answers[i1] matches Some(g) ==> t_max <= g.t);
        },
        (None, Some(h2)) => {
            let i2 = choose|i: int|
                0 <= i < answers.len() && #[trigger] answers[i] == Some(h2) && h2.t < t_max
                    && first_least(answers, i);
            assert(answers[i2] matches Some(g) ==> t_max <= g.t);
        },
        (None, None) => {},
    }
}

} // verus!
