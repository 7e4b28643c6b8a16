use vstd::prelude::*;

use crate::hittable::{first_least, is_nearest, HitRecord};
use crate::utils::random_int;

verus! {

/// A plain list of objects, each named by its handle, that is searched
/// from front to back.
pub struct HittableList {
    pub objects: Vec<usize>,
}

impl HittableList {
    /// The empty list.
    pub fn new() -> (r: Self)
        ensures
            r.objects@ == Seq::<usize>::empty(),
    {
        Self { objects: Vec::new() }
    }

    /// Appends an object.
    pub fn add(&mut self, obj: usize)
        ensures
            final(self).objects@ == old(self).objects@.push(obj),
    {
        self.objects.push(obj);
    }

    /// Whether `answers` holds, object by object, what `probe` may have
    /// answered for the interval from `t_min` to `t_max`.
    pub open spec fn answered<S, P: Fn(usize, i32, i32) -> Option<HitRecord<S>>>(
        self,
        probe: P,
        t_min: i32,
        t_max: i32,
        answers: Seq<Option<HitRecord<S>>>,
    ) -> bool {
        &&& answers.len() == self.objects@.len()
        &&& forall|i: int|
            0 <= i < answers.len() ==> call_ensures(
                probe,
                (self.objects@[i], t_min, t_max),
                #[trigger] answers[i],
            )
    }

    /// The nearest intersection of a ray with the objects of the list.
    ///
    /// Every object is asked through `probe` with the same interval; of the
    /// answers the scan keeps the first with the least parameter below
    /// `t_max`.
    pub fn hit<S, P: Fn(usize, i32, i32) -> Option<HitRecord<S>>>(
        &self,
        probe: &P,
        t_min: i32,
        t_max: i32,
    ) -> (r: Option<HitRecord<S>>)
        requires
            forall|i: int|
                0 <= i < self.objects@.len() ==> call_requires(
                    *probe,
                    (#[trigger] self.objects@[i], t_min, t_max),
                ),
        ensures
            exists|answers: Seq<Option<HitRecord<S>>>|
                #![auto]
                self.answered(*probe, t_min, t_max, answers) && is_nearest(
                    answers,
                    t_max as int,
                    r,
                ),
    {
        let mut answers: Vec<Option<HitRecord<S>>> = Vec::new();
        let mut i: usize = 0;
        while i < self.objects.len()
            invariant
                i <= self.objects@.len(),
                answers@.len() == i,
                forall|k: int|
                    0 <= k < self.objects@.len() ==> call_requires(
                        *probe,
                        (#[trigger] self.objects@[k], t_min, t_max),
                    ),
                forall|k: int|
                    0 <= k < i ==> call_ensures(
                        *probe,
                        (self.objects@[k], t_min, t_max),
                        #[trigger] answers@[k],
                    ),
            decreases self.objects@.len() - i,
        {
            let answer = probe(self.objects[i], t_min, t_max);
            answers.push(answer);
            i += 1;
        }
        Self::nearest(answers, t_max)
    }

    /// Of the answers that the objects of a list gave, in the order of the
    /// list, the one that the scan keeps.
    pub fn nearest<S>(answers: Vec<Option<HitRecord<S>>>, t_max: i32) -> (r: Option<HitRecord<S>>)
        ensures
            is_nearest(answers@, t_max as int, r),
    {
        let ghost all = answers@;
        let mut rest = answers;
        let mut best: Option<HitRecord<S>> = None;
        let ghost mut at: int = 0;
        while rest.len() > 0
            invariant
                rest@.len() <= all.len(),
                rest@ == all.subrange(0, rest@.len() as int),
                match best {
                    None => forall|j: int|
                        rest@.len() <= j < all.len() ==> (#[trigger] all[j] matches Some(g)
                            ==> t_max <= g.t),
                    Some(h) => {
                        &&& rest@.len() <= at < all.len()
                        &&& all[at] == Some(h)
                        &&& h.t < t_max
                        &&& forall|j: int|
                            rest@.len() <= j < all.len() ==> (#[trigger] all[j] matches Some(g)
                                ==> {
                                &&& h.t <= g.t
                                &&& j < at ==> h.t < g.t
                            })
                    },
                },
            decreases rest@.len(),
        {
            let ghost k = rest@.len() - 1;
            let answer = rest.pop();
            assert(rest@ == all.subrange(0, k));
            if let Some(Some(g)) = answer {
                assert(all[k] == Some(g));
                let closer = match &best {
                    None => g.t < t_max,
                    Some(h) => g.t <= h.t,
                };
                if closer {
                    best = Some(g);
                    proof {
                        at = k;
                    }
                }
            }
        }
        proof {
            if best is Some {
                assert(first_least(all, at));
            }
        }
        best
    }

    /// Draws the position of one object of the list, each with the same
    /// chance. The list must hold an object.
    pub fn random(&self) -> (i: usize)
        requires
            0 < self.objects@.len() <= u32::MAX,
        ensures
            i < self.objects@.len(),
    {
        let last: u32 = (self.objects.len() - 1) as u32;
        random_int(0, last) as usize
    }
}

} // verus!
