use vstd::prelude::*;

verus! {

/// What the scene did with one ray of a path.
#[derive(Clone, Copy, Debug, PartialEq, Eq, Structural)]
pub enum Bounce {
    /// The ray met nothing.
    Miss,
    /// The ray met a surface that scatters nothing (an absorber, a light).
    Absorbed,
    /// The surface sent the ray on in one given direction.
    Specular,
    /// The surface offered a distribution to draw the next direction from.
    Diffuse,
}

/// The radiance with which a path closes.
#[derive(Clone, Copy, Debug, PartialEq, Eq, Structural)]
pub enum Radiance {
    /// Nothing: the recursion budget is spent.
    Black,
    /// The background colour.
    Background,
    /// What the surface that was hit emits.
    Emitted,
}

/// How the radiance of the rest of a path is weighted where the path goes
/// on.
#[derive(Clone, Copy, Debug, PartialEq, Eq, Structural)]
pub enum Weight {
    /// By the attenuation alone.
    Attenuation,
    /// By the attenuation times the scattering density of the material over
    /// the density of the mixture from which the direction was drawn.
    Importance,
}

/// What the integrator does with one ray.
#[derive(Clone, Copy, Debug, PartialEq, Eq, Structural)]
pub enum Decision {
    /// The path closes here with the given radiance.
    Return(Radiance),
    /// The path goes on with `depth` rays left; what it gathers from there
    /// is weighted as `weight` says and added to what the surface emits.
    Scatter { weight: Weight, depth: u32 },
}

/// What the integrator does with a ray that has `depth` rays left,
/// the ray itself counted, and to which the scene answered `bounce`.
pub open spec fn decide(depth: u32, bounce: Bounce) -> Decision {
    if depth == 0 {
        Decision::Return(Radiance::Black)
    } else {
        match bounce {
            Bounce::Miss => Decision::Return(Radiance::Background),
            Bounce::Absorbed => Decision::Return(Radiance::Emitted),
            Bounce::Specular => Decision::Scatter {
                weight: Weight::Attenuation,
                depth: (depth - 1) as u32,
            },
            Bounce::Diffuse => Decision::Scatter {
                weight: Weight::Importance,
                depth: (depth - 1) as u32,
            },
        }
    }
}

/// Whether a path with `depth` rays left is over before its next ray is
/// traced.
pub fn exhausted(depth: u32) -> (r: bool)
    ensures
        r == (depth == 0),
        r ==> forall|bounce: Bounce| decide(depth, bounce) == Decision::Return(Radiance::Black),
{
    depth == 0
}

/// One step of the light transport recursion: with no ray left the path is
/// black, whatever the scene answered; a miss gives the background, an
/// absorbing surface its emission, and a scattering surface sends the path
/// on with one ray less.
pub fn step(depth: u32, bounce: Bounce) -> (d: Decision)
    ensures
        d == decide(depth, bounce),
        depth == 0 ==> d == Decision::Return(Radiance::Black),
{
    if depth == 0 {
        return Decision::Return(Radiance::Black);
    }
    match bounce {
        Bounce::Miss => Decision::Return(Radiance::Background),
        Bounce::Absorbed => Decision::Return(Radiance::Emitted),
        Bounce::Specular => Decision::Scatter { weight: Weight::Attenuation, depth: depth - 1 },
        Bounce::Diffuse => Decision::Scatter { weight: Weight::Importance, depth: depth - 1 },
    }
}

/// Whether `r` is what a path returns that starts in `state` with `depth`
/// rays left, for some run of answers that the callbacks may give.
///
/// With no ray left the path is closed as black, and the scene is not
/// looked at. Else `look` says what the scene does with the ray of the
/// state; where that closes the path, `close` gives what is returned, and
/// where the path goes on, `go_on` gives the state from which it does, with
/// one ray less.
pub open spec fn path_outcome<
    T,
    E,
    C,
    L: Fn(&T) -> (Bounce, E),
    G: Fn(T, E, Weight) -> T,
    F: Fn(T, Option<E>, Radiance) -> C,
>(look: L, go_on: G, close: F, state: T, depth: u32, r: C) -> bool
    decreases depth,
{
    if depth == 0 {
        call_ensures(close, (state, None::<E>, Radiance::Black), r)
    } else {
        exists|bounce: Bounce, seen: E|
            {
                &&& #[trigger] call_ensures(look, (&state,), (bounce, seen))
                &&& match decide(depth, bounce) {
                    Decision::Return(radiance) => call_ensures(
                        close,
                        (state, Some(seen), radiance),
                        r,
                    ),
                    Decision::Scatter { weight, depth: rest } => exists|next: T|
                        {
                            &&& #[trigger] call_ensures(go_on, (state, seen, weight), next)
                            &&& path_outcome(look, go_on, close, next, rest, r)
                        },
                }
            }
    }
}

/// Follows a path of light from `state` for at most `depth` rays and
/// returns what it gathers.
///
/// `look` traces the ray of a state and says what the scene did with it,
/// together with whatever it has seen there; `go_on` makes the state for
/// the next ray from it, weighted as it is told; `close` gives the result
/// of a path that ends with the given radiance.
pub fn ray_color<
    T,
    E,
    C,
    L: Fn(&T) -> (Bounce, E),
    G: Fn(T, E, Weight) -> T,
    F: Fn(T, Option<E>, Radiance) -> C,
>(state: T, depth: u32, look: &L, go_on: &G, close: &F) -> (r: C)
    requires
        forall|s: T| call_requires(*look, (&s,)),
        forall|s: T, seen: E, weight: Weight| call_requires(*go_on, (s, seen, weight)),
        forall|s: T, seen: Option<E>, radiance: Radiance|
            call_requires(*close, (s, seen, radiance)),
    ensures
        path_outcome(*look, *go_on, *close, state, depth, r),
        depth == 0 ==> call_ensures(*close, (state, None::<E>, Radiance::Black), r),
{
    let mut current = state;
    let mut left = depth;
    loop
        invariant
            forall|s: T| call_requires(*look, (&s,)),
            forall|s: T, seen: E, weight: Weight| call_requires(*go_on, (s, seen, weight)),
            forall|s: T, seen: Option<E>, radiance: Radiance|
                call_requires(*close, (s, seen, radiance)),
            forall|r: C|
                path_outcome(*look, *go_on, *close, current, left, r) ==> path_outcome(
                    *look,
                    *go_on,
                    *close,
                    state,
                    depth,
                    r,
                ),
        decreases left,
    {
        let ghost before = current;
        if exhausted(left) {
            let r = close(current, None, Radiance::Black);
            assert(path_outcome(*look, *go_on, *close, before, left, r));
            return r;
        }
        let (bounce, seen) = look(&current);
        match step(left, bounce) {
            Decision::Return(radiance) => {
                let r = close(current, Some(seen), radiance);
                assert(path_outcome(*look, *go_on, *close, before, left, r));
                return r;
            },
            Decision::Scatter { weight, depth: rest } => {
                let ghost earlier = left;
                current = go_on(current, seen, weight);
                left = rest;
                assert forall|r: C|
                    path_outcome(*look, *go_on, *close, current, left, r) implies path_outcome(
                    *look,
                    *go_on,
                    *close,
                    before,
                    earlier,
                    r,
                ) by {
                    assert(call_ensures(*look, (&before,), (bounce, seen)));
                    assert(call_ensures(*go_on, (before, seen, weight), current));
                }
            },
        }
    }
}

/// The number of rays that a path traces which starts with `depth` rays
/// left, where `scene` gives the answer to the ray at each position; the
/// first ray stands at position `at`.
pub open spec fn rays_traced(depth: u32, scene: spec_fn(nat) -> Bounce, at: nat) -> nat
    decreases depth,
{
    match decide(depth, scene(at)) {
        Decision::Return(Radiance::Black) => 0,
        Decision::Return(_) => 1,
        Decision::Scatter { depth: rest, .. } => 1 + rays_traced(rest, scene, at + 1),
    }
}

/// The radiance with which a path closes that starts with `depth` rays
/// left, where `scene` gives the answer to the ray at each position.
pub open spec fn closing(depth: u32, scene: spec_fn(nat) -> Bounce, at: nat) -> Radiance
    decreases depth,
{
    match decide(depth, scene(at)) {
        Decision::Return(radiance) => radiance,
        Decision::Scatter { depth: rest, .. } => closing(rest, scene, at + 1),
    }
}

/// With no ray left a path is black and traces nothing, whatever the scene
/// holds.
pub proof fn lemma_depth_zero_is_black(scene: spec_fn(nat) -> Bounce, at: nat)
    ensures
        closing(0, scene, at) == Radiance::Black,
        rays_traced(0, scene, at) == 0,
{
}

/// A path never traces more rays than it was given, and one that traces
/// them all without closing earlier ends black.
pub proof fn lemma_path_is_bounded(depth: u32, scene: spec_fn(nat) -> Bounce, at: nat)
    ensures
        rays_traced(depth, scene, at) <= depth,
        closing(depth, scene, at) == Radiance::Black ==> rays_traced(depth, scene, at) == depth,
        (forall|k: nat|
            at <= k < at + depth ==> #[trigger] scene(k) == Bounce::Specular || scene(k)
                == Bounce::Diffuse) ==> closing(depth, scene, at) == Radiance::Black,
    decreases depth,
{
    if depth > 0 {
        match decide(depth, scene(at)) {
            Decision::Scatter { depth: rest, .. } => {
                lemma_path_is_bounded(rest, scene, at + 1);
                if forall|k: nat|
                    at <= k < at + depth ==> #[trigger] scene(k) == Bounce::Specular || scene(k)
                        == Bounce::Diffuse {
                    assert forall|k: nat| at + 1 <= k < at + 1 + rest implies #[trigger] scene(k)
                        == Bounce::Specular || scene(k) == Bounce::Diffuse by {}
                }
            },
            Decision::Return(_) => {},
        }
    }
}

} // verus!
