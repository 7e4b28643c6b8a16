use vstd::prelude::*;

use crate::integrator::Bounce;

verus! {

/// What a material makes of a ray that hits it: the ray it sends on, for a
/// mirror or a glass, or the distribution from which the next direction
/// is to be drawn, for a diffuse surface; and the colour by which it
/// attenuates.
pub struct ScatterRecord<R, C, D> {
    pub specular_ray: Option<R>,
    pub attenuation: C,
    pub pdf_ptr: Option<D>,
}

impl<R, C, D> ScatterRecord<R, C, D> {
    /// The record says how the path goes on: it holds a ray or a
    /// distribution.
    pub open spec fn well_formed(self) -> bool {
        self.specular_ray is Some || self.pdf_ptr is Some
    }
}

/// What the scene did with a ray, as a value: `hit` says whether the ray
/// met a surface, `scatter` what the material of that surface made of it.
pub open spec fn bounce_of<R, C, D>(hit: bool, scatter: Option<ScatterRecord<R, C, D>>) -> Bounce {
    if !hit {
        Bounce::Miss
    } else {
        match scatter {
            None => Bounce::Absorbed,
            Some(s) => if s.specular_ray is Some {
                Bounce::Specular
            } else {
                Bounce::Diffuse
            },
        }
    }
}

/// Says what the scene did with a ray. A record that holds a ray to send
/// on counts as specular, whatever else it holds.
pub fn scatter<R, C, D>(hit: bool, record: &Option<ScatterRecord<R, C, D>>) -> (r: Bounce)
    requires
        hit ==> (record matches Some(s) ==> s.well_formed()),
    ensures
        r == bounce_of(hit, *record),
{
    if !hit {
        return Bounce::Miss;
    }
    match record {
        None => Bounce::Absorbed,
        Some(s) => if s.specular_ray.is_some() {
            Bounce::Specular
        } else {
            Bounce::Diffuse
        },
    }
}

/// What a light emits towards a ray: its colour where the ray meets its
/// front face, and `black` where it meets its back.
pub fn emitted<C>(front_face: bool, colour: C, black: C) -> (r: C)
    ensures
        r == if front_face {
            colour
        } else {
            black
        },
{
    if front_face {
        colour
    } else {
        black
    }
}

/// Whether a glass reflects a ray: it does where the ray cannot be
/// refracted (total internal reflection), and else where the reflectance
/// exceeds the number that was drawn.
pub fn reflects(can_refract: bool, reflectance_exceeds_draw: bool) -> (r: bool)
    ensures
        r == (!can_refract || reflectance_exceeds_draw),
        !can_refract ==> r,
{
    !can_refract || reflectance_exceeds_draw
}

} // verus!
