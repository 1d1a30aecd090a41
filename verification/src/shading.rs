//! What one light adds to the lighting of a point: the decisions. The host
//! computes the dot products and the terms; which terms count is settled here.

use vstd::prelude::*;
use crate::double::{Double, Value};
use crate::intersection::{Roots, accepted, bias, closest_intersection};

verus! {

/// How a surface shines: with a highlight of the given exponent, or not at all.
#[derive(Debug, Clone, Copy, PartialEq, Eq, Structural)]
pub enum Specularity {
    Specular(Double),
    Matte,
}

/// The kinds of light.
#[derive(Debug, Clone, Copy, PartialEq, Eq, Structural)]
pub enum LightKind {
    /// Light from everywhere.
    Ambient,
    /// Light from a position.
    Point,
    /// Light along a direction, from infinitely far.
    Directional,
}

/// What a light adds at a point. The lighting of the point is the sum over
/// the lights, in their order.
#[derive(Debug, Clone, Copy, PartialEq, Eq, Structural)]
pub enum Contribution {
    /// The light's intensity.
    Intensity,
    /// Nothing: a sphere stands between the point and the light.
    Shadowed,
    /// The diffuse term where `diffuse` holds, plus the specular term where
    /// `specular` holds; a term that does not count is zero.
    ///
    /// The diffuse term is the cosine of the angle between the normal and
    /// the direction of the light. The specular term is the light's
    /// intensity times a power of the cosine of the angle between the
    /// mirrored direction of the light and the direction to the camera; the
    /// surface's exponent is the power.
    Lit { diffuse: bool, specular: bool },
}

/// How far along the shadow ray a sphere can hide the light. The shadow ray
/// of a point light ends at the light, at parameter one; that of a
/// directional light does not end.
pub open spec fn shadow_reach(kind: LightKind) -> Double {
    if kind == LightKind::Point {
        Double::one()
    } else {
        Double::infinity()
    }
}

/// A sphere hides the light: one of them is accepted on the shadow ray,
/// between the bias and the light. `all[i]` holds the roots of the shadow ray
/// and sphere `i`. Nothing hides ambient light.
pub open spec fn shadowed(kind: LightKind, all: Seq<Roots>) -> bool {
    kind != LightKind::Ambient && exists|i: int|
        0 <= i < all.len() && accepted(#[trigger] all[i], bias(), shadow_reach(kind))
}

/// The contribution of one light. Ambient light adds its intensity. Any other
/// light adds nothing where a sphere hides it. Else its diffuse term counts
/// where the light falls on the outside of the surface, and its specular term
/// where the surface has one and the mirrored light heads for the camera's
/// side.
pub open spec fn contribution(
    kind: LightKind,
    all: Seq<Roots>,
    n_dot_l: Double,
    specularity: Specularity,
    r_dot_v: Double,
) -> Contribution {
    if kind == LightKind::Ambient {
        Contribution::Intensity
    } else if shadowed(kind, all) {
        Contribution::Shadowed
    } else {
        Contribution::Lit {
            diffuse: Value::Finite(0).lt(n_dot_l@),
            specular: specularity is Specular && Value::Finite(0).lt(r_dot_v@),
        }
    }
}

/// A sphere that is accepted on the shadow ray of a point or directional
/// light takes all of that light away, whatever the surface is like.
pub proof fn lemma_occluder_takes_all(
    kind: LightKind,
    all: Seq<Roots>,
    i: int,
    n_dot_l: Double,
    specularity: Specularity,
    r_dot_v: Double,
)
    requires
        kind != LightKind::Ambient,
        0 <= i < all.len(),
        accepted(all[i], bias(), shadow_reach(kind)),
    ensures
        contribution(kind, all, n_dot_l, specularity, r_dot_v) == Contribution::Shadowed,
{
}

/// Ambient light adds its intensity, whatever spheres there are.
pub proof fn lemma_ambient_is_never_shadowed(
    all: Seq<Roots>,
    n_dot_l: Double,
    specularity: Specularity,
    r_dot_v: Double,
)
    ensures
        contribution(LightKind::Ambient, all, n_dot_l, specularity, r_dot_v)
            == Contribution::Intensity,
{
}

/// A matte surface has no specular term.
pub proof fn lemma_matte_has_no_highlight(
    kind: LightKind,
    all: Seq<Roots>,
    n_dot_l: Double,
    r_dot_v: Double,
)
    ensures
        match contribution(kind, all, n_dot_l, Specularity::Matte, r_dot_v) {
            Contribution::Lit { specular, .. } => !specular,
            _ => true,
        },
{
}

/// Whether a sphere hides the light of the given kind. `all[i]` holds the
/// roots of the shadow ray and sphere `i`.
pub fn in_shadow(kind: LightKind, all: &Vec<Roots>) -> (dark: bool)
    ensures
        dark == shadowed(kind, all@),
{
    match kind {
        LightKind::Ambient => false,
        LightKind::Point => closest_intersection(all, bias(), Double::one()).is_some(),
        LightKind::Directional => closest_intersection(all, bias(), Double::infinity()).is_some(),
    }
}

/// Decides what one light adds at a point.
///
/// `all[i]` holds the roots of the shadow ray, from the point towards the
/// light, and sphere `i`; `n_dot_l` is the dot product of the normal and the
/// direction of the light, `r_dot_v` that of the mirrored direction of the
/// light and the direction to the camera. Ambient light reads none of them.
pub fn light_contribution(
    kind: LightKind,
    all: &Vec<Roots>,
    n_dot_l: Double,
    specularity: Specularity,
    r_dot_v: Double,
) -> (c: Contribution)
    ensures
        c == contribution(kind, all@, n_dot_l, specularity, r_dot_v),
{
    match kind {
        LightKind::Ambient => Contribution::Intensity,
        _ => {
            if in_shadow(kind, all) {
                Contribution::Shadowed
            } else {
                let specular = match specularity {
                    Specularity::Specular(_) => r_dot_v.gt(Double::zero()),
                    Specularity::Matte => false,
                };
                Contribution::Lit { diffuse: n_dot_l.gt(Double::zero()), specular }
            }
        },
    }
}

} // verus!
