//! The course of tracing one ray. The host finds roots, shades and follows
//! the mirrored ray; after each of these it asks here what comes next.

use vstd::prelude::*;
use crate::color::Color;
use crate::double::{Double, Value};
use crate::intersection::{Roots, accepted, bias, closest_intersection, is_closest, nearer};

verus! {

/// What a ray meets.
#[derive(Debug, Clone, Copy, PartialEq, Eq, Structural)]
pub enum Traced {
    /// No sphere: the ray has this colour, the background's.
    Background(Color),
    /// The sphere with this index, at ray parameter `t`. It is to be shaded.
    Hit { sphere: usize, t: Double },
}

/// What follows the shading of the sphere that a ray met.
#[derive(Debug, Clone, Copy, PartialEq, Eq, Structural)]
pub enum Shaded {
    /// The ray has this colour.
    Done(Color),
    /// The mirrored ray is to be traced from the point that was met, within
    /// `[t_min, t_max]` and with `depth` reflections left. The ray's colour
    /// is the sum of two colours: `local_color` times one less the
    /// reflectiveness, and the mirrored ray's colour times the reflectiveness.
    Reflect { local_color: Color, depth: u8, t_min: Double, t_max: Double },
}

/// A surface mirrors where reflections are left and its reflectiveness is
/// not zero or below.
pub open spec fn mirrors(reflectiveness: Double, depth: u8) -> bool {
    depth > 0 && !reflectiveness@.le(Value::Finite(0))
}

/// Begins to trace a ray: finds what it meets within `[t_min, t_max]`.
/// `all[i]` holds the roots of the ray and sphere `i`. Where no sphere is
/// accepted the ray has the background colour; else the sphere met first is
/// named, with the smaller of its roots.
pub fn trace_ray(all: &Vec<Roots>, t_min: Double, t_max: Double, bg_color: Color) -> (traced:
    Traced)
    ensures
        match traced {
            Traced::Background(c) => c == bg_color && forall|i: int|
                0 <= i < all.len() ==> !accepted(#[trigger] all@[i], t_min, t_max),
            Traced::Hit { sphere, t } => is_closest(all@, t_min, t_max, sphere as int) && t
                == nearer(all@[sphere as int]),
        },
        all.len() == 0 ==> traced == Traced::Background(bg_color),
        t_max@.lt(t_min@) ==> traced == Traced::Background(bg_color),
{
    match closest_intersection(all, t_min, t_max) {
        None => Traced::Background(bg_color),
        Some((t, sphere)) => Traced::Hit { sphere, t },
    }
}

/// Ends the tracing of a ray that met a sphere, or sends the mirrored ray.
/// `local_color` is the shaded colour of the sphere, `depth` the number of
/// reflections left. With none left the ray has the local colour, whatever
/// the reflectiveness.
pub fn finish_or_reflect(local_color: Color, reflectiveness: Double, depth: u8) -> (shaded: Shaded)
    ensures
        mirrors(reflectiveness, depth) ==> shaded == (Shaded::Reflect {
            local_color,
            depth: (depth - 1) as u8,
            t_min: bias(),
            t_max: Double::infinity(),
        }),
        !mirrors(reflectiveness, depth) ==> shaded == Shaded::Done(local_color),
        depth == 0 ==> shaded == Shaded::Done(local_color),
{
    if depth == 0 || reflectiveness.le(Double::zero()) {
        Shaded::Done(local_color)
    } else {
        Shaded::Reflect { local_color, depth: depth - 1, t_min: bias(), t_max: Double::infinity() }
    }
}

} // verus!
