//! The decisions of a ray tracer for scenes of spheres, verified.
//!
//! A ray tracer computes in floating point and decides on what it computed:
//! which sphere a ray meets first, whether a point lies in shadow, which terms
//! of a light count, whether a ray is mirrored, how a product becomes a colour
//! channel, where a pixel lies. The decisions are this library. Its host does
//! the arithmetic and hands the results over as the patterns of the doubles;
//! `double` says what a pattern denotes and how patterns compare.

pub mod color;
pub mod double;
pub mod frame;
pub mod intersection;
pub mod shading;
pub mod tracer;
