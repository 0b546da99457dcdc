//! The exact core of a ray tracer for scenes of spheres.
//!
//! Numbers are carried as IEEE-754 binary64 bit patterns (`scalar`). On them
//! the crate decides exactly what does not need rounding: their order
//! (`order`), whether two of them are close (`tolerance`), clamping, and
//! rounding to a colour channel or to an index. On top of that stand the
//! data of a scene (`tuple`, `color`, `matrix`, `ray`, `light`, `material`,
//! `sphere`, `world`, `camera`), the layout of matrices and transforms
//! (`matrix`, `transformation`), the choice of the hit among the
//! intersections of a ray (`intersection`), the branches of the Phong model
//! (`material`), and the image with its plain-text encoding (`canvas`,
//! `ppm`). Arithmetic that rounds is the caller's: it hands in what it has
//! computed and is told what follows from it.
use vstd::prelude::*;

pub mod camera;
pub mod canvas;
pub mod color;
pub mod intersection;
pub mod light;
pub mod material;
pub mod matrix;
pub mod order;
pub mod ppm;
pub mod ray;
pub mod scalar;
pub mod sphere;
pub mod tolerance;
pub mod transformation;
pub mod tuple;
pub mod world;

verus! {

} // verus!
