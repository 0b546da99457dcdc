use crate::intersection::Intersection;
use crate::material::Material;
use crate::matrix::{Grid, Matrix};
use crate::scalar::Scalar;
use vstd::prelude::*;

verus! {

/// The unit sphere about the origin of its own space, with the transform
/// that carries that space into the world and the material of its surface.
#[derive(Debug, PartialEq)]
pub struct Sphere {
    pub transform: Matrix,
    pub material: Material,
}

/// What the quadratic of a ray and a sphere comes to: its discriminant and
/// its two roots, the smaller first. Below a discriminant of zero the roots
/// mean nothing.
#[derive(Clone, Copy, Debug, PartialEq)]
pub struct Roots {
    pub discriminant: Scalar,
    pub near: Scalar,
    pub far: Scalar,
}

impl Roots {
    /// Whether the ray misses the sphere: the discriminant is below zero.
    pub open spec fn misses(self) -> bool {
        self.discriminant.less(Scalar { bits: 0 })
    }
}

impl Sphere {
    /// The intersections that the roots stand for: none where the ray
    /// misses, otherwise one at each root, in their order, also where the
    /// two roots are equal.
    pub open spec fn hits(&self, roots: Roots) -> Seq<Intersection> {
        if roots.misses() {
            Seq::empty()
        } else {
            seq![
                Intersection { t: roots.near, object: self },
                Intersection { t: roots.far, object: self },
            ]
        }
    }

    /// Whether the transform is a four by four matrix.
    pub open spec fn wf(&self) -> bool {
        self.transform.wf() && self.transform.dim == 4
    }

    /// The sphere with the identity transform and the default material.
    pub fn new() -> (s: Sphere)
        ensures
            s.wf(),
            s.transform@ == Grid::identity(),
            s.material == Material::standard(),
    {
        Sphere { transform: Matrix::identity(), material: Material::new() }
    }

    /// The intersections of a ray with this sphere, given the roots of the
    /// ray's quadratic: none where the ray misses, otherwise two.
    pub fn intersect<'a>(&'a self, roots: Roots) -> (xs: Vec<Intersection<'a>>)
        ensures
            xs@ == self.hits(roots),
            roots.misses() ==> xs@.len() == 0,
            !roots.misses() ==> xs@.len() == 2,
    {
        let mut xs: Vec<Intersection<'a>> = Vec::new();
        if !roots.discriminant.lt(Scalar::zero()) {
            xs.push(Intersection::new(roots.near, self));
            xs.push(Intersection::new(roots.far, self));
        }
        assert(xs@ =~= self.hits(roots));
        xs
    }
}

} // verus!
