use crate::scalar::{Scalar, ONE_BITS};
use crate::tolerance::close;
use vstd::std_specs::cmp::PartialEqSpecImpl;
use std::ops::Neg;
use vstd::prelude::*;

verus! {

/// A homogeneous value of four reals: a point where `w` is one, a vector
/// where `w` is zero. Two tuples are equal where each component of the one is
/// close to that of the other.
#[derive(Clone, Copy, Debug)]
pub struct Tuple {
    pub x: Scalar,
    pub y: Scalar,
    pub z: Scalar,
    pub w: Scalar,
}

impl Tuple {
    /// The tuple with every component negated.
    pub open spec fn negated(self) -> Tuple {
        Tuple {
            x: self.x.negated(),
            y: self.y.negated(),
            z: self.z.negated(),
            w: self.w.negated(),
        }
    }

    /// Whether each component is close to that of `other`.
    pub open spec fn alike(self, other: Tuple) -> bool {
        close(self.x, other.x) && close(self.y, other.y) && close(self.z, other.z) && close(
            self.w,
            other.w,
        )
    }

    /// The tuple with the given components.
    pub fn new(x: Scalar, y: Scalar, z: Scalar, w: Scalar) -> (t: Tuple)
        ensures
            t == (Tuple { x, y, z, w }),
    {
        Tuple { x, y, z, w }
    }

    /// The point `(x, y, z)`: `w` is one.
    pub fn point(x: Scalar, y: Scalar, z: Scalar) -> (t: Tuple)
        ensures
            t == (Tuple { x, y, z, w: Scalar { bits: ONE_BITS } }),
    {
        Tuple { x, y, z, w: Scalar::one() }
    }

    /// The vector `(x, y, z)`: `w` is zero.
    pub fn vector(x: Scalar, y: Scalar, z: Scalar) -> (t: Tuple)
        ensures
            t == (Tuple { x, y, z, w: Scalar { bits: 0 } }),
    {
        Tuple { x, y, z, w: Scalar::zero() }
    }

    /// Whether the tuple is a point: `w` is close to one.
    pub fn is_point(&self) -> (b: bool)
        ensures
            b == close(self.w, Scalar { bits: ONE_BITS }),
    {
        self.w.approx_eq(Scalar::one())
    }

    /// Whether the tuple is a vector: `w` is close to zero.
    pub fn is_vector(&self) -> (b: bool)
        ensures
            b == close(self.w, Scalar { bits: 0 }),
    {
        self.w.approx_eq(Scalar::zero())
    }

    /// The first component.
    pub fn x(&self) -> (x: Scalar)
        ensures
            x == self.x,
    {
        self.x
    }

    /// The second component.
    pub fn y(&self) -> (y: Scalar)
        ensures
            y == self.y,
    {
        self.y
    }

    /// The third component.
    pub fn z(&self) -> (z: Scalar)
        ensures
            z == self.z,
    {
        self.z
    }

    /// The fourth component: one for a point, zero for a vector.
    pub fn w(&self) -> (w: Scalar)
        ensures
            w == self.w,
    {
        self.w
    }
}

impl std::ops::Neg for Tuple {
    type Output = Tuple;

    /// The opposite tuple. Negation is exact: it flips each sign.
    fn neg(self) -> (t: Tuple)
        ensures
            t == self.negated(),
    {
        Tuple { x: self.x.neg(), y: self.y.neg(), z: self.z.neg(), w: self.w.neg() }
    }
}

impl vstd::std_specs::ops::NegSpecImpl for Tuple {
    open spec fn obeys_neg_spec() -> bool {
        true
    }

    open spec fn neg_req(self) -> bool {
        true
    }

    open spec fn neg_spec(self) -> Tuple {
        self.negated()
    }
}

impl PartialEq for Tuple {
    fn eq(&self, other: &Self) -> (b: bool) {
        self.x.approx_eq(other.x) && self.y.approx_eq(other.y) && self.z.approx_eq(other.z)
            && self.w.approx_eq(other.w)
    }
}

impl PartialEqSpecImpl for Tuple {
    open spec fn obeys_eq_spec() -> bool {
        true
    }

    open spec fn eq_spec(&self, other: &Self) -> bool {
        self.alike(*other)
    }
}

/// Negating a tuple twice gives it back, bit for bit.
pub proof fn lemma_neg_involutive(t: Tuple)
    ensures
        t.negated().negated() == t,
{
}

} // verus!
