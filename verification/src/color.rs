use crate::scalar::{Scalar, ONE_BITS};
use crate::tolerance::close;
use vstd::std_specs::cmp::PartialEqSpecImpl;
use vstd::prelude::*;

verus! {

/// An RGB triple of reals. Nothing clamps a colour in arithmetic; `clamped`
/// brings it into the unit cube when it is written to a canvas. Two colours
/// are equal where each channel of the one is close to that of the other.
#[derive(Clone, Copy, Debug)]
pub struct Color {
    pub r: Scalar,
    pub g: Scalar,
    pub b: Scalar,
}

impl Color {
    /// The colour with each channel clamped to the unit interval.
    pub open spec fn unit(self) -> Color {
        Color { r: self.r.unit(), g: self.g.unit(), b: self.b.unit() }
    }

    /// Whether each channel is close to that of `other`.
    pub open spec fn alike(self, other: Color) -> bool {
        close(self.r, other.r) && close(self.g, other.g) && close(self.b, other.b)
    }

    /// Whether every channel lies in the unit interval.
    pub open spec fn in_unit(self) -> bool {
        self.r.in_unit() && self.g.in_unit() && self.b.in_unit()
    }

    /// The three eight-bit channel values, red first.
    pub open spec fn channels(self) -> Seq<u8> {
        seq![self.r.channel() as u8, self.g.channel() as u8, self.b.channel() as u8]
    }

    /// Black: every channel zero.
    pub open spec fn black_spec() -> Color {
        Color { r: Scalar { bits: 0 }, g: Scalar { bits: 0 }, b: Scalar { bits: 0 } }
    }

    /// The colour with the given channels.
    pub fn new(r: Scalar, g: Scalar, b: Scalar) -> (c: Color)
        ensures
            c == (Color { r, g, b }),
    {
        Color { r, g, b }
    }

    /// Black.
    pub fn black() -> (c: Color)
        ensures
            c == Color::black_spec(),
    {
        Color { r: Scalar::zero(), g: Scalar::zero(), b: Scalar::zero() }
    }

    /// White: every channel one.
    pub fn white() -> (c: Color)
        ensures
            c.r.bits == ONE_BITS && c.g.bits == ONE_BITS && c.b.bits == ONE_BITS,
    {
        Color { r: Scalar::one(), g: Scalar::one(), b: Scalar::one() }
    }

    /// Pure red.
    pub fn red() -> (c: Color)
        ensures
            c.r.bits == ONE_BITS && c.g.bits == 0 && c.b.bits == 0,
    {
        Color { r: Scalar::one(), g: Scalar::zero(), b: Scalar::zero() }
    }

    /// Pure green.
    pub fn green() -> (c: Color)
        ensures
            c.r.bits == 0 && c.g.bits == ONE_BITS && c.b.bits == 0,
    {
        Color { r: Scalar::zero(), g: Scalar::one(), b: Scalar::zero() }
    }

    /// Pure blue.
    pub fn blue() -> (c: Color)
        ensures
            c.r.bits == 0 && c.g.bits == 0 && c.b.bits == ONE_BITS,
    {
        Color { r: Scalar::zero(), g: Scalar::zero(), b: Scalar::one() }
    }

    /// The colour with each channel clamped to the unit interval.
    pub fn clamped(&self) -> (c: Color)
        ensures
            c == self.unit(),
            c.in_unit(),
            self.in_unit() ==> c == *self,
    {
        Color { r: self.r.clamped(), g: self.g.clamped(), b: self.b.clamped() }
    }
}

impl PartialEq for Color {
    fn eq(&self, other: &Self) -> (b: bool) {
        self.r.approx_eq(other.r) && self.g.approx_eq(other.g) && self.b.approx_eq(other.b)
    }
}

impl PartialEqSpecImpl for Color {
    open spec fn obeys_eq_spec() -> bool {
        true
    }

    open spec fn eq_spec(&self, other: &Self) -> bool {
        self.alike(*other)
    }
}

/// Clamping a colour is idempotent.
pub proof fn lemma_clamp_idempotent(c: Color)
    ensures
        c.unit().unit() == c.unit(),
{
}

} // verus!
