use crate::color::Color;
use crate::scalar::{Scalar, ONE_BITS};
use crate::tolerance::close;
use vstd::std_specs::cmp::PartialEqSpecImpl;
use vstd::prelude::*;

verus! {

/// One tenth, the ambient share of a material that nothing was said about.
pub const DEFAULT_AMBIENT: u64 = 0x3FB9_9999_9999_999A;

/// Nine tenths, the diffuse share of such a material.
pub const DEFAULT_DIFFUSE: u64 = 0x3FEC_CCCC_CCCC_CCCD;

/// Nine tenths, the specular share of such a material.
pub const DEFAULT_SPECULAR: u64 = 0x3FEC_CCCC_CCCC_CCCD;

/// Two hundred, the shininess of such a material.
pub const DEFAULT_SHININESS: u64 = 0x4069_0000_0000_0000;

/// The surface parameters of the Phong model. Two materials are equal where
/// their colours are and each share of the one is close to that of the other.
#[derive(Clone, Copy, Debug)]
pub struct Material {
    pub color: Color,
    pub ambient: Scalar,
    pub diffuse: Scalar,
    pub specular: Scalar,
    pub shininess: Scalar,
}

/// The three terms of the Phong model for one point, ready to be summed.
#[derive(Clone, Copy, Debug, PartialEq)]
pub struct PhongTerms {
    pub ambient: Color,
    pub diffuse: Color,
    pub specular: Color,
}

impl Material {
    /// Whether the colours are alike and each share is close to that of
    /// `other`.
    pub open spec fn alike(self, other: Material) -> bool {
        close(self.ambient, other.ambient) && close(self.diffuse, other.diffuse) && close(
            self.specular,
            other.specular,
        ) && close(self.shininess, other.shininess) && self.color.alike(other.color)
    }

    /// The material that nothing was said about: white, with the default
    /// shares.
    pub open spec fn standard() -> Material {
        Material {
            color: Color {
                r: Scalar { bits: ONE_BITS },
                g: Scalar { bits: ONE_BITS },
                b: Scalar { bits: ONE_BITS },
            },
            ambient: Scalar { bits: DEFAULT_AMBIENT },
            diffuse: Scalar { bits: DEFAULT_DIFFUSE },
            specular: Scalar { bits: DEFAULT_SPECULAR },
            shininess: Scalar { bits: DEFAULT_SHININESS },
        }
    }

    /// The terms that reach the eye, given what each would be if it did.
    ///
    /// The ambient term always does. With the light behind the surface
    /// (`light_dot_normal` below zero) the other two are black. Otherwise the
    /// diffuse term does, and the specular term does where the reflection
    /// points towards the eye (`reflect_dot_eye` above zero) and is black
    /// where it does not.
    pub open spec fn visible_terms(
        ambient: Color,
        diffuse: Color,
        specular: Color,
        light_dot_normal: Scalar,
        reflect_dot_eye: Scalar,
    ) -> PhongTerms {
        if light_dot_normal.less(Scalar { bits: 0 }) {
            PhongTerms { ambient, diffuse: Color::black_spec(), specular: Color::black_spec() }
        } else if reflect_dot_eye.at_most(Scalar { bits: 0 }) {
            PhongTerms { ambient, diffuse, specular: Color::black_spec() }
        } else {
            PhongTerms { ambient, diffuse, specular }
        }
    }

    /// The default material.
    pub fn new() -> (m: Material)
        ensures
            m == Material::standard(),
    {
        Material {
            color: Color::white(),
            ambient: Scalar::from_bits(DEFAULT_AMBIENT),
            diffuse: Scalar::from_bits(DEFAULT_DIFFUSE),
            specular: Scalar::from_bits(DEFAULT_SPECULAR),
            shininess: Scalar::from_bits(DEFAULT_SHININESS),
        }
    }

    /// The material with the given colour and shares.
    pub fn from_params(
        color: Color,
        ambient: Scalar,
        diffuse: Scalar,
        specular: Scalar,
        shininess: Scalar,
    ) -> (m: Material)
        ensures
            m == (Material { color, ambient, diffuse, specular, shininess }),
    {
        Material { color, ambient, diffuse, specular, shininess }
    }

    /// The terms of the Phong model that reach the eye. The caller computes
    /// what each term would be and the two dot products; the sum of the three
    /// terms handed back is the colour of the point.
    pub fn phong_terms(
        ambient: Color,
        diffuse: Color,
        specular: Color,
        light_dot_normal: Scalar,
        reflect_dot_eye: Scalar,
    ) -> (terms: PhongTerms)
        ensures
            terms == Material::visible_terms(
                ambient,
                diffuse,
                specular,
                light_dot_normal,
                reflect_dot_eye,
            ),
    {
        if light_dot_normal.lt(Scalar::zero()) {
            PhongTerms { ambient, diffuse: Color::black(), specular: Color::black() }
        } else if reflect_dot_eye.le(Scalar::zero()) {
            PhongTerms { ambient, diffuse, specular: Color::black() }
        } else {
            PhongTerms { ambient, diffuse, specular }
        }
    }
}

impl PartialEq for Material {
    fn eq(&self, other: &Self) -> (b: bool) {
        self.ambient.approx_eq(other.ambient) && self.diffuse.approx_eq(other.diffuse)
            && self.specular.approx_eq(other.specular) && self.shininess.approx_eq(
            other.shininess,
        ) && self.color.r.approx_eq(other.color.r) && self.color.g.approx_eq(other.color.g)
            && self.color.b.approx_eq(other.color.b)
    }
}

impl PartialEqSpecImpl for Material {
    open spec fn obeys_eq_spec() -> bool {
        true
    }

    open spec fn eq_spec(&self, other: &Self) -> bool {
        self.alike(*other)
    }
}

/// With the light behind the surface only the ambient term is left: the
/// other two are black, whatever they would have been.
pub proof fn lemma_light_behind_surface(
    ambient: Color,
    diffuse: Color,
    specular: Color,
    light_dot_normal: Scalar,
    reflect_dot_eye: Scalar,
)
    requires
        light_dot_normal.less(Scalar { bits: 0 }),
    ensures
        Material::visible_terms(ambient, diffuse, specular, light_dot_normal, reflect_dot_eye) == (
        PhongTerms { ambient, diffuse: Color::black_spec(), specular: Color::black_spec() }),
{
}

} // verus!
