use crate::color::Color;
use crate::light::PointLight;
use crate::material::{Material, DEFAULT_AMBIENT, DEFAULT_SHININESS};
use crate::matrix::Grid;
use crate::scalar::{Scalar, ONE_BITS};
use crate::intersection::{ascending, intersections, Intersection};
use crate::sphere::{Roots, Sphere};
use crate::transformation::{grid4, scaling};
use crate::tuple::Tuple;
use vstd::prelude::*;

verus! {

/// One half.
pub const HALF: u64 = 0x3FE0_0000_0000_0000;

/// Ten.
pub const TEN: u64 = 0x4024_0000_0000_0000;

/// Minus ten.
pub const MINUS_TEN: u64 = 0xC024_0000_0000_0000;

/// Eight tenths, the red of the outer sphere of the default world.
pub const OUTER_RED: u64 = 0x3FE9_9999_9999_999A;

/// Six tenths, its blue.
pub const OUTER_BLUE: u64 = 0x3FE3_3333_3333_3333;

/// Seven tenths, its diffuse share.
pub const OUTER_DIFFUSE: u64 = 0x3FE6_6666_6666_6666;

/// Two tenths, its specular share.
pub const OUTER_SPECULAR: u64 = 0x3FC9_9999_9999_999A;

/// A scene: at most one light, and the spheres in the order they were put
/// in.
#[derive(Debug)]
pub struct World {
    pub light: Option<PointLight>,
    pub objects: Vec<Sphere>,
}

impl World {
    /// Whether every sphere is well formed.
    pub open spec fn wf(&self) -> bool {
        forall|i: int| 0 <= i < self.objects.len() ==> (#[trigger] self.objects[i]).wf()
    }

    /// The intersections of the first `count` spheres, sphere after sphere,
    /// each with the roots that stand in its place in `roots`.
    pub open spec fn hits(&self, roots: Seq<Roots>, count: nat) -> Seq<Intersection>
        decreases count,
    {
        if count == 0 {
            Seq::empty()
        } else {
            self.hits(roots, (count - 1) as nat) + self.objects[count - 1].hits(roots[count - 1])
        }
    }

    /// The light of the default world: white, at `(-10, 10, -10)`.
    pub open spec fn default_light() -> PointLight {
        PointLight {
            position: Tuple {
                x: Scalar { bits: MINUS_TEN },
                y: Scalar { bits: TEN },
                z: Scalar { bits: MINUS_TEN },
                w: Scalar { bits: ONE_BITS },
            },
            intensity: Color {
                r: Scalar { bits: ONE_BITS },
                g: Scalar { bits: ONE_BITS },
                b: Scalar { bits: ONE_BITS },
            },
        }
    }

    /// The material of the outer sphere of the default world.
    pub open spec fn outer_material() -> Material {
        Material {
            color: Color {
                r: Scalar { bits: OUTER_RED },
                g: Scalar { bits: ONE_BITS },
                b: Scalar { bits: OUTER_BLUE },
            },
            ambient: Scalar { bits: DEFAULT_AMBIENT },
            diffuse: Scalar { bits: OUTER_DIFFUSE },
            specular: Scalar { bits: OUTER_SPECULAR },
            shininess: Scalar { bits: DEFAULT_SHININESS },
        }
    }

    /// The transform of the inner sphere of the default world: every axis
    /// scaled by one half.
    pub open spec fn inner_transform() -> Grid {
        let o = Scalar { bits: 0 };
        let i = Scalar { bits: ONE_BITS };
        let h = Scalar { bits: HALF };
        grid4(seq![h, o, o, o, o, h, o, o, o, o, h, o, o, o, o, i])
    }

    /// The world without light and without spheres.
    pub fn new() -> (world: World)
        ensures
            world.wf(),
            world.light.is_none(),
            world.objects@.len() == 0,
    {
        World { light: None, objects: Vec::new() }
    }

    /// The intersections of a ray with every sphere of the world, in
    /// ascending order of `t`, given for each sphere the roots of the ray's
    /// quadratic with it.
    pub fn intersect<'a>(&'a self, roots: &Vec<Roots>) -> (xs: Vec<Intersection<'a>>)
        requires
            roots@.len() == self.objects@.len(),
        ensures
            xs@.to_multiset() == self.hits(roots@, self.objects@.len()).to_multiset(),
            ascending(xs@),
    {
        let mut all: Vec<Intersection<'a>> = Vec::new();
        let mut i: usize = 0;
        while i < self.objects.len()
            invariant
                i <= self.objects@.len(),
                roots@.len() == self.objects@.len(),
                all@ == self.hits(roots@, i as nat),
            decreases self.objects@.len() - i,
        {
            let mut found = self.objects[i].intersect(roots[i]);
            all.append(&mut found);
            i = i + 1;
        }
        intersections(all.as_slice())
    }

    /// The default world: one light and two spheres about the origin, the
    /// outer one of unit size with a material of its own, the inner one of
    /// half that size with the default material.
    pub fn default() -> (world: World)
        ensures
            world.wf(),
            world.light == Some(World::default_light()),
            world.objects@.len() == 2,
            world.objects@[0].transform@ == Grid::identity(),
            world.objects@[0].material == World::outer_material(),
            world.objects@[1].transform@ == World::inner_transform(),
            world.objects@[1].material == Material::standard(),
    {
        let mut outer = Sphere::new();
        outer.material.color = Color::new(
            Scalar::from_bits(OUTER_RED),
            Scalar::one(),
            Scalar::from_bits(OUTER_BLUE),
        );
        outer.material.diffuse = Scalar::from_bits(OUTER_DIFFUSE);
        outer.material.specular = Scalar::from_bits(OUTER_SPECULAR);

        let mut inner = Sphere::new();
        let half = Scalar::from_bits(HALF);
        inner.transform = scaling(half, half, half);

        let light = PointLight::new(
            Tuple::point(
                Scalar::from_bits(MINUS_TEN),
                Scalar::from_bits(TEN),
                Scalar::from_bits(MINUS_TEN),
            ),
            Color::new(Scalar::one(), Scalar::one(), Scalar::one()),
        );
        let mut objects: Vec<Sphere> = Vec::new();
        objects.push(outer);
        objects.push(inner);
        World { light: Some(light), objects }
    }
}

impl Default for World {
    /// The world without light and without spheres.
    fn default() -> (world: World)
        ensures
            world.wf(),
            world.light.is_none(),
            world.objects@.len() == 0,
    {
        World::new()
    }
}

} // verus!
