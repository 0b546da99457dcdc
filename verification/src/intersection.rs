use crate::ray::Ray;
use crate::scalar::Scalar;
use crate::sphere::Sphere;
use crate::tuple::Tuple;
use std::ops::Neg;
use vstd::prelude::*;

verus! {

/// A place where a ray meets a sphere: the ray's parameter there, and the
/// sphere.
#[derive(Clone, Copy, Debug, PartialEq)]
pub struct Intersection<'a> {
    pub t: Scalar,
    pub object: &'a Sphere,
}

/// What shading needs to know of one intersection.
#[derive(Clone, Copy, Debug, PartialEq)]
pub struct Computations<'a> {
    pub t: Scalar,
    pub object: &'a Sphere,
    pub point: Tuple,
    pub eyev: Tuple,
    pub normalv: Tuple,
    pub inside: bool,
}

impl<'a> Intersection<'a> {
    /// The intersection with `object` at `t`.
    pub fn new(t: Scalar, object: &'a Sphere) -> (i: Intersection<'a>)
        ensures
            i == (Intersection { t, object }),
    {
        Intersection { t, object }
    }

    /// The shading state of this intersection on `ray`, given the point of
    /// the ray at `t`, the surface normal there and the dot product of that
    /// normal with the eye vector. The eye vector is the opposite of the
    /// ray's direction. Where the dot product is below zero the eye is
    /// inside the sphere, and the normal is turned to face it.
    pub fn prepare_computations(
        &self,
        ray: &Ray,
        point: Tuple,
        normalv: Tuple,
        normal_dot_eye: Scalar,
    ) -> (comps: Computations<'a>)
        ensures
            comps.t == self.t,
            comps.object == self.object,
            comps.point == point,
            comps.eyev == ray.direction.negated(),
            comps.inside == normal_dot_eye.less(Scalar { bits: 0 }),
            comps.inside ==> comps.normalv == normalv.negated(),
            !comps.inside ==> comps.normalv == normalv,
    {
        let eyev = ray.direction.neg();
        if normal_dot_eye.lt(Scalar::zero()) {
            Computations {
                t: self.t,
                object: self.object,
                point,
                eyev,
                normalv: normalv.neg(),
                inside: true,
            }
        } else {
            Computations { t: self.t, object: self.object, point, eyev, normalv, inside: false }
        }
    }
}

/// Whether the intersections stand in ascending order of `t`.
pub open spec fn ascending(xs: Seq<Intersection>) -> bool {
    forall|i: int, j: int| 0 <= i < j < xs.len() ==> xs[i].t.ordinal() <= xs[j].t.ordinal()
}

/// Whether `xs[i]` is the hit of `xs`: its `t` is not below zero, no `t` in
/// `xs` that is not below zero is smaller, and of those with that same `t`
/// it stands first.
pub open spec fn is_hit(xs: Seq<Intersection>, i: int) -> bool {
    &&& 0 <= i < xs.len()
    &&& xs[i].t.non_negative()
    &&& forall|j: int|
        0 <= j < xs.len() && xs[j].t.non_negative() ==> xs[i].t.ordinal() <= xs[j].t.ordinal()
    &&& forall|j: int|
        0 <= j < i && xs[j].t.non_negative() ==> xs[i].t.ordinal() < xs[j].t.ordinal()
}

/// Whether no `t` in `xs` is zero or above.
pub open spec fn all_behind(xs: Seq<Intersection>) -> bool {
    forall|j: int| 0 <= j < xs.len() ==> !xs[j].t.non_negative()
}

/// The intersections in ascending order of `t`.
pub fn intersections<'a>(xs: &[Intersection<'a>]) -> (sorted: Vec<Intersection<'a>>)
    ensures
        sorted@.to_multiset() == xs@.to_multiset(),
        ascending(sorted@),
{
    let mut sorted: Vec<Intersection<'a>> = Vec::new();
    let mut i: usize = 0;
    assert(sorted@ =~= xs@.take(0));
    while i < xs.len()
        invariant
            i <= xs.len(),
            sorted@.to_multiset() == xs@.take(i as int).to_multiset(),
            sorted@.len() == i,
            ascending(sorted@),
        decreases xs.len() - i,
    {
        let x = xs[i];
        let key = x.t.ordinal_key();
        let mut place: usize = sorted.len();
        while place > 0 && key < sorted[place - 1].t.ordinal_key()
            invariant
                place <= sorted.len(),
                key == x.t.ordinal(),
                forall|j: int| place <= j < sorted.len() ==> key < sorted@[j].t.ordinal(),
            decreases place,
        {
            place = place - 1;
        }
        let ghost before = sorted@;
        sorted.insert(place, x);
        proof {
            let after = sorted@;
            assert(after.remove(place as int) =~= before);
            vstd::seq_lib::to_multiset_remove(after, place as int);
            after.to_multiset_ensures();
            assert(after[place as int] == x);
            assert(after.contains(x));
            assert(before.to_multiset() == after.to_multiset().remove(x));
            assert(after.to_multiset() =~= before.to_multiset().insert(x));
            assert(xs@.take(i + 1) =~= xs@.take(i as int).push(x));
            vstd::seq_lib::to_multiset_build(xs@.take(i as int), x);
            assert forall|a: int, b: int| 0 <= a < b < after.len() implies after[a].t.ordinal()
                <= after[b].t.ordinal() by {
                if a < place && b > place {
                    assert(after[a] == before[a]);
                    assert(after[b] == before[b - 1]);
                } else if a < place && b < place {
                    assert(after[a] == before[a] && after[b] == before[b]);
                } else if a > place {
                    assert(after[a] == before[a - 1] && after[b] == before[b - 1]);
                }
            }
        }
        i = i + 1;
    }
    assert(xs@.take(xs@.len() as int) =~= xs@);
    sorted
}

/// The hit of `xs`: the intersection with the smallest `t` that is not
/// below zero, the first of them where several share it; none where every
/// `t` is below zero.
pub fn hit<'a>(xs: &'a [Intersection<'a>]) -> (found: Option<&'a Intersection<'a>>)
    ensures
        found.is_none() <==> all_behind(xs@),
        found.is_some() ==> exists|i: int| is_hit(xs@, i) && *found.unwrap() == xs@[i],
{
    let mut best: Option<usize> = None;
    let mut k: usize = 0;
    while k < xs.len()
        invariant
            k <= xs.len(),
            best.is_none() <==> all_behind(xs@.take(k as int)),
            best.is_some() ==> is_hit(xs@.take(k as int), best.unwrap() as int),
        decreases xs.len() - k,
    {
        let candidate = xs[k].t;
        let ghost seen = xs@.take(k as int);
        let ghost next = xs@.take(k + 1);
        proof {
            assert(forall|j: int| 0 <= j < k ==> next[j] == seen[j]);
            assert(next[k as int] == xs@[k as int]);
        }
        if candidate.is_non_negative() {
            match best {
                None => {
                    best = Some(k);
                },
                Some(b) => {
                    if candidate.ordinal_key() < xs[b].t.ordinal_key() {
                        best = Some(k);
                    }
                    assert(seen[b as int] == next[b as int]);
                },
            }
            assert(!all_behind(next));
        } else {
            match best {
                None => {},
                Some(b) => {
                    assert(seen[b as int] == next[b as int]);
                    assert(!all_behind(next));
                },
            }
        }
        k = k + 1;
    }
    assert(xs@.take(xs@.len() as int) =~= xs@);
    match best {
        None => None,
        Some(b) => {
            assert(is_hit(xs@, b as int));
            Some(&xs[b])
        },
    }
}

/// In a list in ascending order the hit is the first intersection whose `t`
/// is not below zero.
pub proof fn lemma_hit_of_ascending(xs: Seq<Intersection>, i: int)
    requires
        ascending(xs),
        0 <= i < xs.len(),
        xs[i].t.non_negative(),
        forall|j: int| 0 <= j < i ==> !xs[j].t.non_negative(),
    ensures
        is_hit(xs, i),
{
}

/// A list has at most one hit.
pub proof fn lemma_hit_unique(xs: Seq<Intersection>, i: int, j: int)
    requires
        is_hit(xs, i),
        is_hit(xs, j),
    ensures
        i == j,
{
}

} // verus!
