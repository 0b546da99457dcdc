use crate::matrix::{Grid, Matrix};
use crate::scalar::{Scalar, ONE_BITS};
use crate::tuple::Tuple;
use std::ops::Neg;
use vstd::prelude::*;

verus! {

/// The four by four grid with the given rows.
pub open spec fn grid4(cells: Seq<Scalar>) -> Grid {
    Grid { dim: 4, cells }
}

/// The matrix with the sixteen given elements, row by row.
fn matrix4(elems: Vec<Scalar>) -> (m: Matrix)
    requires
        elems@.len() == 16,
    ensures
        m.wf(),
        m@ == grid4(elems@),
{
    let m = Matrix { dim: 4, elems };
    assert(m@.dim * m@.dim == 16) by (nonlinear_arith)
        requires
            m@.dim == 4,
    ;
    m
}

/// The matrix that moves a point by `(x, y, z)`.
pub fn translation(x: Scalar, y: Scalar, z: Scalar) -> (m: Matrix)
    ensures
        m.wf(),
        m@ == grid4(
            {
                let o = Scalar { bits: 0 };
                let i = Scalar { bits: ONE_BITS };
                seq![i, o, o, x, o, i, o, y, o, o, i, z, o, o, o, i]
            },
        ),
{
    let o = Scalar::zero();
    let i = Scalar::one();
    matrix4(vec![i, o, o, x, o, i, o, y, o, o, i, z, o, o, o, i])
}

/// The matrix that scales by `x`, `y` and `z` along the axes.
pub fn scaling(x: Scalar, y: Scalar, z: Scalar) -> (m: Matrix)
    ensures
        m.wf(),
        m@ == grid4(
            {
                let o = Scalar { bits: 0 };
                let i = Scalar { bits: ONE_BITS };
                seq![x, o, o, o, o, y, o, o, o, o, z, o, o, o, o, i]
            },
        ),
{
    let o = Scalar::zero();
    let i = Scalar::one();
    matrix4(vec![x, o, o, o, o, y, o, o, o, o, z, o, o, o, o, i])
}

/// The matrix that turns about the x axis by the angle with the given
/// cosine and sine.
pub fn rotation_x(cos: Scalar, sin: Scalar) -> (m: Matrix)
    ensures
        m.wf(),
        m@ == grid4(
            {
                let o = Scalar { bits: 0 };
                let i = Scalar { bits: ONE_BITS };
                seq![i, o, o, o, o, cos, sin.negated(), o, o, sin, cos, o, o, o, o, i]
            },
        ),
{
    let o = Scalar::zero();
    let i = Scalar::one();
    let back = sin.neg();
    matrix4(vec![i, o, o, o, o, cos, back, o, o, sin, cos, o, o, o, o, i])
}

/// The matrix that turns about the y axis by the angle with the given
/// cosine and sine.
pub fn rotation_y(cos: Scalar, sin: Scalar) -> (m: Matrix)
    ensures
        m.wf(),
        m@ == grid4(
            {
                let o = Scalar { bits: 0 };
                let i = Scalar { bits: ONE_BITS };
                seq![cos, o, sin, o, o, i, o, o, sin.negated(), o, cos, o, o, o, o, i]
            },
        ),
{
    let o = Scalar::zero();
    let i = Scalar::one();
    let back = sin.neg();
    matrix4(vec![cos, o, sin, o, o, i, o, o, back, o, cos, o, o, o, o, i])
}

/// The matrix that turns about the z axis by the angle with the given
/// cosine and sine.
pub fn rotation_z(cos: Scalar, sin: Scalar) -> (m: Matrix)
    ensures
        m.wf(),
        m@ == grid4(
            {
                let o = Scalar { bits: 0 };
                let i = Scalar { bits: ONE_BITS };
                seq![cos, sin.negated(), o, o, sin, cos, o, o, o, o, i, o, o, o, o, i]
            },
        ),
{
    let o = Scalar::zero();
    let i = Scalar::one();
    let back = sin.neg();
    matrix4(vec![cos, back, o, o, sin, cos, o, o, o, o, i, o, o, o, o, i])
}

/// The matrix that moves each coordinate in proportion to the two others:
/// `xy` is the share of y in x, and so on.
pub fn shearing(xy: Scalar, xz: Scalar, yx: Scalar, yz: Scalar, zx: Scalar, zy: Scalar) -> (m:
    Matrix)
    ensures
        m.wf(),
        m@ == grid4(
            {
                let o = Scalar { bits: 0 };
                let i = Scalar { bits: ONE_BITS };
                seq![i, xy, xz, o, yx, i, yz, o, zx, zy, i, o, o, o, o, i]
            },
        ),
{
    let o = Scalar::zero();
    let i = Scalar::one();
    matrix4(vec![i, xy, xz, o, yx, i, yz, o, zx, zy, i, o, o, o, o, i])
}

/// The two factors of a view transform, given the three axes of the eye and
/// the point it stands at: the orientation, whose rows are `left`,
/// `true_up` and the opposite of `forward`, and the translation by the
/// opposite of `from`. The view transform is the first times the second.
pub fn view_transform(left: Tuple, true_up: Tuple, forward: Tuple, from: Tuple) -> (factors: (
    Matrix,
    Matrix,
))
    ensures
        factors.0.wf(),
        factors.1.wf(),
        factors.0@ == grid4(
            {
                let o = Scalar { bits: 0 };
                let i = Scalar { bits: ONE_BITS };
                seq![
                    left.x,
                    left.y,
                    left.z,
                    o,
                    true_up.x,
                    true_up.y,
                    true_up.z,
                    o,
                    forward.x.negated(),
                    forward.y.negated(),
                    forward.z.negated(),
                    o,
                    o,
                    o,
                    o,
                    i,
                ]
            },
        ),
        factors.1@ == grid4(
            {
                let o = Scalar { bits: 0 };
                let i = Scalar { bits: ONE_BITS };
                seq![
                    i,
                    o,
                    o,
                    from.x.negated(),
                    o,
                    i,
                    o,
                    from.y.negated(),
                    o,
                    o,
                    i,
                    from.z.negated(),
                    o,
                    o,
                    o,
                    i,
                ]
            },
        ),
{
    let o = Scalar::zero();
    let i = Scalar::one();
    let backward = forward.neg();
    let orientation = matrix4(
        vec![
            left.x,
            left.y,
            left.z,
            o,
            true_up.x,
            true_up.y,
            true_up.z,
            o,
            backward.x,
            backward.y,
            backward.z,
            o,
            o,
            o,
            o,
            i,
        ],
    );
    (orientation, translation(from.x.neg(), from.y.neg(), from.z.neg()))
}

} // verus!
