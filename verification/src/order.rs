use crate::scalar::{Scalar, FRACTION_SPAN, ONE_BITS};
use vstd::arithmetic::power2::{lemma2_to64, lemma_pow2_pos, lemma_pow2_strictly_increases, pow2};
use vstd::prelude::*;

verus! {

/// Whether the value of the finite number `a` is below that of the finite
/// number `b`. The values are compared exactly, brought to the smaller of
/// the two scales.
pub open spec fn below(a: Scalar, b: Scalar) -> bool {
    let lo = if a.scale() <= b.scale() {
        a.scale()
    } else {
        b.scale()
    };
    a.signed_significand() * pow2((a.scale() - lo) as nat) < b.signed_significand() * pow2(
        (b.scale() - lo) as nat,
    )
}

/// The pattern of a finite number without its sign is its significand, on
/// top of one full span of fractions for each step of its scale above one.
pub proof fn lemma_magnitude_parts(s: Scalar)
    requires
        s.finite(),
    ensures
        s.magnitude() == (s.scale() - 1) * FRACTION_SPAN + s.significand(),
        1 <= s.scale() <= 2046,
        0 <= s.significand() < 2 * FRACTION_SPAN,
        s.scale() >= 2 ==> s.significand() >= FRACTION_SPAN,
        s.magnitude() == 0 <==> s.significand() == 0,
{
}

/// Of two finite numbers without sign, the one with the smaller pattern has
/// the smaller value.
proof fn lemma_magnitudes_ordered(a: Scalar, b: Scalar)
    requires
        a.finite(),
        b.finite(),
    ensures
        ({
            let lo = if a.scale() <= b.scale() {
                a.scale()
            } else {
                b.scale()
            };
            a.magnitude() < b.magnitude() <==> a.significand() * pow2((a.scale() - lo) as nat)
                < b.significand() * pow2((b.scale() - lo) as nat)
        }),
{
    lemma_magnitude_parts(a);
    lemma_magnitude_parts(b);
    lemma2_to64();
    let m = a.significand();
    let n = b.significand();
    if a.scale() < b.scale() {
        let lift = (b.scale() - a.scale()) as nat;
        if lift > 1 {
            lemma_pow2_strictly_increases(1, lift);
        }
        let p = pow2(lift) as int;
        assert(n * p >= 2 * FRACTION_SPAN) by (nonlinear_arith)
            requires
                n >= FRACTION_SPAN,
                p >= 2,
                FRACTION_SPAN > 0,
        ;
        assert(m * 1 == m);
        assert((a.scale() - 1) * FRACTION_SPAN + 2 * FRACTION_SPAN <= (b.scale() - 1)
            * FRACTION_SPAN + FRACTION_SPAN) by (nonlinear_arith)
            requires
                a.scale() + 1 <= b.scale(),
        ;
    } else if b.scale() < a.scale() {
        let lift = (a.scale() - b.scale()) as nat;
        if lift > 1 {
            lemma_pow2_strictly_increases(1, lift);
        }
        let p = pow2(lift) as int;
        assert(m * p >= 2 * FRACTION_SPAN) by (nonlinear_arith)
            requires
                m >= FRACTION_SPAN,
                p >= 2,
                FRACTION_SPAN > 0,
        ;
        assert(n * 1 == n);
        assert((b.scale() - 1) * FRACTION_SPAN + 2 * FRACTION_SPAN <= (a.scale() - 1)
            * FRACTION_SPAN + FRACTION_SPAN) by (nonlinear_arith)
            requires
                b.scale() + 1 <= a.scale(),
        ;
    } else {
        assert(m * 1 == m && n * 1 == n);
    }
}

/// On finite numbers the order of the patterns is the order of the values:
/// `a.less(b)` holds exactly when the value of `a` is below that of `b`.
pub proof fn lemma_less_is_below(a: Scalar, b: Scalar)
    requires
        a.finite(),
        b.finite(),
    ensures
        a.less(b) == below(a, b),
        a.at_most(b) == !below(b, a),
{
    lemma_magnitude_parts(a);
    lemma_magnitude_parts(b);
    lemma_magnitudes_ordered(a, b);
    lemma_magnitudes_ordered(b, a);
    let lo = if a.scale() <= b.scale() {
        a.scale()
    } else {
        b.scale()
    };
    let p = pow2((a.scale() - lo) as nat) as int;
    let q = pow2((b.scale() - lo) as nat) as int;
    lemma_pow2_pos((a.scale() - lo) as nat);
    lemma_pow2_pos((b.scale() - lo) as nat);
    let m = a.significand();
    let n = b.significand();
    assert((-m) * p == -(m * p)) by (nonlinear_arith);
    assert((-n) * q == -(n * q)) by (nonlinear_arith);
    assert(0 <= m * p && (m == 0 <==> m * p == 0)) by (nonlinear_arith)
        requires
            0 <= m,
            0 < p,
    ;
    assert(0 <= n * q && (n == 0 <==> n * q == 0)) by (nonlinear_arith)
        requires
            0 <= n,
            0 < q,
    ;
}

/// A finite number is not below zero exactly when its value is not.
pub proof fn lemma_non_negative_is_value(s: Scalar)
    requires
        s.finite(),
    ensures
        s.non_negative() == (s.signed_significand() >= 0),
{
    lemma_magnitude_parts(s);
}

/// Clamping to the unit interval moves a number to zero where it is below
/// zero, to one where it is above one, and nowhere else.
pub proof fn lemma_unit_is_nearest(s: Scalar)
    requires
        !s.nan(),
    ensures
        !s.unit().nan(),
        s.less(Scalar { bits: 0 }) ==> s.unit().bits == 0,
        (Scalar { bits: ONE_BITS }).less(s) ==> s.unit().bits == ONE_BITS,
        !s.less(Scalar { bits: 0 }) && !(Scalar { bits: ONE_BITS }).less(s) ==> s.unit().ordinal()
            == s.ordinal(),
        0 <= s.unit().ordinal() <= ONE_BITS,
{
}

} // verus!
