use crate::scalar::{power_of_two, Scalar, FRACTION_SPAN, INFINITY_BITS, SIGN_BIT};
use vstd::arithmetic::power2::{
    lemma2_to64, lemma2_to64_rest, lemma_pow2_adds, lemma_pow2_pos, lemma_pow2_strictly_increases,
    lemma_pow2_unfold, pow2,
};
use vstd::prelude::*;

verus! {

/// The distance of two finite numbers in units of `2^(lo - 1075)`, where
/// `lo` is the smaller of their scales.
pub open spec fn gap(a: Scalar, b: Scalar) -> int {
    let lo = if a.scale() <= b.scale() {
        a.scale()
    } else {
        b.scale()
    };
    let x = a.signed_significand() * pow2((a.scale() - lo) as nat);
    let y = b.signed_significand() * pow2((b.scale() - lo) as nat);
    if x >= y {
        x - y
    } else {
        y - x
    }
}

/// Whether two numbers differ by less than one ten-thousandth. The values
/// are compared exactly, as the rationals that the patterns stand for;
/// an infinity or a pattern that is not a number is close to nothing.
pub open spec fn close(a: Scalar, b: Scalar) -> bool {
    let lo = if a.scale() <= b.scale() {
        a.scale()
    } else {
        b.scale()
    };
    &&& a.finite()
    &&& b.finite()
    &&& if lo <= 1075 {
        10000 * gap(a, b) < pow2((1075 - lo) as nat)
    } else {
        gap(a, b) == 0
    }
}

/// No power of two is a multiple of five.
pub proof fn lemma_pow2_mod_five(n: nat)
    ensures
        pow2(n) % 5 != 0,
    decreases n,
{
    lemma2_to64();
    if n > 0 {
        lemma_pow2_mod_five((n - 1) as nat);
        lemma_pow2_unfold(n);
    }
}

/// Every finite number is close to itself.
pub proof fn lemma_close_reflexive(a: Scalar)
    requires
        a.finite(),
    ensures
        close(a, a),
{
    lemma_pow2_pos((1075 - a.scale()) as nat);
}

/// Closeness does not depend on the order of the two numbers.
pub proof fn lemma_close_symmetric(a: Scalar, b: Scalar)
    ensures
        close(a, b) == close(b, a),
{
}

/// Two to the power `n`, for `n` below 128.
fn power_of_two_wide(n: u64) -> (r: u128)
    requires
        n < 128,
    ensures
        r == pow2(n as nat),
{
    if n < 64 {
        power_of_two(n) as u128
    } else {
        let low: u64 = power_of_two(n - 64);
        proof {
            lemma2_to64();
            lemma2_to64_rest();
            lemma_pow2_adds(64, (n - 64) as nat);
            if n - 64 < 63 {
                lemma_pow2_strictly_increases((n - 64) as nat, 63);
            }
            assert(pow2(64) == 0x1_0000_0000_0000_0000);
            assert(low <= 0x8000_0000_0000_0000);
            assert(0x1_0000_0000_0000_0000 * low <= 0x1_0000_0000_0000_0000
                * 0x8000_0000_0000_0000) by (nonlinear_arith)
                requires
                    low <= 0x8000_0000_0000_0000,
            ;
        }
        0x1_0000_0000_0000_0000u128 * (low as u128)
    }
}

/// The parts of a finite number: whether it is negative, its scale and its
/// significand.
fn parts(s: Scalar) -> (p: (bool, u64, u64))
    requires
        s.finite(),
    ensures
        p.0 == s.negative(),
        p.1 == s.scale(),
        p.2 == s.significand(),
        1 <= p.1 <= 2046,
        p.2 < 2 * FRACTION_SPAN,
        p.1 >= 2 ==> p.2 >= FRACTION_SPAN,
{
    let negative = s.bits >= SIGN_BIT;
    let magnitude: u64 = if negative {
        s.bits - SIGN_BIT
    } else {
        s.bits
    };
    let field: u64 = magnitude / FRACTION_SPAN;
    let fraction: u64 = magnitude % FRACTION_SPAN;
    if field == 0 {
        (negative, 1, fraction)
    } else {
        (negative, field, FRACTION_SPAN + fraction)
    }
}

impl Scalar {
    /// Whether the pattern is a number other than the two infinities.
    pub fn is_finite(self) -> (b: bool)
        ensures
            b == self.finite(),
    {
        if self.bits >= SIGN_BIT {
            self.bits - SIGN_BIT < INFINITY_BITS
        } else {
            self.bits < INFINITY_BITS
        }
    }

    /// Whether the two numbers differ by less than one ten-thousandth.
    pub fn approx_eq(self, other: Scalar) -> (b: bool)
        ensures
            b == close(self, other),
    {
        if !self.is_finite() || !other.is_finite() {
            return false;
        }
        let first = parts(self);
        let second = parts(other);
        proof {
            lemma_close_symmetric(self, other);
        }
        if first.1 >= second.1 {
            let b = parts_are_close(first.0 == second.0, first.1, first.2, second.1, second.2);
            proof {
                lemma_gap_parts(self, other);
            }
            b
        } else {
            let b = parts_are_close(first.0 == second.0, second.1, second.2, first.1, first.2);
            proof {
                lemma_gap_parts(other, self);
            }
            b
        }
    }
}

/// The distance of two numbers given by their parts, the one with the
/// larger scale first, in units of `2^(low_scale - 1075)`.
pub open spec fn parts_gap(same_sign: bool, high_scale: int, high: int, low_scale: int, low: int)
    -> int {
    let raised = high * pow2((high_scale - low_scale) as nat);
    if same_sign {
        if raised >= low {
            raised - low
        } else {
            low - raised
        }
    } else {
        raised + low
    }
}

/// Whether two numbers given by their parts differ by less than one
/// ten-thousandth.
pub open spec fn parts_close(
    same_sign: bool,
    high_scale: int,
    high: int,
    low_scale: int,
    low: int,
) -> bool {
    let distance = parts_gap(same_sign, high_scale, high, low_scale, low);
    if low_scale <= 1075 {
        10000 * distance < pow2((1075 - low_scale) as nat)
    } else {
        distance == 0
    }
}

/// The distance of two finite numbers is the distance of their parts.
proof fn lemma_gap_parts(a: Scalar, b: Scalar)
    requires
        a.finite(),
        b.finite(),
        a.scale() >= b.scale(),
    ensures
        close(a, b) == parts_close(
            a.negative() == b.negative(),
            a.scale(),
            a.significand(),
            b.scale(),
            b.significand(),
        ),
{
    lemma2_to64();
    let p = pow2((a.scale() - b.scale()) as nat);
    lemma_pow2_pos((a.scale() - b.scale()) as nat);
    let m = a.significand();
    let n = b.significand();
    assert(pow2(0) == 1);
    assert((-m) * p == -(m * p)) by (nonlinear_arith);
    assert(0 <= m * p) by (nonlinear_arith)
        requires
            0 <= m,
            0 < p,
    ;
    assert(n * 1 == n && (-n) * 1 == -n);
}

/// Whether two numbers given by their parts differ by less than one
/// ten-thousandth. Where the scales are far apart the smaller number cannot
/// carry the larger one over the tolerance, and the larger one decides
/// alone; otherwise the distance is measured exactly in 128 bits.
fn parts_are_close(same_sign: bool, high_scale: u64, high: u64, low_scale: u64, low: u64) -> (b: bool)
    requires
        1 <= low_scale <= high_scale <= 2046,
        high < 2 * FRACTION_SPAN,
        low < 2 * FRACTION_SPAN,
        high_scale >= 2 ==> high >= FRACTION_SPAN,
    ensures
        b == parts_close(same_sign, high_scale as int, high as int, low_scale as int, low as int),
{
    let lift: u64 = high_scale - low_scale;
    let ghost p = pow2(lift as nat) as int;
    let ghost distance = parts_gap(
        same_sign,
        high_scale as int,
        high as int,
        low_scale as int,
        low as int,
    );
    proof {
        lemma2_to64();
        lemma2_to64_rest();
        lemma_pow2_pos(lift as nat);
    }
    if lift >= 63 {
        proof {
            if lift > 63 {
                lemma_pow2_strictly_increases(63, lift as nat);
            }
            assert(p >= 0x8000_0000_0000_0000);
            assert(high * p >= FRACTION_SPAN * p) by (nonlinear_arith)
                requires
                    high >= FRACTION_SPAN,
                    p > 0,
            ;
            assert(FRACTION_SPAN * p >= 2 * p) by (nonlinear_arith)
                requires
                    p > 0,
            ;
        }
        if high_scale > 1071 {
            proof {
                if low_scale <= 1075 {
                    let room = (1075 - low_scale) as nat;
                    assert(room < lift + 4);
                    lemma_pow2_strictly_increases(room, (lift + 4) as nat);
                    lemma_pow2_adds(lift as nat, 4);
                    assert(pow2(room) < 16 * p);
                    assert(distance >= high * p - low);
                    assert(10000 * distance >= 16 * p) by (nonlinear_arith)
                        requires
                            distance >= high * p - low,
                            high * p >= FRACTION_SPAN * p,
                            low < 2 * FRACTION_SPAN,
                            p >= 0x8000_0000_0000_0000,
                            FRACTION_SPAN == 0x10_0000_0000_0000,
                    ;
                } else {
                    assert(distance >= high * p - low);
                    assert(distance > 0);
                }
            }
            return false;
        }
        let margin: u64 = 1071 - high_scale;
        proof {
            let y = pow2(margin as nat) as int;
            let x = 625 * high;
            lemma_pow2_pos(margin as nat);
            lemma_pow2_mod_five(margin as nat);
            assert(x != y);
            let room = (1075 - low_scale) as nat;
            assert(room == margin + lift + 4);
            lemma_pow2_adds((margin + lift) as nat, 4);
            lemma_pow2_adds(margin as nat, lift as nat);
            assert(pow2(room) == 16 * (y * p)) by (nonlinear_arith)
                requires
                    pow2(room) == pow2((margin + lift) as nat) * 16,
                    pow2((margin + lift) as nat) == y * p,
            ;
            assert(distance >= high * p - low);
            assert(distance <= high * p + low);
            if x < y {
                assert(10000 * distance < 16 * (y * p)) by (nonlinear_arith)
                    requires
                        distance <= high * p + low,
                        x == 625 * high,
                        x + 1 <= y,
                        625 * low < p,
                        p > 0,
                ;
            } else {
                assert(10000 * distance >= 16 * (y * p)) by (nonlinear_arith)
                    requires
                        distance >= high * p - low,
                        x == 625 * high,
                        x >= y + 1,
                        625 * low < p,
                        p > 0,
                ;
            }
            if margin >= 63 {
                if margin > 63 {
                    lemma_pow2_strictly_increases(63, margin as nat);
                }
                assert(x < y);
            }
        }
        if margin >= 63 {
            return true;
        }
        return 625 * high < power_of_two(margin);
    }
    let factor: u64 = power_of_two(lift);
    proof {
        if lift < 62 {
            lemma_pow2_strictly_increases(lift as nat, 62);
        }
        assert(factor <= 0x4000_0000_0000_0000);
        assert(high * factor <= 0x20_0000_0000_0000 * 0x4000_0000_0000_0000) by (nonlinear_arith)
            requires
                high <= 0x20_0000_0000_0000,
                factor <= 0x4000_0000_0000_0000,
        ;
    }
    let raised: u128 = (high as u128) * (factor as u128);
    let wide_low: u128 = low as u128;
    let measured: u128 = if same_sign {
        if raised >= wide_low {
            raised - wide_low
        } else {
            wide_low - raised
        }
    } else {
        raised + wide_low
    };
    assert(measured == distance);
    if low_scale > 1071 {
        proof {
            if low_scale <= 1075 {
                let room = (1075 - low_scale) as nat;
                assert(pow2(room) <= 8);
            }
        }
        return measured == 0;
    }
    let room: u64 = 1071 - low_scale;
    proof {
        lemma_pow2_adds(room as nat, 4);
        assert(pow2((1075 - low_scale) as nat) == 16 * pow2(room as nat));
        assert(measured < 0x10_0000_0000_0000_0000_0000_0000_0000);
    }
    if room >= 126 {
        proof {
            lemma_pow2_adds(63, 63);
            assert(pow2(126) == 0x8000_0000_0000_0000 * 0x8000_0000_0000_0000);
            if room > 126 {
                lemma_pow2_strictly_increases(126, room as nat);
            }
        }
        return true;
    }
    625 * measured < power_of_two_wide(room)
}

} // verus!
