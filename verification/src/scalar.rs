use vstd::arithmetic::power2::{
    lemma2_to64, lemma2_to64_rest, lemma_pow2_strictly_increases, lemma_pow2_unfold, pow2,
};
use vstd::prelude::*;
use vstd::std_specs::cmp::PartialEqSpecImpl;

verus! {

/// The sign bit of a binary64 pattern.
pub const SIGN_BIT: u64 = 0x8000_0000_0000_0000;

/// The pattern of positive infinity; every larger magnitude is a NaN.
pub const INFINITY_BITS: u64 = 0x7FF0_0000_0000_0000;

/// The pattern of the number one.
pub const ONE_BITS: u64 = 0x3FF0_0000_0000_0000;

/// Two to the power 52: the weight of the exponent field inside a pattern.
pub const FRACTION_SPAN: u64 = 0x0010_0000_0000_0000;

/// A real number carried as an IEEE-754 binary64 bit pattern.
///
/// The type decides exactly what can be decided on the pattern alone: sign,
/// order, negation, clamping to the unit interval, rounding to a channel
/// value or to an index, and whether two numbers are close. Arithmetic that
/// rounds is left to the caller. `==` on scalars compares the numbers: zero
/// equals minus zero, and what is not a number equals nothing.
#[derive(Clone, Copy, Debug)]
pub struct Scalar {
    pub bits: u64,
}

impl Scalar {
    /// Whether the sign bit is set.
    pub open spec fn negative(self) -> bool {
        self.bits >= SIGN_BIT
    }

    /// The pattern without its sign bit.
    pub open spec fn magnitude(self) -> int {
        if self.bits >= SIGN_BIT {
            self.bits - SIGN_BIT
        } else {
            self.bits as int
        }
    }

    /// Whether the pattern is not a number.
    pub open spec fn nan(self) -> bool {
        self.magnitude() > INFINITY_BITS
    }

    /// An integer that orders the numbers as their values do: for patterns
    /// that are numbers, `a` is below `b` exactly when `a.ordinal() <
    /// b.ordinal()`. Both zeros have ordinal zero.
    pub open spec fn ordinal(self) -> int {
        if self.negative() {
            -self.magnitude()
        } else {
            self.magnitude()
        }
    }

    /// Numeric `==`: false as soon as one side is not a number.
    pub open spec fn same(self, other: Scalar) -> bool {
        !self.nan() && !other.nan() && self.ordinal() == other.ordinal()
    }

    /// Numeric `<`: false as soon as one side is not a number.
    pub open spec fn less(self, other: Scalar) -> bool {
        !self.nan() && !other.nan() && self.ordinal() < other.ordinal()
    }

    /// Numeric `<=`: false as soon as one side is not a number.
    pub open spec fn at_most(self, other: Scalar) -> bool {
        !self.nan() && !other.nan() && self.ordinal() <= other.ordinal()
    }

    /// Numeric `>= 0`.
    pub open spec fn non_negative(self) -> bool {
        !self.nan() && self.ordinal() >= 0
    }

    /// The pattern with the sign bit flipped.
    pub open spec fn negated(self) -> Scalar {
        if self.bits >= SIGN_BIT {
            Scalar { bits: (self.bits - SIGN_BIT) as u64 }
        } else {
            Scalar { bits: (self.bits + SIGN_BIT) as u64 }
        }
    }

    /// The nearest number of the unit interval: zero for what is below zero,
    /// one for what is above one or not a number, the number itself otherwise.
    pub open spec fn unit(self) -> Scalar {
        if self.nan() {
            Scalar { bits: ONE_BITS }
        } else if self.negative() {
            Scalar { bits: 0 }
        } else if self.bits > ONE_BITS {
            Scalar { bits: ONE_BITS }
        } else {
            self
        }
    }

    /// Whether the number lies in the unit interval, as a non-negative pattern.
    pub open spec fn in_unit(self) -> bool {
        self.bits <= ONE_BITS
    }

    /// The biased exponent field of a non-negative pattern.
    pub open spec fn exponent(self) -> int {
        self.magnitude() / (FRACTION_SPAN as int)
    }

    /// The significand as an integer: the fraction field, and above it the
    /// hidden bit of a normal number.
    pub open spec fn significand(self) -> int {
        if self.exponent() == 0 {
            self.magnitude() % (FRACTION_SPAN as int)
        } else {
            FRACTION_SPAN + self.magnitude() % (FRACTION_SPAN as int)
        }
    }

    /// The exponent that the significand is scaled by: the number's value is
    /// `significand * 2^(scale - 1075)`, with the sign. A subnormal number
    /// has the scale of the smallest normal ones.
    pub open spec fn scale(self) -> int {
        if self.exponent() == 0 {
            1
        } else {
            self.exponent()
        }
    }

    /// Whether the pattern is a number other than the two infinities.
    pub open spec fn finite(self) -> bool {
        self.magnitude() < INFINITY_BITS
    }

    /// The significand with the number's sign.
    pub open spec fn signed_significand(self) -> int {
        if self.negative() {
            -self.significand()
        } else {
            self.significand()
        }
    }

    /// The channel value of a number `v` of the unit interval: 255 times `v`,
    /// rounded to the nearest integer, halves upwards. A normal number is
    /// `significand / 2^(1075 - exponent)`; a subnormal one rounds to zero.
    pub open spec fn unit_channel(self) -> int {
        if self.exponent() == 0 {
            0
        } else {
            let shift = (1075 - self.exponent()) as nat;
            (510 * self.significand() + pow2(shift)) / (pow2(shift + 1) as int)
        }
    }

    /// The channel value of any number: that of its nearest number in the
    /// unit interval.
    pub open spec fn channel(self) -> int {
        self.unit().unit_channel()
    }

    /// The value of a finite number that is not below zero, rounded to the
    /// nearest whole number, halves upwards.
    pub open spec fn rounded(self) -> int {
        if self.scale() >= 1075 {
            self.significand() * pow2((self.scale() - 1075) as nat)
        } else {
            let shift = (1075 - self.scale()) as nat;
            (2 * self.significand() + pow2(shift)) / (pow2(shift + 1) as int)
        }
    }

    /// The whole number that stands for a number as an index: zero for what
    /// is below zero or not a number, the largest index for what is above
    /// it, and otherwise the value rounded to the nearest whole number,
    /// halves upwards.
    pub open spec fn index(self) -> int {
        if self.nan() || self.negative() {
            0
        } else if !self.finite() || self.rounded() > usize::MAX {
            usize::MAX as int
        } else {
            self.rounded()
        }
    }

    /// The scalar with the given bit pattern.
    pub fn from_bits(bits: u64) -> (s: Scalar)
        ensures
            s.bits == bits,
    {
        Scalar { bits }
    }

    /// The bit pattern.
    pub fn to_bits(self) -> (bits: u64)
        ensures
            bits == self.bits,
    {
        self.bits
    }

    /// The number zero.
    pub fn zero() -> (s: Scalar)
        ensures
            s.bits == 0,
    {
        Scalar { bits: 0 }
    }

    /// The number one.
    pub fn one() -> (s: Scalar)
        ensures
            s.bits == ONE_BITS,
    {
        Scalar { bits: ONE_BITS }
    }

    /// Whether the pattern is not a number.
    pub fn is_nan(self) -> (b: bool)
        ensures
            b == self.nan(),
    {
        if self.bits >= SIGN_BIT {
            self.bits - SIGN_BIT > INFINITY_BITS
        } else {
            self.bits > INFINITY_BITS
        }
    }

    /// Whether the sign bit is set.
    pub fn is_sign_negative(self) -> (b: bool)
        ensures
            b == self.negative(),
    {
        self.bits >= SIGN_BIT
    }

    /// Numeric `<`.
    pub fn lt(self, other: Scalar) -> (b: bool)
        ensures
            b == self.less(other),
    {
        if self.is_nan() || other.is_nan() {
            return false;
        }
        if self.bits >= SIGN_BIT {
            if other.bits >= SIGN_BIT {
                self.bits > other.bits
            } else {
                self.bits > SIGN_BIT || other.bits > 0
            }
        } else {
            other.bits < SIGN_BIT && self.bits < other.bits
        }
    }

    /// Numeric `<=`.
    pub fn le(self, other: Scalar) -> (b: bool)
        ensures
            b == self.at_most(other),
    {
        if self.is_nan() || other.is_nan() {
            return false;
        }
        if self.bits >= SIGN_BIT {
            if other.bits >= SIGN_BIT {
                self.bits >= other.bits
            } else {
                true
            }
        } else {
            if other.bits >= SIGN_BIT {
                self.bits == 0 && other.bits == SIGN_BIT
            } else {
                self.bits <= other.bits
            }
        }
    }

    /// Numeric `>= 0`: true of both zeros, false of what is not a number.
    pub fn is_non_negative(self) -> (b: bool)
        ensures
            b == self.non_negative(),
    {
        self.bits <= INFINITY_BITS || self.bits == SIGN_BIT
    }

    /// The integer that orders the numbers as their values do.
    pub fn ordinal_key(self) -> (key: i64)
        ensures
            key == self.ordinal(),
    {
        if self.bits >= SIGN_BIT {
            let magnitude: u64 = self.bits - SIGN_BIT;
            -(magnitude as i64)
        } else {
            self.bits as i64
        }
    }

    /// The number clamped to the unit interval.
    pub fn clamped(self) -> (r: Scalar)
        ensures
            r == self.unit(),
            r.in_unit(),
            self.in_unit() ==> r == self,
    {
        if self.is_nan() {
            Scalar { bits: ONE_BITS }
        } else if self.bits >= SIGN_BIT {
            Scalar { bits: 0 }
        } else if self.bits > ONE_BITS {
            Scalar { bits: ONE_BITS }
        } else {
            self
        }
    }

    /// The eight-bit channel value: the number is clamped to the unit
    /// interval, scaled by 255 and rounded to the nearest integer, halves
    /// upwards.
    pub fn to_channel(self) -> (c: u8)
        ensures
            c == self.channel(),
    {
        let unit = self.clamped();
        let exponent: u64 = unit.bits / FRACTION_SPAN;
        let fraction: u64 = unit.bits % FRACTION_SPAN;
        if exponent == 0 {
            return 0;
        }
        let significand: u64 = FRACTION_SPAN + fraction;
        let shift: u64 = 1075 - exponent;
        proof {
            lemma2_to64();
            lemma2_to64_rest();
            lemma_pow2_unfold((shift + 1) as nat);
            assert(pow2((shift + 1) as nat) == 2 * pow2(shift as nat));
            assert(significand == unit.significand());
            assert(exponent == unit.exponent());
        }
        if shift >= 62 {
            proof {
                if shift > 62 {
                    lemma_pow2_strictly_increases(62, shift as nat);
                }
                assert(pow2(62) == 0x4000_0000_0000_0000);
                let numerator = 510 * significand + pow2(shift as nat);
                let denominator = pow2((shift + 1) as nat) as int;
                assert(numerator / denominator == 0) by (nonlinear_arith)
                    requires
                        0 <= numerator < denominator,
                ;
            }
            return 0;
        }
        let half: u64 = power_of_two(shift);
        let numerator: u64 = 510 * significand + half;
        let denominator: u64 = 2 * half;
        proof {
            if shift > 53 {
                lemma_pow2_strictly_increases(53, shift as nat);
            }
            assert(pow2(53) == 0x20_0000_0000_0000);
            assert(pow2(52) == 0x10_0000_0000_0000);
            assert(shift == 52 ==> fraction == 0);
            assert(numerator / denominator <= 255) by (nonlinear_arith)
                requires
                    0 <= numerator < 256 * denominator,
                    denominator > 0,
            ;
        }
        (numerator / denominator) as u8
    }

    /// The number as an index: rounded to the nearest whole number, halves
    /// away from zero, and brought into the range of indices. What is not a
    /// number gives zero.
    pub fn to_index(self) -> (i: usize)
        ensures
            i == self.index(),
    {
        if self.is_nan() || self.bits >= SIGN_BIT {
            return 0;
        }
        if self.bits >= INFINITY_BITS {
            return usize::MAX;
        }
        let field: u64 = self.bits / FRACTION_SPAN;
        let fraction: u64 = self.bits % FRACTION_SPAN;
        let scale: u64 = if field == 0 {
            1
        } else {
            field
        };
        let significand: u64 = if field == 0 {
            fraction
        } else {
            FRACTION_SPAN + fraction
        };
        proof {
            lemma2_to64();
            lemma2_to64_rest();
            assert(scale == self.scale());
            assert(significand == self.significand());
        }
        let whole: u64 = if scale >= 1075 {
            let lift: u64 = scale - 1075;
            if lift >= 12 {
                proof {
                    if lift > 12 {
                        lemma_pow2_strictly_increases(12, lift as nat);
                    }
                    let p = pow2(lift as nat) as int;
                    assert(significand * p >= 0x10_0000_0000_0000 * 4096) by (nonlinear_arith)
                        requires
                            significand >= 0x10_0000_0000_0000,
                            p >= 4096,
                    ;
                }
                return usize::MAX;
            }
            let factor: u64 = power_of_two(lift);
            proof {
                if lift < 11 {
                    lemma_pow2_strictly_increases(lift as nat, 11);
                }
                assert(significand * factor <= 0x1F_FFFF_FFFF_FFFF * 2048) by (nonlinear_arith)
                    requires
                        significand <= 0x1F_FFFF_FFFF_FFFF,
                        factor <= 2048,
                ;
            }
            significand * factor
        } else {
            let shift: u64 = 1075 - scale;
            proof {
                lemma_pow2_unfold((shift + 1) as nat);
            }
            if shift >= 55 {
                proof {
                    if shift > 55 {
                        lemma_pow2_strictly_increases(55, shift as nat);
                    }
                    let numerator = 2 * significand + pow2(shift as nat);
                    let denominator = pow2((shift + 1) as nat) as int;
                    assert(numerator / denominator == 0) by (nonlinear_arith)
                        requires
                            0 <= numerator < denominator,
                    ;
                }
                0
            } else {
                let half: u64 = power_of_two(shift);
                proof {
                    if shift < 54 {
                        lemma_pow2_strictly_increases(shift as nat, 54);
                    }
                }
                (2 * significand + half) / (2 * half)
            }
        };
        if whole > usize::MAX as u64 {
            usize::MAX
        } else {
            whole as usize
        }
    }
}

impl PartialEq for Scalar {
    fn eq(&self, other: &Self) -> (b: bool) {
        !self.is_nan() && !other.is_nan() && self.ordinal_key() == other.ordinal_key()
    }
}

impl PartialEqSpecImpl for Scalar {
    open spec fn obeys_eq_spec() -> bool {
        true
    }

    open spec fn eq_spec(&self, other: &Self) -> bool {
        self.same(*other)
    }
}

impl std::ops::Neg for Scalar {
    type Output = Scalar;

    /// The number with the opposite sign. Negation is exact: it flips the
    /// sign bit.
    fn neg(self) -> (r: Scalar)
        ensures
            r == self.negated(),
    {
        if self.bits >= SIGN_BIT {
            Scalar { bits: self.bits - SIGN_BIT }
        } else {
            Scalar { bits: self.bits + SIGN_BIT }
        }
    }
}

impl vstd::std_specs::ops::NegSpecImpl for Scalar {
    open spec fn obeys_neg_spec() -> bool {
        true
    }

    open spec fn neg_req(self) -> bool {
        true
    }

    open spec fn neg_spec(self) -> Scalar {
        self.negated()
    }
}

/// Two to the power `n`.
pub(crate) fn power_of_two(n: u64) -> (r: u64)
    requires
        n < 64,
    ensures
        r == pow2(n as nat),
{
    let mut r: u64 = 1;
    let mut i: u64 = 0;
    proof {
        lemma2_to64();
    }
    while i < n
        invariant
            i <= n < 64,
            r == pow2(i as nat),
        decreases n - i,
    {
        proof {
            lemma_pow2_unfold((i + 1) as nat);
            if i + 1 < 63 {
                lemma_pow2_strictly_increases((i + 1) as nat, 63);
            }
            lemma2_to64_rest();
        }
        r = 2 * r;
        i = i + 1;
    }
    r
}

/// Clamping to the unit interval is idempotent.
pub proof fn lemma_unit_idempotent(s: Scalar)
    ensures
        s.unit().unit() == s.unit(),
{
}

/// Negating twice gives the number back, bit for bit.
pub proof fn lemma_negated_involutive(s: Scalar)
    ensures
        s.negated().negated() == s,
{
}

/// The channel value of every number is a byte, zero for zero and 255 for
/// one.
pub proof fn lemma_channel_bounds(s: Scalar)
    ensures
        0 <= s.channel() <= 255,
        (Scalar { bits: 0 }).channel() == 0,
        (Scalar { bits: ONE_BITS }).channel() == 255,
{
    let unit = s.unit();
    lemma2_to64();
    lemma2_to64_rest();
    if unit.exponent() != 0 {
        let shift = (1075 - unit.exponent()) as nat;
        lemma_pow2_unfold(shift + 1);
        if shift > 53 {
            lemma_pow2_strictly_increases(53, shift);
        }
        assert(pow2(53) == 0x20_0000_0000_0000);
        assert(pow2(52) == 0x10_0000_0000_0000);
        assert(shift == 52 ==> unit.bits == ONE_BITS);
        let numerator = 510 * unit.significand() + pow2(shift);
        let denominator = pow2(shift + 1) as int;
        assert(0 <= numerator / denominator <= 255) by (nonlinear_arith)
            requires
                0 <= numerator < 256 * denominator,
                denominator > 0,
        ;
    }
    let one = Scalar { bits: ONE_BITS };
    assert(one.unit() == one);
    assert(one.exponent() == 1023);
    assert(one.significand() == FRACTION_SPAN);
    assert(pow2(52) == 0x10_0000_0000_0000);
    assert(pow2(53) == 0x20_0000_0000_0000);
    assert(one.unit_channel() == (510 * 0x10_0000_0000_0000 + 0x10_0000_0000_0000) / 0x20_0000_0000_0000);
}

} // verus!
