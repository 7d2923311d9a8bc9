//! Binary32 numbers as bit patterns, with their IEEE 754 ordering.

use vstd::arithmetic::mul::{lemma_mul_inequality, lemma_mul_strict_inequality};
use vstd::arithmetic::power2::{
    lemma_pow2_pos, lemma_pow2_strictly_increases, lemma_pow2_unfold, pow2,
};
use vstd::prelude::*;

verus! {

/// Bit pattern of positive infinity; every larger magnitude is a NaN.
pub const INFINITY_BITS: u32 = 0x7f80_0000;

/// The sign bit.
pub const SIGN_BIT: u32 = 0x8000_0000;

/// Bit pattern of `0.0`.
pub const ZERO_BITS: u32 = 0;

/// Bit pattern of `0.5`.
pub const HALF_BITS: u32 = 0x3f00_0000;

/// Bit pattern of `-0.5`.
pub const MINUS_HALF_BITS: u32 = 0xbf00_0000;

/// Bit pattern of `1.0`.
pub const ONE_BITS: u32 = 0x3f80_0000;

/// Bit pattern of `-1.0`.
pub const MINUS_ONE_BITS: u32 = 0xbf80_0000;

/// Bit pattern of negative infinity.
pub const MINUS_INFINITY_BITS: u32 = 0xff80_0000;

/// The lowest bit of the exponent field; in a normal number, the weight of the
/// leading bit that is not stored.
pub const HIDDEN_BIT: u32 = 0x0080_0000;

/// An IEEE 754 binary32 number, held as its bit pattern.
///
/// `==` compares representations: it tells `0.0` from `-0.0` and finds a NaN
/// equal to itself.  Numeric comparison is [`Scalar::less_than`] and its kin.
#[derive(Clone, Copy, Debug, PartialEq, Eq, Structural)]
pub struct Scalar {
    pub bits: u32,
}

/// How two numbers stand to each other.
#[derive(Clone, Copy, Debug, PartialEq, Eq, Structural)]
pub enum Relation {
    Less,
    Equal,
    Greater,
    /// At least one of the two is a NaN.
    Unordered,
}

impl Scalar {
    /// The bit pattern without its sign bit.
    pub open spec fn magnitude(self) -> int {
        if self.bits >= SIGN_BIT {
            self.bits - SIGN_BIT
        } else {
            self.bits as int
        }
    }

    /// The sign bit is set (also true of `-0.0` and of some NaNs).
    pub open spec fn sign_negative(self) -> bool {
        self.bits >= SIGN_BIT
    }

    pub open spec fn nan(self) -> bool {
        self.magnitude() > INFINITY_BITS
    }

    pub open spec fn infinite(self) -> bool {
        self.magnitude() == INFINITY_BITS
    }

    /// Zero, subnormal or normal.
    pub open spec fn finite(self) -> bool {
        self.magnitude() < INFINITY_BITS
    }

    pub open spec fn zero(self) -> bool {
        self.magnitude() == 0
    }

    /// An integer that orders as the number does: for numbers `a` and `b`
    /// that are not NaN, `a < b` exactly when `a.rank() < b.rank()`.
    /// Both zeros have rank 0.
    pub open spec fn rank(self) -> int {
        if self.sign_negative() {
            -self.magnitude()
        } else {
            self.magnitude()
        }
    }

    /// Numeric `<`: false whenever a NaN is involved.
    pub open spec fn lt(self, other: Scalar) -> bool {
        !self.nan() && !other.nan() && self.rank() < other.rank()
    }

    /// Numeric `==`: false whenever a NaN is involved, true of the two zeros.
    pub open spec fn same(self, other: Scalar) -> bool {
        !self.nan() && !other.nan() && self.rank() == other.rank()
    }

    /// Numeric `> 0`.
    pub open spec fn positive(self) -> bool {
        !self.nan() && self.rank() > 0
    }

    pub open spec fn relation(self, other: Scalar) -> Relation {
        if self.nan() || other.nan() {
            Relation::Unordered
        } else if self.rank() < other.rank() {
            Relation::Less
        } else if self.rank() > other.rank() {
            Relation::Greater
        } else {
            Relation::Equal
        }
    }

    /// The exponent field: 0 in zeros and subnormal numbers, 255 in
    /// infinities and NaNs.
    pub open spec fn exponent_field(self) -> int {
        self.magnitude() / (HIDDEN_BIT as int)
    }

    /// The fraction field.
    pub open spec fn fraction(self) -> int {
        self.magnitude() % (HIDDEN_BIT as int)
    }

    /// The fraction with the leading bit that a normal number does not store.
    pub open spec fn significand(self) -> int {
        if self.exponent_field() == 0 {
            self.fraction()
        } else {
            HIDDEN_BIT + self.fraction()
        }
    }

    /// How many times the significand is doubled.
    pub open spec fn doublings(self) -> nat {
        if self.exponent_field() == 0 {
            0
        } else {
            (self.exponent_field() - 1) as nat
        }
    }

    /// The absolute value of a finite number, counted in steps of the smallest
    /// subnormal number, 2 to the power of -149.
    pub open spec fn weight(self) -> int {
        self.significand() * pow2(self.doublings())
    }

    /// The value of a finite number, counted in steps of 2 to the power of
    /// -149: an integer, since every finite number is a multiple of that step.
    pub open spec fn steps(self) -> int {
        if self.sign_negative() {
            -self.weight()
        } else {
            self.weight()
        }
    }

    pub fn from_bits(bits: u32) -> (s: Scalar)
        ensures
            s.bits == bits,
    {
        Scalar { bits }
    }

    pub fn to_bits(&self) -> (bits: u32)
        ensures
            bits == self.bits,
    {
        self.bits
    }

    fn magnitude_bits(&self) -> (m: u32)
        ensures
            m == self.magnitude(),
    {
        if self.bits >= SIGN_BIT {
            self.bits - SIGN_BIT
        } else {
            self.bits
        }
    }

    fn rank_value(&self) -> (r: i64)
        ensures
            r == self.rank(),
    {
        let m: i64 = self.magnitude_bits() as i64;
        if self.bits >= SIGN_BIT {
            -m
        } else {
            m
        }
    }

    pub fn is_nan(&self) -> (b: bool)
        ensures
            b == self.nan(),
    {
        self.magnitude_bits() > INFINITY_BITS
    }

    pub fn is_finite(&self) -> (b: bool)
        ensures
            b == self.finite(),
    {
        self.magnitude_bits() < INFINITY_BITS
    }

    pub fn is_infinite(&self) -> (b: bool)
        ensures
            b == self.infinite(),
    {
        self.magnitude_bits() == INFINITY_BITS
    }

    pub fn is_sign_negative(&self) -> (b: bool)
        ensures
            b == self.sign_negative(),
    {
        self.bits >= SIGN_BIT
    }

    /// Numeric `self < other`.
    pub fn less_than(&self, other: &Scalar) -> (b: bool)
        ensures
            b == self.lt(*other),
    {
        !self.is_nan() && !other.is_nan() && self.rank_value() < other.rank_value()
    }

    /// Numeric `self > other`.
    pub fn greater_than(&self, other: &Scalar) -> (b: bool)
        ensures
            b == other.lt(*self),
    {
        other.less_than(self)
    }

    /// Numeric `self == other`.
    pub fn equals(&self, other: &Scalar) -> (b: bool)
        ensures
            b == self.same(*other),
    {
        !self.is_nan() && !other.is_nan() && self.rank_value() == other.rank_value()
    }

    /// Numeric `self > 0`.
    pub fn is_positive(&self) -> (b: bool)
        ensures
            b == self.positive(),
    {
        !self.is_nan() && self.rank_value() > 0
    }

    /// The three-way comparison of IEEE 754, with its fourth outcome.
    pub fn relate(&self, other: &Scalar) -> (r: Relation)
        ensures
            r == self.relation(*other),
    {
        if self.is_nan() || other.is_nan() {
            Relation::Unordered
        } else {
            let a: i64 = self.rank_value();
            let b: i64 = other.rank_value();
            if a < b {
                Relation::Less
            } else if a > b {
                Relation::Greater
            } else {
                Relation::Equal
            }
        }
    }
}

/// Numeric `<` is a strict order: nothing is less than itself, no two numbers
/// are each less than the other, and what is less than a number is less than
/// everything above that number.
pub proof fn lemma_lt_is_a_strict_order(a: Scalar, b: Scalar, c: Scalar)
    ensures
        !a.lt(a),
        a.lt(b) ==> !b.lt(a),
        a.lt(b) && b.lt(c) ==> a.lt(c),
{
}

/// Of two numbers that are not NaN exactly one holds: the first is less, the
/// two are equal, or the second is less.  Where one of them is a NaN, none
/// holds.
pub proof fn lemma_numbers_are_totally_ordered(a: Scalar, b: Scalar)
    ensures
        !a.nan() && !b.nan() ==> (a.lt(b) || a.same(b) || b.lt(a)),
        !(a.lt(b) && a.same(b)) && !(b.lt(a) && a.same(b)),
        a.nan() || b.nan() ==> !a.lt(b) && !a.same(b) && !b.lt(a),
        a.relation(b) == Relation::Less <==> a.lt(b),
        a.relation(b) == Relation::Greater <==> b.lt(a),
        a.relation(b) == Relation::Equal <==> a.same(b),
        a.relation(b) == Relation::Unordered <==> a.nan() || b.nan(),
{
}

/// Being equal as numbers is weaker than being the same bit pattern in one
/// case only, the two zeros, and stronger in one case only, that of a NaN.
pub proof fn lemma_same_and_equal_bits(a: Scalar, b: Scalar)
    ensures
        a.same(b) <==> !a.nan() && !b.nan() && (a.bits == b.bits || (a.zero() && b.zero())),
        a.positive() <==> (Scalar { bits: ZERO_BITS }).lt(a),
{
}

/// The weight of a finite number grows with its magnitude.
pub proof fn lemma_weight_grows(a: Scalar, b: Scalar)
    requires
        a.finite(),
        b.finite(),
        a.magnitude() < b.magnitude(),
    ensures
        0 <= a.weight() < b.weight(),
{
    let pa = pow2(a.doublings()) as int;
    let pb = pow2(b.doublings()) as int;
    let hidden = HIDDEN_BIT as int;
    lemma_pow2_pos(a.doublings());
    lemma_pow2_pos(b.doublings());
    lemma_mul_inequality(0, a.significand(), pa);
    if a.exponent_field() == b.exponent_field() {
        lemma_mul_strict_inequality(a.significand(), b.significand(), pb);
    } else {
        assert(a.exponent_field() < b.exponent_field());
        assert(hidden * pb <= b.significand() * pb) by {
            lemma_mul_inequality(hidden, b.significand(), pb);
        }
        if a.exponent_field() == 0 {
            assert(pow2(0) == 1) by {
                lemma_pow2_unfold(1);
                vstd::arithmetic::power2::lemma2_to64();
            }
            assert(a.weight() == a.fraction()) by (nonlinear_arith)
                requires
                    a.weight() == a.fraction() * pa,
                    pa == 1,
            ;
            assert(hidden <= hidden * pb) by (nonlinear_arith)
                requires
                    pb >= 1,
                    hidden >= 0,
            ;
        } else {
            let next = pow2(a.doublings() + 1) as int;
            assert(next == 2 * pa) by {
                lemma_pow2_unfold(a.doublings() + 1);
            }
            assert(next <= pb) by {
                if a.doublings() + 1 < b.doublings() {
                    lemma_pow2_strictly_increases(a.doublings() + 1, b.doublings());
                }
            }
            assert(a.significand() * pa < 2 * hidden * pa) by {
                lemma_mul_strict_inequality(a.significand(), 2 * hidden, pa);
            }
            assert(2 * hidden * pa == hidden * next) by (nonlinear_arith)
                requires
                    next == 2 * pa,
            ;
            assert(hidden * next <= hidden * pb) by (nonlinear_arith)
                requires
                    next <= pb,
                    hidden >= 0,
            ;
        }
    }
}

/// The order of the bit patterns is the order of the numbers they stand for:
/// of two finite numbers the first is less exactly when it is fewer steps of
/// 2 to the power of -149 from zero upward, and they are equal exactly when
/// they are equally many.
pub proof fn lemma_order_is_that_of_values(a: Scalar, b: Scalar)
    requires
        a.finite(),
        b.finite(),
    ensures
        a.lt(b) <==> a.steps() < b.steps(),
        a.same(b) <==> a.steps() == b.steps(),
{
    if a.magnitude() < b.magnitude() {
        lemma_weight_grows(a, b);
    } else if b.magnitude() < a.magnitude() {
        lemma_weight_grows(b, a);
    }
    lemma_weight_of_zero(a);
    lemma_weight_of_zero(b);
}

/// Only the two zeros weigh nothing.
pub proof fn lemma_weight_of_zero(a: Scalar)
    requires
        a.finite(),
    ensures
        a.weight() >= 0,
        a.weight() == 0 <==> a.zero(),
{
    let zero = Scalar { bits: 0 };
    assert(zero.weight() == 0) by {
        assert(zero.significand() == 0);
        assert(0 * pow2(zero.doublings()) == 0) by (nonlinear_arith);
    }
    if a.magnitude() > 0 {
        lemma_weight_grows(zero, a);
    } else {
        assert(a.significand() == 0);
        assert(0 * pow2(a.doublings()) == 0) by (nonlinear_arith);
    }
}

/// The infinities lie beyond every finite number, and each on its side.
pub proof fn lemma_infinities_bound_the_numbers(a: Scalar)
    requires
        a.finite(),
    ensures
        a.lt(Scalar { bits: INFINITY_BITS }),
        (Scalar { bits: MINUS_INFINITY_BITS }).lt(a),
{
}

} // verus!
