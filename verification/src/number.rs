//! JSON numbers.
//!
//! A number is an IEEE-754 binary64 value, held by its bit pattern: one sign
//! bit, eleven exponent bits and fifty-two fraction bits. Every finite pattern
//! stands for an integer multiple of 2^-1074, so the value of a number is
//! modelled exactly by the integer `scaled()`, its value times 2^1074.
//! Executable code never touches the value itself: it orders numbers by
//! `rank`, a signed reading of the pattern, and `lemma_rank_orders_values`
//! proves that the two orders are the same.

use vstd::arithmetic::power2::{
    lemma2_to64, lemma_pow2_pos, lemma_pow2_strictly_increases, lemma_pow2_unfold, pow2,
};
use vstd::prelude::*;

verus! {

/// The pattern with only the sign bit set.
pub const SIGN_BIT: u64 = 0x8000_0000_0000_0000;

/// 2^52: the weight of the lowest exponent bit, and the implicit leading bit
/// of a normal significand.
pub const HIDDEN_BIT: u64 = 0x0010_0000_0000_0000;

/// The magnitude of an infinity: all exponent bits set, no fraction bit set.
pub const INFINITY_BITS: u64 = 0x7FF0_0000_0000_0000;

/// A JSON number: a binary64 bit pattern.
#[derive(Clone, Copy, Debug)]
pub struct Number {
    pub bits: u64,
}

impl Number {
    /// The sign bit is set.
    pub open spec fn negative(self) -> bool {
        self.bits >= SIGN_BIT
    }

    /// The pattern without its sign bit.
    pub open spec fn magnitude(self) -> nat {
        if self.bits >= SIGN_BIT {
            (self.bits - SIGN_BIT) as nat
        } else {
            self.bits as nat
        }
    }

    /// The exponent field, 0 to 2047.
    pub open spec fn exponent(self) -> nat {
        self.magnitude() / (HIDDEN_BIT as nat)
    }

    /// The fraction field, below 2^52.
    pub open spec fn fraction(self) -> nat {
        self.magnitude() % (HIDDEN_BIT as nat)
    }

    /// Neither an infinity nor a NaN.
    pub open spec fn finite(self) -> bool {
        self.exponent() < 2047
    }

    /// Not a number: all exponent bits set and some fraction bit set.
    pub open spec fn nan(self) -> bool {
        self.exponent() == 2047 && self.fraction() != 0
    }

    /// Positive or negative zero.
    pub open spec fn zero(self) -> bool {
        self.magnitude() == 0
    }

    /// The significand: subnormal patterns have no implicit leading bit.
    pub open spec fn significand(self) -> nat {
        if self.exponent() == 0 {
            self.fraction()
        } else {
            HIDDEN_BIT as nat + self.fraction()
        }
    }

    /// The power of two by which the significand is multiplied in `scaled`.
    pub open spec fn shift(self) -> nat {
        if self.exponent() == 0 {
            0
        } else {
            (self.exponent() - 1) as nat
        }
    }

    /// The absolute value of a finite number, times 2^1074.
    pub open spec fn size(self) -> nat {
        self.significand() * pow2(self.shift())
    }

    /// The value of a finite number, times 2^1074.
    pub open spec fn scaled(self) -> int {
        if self.negative() {
            -(self.size() as int)
        } else {
            self.size() as int
        }
    }

    /// The pattern read as sign and magnitude.
    pub open spec fn rank_of(self) -> int {
        if self.negative() {
            -(self.magnitude() as int)
        } else {
            self.magnitude() as int
        }
    }

    /// IEEE equality: a NaN equals nothing, the two zeros equal each other,
    /// and any other number equals only its own pattern.
    pub open spec fn same_as(self, other: Number) -> bool {
        &&& !self.nan()
        &&& !other.nan()
        &&& (self.bits == other.bits || (self.zero() && other.zero()))
    }

    /// The number with the given pattern.
    pub fn from_bits(bits: u64) -> (number: Number)
        ensures
            number.bits == bits,
    {
        Number { bits }
    }

    /// The pattern of this number.
    pub fn to_bits(&self) -> (bits: u64)
        ensures
            bits == self.bits,
    {
        self.bits
    }

    fn magnitude_bits(&self) -> (magnitude: u64)
        ensures
            magnitude == self.magnitude(),
            magnitude < SIGN_BIT,
    {
        if self.bits >= SIGN_BIT {
            self.bits - SIGN_BIT
        } else {
            self.bits
        }
    }

    /// Whether this number is neither an infinity nor a NaN.
    pub fn is_finite(&self) -> (finite: bool)
        ensures
            finite == self.finite(),
    {
        self.magnitude_bits() < INFINITY_BITS
    }

    /// Whether this number is a NaN.
    pub fn is_nan(&self) -> (nan: bool)
        ensures
            nan == self.nan(),
    {
        self.magnitude_bits() > INFINITY_BITS
    }

    /// The rank of a finite number; `None` for an infinity or a NaN.
    ///
    /// Ranks order finite numbers as their values do: see
    /// `lemma_rank_orders_values`.
    pub fn rank(&self) -> (rank: Option<i64>)
        ensures
            rank is Some <==> self.finite(),
            rank matches Some(r) ==> r == self.rank_of(),
    {
        let magnitude: u64 = self.magnitude_bits();
        if magnitude >= INFINITY_BITS {
            None
        } else if self.bits >= SIGN_BIT {
            Some(-(magnitude as i64))
        } else {
            Some(magnitude as i64)
        }
    }

    /// IEEE equality of two numbers.
    pub fn equals(&self, other: &Number) -> (equal: bool)
        ensures
            equal == self.same_as(*other),
    {
        if self.is_nan() || other.is_nan() {
            false
        } else if self.bits == other.bits {
            true
        } else {
            self.magnitude_bits() == 0 && other.magnitude_bits() == 0
        }
    }
}

impl PartialEq for Number {
    /// `==` on numbers is IEEE equality.
    fn eq(&self, other: &Number) -> (equal: bool) {
        self.equals(other)
    }
}

impl vstd::std_specs::cmp::PartialEqSpecImpl for Number {
    open spec fn obeys_eq_spec() -> bool {
        true
    }

    open spec fn eq_spec(&self, other: &Number) -> bool {
        self.same_as(*other)
    }
}

/// The size of a finite number grows strictly with its magnitude.
proof fn lemma_size_grows(a: Number, b: Number)
    requires
        a.finite(),
        b.finite(),
        a.magnitude() < b.magnitude(),
    ensures
        a.size() < b.size(),
{
    let hidden = HIDDEN_BIT as nat;
    let pa = pow2(a.shift());
    let pb = pow2(b.shift());
    lemma_pow2_pos(a.shift());
    lemma_pow2_pos(b.shift());
    assert(a.exponent() <= b.exponent()) by (nonlinear_arith)
        requires
            a.magnitude() < b.magnitude(),
            a.exponent() == a.magnitude() / hidden,
            b.exponent() == b.magnitude() / hidden,
            hidden > 0,
    ;
    if a.exponent() == b.exponent() {
        assert(a.significand() * pa < b.significand() * pa) by (nonlinear_arith)
            requires
                a.significand() < b.significand(),
                pa > 0,
        ;
    } else if a.exponent() == 0 {
        lemma2_to64();
        assert(a.size() == a.significand()) by (nonlinear_arith)
            requires
                a.size() == a.significand() * pa,
                pa == 1,
        ;
        assert(b.significand() <= b.significand() * pb) by (nonlinear_arith)
            requires
                pb >= 1,
        ;
    } else {
        // The sizes with exponent field e fill the range from 2^52 * 2^(e-1)
        // up to, not including, 2^52 * 2^e.
        lemma_pow2_unfold((a.shift() + 1) as nat);
        if a.shift() + 1 < b.shift() {
            lemma_pow2_strictly_increases((a.shift() + 1) as nat, b.shift());
        }
        assert(a.significand() * pa < hidden * pb) by (nonlinear_arith)
            requires
                a.significand() < 2 * hidden,
                2 * pa <= pb,
                pa > 0,
        ;
        assert(hidden * pb <= b.significand() * pb) by (nonlinear_arith)
            requires
                hidden <= b.significand(),
        ;
    }
}

/// Ranks order finite numbers exactly as their values do, and two finite
/// numbers have one rank exactly when they have one value.
pub proof fn lemma_rank_orders_values(a: Number, b: Number)
    requires
        a.finite(),
        b.finite(),
    ensures
        a.rank_of() < b.rank_of() <==> a.scaled() < b.scaled(),
        a.rank_of() == b.rank_of() <==> a.scaled() == b.scaled(),
{
    let origin = Number { bits: 0 };
    assert(origin.size() == 0) by (nonlinear_arith)
        requires
            origin.size() == origin.significand() * pow2(origin.shift()),
            origin.significand() == 0,
    ;
    if a.magnitude() > 0 {
        lemma_size_grows(origin, a);
    } else {
        assert(a.size() == 0) by (nonlinear_arith)
            requires
                a.size() == a.significand() * pow2(a.shift()),
                a.significand() == 0,
        ;
    }
    if b.magnitude() > 0 {
        lemma_size_grows(origin, b);
    } else {
        assert(b.size() == 0) by (nonlinear_arith)
            requires
                b.size() == b.significand() * pow2(b.shift()),
                b.significand() == 0,
        ;
    }
    if a.magnitude() < b.magnitude() {
        lemma_size_grows(a, b);
    } else if b.magnitude() < a.magnitude() {
        lemma_size_grows(b, a);
    }
}

/// On finite numbers IEEE equality is equality of values.
pub proof fn lemma_same_is_equal_value(a: Number, b: Number)
    requires
        a.finite(),
        b.finite(),
    ensures
        a.same_as(b) <==> a.scaled() == b.scaled(),
{
    lemma_rank_orders_values(a, b);
}

} // verus!
