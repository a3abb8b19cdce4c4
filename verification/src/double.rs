//! IEEE 754 binary64 numbers as bit patterns.
//!
//! Order and equality are decided here, on the bits. Rounding arithmetic is
//! done by the `rustc_apfloat` soft-float implementation; its results are
//! named by the uninterpreted functions below, and nothing more is claimed
//! of them than that they are functions of their operands.

use vstd::prelude::*;

verus! {

/// The sign bit of a double.
pub const SIGN_BIT: u64 = 0x8000_0000_0000_0000;

/// The bit pattern of positive infinity; every magnitude above it is a NaN.
pub const INFINITY_BITS: u64 = 0x7ff0_0000_0000_0000;

/// The bit pattern of `+0.0`.
pub const ZERO_BITS: u64 = 0;

/// The bit pattern of `2.0`.
pub const TWO_BITS: u64 = 0x4000_0000_0000_0000;

/// The bit pattern of the double nearest to `1.1`.
pub const ELEVEN_TENTHS_BITS: u64 = 0x3ff1_9999_9999_999a;

/// The bit pattern of `1_000_000.0`, the number of microseconds in a second.
pub const MICROS_PER_SECOND_BITS: u64 = 0x412e_8480_0000_0000;

/// The bits of the double that `rustc_apfloat` gives for `a + b`, rounding to
/// nearest, ties to even.
pub uninterp spec fn double_sum(a: u64, b: u64) -> u64;

/// The bits of the double that `rustc_apfloat` gives for `a - b`, rounding to
/// nearest, ties to even.
pub uninterp spec fn double_difference(a: u64, b: u64) -> u64;

/// The bits of the double that `rustc_apfloat` gives for `a * b`, rounding to
/// nearest, ties to even.
pub uninterp spec fn double_product(a: u64, b: u64) -> u64;

/// The bits of the double that `rustc_apfloat` gives for `a / b`, rounding to
/// nearest, ties to even.
pub uninterp spec fn double_quotient(a: u64, b: u64) -> u64;

/// The bits of the double that `rustc_apfloat` gives for the integer `i`,
/// rounded to nearest, ties to even.
pub uninterp spec fn double_from_int(i: i128) -> u64;

/// `rustc_apfloat`'s `Add` on `ieee::Double`, from bits to bits. The result is
/// a function of the two operands; the contract gives it its name.
#[verifier::external_body]
fn add_bits(a: u64, b: u64) -> (r: u64)
    ensures
        r == double_sum(a, b),
{
    let x = <rustc_apfloat::ieee::Double as rustc_apfloat::Float>::from_bits(a as u128);
    let y = <rustc_apfloat::ieee::Double as rustc_apfloat::Float>::from_bits(b as u128);
    rustc_apfloat::Float::to_bits((x + y).value) as u64
}

/// `rustc_apfloat`'s `Sub` on `ieee::Double`, from bits to bits. The result is
/// a function of the two operands; the contract gives it its name.
#[verifier::external_body]
fn sub_bits(a: u64, b: u64) -> (r: u64)
    ensures
        r == double_difference(a, b),
{
    let x = <rustc_apfloat::ieee::Double as rustc_apfloat::Float>::from_bits(a as u128);
    let y = <rustc_apfloat::ieee::Double as rustc_apfloat::Float>::from_bits(b as u128);
    rustc_apfloat::Float::to_bits((x - y).value) as u64
}

/// `rustc_apfloat`'s `Mul` on `ieee::Double`, from bits to bits. The result is
/// a function of the two operands; the contract gives it its name.
#[verifier::external_body]
fn mul_bits(a: u64, b: u64) -> (r: u64)
    ensures
        r == double_product(a, b),
{
    let x = <rustc_apfloat::ieee::Double as rustc_apfloat::Float>::from_bits(a as u128);
    let y = <rustc_apfloat::ieee::Double as rustc_apfloat::Float>::from_bits(b as u128);
    rustc_apfloat::Float::to_bits((x * y).value) as u64
}

/// `rustc_apfloat`'s `Div` on `ieee::Double`, from bits to bits. The result is
/// a function of the two operands; the contract gives it its name.
#[verifier::external_body]
fn div_bits(a: u64, b: u64) -> (r: u64)
    ensures
        r == double_quotient(a, b),
{
    let x = <rustc_apfloat::ieee::Double as rustc_apfloat::Float>::from_bits(a as u128);
    let y = <rustc_apfloat::ieee::Double as rustc_apfloat::Float>::from_bits(b as u128);
    rustc_apfloat::Float::to_bits((x / y).value) as u64
}

/// `rustc_apfloat`'s `Float::from_i128` for `ieee::Double`, to bits. The
/// result is a function of the integer; the contract gives it its name.
#[verifier::external_body]
fn int_bits(i: i128) -> (r: u64)
    ensures
        r == double_from_int(i),
{
    let x = <rustc_apfloat::ieee::Double as rustc_apfloat::Float>::from_i128(i);
    rustc_apfloat::Float::to_bits(x.value) as u64
}

/// An IEEE 754 binary64 number, held as its bit pattern.
///
/// The derived `==` is identity of bit patterns. Numeric comparison, under
/// which `-0.0` equals `+0.0` and a NaN equals nothing, is [`Double::num_eq`]
/// and its companions.
#[derive(Clone, Copy, Debug, PartialEq, Eq, Hash, Structural)]
pub struct Double {
    pub bits: u64,
}

impl Double {
    /// The bit pattern without its sign bit.
    pub open spec fn magnitude(self) -> int {
        if self.bits >= SIGN_BIT {
            self.bits - SIGN_BIT
        } else {
            self.bits as int
        }
    }

    /// Whether the pattern is a NaN: a magnitude above that of infinity.
    pub open spec fn spec_is_nan(self) -> bool {
        self.magnitude() > INFINITY_BITS
    }

    /// The place of a number that is no NaN on the number line: its
    /// magnitude, negated under a sign bit. Both zeros have rank 0.
    pub open spec fn rank(self) -> int {
        if self.bits >= SIGN_BIT {
            -self.magnitude()
        } else {
            self.magnitude()
        }
    }

    /// IEEE `<`: false when either side is a NaN.
    pub open spec fn spec_lt(self, other: Double) -> bool {
        !self.spec_is_nan() && !other.spec_is_nan() && self.rank() < other.rank()
    }

    /// IEEE `==`: false when either side is a NaN.
    pub open spec fn spec_num_eq(self, other: Double) -> bool {
        !self.spec_is_nan() && !other.spec_is_nan() && self.rank() == other.rank()
    }

    /// IEEE `!=`: the negation of `==`, so true when either side is a NaN.
    pub open spec fn spec_num_ne(self, other: Double) -> bool {
        !self.spec_num_eq(other)
    }

    /// IEEE `>=`: false when either side is a NaN.
    pub open spec fn spec_ge(self, other: Double) -> bool {
        !self.spec_is_nan() && !other.spec_is_nan() && self.rank() >= other.rank()
    }

    /// IEEE `>`: false when either side is a NaN.
    pub open spec fn spec_gt(self, other: Double) -> bool {
        other.spec_lt(self)
    }

    /// The rounded sum.
    pub open spec fn spec_plus(self, rhs: Double) -> Double {
        Double { bits: double_sum(self.bits, rhs.bits) }
    }

    /// The rounded difference.
    pub open spec fn spec_minus(self, rhs: Double) -> Double {
        Double { bits: double_difference(self.bits, rhs.bits) }
    }

    /// The rounded product.
    pub open spec fn spec_times(self, rhs: Double) -> Double {
        Double { bits: double_product(self.bits, rhs.bits) }
    }

    /// The rounded quotient.
    pub open spec fn spec_over(self, rhs: Double) -> Double {
        Double { bits: double_quotient(self.bits, rhs.bits) }
    }

    /// The double nearest to an integer.
    pub open spec fn spec_from_int(i: i128) -> Double {
        Double { bits: double_from_int(i) }
    }

    /// `+0.0`.
    pub open spec fn spec_zero() -> Double {
        Double { bits: ZERO_BITS }
    }

    /// The double of the given bit pattern.
    pub fn from_bits(bits: u64) -> (r: Double)
        ensures
            r.bits == bits,
    {
        Double { bits }
    }

    /// The bit pattern.
    pub fn to_bits(self) -> (r: u64)
        ensures
            r == self.bits,
    {
        self.bits
    }

    /// `+0.0`.
    #[verifier::when_used_as_spec(spec_zero)]
    pub fn zero() -> (r: Double)
        ensures
            r == Double::spec_zero(),
    {
        Double { bits: ZERO_BITS }
    }

    /// Whether the number is a NaN.
    #[verifier::when_used_as_spec(spec_is_nan)]
    pub fn is_nan(self) -> (r: bool)
        ensures
            r == self.spec_is_nan(),
    {
        if self.bits >= SIGN_BIT {
            self.bits - SIGN_BIT > INFINITY_BITS
        } else {
            self.bits > INFINITY_BITS
        }
    }

    /// The rank of a number on the number line, as a machine integer.
    fn rank_exec(self) -> (r: i128)
        ensures
            r == self.rank(),
    {
        if self.bits >= SIGN_BIT {
            let m: u64 = self.bits - SIGN_BIT;
            let wide: i128 = m as i128;
            -wide
        } else {
            self.bits as i128
        }
    }

    /// IEEE `<`.
    #[verifier::when_used_as_spec(spec_lt)]
    pub fn lt(self, other: Double) -> (r: bool)
        ensures
            r == self.spec_lt(other),
    {
        !self.is_nan() && !other.is_nan() && self.rank_exec() < other.rank_exec()
    }

    /// IEEE `==`.
    #[verifier::when_used_as_spec(spec_num_eq)]
    pub fn num_eq(self, other: Double) -> (r: bool)
        ensures
            r == self.spec_num_eq(other),
    {
        !self.is_nan() && !other.is_nan() && self.rank_exec() == other.rank_exec()
    }

    /// IEEE `!=`.
    #[verifier::when_used_as_spec(spec_num_ne)]
    pub fn num_ne(self, other: Double) -> (r: bool)
        ensures
            r == self.spec_num_ne(other),
    {
        !self.num_eq(other)
    }

    /// IEEE `>=`.
    #[verifier::when_used_as_spec(spec_ge)]
    pub fn ge(self, other: Double) -> (r: bool)
        ensures
            r == self.spec_ge(other),
    {
        !self.is_nan() && !other.is_nan() && self.rank_exec() >= other.rank_exec()
    }

    /// IEEE `>`.
    #[verifier::when_used_as_spec(spec_gt)]
    pub fn gt(self, other: Double) -> (r: bool)
        ensures
            r == self.spec_gt(other),
    {
        other.lt(self)
    }

    /// The rounded sum.
    #[verifier::when_used_as_spec(spec_plus)]
    pub fn plus(self, rhs: Double) -> (r: Double)
        ensures
            r == self.spec_plus(rhs),
    {
        Double { bits: add_bits(self.bits, rhs.bits) }
    }

    /// The rounded difference.
    #[verifier::when_used_as_spec(spec_minus)]
    pub fn minus(self, rhs: Double) -> (r: Double)
        ensures
            r == self.spec_minus(rhs),
    {
        Double { bits: sub_bits(self.bits, rhs.bits) }
    }

    /// The rounded product.
    #[verifier::when_used_as_spec(spec_times)]
    pub fn times(self, rhs: Double) -> (r: Double)
        ensures
            r == self.spec_times(rhs),
    {
        Double { bits: mul_bits(self.bits, rhs.bits) }
    }

    /// The rounded quotient.
    #[verifier::when_used_as_spec(spec_over)]
    pub fn over(self, rhs: Double) -> (r: Double)
        ensures
            r == self.spec_over(rhs),
    {
        Double { bits: div_bits(self.bits, rhs.bits) }
    }

    /// The double nearest to an integer.
    #[verifier::when_used_as_spec(spec_from_int)]
    pub fn from_int(i: i128) -> (r: Double)
        ensures
            r == Double::spec_from_int(i),
    {
        Double { bits: int_bits(i) }
    }
}

/// A value that is less than another differs from it.
pub proof fn lemma_lt_implies_ne(a: Double, b: Double)
    ensures
        a.spec_lt(b) ==> a.spec_num_ne(b),
{
}

} // verus!
