//! Double-precision numbers as the library sees them: by their 64-bit patterns.
//!
//! Classification, ordering and the conversion to a colour channel are exact
//! functions of the pattern. They are stated here over what the pattern
//! denotes, and proved for the integer code that computes them. Arithmetic on
//! doubles is the host's business; its results come in as patterns.

use vstd::prelude::*;
use vstd::arithmetic::div_mod::*;
use vstd::arithmetic::mul::*;
use vstd::arithmetic::power2::*;

verus! {

/// Pattern of the sign bit, which is also that of minus zero.
pub const SIGN_MASK: u64 = 0x8000_0000_0000_0000;

/// Pattern of positive infinity: all exponent bits set, no fraction bit.
pub const INFINITY_BITS: u64 = 0x7ff0_0000_0000_0000;

/// Two to the power 52: the weight of the hidden bit, and of one exponent step.
pub const HIDDEN_BIT: u64 = 0x0010_0000_0000_0000;

/// Pattern of 1.0.
pub const ONE_BITS: u64 = 0x3ff0_0000_0000_0000;

/// Pattern of 255.0.
pub const BYTE_MAX_BITS: u64 = 0x406f_e000_0000_0000;

/// What a pattern denotes. A finite double is a whole multiple of the
/// smallest subnormal, two to the power -1074: `Finite(n)` is `n` such units.
/// Both zeros denote `Finite(0)`.
pub enum Value {
    Nan,
    NegInfinity,
    Finite(int),
    Infinity,
}

impl Value {
    /// Numeric `<`. Nothing is below or above a NaN.
    pub open spec fn lt(self, other: Value) -> bool {
        match (self, other) {
            (Value::Nan, _) => false,
            (_, Value::Nan) => false,
            (Value::NegInfinity, Value::NegInfinity) => false,
            (Value::NegInfinity, _) => true,
            (_, Value::NegInfinity) => false,
            (Value::Infinity, _) => false,
            (_, Value::Infinity) => true,
            (Value::Finite(a), Value::Finite(b)) => a < b,
        }
    }

    /// Numeric `<=`: below, or equal and not NaN.
    pub open spec fn le(self, other: Value) -> bool {
        self.lt(other) || (self == other && self != Value::Nan)
    }

    /// The whole part of the number, held to the range of a byte: 0 for
    /// anything below one and for NaN, 255 for anything from 255 up.
    pub open spec fn to_byte(self) -> u8 {
        match self {
            Value::Nan => 0,
            Value::NegInfinity => 0,
            Value::Infinity => 255,
            Value::Finite(n) => {
                let whole = n / (pow2(1074) as int);
                if n < 0 {
                    0
                } else if whole > 255 {
                    255
                } else {
                    whole as u8
                }
            },
        }
    }
}

/// A double-precision number, held as its pattern. `==` on this type compares
/// patterns: it tells the two zeros apart and finds a NaN equal to itself.
#[derive(Debug, Clone, Copy, PartialEq, Eq, Structural)]
pub struct Double {
    pub bits: u64,
}

impl View for Double {
    type V = Value;

    /// An exponent of all ones marks infinity, or NaN where a fraction bit is
    /// set. Every other pattern is finite.
    open spec fn view(&self) -> Value {
        if self.biased_exponent() == 2047 {
            if self.fraction() != 0 {
                Value::Nan
            } else if self.negative() {
                Value::NegInfinity
            } else {
                Value::Infinity
            }
        } else if self.negative() {
            Value::Finite(-(self.units() as int))
        } else {
            Value::Finite(self.units() as int)
        }
    }
}

impl Double {
    /// The sign bit is set.
    pub open spec fn negative(self) -> bool {
        self.bits >= SIGN_MASK
    }

    /// The pattern without its sign bit.
    pub open spec fn magnitude(self) -> nat {
        if self.bits >= SIGN_MASK {
            (self.bits - SIGN_MASK) as nat
        } else {
            self.bits as nat
        }
    }

    /// The eleven exponent bits.
    pub open spec fn biased_exponent(self) -> nat {
        self.magnitude() / (HIDDEN_BIT as nat)
    }

    /// The fifty-two fraction bits.
    pub open spec fn fraction(self) -> nat {
        self.magnitude() % (HIDDEN_BIT as nat)
    }

    /// The absolute value of a finite pattern, in units of two to the -1074.
    /// With exponent bits of zero the fraction counts the units. Otherwise
    /// the hidden bit joins the fraction, and each exponent step doubles.
    pub open spec fn units(self) -> nat {
        if self.biased_exponent() == 0 {
            self.fraction()
        } else {
            (HIDDEN_BIT + self.fraction()) as nat * pow2((self.biased_exponent() - 1) as nat)
        }
    }

    /// Place in the numeric order of the patterns that are not NaN. The two
    /// zeros share a place.
    pub open spec fn numeric_key(self) -> int {
        if self.negative() {
            -(self.magnitude() as int)
        } else {
            self.magnitude() as int
        }
    }

    /// Place in the total order of all patterns: negative NaNs, negative
    /// infinity, the negative numbers, minus zero, plus zero, the positive
    /// numbers, infinity, positive NaNs.
    pub open spec fn total_key(self) -> int {
        if self.negative() {
            -1 - self.magnitude()
        } else {
            self.magnitude() as int
        }
    }

    /// The pattern denotes no number.
    pub open spec fn is_nan_spec(self) -> bool {
        self@ == Value::Nan
    }

    /// The smaller of two numbers; the other one where one is NaN, and `self`
    /// where they are equal.
    pub open spec fn min_spec(self, other: Double) -> Double {
        if self@ == Value::Nan {
            other
        } else if other@.lt(self@) {
            other
        } else {
            self
        }
    }

    pub open spec fn spec_zero() -> Double {
        Double { bits: 0 }
    }

    pub open spec fn spec_one() -> Double {
        Double { bits: ONE_BITS }
    }

    pub open spec fn spec_infinity() -> Double {
        Double { bits: INFINITY_BITS }
    }

    /// Numbers compare as their numeric keys do.
    pub proof fn lemma_lt_by_key(self, other: Double)
        requires
            self@ != Value::Nan,
            other@ != Value::Nan,
        ensures
            self@.lt(other@) == (self.numeric_key() < other.numeric_key()),
            self@.le(other@) == (self.numeric_key() <= other.numeric_key()),
            (self@ == other@) == (self.numeric_key() == other.numeric_key()),
    {
        let ma = self.magnitude();
        let mb = other.magnitude();
        let zero = Double { bits: 0 };
        assert(zero.units() == 0);
        if ma < mb {
            if other.biased_exponent() < 2047 {
                lemma_units_increase(self, other);
            }
        } else if mb < ma {
            if self.biased_exponent() < 2047 {
                lemma_units_increase(other, self);
            }
        } else {
            assert(self.units() == other.units());
        }
        if 0 < ma && self.biased_exponent() < 2047 {
            lemma_units_increase(zero, self);
        }
        if 0 < mb && other.biased_exponent() < 2047 {
            lemma_units_increase(zero, other);
        }
    }

    /// The total order keeps the numeric order: what is numerically below
    /// comes before.
    pub proof fn lemma_total_order_keeps_numeric(self, other: Double)
        requires
            self@.lt(other@),
        ensures
            self.total_key() < other.total_key(),
    {
        self.lemma_lt_by_key(other);
    }

    /// Each pattern has a place of its own in the total order.
    pub proof fn lemma_total_key_names_pattern(self, other: Double)
        requires
            self.total_key() == other.total_key(),
        ensures
            self == other,
    {
    }

    pub fn from_bits(bits: u64) -> (d: Double)
        ensures
            d.bits == bits,
    {
        Double { bits }
    }

    pub fn to_bits(self) -> (bits: u64)
        ensures
            bits == self.bits,
    {
        self.bits
    }

    /// Plus zero.
    #[verifier::when_used_as_spec(spec_zero)]
    pub fn zero() -> (d: Double)
        ensures
            d == Double::spec_zero(),
            d@ == Value::Finite(0),
    {
        Double { bits: 0 }
    }

    /// One.
    #[verifier::when_used_as_spec(spec_one)]
    pub fn one() -> (d: Double)
        ensures
            d == Double::spec_one(),
            d@ == Value::Finite(pow2(1074) as int),
    {
        proof {
            lemma_units_of_one_and_byte_max();
        }
        Double { bits: ONE_BITS }
    }

    /// Positive infinity.
    #[verifier::when_used_as_spec(spec_infinity)]
    pub fn infinity() -> (d: Double)
        ensures
            d == Double::spec_infinity(),
            d@ == Value::Infinity,
    {
        Double { bits: INFINITY_BITS }
    }

    /// The pattern without its sign bit.
    fn abs_bits(self) -> (m: u64)
        ensures
            m == self.magnitude(),
            m < SIGN_MASK,
    {
        if self.bits >= SIGN_MASK {
            self.bits - SIGN_MASK
        } else {
            self.bits
        }
    }

    fn key(self) -> (k: i64)
        ensures
            k == self.numeric_key(),
    {
        let m: u64 = self.abs_bits();
        if self.bits >= SIGN_MASK {
            -(m as i64)
        } else {
            m as i64
        }
    }

    /// Whether the pattern denotes no number.
    #[verifier::when_used_as_spec(is_nan_spec)]
    pub fn is_nan(self) -> (nan: bool)
        ensures
            nan == (self@ == Value::Nan),
    {
        self.abs_bits() > INFINITY_BITS
    }

    /// `self < other`, as the numbers compare.
    pub fn lt(self, other: Double) -> (below: bool)
        ensures
            below == self@.lt(other@),
    {
        if self.is_nan() || other.is_nan() {
            false
        } else {
            proof {
                self.lemma_lt_by_key(other);
            }
            self.key() < other.key()
        }
    }

    /// `self <= other`, as the numbers compare.
    pub fn le(self, other: Double) -> (within: bool)
        ensures
            within == self@.le(other@),
    {
        if self.is_nan() || other.is_nan() {
            false
        } else {
            proof {
                self.lemma_lt_by_key(other);
            }
            self.key() <= other.key()
        }
    }

    /// `self > other`, as the numbers compare.
    pub fn gt(self, other: Double) -> (above: bool)
        ensures
            above == other@.lt(self@),
    {
        other.lt(self)
    }

    /// `self >= other`, as the numbers compare.
    pub fn ge(self, other: Double) -> (within: bool)
        ensures
            within == other@.le(self@),
    {
        other.le(self)
    }

    /// Whether `self` comes before `other` in the total order of the patterns.
    pub fn total_lt(self, other: Double) -> (before: bool)
        ensures
            before == (self.total_key() < other.total_key()),
    {
        let a: u64 = self.abs_bits();
        let b: u64 = other.abs_bits();
        let ka: i64 = if self.bits >= SIGN_MASK {
            -1 - (a as i64)
        } else {
            a as i64
        };
        let kb: i64 = if other.bits >= SIGN_MASK {
            -1 - (b as i64)
        } else {
            b as i64
        };
        ka < kb
    }

    /// The smaller of two numbers.
    #[verifier::when_used_as_spec(min_spec)]
    pub fn min(self, other: Double) -> (least: Double)
        ensures
            least == self.min_spec(other),
    {
        if self.is_nan() {
            other
        } else if other.lt(self) {
            other
        } else {
            self
        }
    }

    /// The number as a colour channel: its whole part, held to `0..=255`.
    pub fn to_u8(self) -> (byte: u8)
        ensures
            byte == self@.to_byte(),
    {
        let m: u64 = self.abs_bits();
        if m > INFINITY_BITS || self.bits >= SIGN_MASK {
            proof {
                if self.units() == 0 {
                    lemma_pow2_pos(1074);
                    lemma_basic_div(0, pow2(1074) as int);
                }
            }
            0
        } else if m < ONE_BITS {
            proof {
                lemma_units_of_one_and_byte_max();
                lemma_units_increase(self, Double::spec_one());
                lemma_basic_div(self.units() as int, pow2(1074) as int);
            }
            0
        } else if m >= BYTE_MAX_BITS {
            proof {
                if m < INFINITY_BITS {
                    let unit = pow2(1074) as int;
                    lemma_pow2_pos(1074);
                    lemma_units_of_one_and_byte_max();
                    if m > BYTE_MAX_BITS {
                        lemma_units_increase(Double { bits: BYTE_MAX_BITS }, self);
                    }
                    lemma_div_by_multiple(255, unit);
                    lemma_div_is_ordered(255 * unit, self.units() as int, unit);
                }
            }
            255
        } else {
            let e: u64 = m / HIDDEN_BIT;
            let significand: u64 = HIDDEN_BIT + m % HIDDEN_BIT;
            let shift: u64 = 1075 - e;
            proof {
                let low = pow2((e - 1) as nat) as int;
                let high = pow2(shift as nat) as int;
                lemma_pow2_pos((e - 1) as nat);
                lemma_pow2_pos(shift as nat);
                lemma_pow2_adds((e - 1) as nat, shift as nat);
                lemma_div_multiples_vanish_quotient(low, significand as int, high);
                lemma_mul_is_commutative(low, significand as int);
                vstd::bits::lemma_u64_shr_is_div(significand, shift);
                assert(significand >> shift < 256) by (bit_vector)
                    requires
                        significand < 0x0020_0000_0000_0000,
                        45 <= shift <= 52,
                ;
            }
            (significand >> shift) as u8
        }
    }
}

/// Among finite patterns, a larger magnitude denotes a larger absolute value.
pub proof fn lemma_units_increase(a: Double, b: Double)
    requires
        a.magnitude() < b.magnitude(),
        b.biased_exponent() < 2047,
    ensures
        a.units() < b.units(),
{
    let ea = a.biased_exponent();
    let eb = b.biased_exponent();
    let fa = a.fraction();
    let fb = b.fraction();
    let h = HIDDEN_BIT as int;
    assert(ea <= eb);
    if ea == eb {
        assert(fa < fb);
        if ea > 0 {
            lemma_pow2_pos((ea - 1) as nat);
            lemma_mul_strict_inequality(h + fa, h + fb, pow2((ea - 1) as nat) as int);
        }
    } else {
        let pb = pow2((eb - 1) as nat) as int;
        lemma_pow2_pos((eb - 1) as nat);
        lemma_mul_inequality(h, h + fb, pb);
        assert(h * pb <= b.units());
        if ea == 0 {
            lemma_mul_inequality(1, pb, h);
            assert(h * 1 <= h * pb) by {
                lemma_mul_is_commutative(h, pb);
            }
        } else {
            let pa = pow2((ea - 1) as nat) as int;
            lemma_pow2_pos((ea - 1) as nat);
            lemma_mul_strict_inequality(h + fa, 2 * h, pa);
            lemma_pow2_unfold(ea);
            assert((2 * h) * pa == h * pow2(ea)) by (nonlinear_arith)
                requires
                    pow2(ea) == 2 * pa,
            ;
            if ea < eb - 1 {
                lemma_pow2_strictly_increases(ea, (eb - 1) as nat);
            }
            lemma_mul_inequality(pow2(ea) as int, pb, h);
            lemma_mul_is_commutative(h, pb);
            lemma_mul_is_commutative(h, pow2(ea) as int);
        }
    }
}

/// One is two to the 1074 units, and 255 is 255 times as many.
pub proof fn lemma_units_of_one_and_byte_max()
    ensures
        Double::spec_one().units() == pow2(1074),
        (Double { bits: BYTE_MAX_BITS }).units() == 255 * pow2(1074),
{
    lemma2_to64_rest();
    lemma_pow2_adds(52, 1022);
    lemma_pow2_adds(45, 1029);
    let top = Double { bits: BYTE_MAX_BITS };
    assert(top.biased_exponent() == 1030);
    assert(HIDDEN_BIT + top.fraction() == 255 * 0x2000_0000_0000);
    assert((255 * pow2(45)) * pow2(1029) == 255 * (pow2(45) * pow2(1029))) by {
        lemma_mul_is_associative(255, pow2(45) as int, pow2(1029) as int);
    }
}

} // verus!
