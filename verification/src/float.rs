//! Binary64 numbers by their bit patterns.
//!
//! A `FloatBits` carries the sixty-four bits of an IEEE 754 binary64 number. Everything that is
//! decided by comparing numbers is decided here, on integers; sums, products and roundings are
//! left to the caller.
use vstd::prelude::*;
use vstd::arithmetic::power2::pow2;

verus! {

/// The weight of the sign bit.
pub const SIGN: u64 = 0x8000_0000_0000_0000;

/// The bits of positive infinity, which are the largest magnitude that is not a NaN.
pub const INFINITY: u64 = 0x7FF0_0000_0000_0000;

/// The number of fraction patterns for one exponent.
pub const FRACTIONS: u64 = 0x0010_0000_0000_0000;

/// A binary64 number, given by its bits.
#[derive(Debug, Clone, Copy, PartialEq, Eq, Structural, Hash)]
pub struct FloatBits {
    pub bits: u64,
}

/// The bits of one.
pub const ONE: u64 = 0x3FF0_0000_0000_0000;

/// The bits of a quiet NaN.
pub const NAN: u64 = 0x7FF8_0000_0000_0000;

/// The number with the given bits.
pub open spec fn number(bits: u64) -> FloatBits {
    FloatBits { bits }
}

/// The number with the given bits.
pub fn from_bits(bits: u64) -> (r: FloatBits)
    ensures
        r == number(bits),
{
    FloatBits { bits }
}

impl FloatBits {
    /// The bits without the sign.
    pub open spec fn magnitude(self) -> int {
        if self.bits >= SIGN {
            self.bits - SIGN
        } else {
            self.bits as int
        }
    }

    /// The number is neither infinite nor a NaN.
    pub open spec fn finite(self) -> bool {
        self.magnitude() < INFINITY
    }

    /// The number is a NaN.
    pub open spec fn nan(self) -> bool {
        self.magnitude() > INFINITY
    }

    /// An integer that orders the numbers other than NaN as their values do; both zeros have
    /// the same one.
    pub open spec fn order(self) -> int {
        if self.bits >= SIGN {
            -self.magnitude()
        } else {
            self.magnitude()
        }
    }

    /// The numeric `<`.
    pub open spec fn below(self, other: FloatBits) -> bool {
        !self.nan() && !other.nan() && self.order() < other.order()
    }

    /// The numeric `<=`.
    pub open spec fn at_most(self, other: FloatBits) -> bool {
        !self.nan() && !other.nan() && self.order() <= other.order()
    }

    /// The numeric `==`.
    pub open spec fn equals(self, other: FloatBits) -> bool {
        !self.nan() && !other.nan() && self.order() == other.order()
    }

    /// The biased exponent field.
    pub open spec fn exponent(self) -> int {
        self.magnitude() / FRACTIONS as int
    }

    /// The significand of a normal number, as an integer.
    pub open spec fn significand(self) -> int {
        FRACTIONS + self.magnitude() % FRACTIONS as int
    }

    /// The number is the positive integer `n`, where `n` is below 2^53.
    pub open spec fn is_natural(self, n: nat) -> bool {
        &&& self.bits < SIGN
        &&& 1023 <= self.exponent() <= 1075
        &&& self.significand() == n * pow2((1075 - self.exponent()) as nat)
    }

    /// The integer part of a number from 1 up to 2^53.
    pub open spec fn floor(self) -> int {
        self.significand() / pow2((1075 - self.exponent()) as nat) as int
    }

    /// Whether the number is neither infinite nor a NaN.
    pub fn is_finite(&self) -> (r: bool)
        ensures
            r == self.finite(),
    {
        let magnitude: u64 = if self.bits >= SIGN {
            self.bits - SIGN
        } else {
            self.bits
        };
        magnitude < INFINITY
    }

    /// Whether the number is a NaN.
    pub fn is_nan(&self) -> (r: bool)
        ensures
            r == self.nan(),
    {
        let magnitude: u64 = if self.bits >= SIGN {
            self.bits - SIGN
        } else {
            self.bits
        };
        magnitude > INFINITY
    }

    fn order_key(&self) -> (r: i128)
        ensures
            r == self.order(),
    {
        if self.bits >= SIGN {
            -((self.bits - SIGN) as i128)
        } else {
            self.bits as i128
        }
    }

    /// The numeric `<`.
    pub fn less_than(&self, other: &FloatBits) -> (r: bool)
        ensures
            r == self.below(*other),
    {
        !self.is_nan() && !other.is_nan() && self.order_key() < other.order_key()
    }

    /// The numeric `<=`.
    pub fn less_or_equal(&self, other: &FloatBits) -> (r: bool)
        ensures
            r == self.at_most(*other),
    {
        !self.is_nan() && !other.is_nan() && self.order_key() <= other.order_key()
    }

    /// The numeric `==`.
    pub fn same_number(&self, other: &FloatBits) -> (r: bool)
        ensures
            r == self.equals(*other),
    {
        !self.is_nan() && !other.is_nan() && self.order_key() == other.order_key()
    }

    /// The number without its sign.
    pub fn abs(&self) -> (r: FloatBits)
        ensures
            r.bits == self.magnitude(),
    {
        if self.bits >= SIGN {
            FloatBits { bits: self.bits - SIGN }
        } else {
            *self
        }
    }

    /// The integer part of a number from 1 up to 2^53.
    pub fn whole_part(&self) -> (r: u64)
        requires
            self.bits < SIGN,
            1023 <= self.exponent() <= 1075,
        ensures
            r == self.floor(),
    {
        let (value, _) = self.split_whole();
        value
    }

    /// The integer part of a number from 1 up to 2^53, and whether nothing else is left.
    fn split_whole(&self) -> (r: (u64, bool))
        requires
            self.bits < SIGN,
            1023 <= self.exponent() <= 1075,
        ensures
            r.0 == self.floor(),
            r.1 == self.is_natural(r.0 as nat),
            !r.1 ==> forall|n: nat| !self.is_natural(n),
            forall|n: nat| self.is_natural(n) ==> n == r.0,
    {
        let exponent: u64 = self.bits / FRACTIONS;
        let mut divisor: u64 = 1;
        let mut k: u64 = 1075;
        proof {
            vstd::arithmetic::power2::lemma2_to64();
            vstd::arithmetic::power2::lemma2_to64_rest();
        }
        while k > exponent
            invariant
                1023 <= exponent <= k <= 1075,
                divisor == pow2((1075 - k) as nat),
                divisor <= FRACTIONS,
                pow2(52) == FRACTIONS,
            decreases k,
        {
            proof {
                vstd::arithmetic::power2::lemma_pow2_unfold((1075 - k + 1) as nat);
                if 1075 - k + 1 < 52 {
                    vstd::arithmetic::power2::lemma_pow2_strictly_increases(
                        (1075 - k + 1) as nat,
                        52,
                    );
                }
            }
            divisor = divisor * 2;
            k -= 1;
        }
        proof {
            vstd::arithmetic::power2::lemma_pow2_pos((1075 - exponent) as nat);
        }
        let significand: u64 = FRACTIONS + self.bits % FRACTIONS;
        let value: u64 = significand / divisor;
        proof {
            let d = divisor as int;
            let m = significand as int;
            assert forall|n: nat| self.is_natural(n) implies n == value && m % d == 0 by {
                assert(m == n * d);
                vstd::arithmetic::div_mod::lemma_div_multiples_vanish(n as int, d);
                vstd::arithmetic::div_mod::lemma_mod_multiples_basic(n as int, d);
                vstd::arithmetic::mul::lemma_mul_is_commutative(n as int, d);
            }
            vstd::arithmetic::div_mod::lemma_fundamental_div_mod(m, d);
            vstd::arithmetic::mul::lemma_mul_is_commutative(value as int, d);
        }
        (value, significand % divisor == 0)
    }

    /// Whether the number is an integer from 1 to 65535, and which.
    pub fn as_port(&self) -> (r: Option<u16>)
        ensures
            match r {
                Some(port) => 1 <= port && port_of(*self) == Some(port as nat),
                None => port_of(*self) is None,
            },
    {
        if self.bits >= SIGN {
            return None;
        }
        let exponent: u64 = self.bits / FRACTIONS;
        if exponent < 1023 || exponent > 1075 {
            return None;
        }
        let (value, exact) = self.split_whole();
        if exact && 1 <= value && value <= 65535 {
            proof {
                assert(self.is_natural(value as nat));
                let other = choose|n: nat| 1 <= n <= 65535 && self.is_natural(n);
                lemma_natural_unique(*self, value as nat, other);
            }
            Some(value as u16)
        } else {
            None
        }
    }
}

/// The port number that a number is, where it is an integer from 1 to 65535.
pub open spec fn port_of(value: FloatBits) -> Option<nat> {
    if exists|n: nat| 1 <= n <= 65535 && value.is_natural(n) {
        Some(choose|n: nat| 1 <= n <= 65535 && value.is_natural(n))
    } else {
        None
    }
}

/// A number is one integer at most.
pub proof fn lemma_natural_unique(value: FloatBits, a: nat, b: nat)
    requires
        value.is_natural(a),
        value.is_natural(b),
    ensures
        a == b,
{
    let d = pow2((1075 - value.exponent()) as nat);
    vstd::arithmetic::power2::lemma_pow2_pos((1075 - value.exponent()) as nat);
    assert(a == b) by (nonlinear_arith)
        requires
            a * d == b * d,
            d > 0,
    ;
}

/// The value held between two bounds, the lower bound for what is not finite.
pub open spec fn clamped(value: FloatBits, min: FloatBits, max: FloatBits) -> FloatBits {
    if !value.finite() {
        min
    } else if value.below(min) {
        min
    } else if max.below(value) {
        max
    } else {
        value
    }
}

/// Holds a value between two bounds; what is not finite becomes the lower bound.
pub fn clamp(value: FloatBits, min: FloatBits, max: FloatBits) -> (r: FloatBits)
    ensures
        r == clamped(value, min, max),
{
    if !value.is_finite() || value.less_than(&min) {
        min
    } else if max.less_than(&value) {
        max
    } else {
        value
    }
}

/// The value held between two bounds; a NaN stays what it is.
pub open spec fn limited(value: FloatBits, min: FloatBits, max: FloatBits) -> FloatBits {
    if value.below(min) {
        min
    } else if max.below(value) {
        max
    } else {
        value
    }
}

/// Holds a value between two bounds; a NaN stays what it is.
pub fn limit(value: FloatBits, min: FloatBits, max: FloatBits) -> (r: FloatBits)
    ensures
        r == limited(value, min, max),
{
    if value.less_than(&min) {
        min
    } else if max.less_than(&value) {
        max
    } else {
        value
    }
}

/// The value held between zero and one; a NaN stays what it is.
pub open spec fn unit_limited(value: FloatBits) -> FloatBits {
    limited(value, number(0), number(ONE))
}

/// Holds a value between zero and one; a NaN stays what it is.
pub fn limit01(value: FloatBits) -> (r: FloatBits)
    ensures
        r == unit_limited(value),
{
    limit(value, from_bits(0), from_bits(ONE))
}

/// A number between zero and one.
pub open spec fn in_unit(value: FloatBits) -> bool {
    number(0).at_most(value) && value.at_most(number(ONE)) && value.finite()
}

/// Holds a value between zero and one.
pub fn clamp01(value: FloatBits) -> (r: FloatBits)
    ensures
        r == clamped(value, number(0), number(ONE)),
{
    clamp(value, from_bits(0), from_bits(ONE))
}

/// A held value lies between finite bounds that are in order, and holding it again changes
/// nothing.
pub proof fn law_clamp_bounds(value: FloatBits, min: FloatBits, max: FloatBits)
    requires
        min.finite(),
        max.finite(),
        min.at_most(max),
    ensures
        min.at_most(clamped(value, min, max)),
        clamped(value, min, max).at_most(max),
        clamped(clamped(value, min, max), min, max) == clamped(value, min, max),
        value.finite() && min.at_most(value) && value.at_most(max) ==> clamped(value, min, max)
            == value,
{
}

/// The bits of the binary64 number that a text denotes, if it denotes one.
pub uninterp spec fn float_reading(text: Seq<char>) -> Option<u64>;

/// `str::parse` for a binary64 number: the bits of the number that the text denotes. (The call of
/// `serde_json::Number::from_f64` says which type of number is meant; its result is not used.)
#[verifier::external_body]
pub(crate) fn read_float(text: &str) -> (r: Option<u64>)
    ensures
        r == float_reading(text@),
{
    let number = text.parse().ok()?;
    let _ = serde_json::Number::from_f64(number);
    Some(number.to_bits())
}

} // verus!
