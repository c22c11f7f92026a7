//! Real-valued measurements carried as IEEE 754 binary64 bit patterns.
//!
//! The analytics rules never add or multiply measurements themselves; they
//! choose which measurements enter a formula and compare them with fixed
//! thresholds. Both are exact on the bit pattern, so a measurement is kept as
//! the 64 bits of its binary64 encoding and the arithmetic is left to callers.

use vstd::prelude::*;
use vstd::arithmetic::power2::{
    lemma_pow2_pos, lemma_pow2_strictly_increases, lemma_pow2_unfold, pow2,
};

verus! {

/// Bit pattern with only the sign bit set.
pub const SIGN_BIT: u64 = 0x8000_0000_0000_0000;

/// Bit pattern of positive infinity: every magnitude above it is a NaN.
pub const INFINITY_BITS: u64 = 0x7FF0_0000_0000_0000;

/// A binary64 value, held as its bit pattern.
#[derive(Clone, Copy, Debug)]
pub struct Scalar {
    pub bits: u64,
}

/// The bit pattern without its sign bit.
pub open spec fn magnitude_of(bits: u64) -> int {
    if bits >= SIGN_BIT {
        bits - SIGN_BIT
    } else {
        bits as int
    }
}

/// Whether the bit pattern encodes a NaN.
pub open spec fn nan_bits(bits: u64) -> bool {
    magnitude_of(bits) > INFINITY_BITS
}

/// An integer that orders non-NaN bit patterns as binary64 orders the values
/// they encode. Both zeros have rank 0.
pub open spec fn rank_of(bits: u64) -> int {
    if bits >= SIGN_BIT {
        -magnitude_of(bits)
    } else {
        magnitude_of(bits)
    }
}

impl Scalar {
    /// Positive zero.
    pub open spec fn spec_zero() -> Scalar {
        Scalar { bits: 0 }
    }

    /// Whether the value is a NaN.
    pub open spec fn spec_is_nan(self) -> bool {
        nan_bits(self.bits)
    }

    /// The position of the value in the binary64 order.
    pub open spec fn rank(self) -> int {
        rank_of(self.bits)
    }

    /// `self < other` as binary64 decides it: false when either is a NaN.
    pub open spec fn spec_lt(self, other: Scalar) -> bool {
        !self.spec_is_nan() && !other.spec_is_nan() && self.rank() < other.rank()
    }

    /// `self <= other` as binary64 decides it: false when either is a NaN.
    pub open spec fn spec_le(self, other: Scalar) -> bool {
        !self.spec_is_nan() && !other.spec_is_nan() && self.rank() <= other.rank()
    }

    /// `self > other` as binary64 decides it.
    pub open spec fn spec_gt(self, other: Scalar) -> bool {
        other.spec_lt(self)
    }

    /// `self >= other` as binary64 decides it.
    pub open spec fn spec_ge(self, other: Scalar) -> bool {
        other.spec_le(self)
    }

    /// The value with the opposite sign.
    pub open spec fn spec_negated(self) -> Scalar {
        Scalar {
            bits: if self.bits >= SIGN_BIT {
                (self.bits - SIGN_BIT) as u64
            } else {
                (self.bits + SIGN_BIT) as u64
            },
        }
    }

    /// The value with the opposite sign.
    pub fn negated(self) -> (r: Scalar)
        ensures
            r == self.spec_negated(),
            r.rank() == -self.rank(),
            r.spec_is_nan() == self.spec_is_nan(),
    {
        if self.bits >= SIGN_BIT {
            Scalar { bits: self.bits - SIGN_BIT }
        } else {
            Scalar { bits: self.bits + SIGN_BIT }
        }
    }

    /// The value with the given bit pattern.
    pub fn from_bits(bits: u64) -> (r: Scalar)
        ensures
            r.bits == bits,
    {
        Scalar { bits }
    }

    /// The bit pattern of the value.
    pub fn to_bits(self) -> (r: u64)
        ensures
            r == self.bits,
    {
        self.bits
    }

    /// Positive zero.
    pub fn zero() -> (r: Scalar)
        ensures
            r == Scalar::spec_zero(),
    {
        Scalar { bits: 0 }
    }

    /// Whether the value is a NaN.
    pub fn is_nan(self) -> (r: bool)
        ensures
            r == self.spec_is_nan(),
    {
        let magnitude: u64 = if self.bits >= SIGN_BIT {
            self.bits - SIGN_BIT
        } else {
            self.bits
        };
        magnitude > INFINITY_BITS
    }

    /// Whether `self < other` holds of the encoded values.
    pub fn lt(self, other: Scalar) -> (r: bool)
        ensures
            r == self.spec_lt(other),
    {
        if self.is_nan() || other.is_nan() {
            return false;
        }
        if self.bits >= SIGN_BIT {
            let a: u64 = self.bits - SIGN_BIT;
            if other.bits >= SIGN_BIT {
                let b: u64 = other.bits - SIGN_BIT;
                a > b
            } else {
                a > 0 || other.bits > 0
            }
        } else {
            if other.bits >= SIGN_BIT {
                false
            } else {
                self.bits < other.bits
            }
        }
    }

    /// Whether `self <= other` holds of the encoded values.
    pub fn le(self, other: Scalar) -> (r: bool)
        ensures
            r == self.spec_le(other),
    {
        if self.is_nan() || other.is_nan() {
            return false;
        }
        !other.lt(self)
    }

    /// Whether `self > other` holds of the encoded values.
    pub fn gt(self, other: Scalar) -> (r: bool)
        ensures
            r == self.spec_gt(other),
    {
        other.lt(self)
    }

    /// Whether `self >= other` holds of the encoded values.
    pub fn ge(self, other: Scalar) -> (r: bool)
        ensures
            r == self.spec_ge(other),
    {
        other.le(self)
    }
}

/// Among values that are not NaN, exactly one of `a < b`, `b < a` and equal
/// rank holds, and `<=` is `<` or equal rank.
pub proof fn lemma_scalar_order_total(a: Scalar, b: Scalar)
    requires
        !a.spec_is_nan(),
        !b.spec_is_nan(),
    ensures
        a.spec_lt(b) || b.spec_lt(a) || a.rank() == b.rank(),
        !(a.spec_lt(b) && b.spec_lt(a)),
        a.spec_le(b) <==> (a.spec_lt(b) || a.rank() == b.rank()),
        a.spec_ge(b) <==> !a.spec_lt(b),
{
}

/// The order is transitive.
pub proof fn lemma_scalar_order_transitive(a: Scalar, b: Scalar, c: Scalar)
    requires
        a.spec_le(b),
        b.spec_le(c),
    ensures
        a.spec_le(c),
{
}

/// A NaN compares false with everything, itself included.
pub proof fn lemma_nan_unordered(a: Scalar, b: Scalar)
    requires
        a.spec_is_nan(),
    ensures
        !a.spec_lt(b),
        !a.spec_le(b),
        !a.spec_gt(b),
        !a.spec_ge(b),
{
}

/// The number of bit patterns per binary exponent: 2 to the power 52.
pub const FRACTION_RANGE: u64 = 0x0010_0000_0000_0000;

/// The binary exponent field of a bit pattern.
pub open spec fn exponent_of(bits: u64) -> int {
    magnitude_of(bits) / (FRACTION_RANGE as int)
}

/// The fraction field of a bit pattern.
pub open spec fn fraction_of(bits: u64) -> int {
    magnitude_of(bits) % (FRACTION_RANGE as int)
}

/// The absolute value that a bit pattern encodes, in units of 2 to the power
/// -1074, the smallest positive value: the fraction alone for a subnormal
/// pattern, the fraction with its leading one, scaled by the exponent, for a
/// normal one. Infinity counts as the power of two above the largest finite
/// value.
pub open spec fn scaled_magnitude(bits: u64) -> int {
    if exponent_of(bits) == 0 {
        fraction_of(bits)
    } else {
        (FRACTION_RANGE + fraction_of(bits)) * pow2((exponent_of(bits) - 1) as nat)
    }
}

/// The value that a bit pattern encodes, in units of 2 to the power -1074.
pub open spec fn scaled_value(bits: u64) -> int {
    if bits >= SIGN_BIT {
        -scaled_magnitude(bits)
    } else {
        scaled_magnitude(bits)
    }
}

/// Whether the bit pattern encodes the integer `n`.
pub open spec fn encodes_integer(bits: u64, n: int) -> bool {
    scaled_value(bits) == n * pow2(1074)
}

/// A normal pattern encodes at least the power of two of its exponent and
/// less than the next.
proof fn lemma_scaled_magnitude_range(bits: u64)
    requires
        exponent_of(bits) >= 1,
    ensures
        FRACTION_RANGE * pow2((exponent_of(bits) - 1) as nat) <= scaled_magnitude(bits)
            < FRACTION_RANGE * pow2(exponent_of(bits) as nat),
{
    let e = exponent_of(bits);
    let f = fraction_of(bits);
    let p = pow2((e - 1) as nat);
    lemma_pow2_pos((e - 1) as nat);
    lemma_pow2_unfold(e as nat);
    assert(FRACTION_RANGE * p <= (FRACTION_RANGE + f) * p < FRACTION_RANGE * (2 * p))
        by (nonlinear_arith)
        requires
            0 <= f < FRACTION_RANGE,
            p > 0,
    ;
}

/// Among patterns of the same sign, a larger magnitude encodes a larger
/// absolute value.
pub proof fn lemma_scaled_magnitude_increases(a: u64, b: u64)
    requires
        magnitude_of(a) < magnitude_of(b),
    ensures
        scaled_magnitude(a) < scaled_magnitude(b),
{
    let ea = exponent_of(a);
    let eb = exponent_of(b);
    let fa = fraction_of(a);
    let fb = fraction_of(b);
    assert(magnitude_of(a) == ea * FRACTION_RANGE + fa && magnitude_of(b) == eb * FRACTION_RANGE
        + fb) by {
        vstd::arithmetic::div_mod::lemma_fundamental_div_mod(
            magnitude_of(a),
            FRACTION_RANGE as int,
        );
        vstd::arithmetic::div_mod::lemma_fundamental_div_mod(
            magnitude_of(b),
            FRACTION_RANGE as int,
        );
    }
    assert(ea <= eb) by (nonlinear_arith)
        requires
            ea * FRACTION_RANGE + fa < eb * FRACTION_RANGE + fb,
            0 <= fa < FRACTION_RANGE,
            0 <= fb < FRACTION_RANGE,
    ;
    if ea == eb {
        if ea > 0 {
            let p = pow2((ea - 1) as nat);
            lemma_pow2_pos((ea - 1) as nat);
            assert((FRACTION_RANGE + fa) * p < (FRACTION_RANGE + fb) * p) by (nonlinear_arith)
                requires
                    fa < fb,
                    p > 0,
            ;
        }
    } else {
        lemma_scaled_magnitude_range(b);
        let q = pow2((eb - 1) as nat);
        if ea == 0 {
            lemma_pow2_pos((eb - 1) as nat);
            assert(FRACTION_RANGE * q >= FRACTION_RANGE) by (nonlinear_arith)
                requires
                    q >= 1,
            ;
        } else {
            lemma_scaled_magnitude_range(a);
            if ea < eb - 1 {
                lemma_pow2_strictly_increases(ea as nat, (eb - 1) as nat);
            }
            assert(FRACTION_RANGE * pow2(ea as nat) <= FRACTION_RANGE * q) by (nonlinear_arith)
                requires
                    pow2(ea as nat) <= q,
            ;
        }
    }
}

/// The order on bit patterns is the order of the values they encode: for
/// patterns that are not NaN, `a < b` holds exactly where `a` encodes the
/// smaller value, and `a <= b` where it encodes no larger one.
pub proof fn lemma_order_is_that_of_values(a: Scalar, b: Scalar)
    requires
        !a.spec_is_nan(),
        !b.spec_is_nan(),
    ensures
        a.spec_lt(b) <==> scaled_value(a.bits) < scaled_value(b.bits),
        a.spec_le(b) <==> scaled_value(a.bits) <= scaled_value(b.bits),
        a.rank() == b.rank() <==> scaled_value(a.bits) == scaled_value(b.bits),
{
    let zero: u64 = 0;
    if magnitude_of(a.bits) > 0 {
        lemma_scaled_magnitude_increases(zero, a.bits);
    }
    if magnitude_of(b.bits) > 0 {
        lemma_scaled_magnitude_increases(zero, b.bits);
    }
    if magnitude_of(a.bits) < magnitude_of(b.bits) {
        lemma_scaled_magnitude_increases(a.bits, b.bits);
    } else if magnitude_of(b.bits) < magnitude_of(a.bits) {
        lemma_scaled_magnitude_increases(b.bits, a.bits);
    }
}

/// Positive zero encodes 0.
pub proof fn lemma_encodes_0()
    ensures
        encodes_integer(0u64, 0),
{
}

} // verus!
