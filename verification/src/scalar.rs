//! Single-precision values, carried by their IEEE 754 binary32 encoding.
//!
//! The simulation never computes with these values here; it only classifies
//! and orders them. Both are functions of the encoding alone.

use vstd::prelude::*;
use vstd::arithmetic::power2::{
    lemma2_to64, lemma_pow2_adds, lemma_pow2_pos, lemma_pow2_strictly_increases,
    lemma_pow2_unfold, pow2,
};

verus! {

/// Encoding of positive infinity; every larger magnitude encodes a NaN.
pub const INFINITY_BITS: u32 = 0x7f80_0000;

/// The lowest encoding with the sign bit set.
pub const SIGN_BIT: u32 = 0x8000_0000;

/// Number of encodings that share one exponent: 2^23.
pub const FRACTIONS: u32 = 0x80_0000;

/// 2^149 times the absolute value that the magnitude `m` of an encoding
/// stands for. Below the first exponent the fraction counts as it is; from
/// there on it is completed by the hidden bit and doubled with every
/// exponent. The formula runs on through the magnitude of infinity, which
/// it places beyond every finite value.
pub open spec fn scaled_magnitude(m: int) -> int {
    if m / (FRACTIONS as int) == 0 {
        m % (FRACTIONS as int)
    } else {
        (FRACTIONS + m % (FRACTIONS as int)) * pow2((m / (FRACTIONS as int) - 1) as nat)
    }
}

/// A single-precision value, identified with its binary32 encoding.
#[derive(Clone, Copy, Debug, PartialEq, Eq, Structural)]
pub struct Scalar {
    pub bits: u32,
}

impl Scalar {
    /// The encoding without its sign bit.
    pub open spec fn magnitude(self) -> int {
        if self.bits >= SIGN_BIT {
            self.bits - SIGN_BIT
        } else {
            self.bits as int
        }
    }

    /// Whether the sign bit is set (true of `-0.0` and of negative NaNs too).
    pub open spec fn is_negative(self) -> bool {
        self.bits >= SIGN_BIT
    }

    /// Not a number: the exponent is all ones and the fraction is not zero.
    pub open spec fn spec_is_nan(self) -> bool {
        self.magnitude() > INFINITY_BITS
    }

    /// Zero, subnormal or normal: neither an infinity nor a NaN.
    pub open spec fn spec_is_finite(self) -> bool {
        self.magnitude() < INFINITY_BITS
    }

    /// 2^149 times the number that a value other than a NaN stands for, an
    /// integer. Both zeros give 0, and the infinities lie beyond every
    /// finite value.
    pub open spec fn scaled(self) -> int {
        if self.is_negative() {
            -scaled_magnitude(self.magnitude())
        } else {
            scaled_magnitude(self.magnitude())
        }
    }

    /// The magnitude with the sign of the value: an integer that orders
    /// encodings as `scaled` orders the numbers they stand for, see
    /// [`lemma_rank_orders_values`].
    pub open spec fn rank(self) -> int {
        if self.is_negative() {
            -self.magnitude()
        } else {
            self.magnitude()
        }
    }

    /// `self >= other` as numbers: false as soon as either is a NaN.
    pub open spec fn spec_ge(self, other: Scalar) -> bool {
        !self.spec_is_nan() && !other.spec_is_nan() && self.scaled() >= other.scaled()
    }

    /// `self < other` as numbers: false as soon as either is a NaN.
    pub open spec fn spec_lt(self, other: Scalar) -> bool {
        !self.spec_is_nan() && !other.spec_is_nan() && self.scaled() < other.scaled()
    }

    /// The value with the given encoding.
    pub fn from_bits(bits: u32) -> (s: Scalar)
        ensures
            s.bits == bits,
    {
        Scalar { bits }
    }

    /// The encoding of the value.
    pub fn to_bits(self) -> (bits: u32)
        ensures
            bits == self.bits,
    {
        self.bits
    }

    fn magnitude_bits(self) -> (m: u32)
        ensures
            m == self.magnitude(),
            m < SIGN_BIT,
    {
        if self.bits >= SIGN_BIT {
            self.bits - SIGN_BIT
        } else {
            self.bits
        }
    }

    fn rank_value(self) -> (r: i64)
        ensures
            r == self.rank(),
    {
        let m: i64 = self.magnitude_bits() as i64;
        if self.bits >= SIGN_BIT {
            -m
        } else {
            m
        }
    }

    #[verifier::when_used_as_spec(spec_is_nan)]
    pub fn is_nan(self) -> (r: bool)
        ensures
            r == self.spec_is_nan(),
    {
        self.magnitude_bits() > INFINITY_BITS
    }

    #[verifier::when_used_as_spec(spec_is_finite)]
    pub fn is_finite(self) -> (r: bool)
        ensures
            r == self.spec_is_finite(),
    {
        self.magnitude_bits() < INFINITY_BITS
    }

    #[verifier::when_used_as_spec(spec_ge)]
    pub fn ge(self, other: Scalar) -> (r: bool)
        ensures
            r == self.spec_ge(other),
    {
        proof {
            lemma_rank_orders_values(self, other);
        }
        !self.is_nan() && !other.is_nan() && self.rank_value() >= other.rank_value()
    }

    #[verifier::when_used_as_spec(spec_lt)]
    pub fn lt(self, other: Scalar) -> (r: bool)
        ensures
            r == self.spec_lt(other),
    {
        proof {
            lemma_rank_orders_values(self, other);
        }
        !self.is_nan() && !other.is_nan() && self.rank_value() < other.rank_value()
    }
}

/// Larger magnitudes stand for larger absolute values.
pub proof fn lemma_scaled_magnitude_increases(low: int, high: int)
    requires
        0 <= low < high,
    ensures
        0 <= scaled_magnitude(low) < scaled_magnitude(high),
{
    let k = FRACTIONS as int;
    let (e1, f1) = (low / k, low % k);
    let (e2, f2) = (high / k, high % k);
    if e1 == e2 {
        if e1 > 0 {
            let p = pow2((e1 - 1) as nat) as int;
            lemma_pow2_pos((e1 - 1) as nat);
            assert(0 <= (k + f1) * p < (k + f2) * p) by (nonlinear_arith)
                requires
                    0 <= f1 < f2,
                    k > 0,
                    p > 0,
            ;
        }
    } else {
        let q = pow2((e2 - 1) as nat) as int;
        lemma_pow2_pos((e2 - 1) as nat);
        assert(k * q <= (k + f2) * q) by (nonlinear_arith)
            requires
                0 <= f2,
                q > 0,
        ;
        if e1 == 0 {
            lemma2_to64();
            if e2 > 1 {
                lemma_pow2_strictly_increases(0, (e2 - 1) as nat);
            }
            assert(k * 1 <= k * q) by (nonlinear_arith)
                requires
                    1 <= q,
                    k > 0,
            ;
        } else {
            let p = pow2((e1 - 1) as nat) as int;
            lemma_pow2_pos((e1 - 1) as nat);
            lemma_pow2_unfold(e1 as nat);
            if e1 < e2 - 1 {
                lemma_pow2_strictly_increases(e1 as nat, (e2 - 1) as nat);
            }
            assert(0 <= (k + f1) * p < k * (2 * p)) by (nonlinear_arith)
                requires
                    0 <= f1 < k,
                    p > 0,
            ;
            assert(k * (2 * p) <= k * q) by (nonlinear_arith)
                requires
                    2 * p <= q,
                    k > 0,
            ;
        }
    }
}

/// The rank of an encoding orders it as its number does: comparing ranks
/// is comparing values.
pub proof fn lemma_rank_orders_values(a: Scalar, b: Scalar)
    ensures
        a.rank() <= b.rank() <==> a.scaled() <= b.scaled(),
        a.rank() == b.rank() <==> a.scaled() == b.scaled(),
        !a.spec_is_nan() && !b.spec_is_nan() ==> (a.spec_ge(b) <==> a.rank() >= b.rank()),
        !a.spec_is_nan() && !b.spec_is_nan() ==> (a.spec_lt(b) <==> a.rank() < b.rank()),
{
    let (m, n) = (a.magnitude(), b.magnitude());
    if m < n {
        lemma_scaled_magnitude_increases(m, n);
    } else if n < m {
        lemma_scaled_magnitude_increases(n, m);
    }
    if 0 < m {
        lemma_scaled_magnitude_increases(0, m);
    }
    if 0 < n {
        lemma_scaled_magnitude_increases(0, n);
    }
}

/// The order is total on numbers and empty on NaNs: of two numbers exactly
/// one of `a < b` and `a >= b` holds, and a NaN is neither below nor at or
/// above anything.
pub proof fn lemma_order_is_total_on_numbers(a: Scalar, b: Scalar)
    ensures
        !a.spec_is_nan() && !b.spec_is_nan() ==> (a.spec_lt(b) <==> !a.spec_ge(b)),
        a.spec_is_nan() || b.spec_is_nan() ==> !a.spec_lt(b) && !a.spec_ge(b),
        a.spec_ge(b) && b.spec_ge(a) ==> a.rank() == b.rank(),
{
    lemma_rank_orders_values(a, b);
}

/// The scale of `scaled`: the encoding of 1.0 stands for 2^149, the
/// smallest positive encoding for 1, and both zeros for 0.
pub proof fn lemma_scale_is_two_to_the_149()
    ensures
        (Scalar { bits: 0x3f80_0000 }).scaled() == pow2(149),
        (Scalar { bits: 0xbf80_0000 }).scaled() == -pow2(149),
        (Scalar { bits: 1 }).scaled() == 1,
        (Scalar { bits: 0 }).scaled() == 0,
        (Scalar { bits: SIGN_BIT }).scaled() == 0,
{
    lemma2_to64();
    lemma_pow2_adds(23, 126);
}

/// Finite values lie strictly between the infinities, and a value is
/// positive, zero or negative as its encoding says.
pub proof fn lemma_finite_values_are_bounded(a: Scalar)
    requires
        a.spec_is_finite(),
    ensures
        -scaled_magnitude(INFINITY_BITS as int) < a.scaled() < scaled_magnitude(
            INFINITY_BITS as int,
        ),
        a.scaled() == 0 <==> a.magnitude() == 0,
        a.scaled() < 0 ==> a.is_negative(),
{
    lemma_scaled_magnitude_increases(a.magnitude(), INFINITY_BITS as int);
    if 0 < a.magnitude() {
        lemma_scaled_magnitude_increases(0, a.magnitude());
    }
}

} // verus!
