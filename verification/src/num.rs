//! Fixed-point scalar arithmetic.
//!
//! Every quantity in the simulator (seconds, light-seconds, velocities in c,
//! accelerations in c per second) is a [`Scalar`]: a signed 64-bit count of
//! billionths of a unit.  The representation is exact over its whole range,
//! has a total order, and admits no NaN, so equality and comparison are
//! total.  Operations that would leave the representable range saturate at
//! the nearest bound.
use vstd::prelude::*;

verus! {

/// Number of raw units in 1.0: a scalar stores billionths.
pub const SCALE: i64 = 1_000_000_000;

/// A fixed-point number: `raw` billionths of a unit.
#[derive(Copy, Clone, PartialEq, Eq, Structural, Debug, Hash)]
pub struct Scalar {
    pub raw: i64,
}

/// Clamp a mathematical integer to the range of `i64`.
pub open spec fn sat64(x: int) -> int {
    if x > i64::MAX as int {
        i64::MAX as int
    } else if x < i64::MIN as int {
        i64::MIN as int
    } else {
        x
    }
}

/// Division truncating toward zero, for a positive divisor.
pub open spec fn tdiv(n: int, d: int) -> int
    recommends
        d > 0,
{
    if n >= 0 {
        n / d
    } else {
        -((-n) / d)
    }
}

/// The product of two scalars, rescaled and truncated toward zero,
/// then clamped to the representable range.
pub open spec fn fx_mul_spec(a: int, b: int) -> int {
    sat64(tdiv(a * b, SCALE as int))
}

/// The scalar `a + b`, saturating.
pub open spec fn s_add(a: Scalar, b: Scalar) -> Scalar {
    Scalar { raw: sat64(a.raw + b.raw) as i64 }
}

/// The scalar `a - b`, saturating.
pub open spec fn s_sub(a: Scalar, b: Scalar) -> Scalar {
    Scalar { raw: sat64(a.raw - b.raw) as i64 }
}

/// The scalar product `a * b`, rescaled, truncated and saturating.
pub open spec fn s_mul(a: Scalar, b: Scalar) -> Scalar {
    Scalar { raw: fx_mul_spec(a.raw as int, b.raw as int) as i64 }
}

/// The scalar `a / 2`, truncated toward zero.
pub open spec fn s_half(a: Scalar) -> Scalar {
    Scalar { raw: tdiv(a.raw as int, 2) as i64 }
}

/// Multiplying by zero gives zero.
pub proof fn lemma_s_mul_zero(a: Scalar)
    ensures
        s_mul(a, Scalar { raw: 0 }) == (Scalar { raw: 0 }),
{
    assert((a.raw as int) * 0 == 0) by (nonlinear_arith);
    assert((0 as int) / (SCALE as int) == 0) by (nonlinear_arith);
}

/// Adding zero changes nothing.
pub proof fn lemma_s_add_zero(a: Scalar)
    ensures
        s_add(a, Scalar { raw: 0 }) == a,
{
}

/// Half of zero is zero.
pub proof fn lemma_s_half_zero()
    ensures
        s_half(Scalar { raw: 0 }) == (Scalar { raw: 0 }),
{
    assert((0 as int) / 2 == 0) by (nonlinear_arith);
}

impl Scalar {
    /// The zero scalar.
    pub open spec fn spec_zero() -> Scalar {
        Scalar { raw: 0 }
    }

    #[verifier::when_used_as_spec(spec_zero)]
    pub fn zero() -> (r: Scalar)
        ensures
            r == Scalar::spec_zero(),
    {
        Scalar { raw: 0 }
    }

    /// A whole number of units.
    pub fn of_int(n: i32) -> (r: Scalar)
        ensures
            r.raw == n as int * SCALE as int,
    {
        Scalar { raw: (n as i64) * SCALE }
    }

    /// The scalar with the given raw count of billionths.
    pub fn from_raw(raw: i64) -> (r: Scalar)
        ensures
            r.raw == raw,
    {
        Scalar { raw }
    }

    /// Saturating addition.
    pub fn add_sat(self, other: Scalar) -> (r: Scalar)
        ensures
            r == s_add(self, other),
    {
        let s: i128 = self.raw as i128 + other.raw as i128;
        Scalar { raw: clamp64(s) }
    }

    /// Saturating subtraction.
    pub fn sub_sat(self, other: Scalar) -> (r: Scalar)
        ensures
            r == s_sub(self, other),
    {
        let s: i128 = self.raw as i128 - other.raw as i128;
        Scalar { raw: clamp64(s) }
    }

    /// Fixed-point multiplication: rescaled, truncated toward zero, saturating.
    pub fn mul_fx(self, other: Scalar) -> (r: Scalar)
        ensures
            r == s_mul(self, other),
    {
        proof {
            assert(i128::MIN < (self.raw as int) * (other.raw as int)
                && (self.raw as int) * (other.raw as int) <= i128::MAX) by (nonlinear_arith)
                requires
                    i64::MIN <= self.raw <= i64::MAX,
                    i64::MIN <= other.raw <= i64::MAX,
            ;
        }
        let p: i128 = self.raw as i128 * other.raw as i128;
        let q: i128 = div_trunc(p, SCALE as i128);
        Scalar { raw: clamp64(q) }
    }

    /// Halve, truncating toward zero.
    pub fn half(self) -> (r: Scalar)
        ensures
            r == s_half(self),
    {
        let q: i128 = div_trunc(self.raw as i128, 2);
        Scalar { raw: clamp64(q) }
    }
}

/// Clamp an `i128` into `i64`, saturating at the bounds.
fn clamp64(x: i128) -> (r: i64)
    ensures
        r as int == sat64(x as int),
{
    if x > i64::MAX as i128 {
        i64::MAX
    } else if x < i64::MIN as i128 {
        i64::MIN
    } else {
        x as i64
    }
}

/// Truncating division of an `i128` by a positive divisor, avoiding the
/// edge case of `i128::MIN` by requiring the dividend to be a product or
/// value well inside the range.
fn div_trunc(n: i128, d: i128) -> (r: i128)
    requires
        d > 0,
        i128::MIN < n,
    ensures
        r as int == tdiv(n as int, d as int),
{
    if n >= 0 {
        let nu: u128 = n as u128;
        let du: u128 = d as u128;
        let q: u128 = nu / du;
        proof {
            assert(q <= nu) by (nonlinear_arith)
                requires
                    q == nu / du,
                    du >= 1,
            ;
        }
        q as i128
    } else {
        let nu: u128 = (-n) as u128;
        let du: u128 = d as u128;
        let q: u128 = nu / du;
        proof {
            assert(q <= nu) by (nonlinear_arith)
                requires
                    q == nu / du,
                    du >= 1,
            ;
        }
        -(q as i128)
    }
}

} // verus!
