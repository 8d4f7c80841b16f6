//! `Scalar`: a signed Q31.32 fixed-point number with saturating arithmetic.
//!
//! A scalar stands for the rational `raw / 2^32`. Every operation is total:
//! a result that leaves the representable range sticks at the nearest bound,
//! and products, quotients and roots round toward zero.

use vstd::prelude::*;
use crate::arith::floor_sqrt;
use crate::arith::floor_sqrt_of;
use crate::arith::lemma_floor_sqrt_bound;
use crate::arith::lemma_product_sign;
use crate::arith::magnitude;
use crate::arith::quot_toward_zero;
use crate::arith::saturate;
use crate::arith::with_sign;

verus! {

/// Number of raw units in `1.0`.
pub const SCALE: i64 = 4294967296;

/// Raw value of the largest scalar; it doubles as "infinity".
pub const MAX_RAW: i64 = 9223372036854775807;

/// Raw value of the smallest scalar.
pub const MIN_RAW: i64 = -9223372036854775808;

/// Raw value of the circle constant, `3.14159265358979...`.
pub const PI_RAW: i64 = 13493037704;

/// Number of terms after the first in the series of the sine and the cosine.
pub const SERIES_DEPTH: u32 = 10;

/// Raw value of `16384.0`. Scalars up to this magnitude can be multiplied
/// and added a few times over without leaving the range.
pub const MODERATE_RAW: i64 = 70368744177664;

/// A signed Q31.32 fixed-point number: the rational `raw / 2^32`. Scalars
/// are ordered as their raw values are.
#[derive(Clone, Copy, Debug, PartialEq, Eq, PartialOrd, Ord, Structural)]
pub struct Scalar {
    pub raw: i64,
}

fn saturate_wide(v: i128) -> (r: i64)
    ensures
        r as int == saturate(v as int),
{
    if v < MIN_RAW as i128 {
        MIN_RAW
    } else if v > MAX_RAW as i128 {
        MAX_RAW
    } else {
        v as i64
    }
}

fn magnitude_of(v: i64) -> (r: u64)
    ensures
        r as int == magnitude(v as int),
{
    if v >= 0 {
        v as u64
    } else {
        let w: i128 = -(v as i128);
        w as u64
    }
}

/// The saturated raw value of a magnitude with a sign.
fn signed_saturate(negative: bool, m: u128) -> (r: i64)
    ensures
        r as int == saturate(with_sign(negative, m as int)),
{
    if negative {
        if m > 9223372036854775808u128 {
            MIN_RAW
        } else {
            let w: i128 = -(m as i128);
            w as i64
        }
    } else {
        if m > MAX_RAW as u128 {
            MAX_RAW
        } else {
            m as i64
        }
    }
}

impl Scalar {
    pub open spec fn spec_zero() -> Scalar {
        Scalar { raw: 0 }
    }

    pub open spec fn spec_one() -> Scalar {
        Scalar { raw: SCALE }
    }

    /// The magnitude of the scalar is at most `16384`.
    pub open spec fn spec_moderate(self) -> bool {
        -MODERATE_RAW <= self.raw <= MODERATE_RAW
    }

    pub open spec fn spec_add(self, rhs: Scalar) -> Scalar {
        Scalar { raw: saturate(self.raw + rhs.raw) as i64 }
    }

    pub open spec fn spec_sub(self, rhs: Scalar) -> Scalar {
        Scalar { raw: saturate(self.raw - rhs.raw) as i64 }
    }

    pub open spec fn spec_neg(self) -> Scalar {
        Scalar { raw: saturate(-self.raw) as i64 }
    }

    pub open spec fn spec_mul(self, rhs: Scalar) -> Scalar {
        Scalar { raw: saturate(quot_toward_zero(self.raw * rhs.raw, SCALE as int)) as i64 }
    }

    /// Division by zero sticks at the bound on the side of the dividend, and
    /// `0 / 0` is `0`.
    pub open spec fn spec_div(self, rhs: Scalar) -> Scalar {
        if rhs.raw == 0 {
            if self.raw > 0 {
                Scalar { raw: MAX_RAW }
            } else if self.raw < 0 {
                Scalar { raw: MIN_RAW }
            } else {
                Scalar { raw: 0 }
            }
        } else {
            Scalar { raw: saturate(quot_toward_zero(self.raw * SCALE, rhs.raw as int)) as i64 }
        }
    }

    /// The root of a scalar that is not positive is `0`.
    pub open spec fn spec_sqrt(self) -> Scalar {
        if self.raw <= 0 {
            Scalar { raw: 0 }
        } else {
            Scalar { raw: floor_sqrt(self.raw * SCALE) as i64 }
        }
    }

    pub open spec fn spec_abs(self) -> Scalar {
        Scalar { raw: saturate(magnitude(self.raw as int)) as i64 }
    }

    pub open spec fn spec_min(self, rhs: Scalar) -> Scalar {
        if rhs.raw < self.raw {
            rhs
        } else {
            self
        }
    }

    pub open spec fn spec_max(self, rhs: Scalar) -> Scalar {
        if rhs.raw > self.raw {
            rhs
        } else {
            self
        }
    }

    /// The scalar taken `n` times.
    pub open spec fn spec_times(self, n: int) -> Scalar {
        Scalar { raw: saturate(self.raw * n) as i64 }
    }

    /// The whole number `n`.
    pub open spec fn spec_from_int(n: int) -> Scalar {
        Scalar { raw: saturate(n * SCALE) as i64 }
    }

    /// The quotient `num / den` of two whole numbers.
    pub open spec fn spec_from_ratio(num: int, den: int) -> Scalar {
        Self::spec_from_int(num).spec_div(Self::spec_from_int(den))
    }

    /// The whole part of the scalar, rounded toward zero.
    pub open spec fn spec_trunc(self) -> int {
        quot_toward_zero(self.raw as int, SCALE as int)
    }

    /// The tail of a power series in nested form, from term `k` to term
    /// `depth`: `1 - x2 / (b * (b + 1)) * tail(k + 1)` with `b = 2 * k - 1 + shift`,
    /// and `1` behind the last term.
    pub open spec fn spec_series(x2: Scalar, k: nat, depth: nat, shift: nat) -> Scalar
        decreases depth + 1 - k,
    {
        if k > depth {
            Scalar { raw: SCALE }
        } else {
            Scalar { raw: SCALE }.spec_sub(
                x2.spec_div(Self::spec_from_int((2 * k - 1 + shift) * (2 * k + shift))).spec_mul(
                    Self::spec_series(x2, k + 1, depth, shift),
                ),
            )
        }
    }

    /// The sine of an angle in radians, by its power series:
    /// `x * (1 - x^2 / (2 * 3) * (1 - x^2 / (4 * 5) * (...)))`.
    pub open spec fn spec_sin(self) -> Scalar {
        self.spec_mul(Self::spec_series(self.spec_mul(self), 1, SERIES_DEPTH as nat, 1))
    }

    /// The cosine of an angle in radians, by its power series:
    /// `1 - x^2 / (1 * 2) * (1 - x^2 / (3 * 4) * (...))`.
    pub open spec fn spec_cos(self) -> Scalar {
        Self::spec_series(self.spec_mul(self), 1, SERIES_DEPTH as nat, 0)
    }

    /// The tangent of an angle in radians: the sine over the cosine.
    pub open spec fn spec_tan(self) -> Scalar {
        self.spec_sin().spec_div(self.spec_cos())
    }

    pub fn from_raw(raw: i64) -> (r: Scalar)
        ensures
            r.raw == raw,
    {
        Scalar { raw }
    }

    pub fn zero() -> (r: Scalar)
        ensures
            r.raw == 0,
    {
        Scalar { raw: 0 }
    }

    pub fn one() -> (r: Scalar)
        ensures
            r.raw == SCALE,
    {
        Scalar { raw: SCALE }
    }

    /// The largest scalar, which stands for an unbounded distance.
    pub fn infinity() -> (r: Scalar)
        ensures
            r.raw == MAX_RAW,
    {
        Scalar { raw: MAX_RAW }
    }

    pub fn pi() -> (r: Scalar)
        ensures
            r.raw == PI_RAW,
    {
        Scalar { raw: PI_RAW }
    }

    pub fn from_int(n: i32) -> (r: Scalar)
        ensures
            r == Self::spec_from_int(n as int),
            r.raw == n * SCALE,
    {
        Scalar { raw: (n as i64) * 4294967296i64 }
    }

    /// The whole number `n`, or the largest scalar where `n` is `2^31` or more.
    pub fn from_u32(n: u32) -> (r: Scalar)
        ensures
            r == Self::spec_from_int(n as int),
    {
        let wide: i128 = (n as i128) * 4294967296i128;
        Scalar { raw: saturate_wide(wide) }
    }

    pub fn from_ratio(num: i32, den: i32) -> (r: Scalar)
        ensures
            r == Self::spec_from_ratio(num as int, den as int),
    {
        Self::from_int(num) / Self::from_int(den)
    }

    /// The scalar nearest to a raw value of any size.
    pub fn from_wide(raw: i128) -> (r: Scalar)
        ensures
            r.raw == saturate(raw as int),
    {
        Scalar { raw: saturate_wide(raw) }
    }

    /// The scalar taken `n` times.
    pub fn times(self, n: u32) -> (r: Scalar)
        ensures
            r == self.spec_times(n as int),
    {
        assert(-0x8000_0000_0000_0000_0000_0000 <= self.raw * n <= 0x8000_0000_0000_0000_0000_0000)
            by (nonlinear_arith)
            requires
                -0x8000_0000_0000_0000 <= self.raw <= 0x8000_0000_0000_0000,
                0 <= n <= 0x1_0000_0000,
        ;
        let wide: i128 = (self.raw as i128) * (n as i128);
        Scalar { raw: saturate_wide(wide) }
    }

    pub fn negate(self) -> (r: Scalar)
        ensures
            r == self.spec_neg(),
    {
        let s: i128 = -(self.raw as i128);
        Scalar { raw: saturate_wide(s) }
    }

    pub fn sqrt(self) -> (r: Scalar)
        ensures
            r == self.spec_sqrt(),
    {
        if self.raw <= 0 {
            Scalar { raw: 0 }
        } else {
            let n: u128 = (self.raw as u128) * 4294967296u128;
            let root: u64 = floor_sqrt_of(n);
            proof {
                lemma_floor_sqrt_bound(n as int, 0x1_0000_0000_0000int);
            }
            Scalar { raw: root as i64 }
        }
    }

    /// The nested series from its first term on.
    fn series(x2: Scalar, shift: u32) -> (r: Scalar)
        requires
            shift <= 1,
        ensures
            r == Self::spec_series(x2, 1, SERIES_DEPTH as nat, shift as nat),
    {
        let mut acc: Scalar = Scalar::one();
        let mut k: u32 = SERIES_DEPTH;
        while k >= 1
            invariant
                k <= SERIES_DEPTH,
                shift <= 1,
                acc == Self::spec_series(x2, (k + 1) as nat, SERIES_DEPTH as nat, shift as nat),
            decreases k,
        {
            let b: u32 = 2 * k - 1 + shift;
            assert(b * (b + 1) <= 21 * 22) by (nonlinear_arith)
                requires
                    b <= 21,
            ;
            let denominator: Scalar = Scalar::from_int((b * (b + 1)) as i32);
            acc = Scalar::one() - (x2 / denominator) * acc;
            k = k - 1;
        }
        acc
    }

    /// The sine of an angle in radians. The series is good for angles up to
    /// a right angle or so either way.
    pub fn sin(self) -> (r: Scalar)
        ensures
            r == self.spec_sin(),
    {
        self * Self::series(self * self, 1)
    }

    /// The cosine of an angle in radians. The series is good for angles up
    /// to a right angle or so either way.
    pub fn cos(self) -> (r: Scalar)
        ensures
            r == self.spec_cos(),
    {
        Self::series(self * self, 0)
    }

    /// The tangent of an angle in radians, good for angles short of a right
    /// angle either way.
    pub fn tan(self) -> (r: Scalar)
        ensures
            r == self.spec_tan(),
    {
        self.sin() / self.cos()
    }

    pub fn abs(self) -> (r: Scalar)
        ensures
            r == self.spec_abs(),
    {
        let m: u64 = magnitude_of(self.raw);
        Scalar { raw: signed_saturate(false, m as u128) }
    }

    pub fn min(self, rhs: Scalar) -> (r: Scalar)
        ensures
            r == self.spec_min(rhs),
    {
        if rhs.raw < self.raw {
            rhs
        } else {
            self
        }
    }

    pub fn max(self, rhs: Scalar) -> (r: Scalar)
        ensures
            r == self.spec_max(rhs),
    {
        if rhs.raw > self.raw {
            rhs
        } else {
            self
        }
    }

    /// The whole part of the scalar, rounded toward zero.
    pub fn trunc(self) -> (r: i64)
        ensures
            r as int == self.spec_trunc(),
            -2147483648 <= r <= 2147483647,
    {
        let m: u64 = magnitude_of(self.raw);
        let q: u64 = m / 4294967296u64;
        if self.raw < 0 {
            -(q as i64)
        } else {
            q as i64
        }
    }
}

impl Default for Scalar {
    fn default() -> (r: Self)
        ensures
            r == Self::spec_zero(),
    {
        Self::zero()
    }
}

impl std::ops::Add for Scalar {
    type Output = Scalar;

    fn add(self, rhs: Scalar) -> (r: Scalar)
        ensures
            r == self.spec_add(rhs),
    {
        let s: i128 = self.raw as i128 + rhs.raw as i128;
        Scalar { raw: saturate_wide(s) }
    }
}

impl vstd::std_specs::ops::AddSpecImpl for Scalar {
    open spec fn obeys_add_spec() -> bool {
        true
    }

    open spec fn add_req(self, rhs: Scalar) -> bool {
        true
    }

    open spec fn add_spec(self, rhs: Scalar) -> Scalar {
        self.spec_add(rhs)
    }
}

impl std::ops::Sub for Scalar {
    type Output = Scalar;

    fn sub(self, rhs: Scalar) -> (r: Scalar)
        ensures
            r == self.spec_sub(rhs),
    {
        let s: i128 = self.raw as i128 - rhs.raw as i128;
        Scalar { raw: saturate_wide(s) }
    }
}

impl vstd::std_specs::ops::SubSpecImpl for Scalar {
    open spec fn obeys_sub_spec() -> bool {
        true
    }

    open spec fn sub_req(self, rhs: Scalar) -> bool {
        true
    }

    open spec fn sub_spec(self, rhs: Scalar) -> Scalar {
        self.spec_sub(rhs)
    }
}

impl std::ops::Mul for Scalar {
    type Output = Scalar;

    fn mul(self, rhs: Scalar) -> (r: Scalar)
        ensures
            r == self.spec_mul(rhs),
    {
        let a: u64 = magnitude_of(self.raw);
        let b: u64 = magnitude_of(rhs.raw);
        let negative: bool = (self.raw < 0) != (rhs.raw < 0);
        assert(a * b <= 0x8000_0000_0000_0000 * 0x8000_0000_0000_0000) by (nonlinear_arith)
            requires
                a <= 0x8000_0000_0000_0000,
                b <= 0x8000_0000_0000_0000,
        ;
        let p: u128 = (a as u128) * (b as u128);
        let q: u128 = p / 4294967296u128;
        proof {
            lemma_product_sign(self.raw as int, rhs.raw as int);
        }
        Scalar { raw: signed_saturate(negative && q != 0, q) }
    }
}

impl vstd::std_specs::ops::MulSpecImpl for Scalar {
    open spec fn obeys_mul_spec() -> bool {
        true
    }

    open spec fn mul_req(self, rhs: Scalar) -> bool {
        true
    }

    open spec fn mul_spec(self, rhs: Scalar) -> Scalar {
        self.spec_mul(rhs)
    }
}

impl std::ops::Div for Scalar {
    type Output = Scalar;

    fn div(self, rhs: Scalar) -> (r: Scalar)
        ensures
            r == self.spec_div(rhs),
    {
        if rhs.raw == 0 {
            if self.raw > 0 {
                Scalar { raw: MAX_RAW }
            } else if self.raw < 0 {
                Scalar { raw: MIN_RAW }
            } else {
                Scalar { raw: 0 }
            }
        } else {
            let a: u64 = magnitude_of(self.raw);
            let b: u64 = magnitude_of(rhs.raw);
            let negative: bool = (self.raw < 0) != (rhs.raw < 0);
            let n: u128 = (a as u128) * 4294967296u128;
            let q: u128 = n / (b as u128);
            Scalar { raw: signed_saturate(negative && q != 0, q) }
        }
    }
}

impl vstd::std_specs::ops::DivSpecImpl for Scalar {
    open spec fn obeys_div_spec() -> bool {
        true
    }

    open spec fn div_req(self, rhs: Scalar) -> bool {
        true
    }

    open spec fn div_spec(self, rhs: Scalar) -> Scalar {
        self.spec_div(rhs)
    }
}

impl std::ops::Neg for Scalar {
    type Output = Scalar;

    fn neg(self) -> (r: Scalar)
        ensures
            r == self.spec_neg(),
    {
        self.negate()
    }
}

impl vstd::std_specs::ops::NegSpecImpl for Scalar {
    open spec fn obeys_neg_spec() -> bool {
        true
    }

    open spec fn neg_req(self) -> bool {
        true
    }

    open spec fn neg_spec(self) -> Scalar {
        self.spec_neg()
    }
}

} // verus!
