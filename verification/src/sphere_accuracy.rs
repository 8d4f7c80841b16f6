//! How near to the sphere a hit lies: the error of the search for a hit,
//! bounded from the roundings that the search makes.

use vstd::prelude::*;
use crate::arith::floor_sqrt;
use crate::arith::lemma_floor_sqrt_exists;
use crate::arith::lemma_quot_bracket;
use crate::arith::quot_toward_zero;
use crate::interval::Interval;
use crate::ray::Ray;
use crate::scalar::Scalar;
use crate::scalar::SCALE;
use crate::scalar_laws::lemma_mul_bounded;
use crate::sphere::Sphere;
use crate::vec3::Vec3;
use crate::vec3::STEADY_RAW;
use crate::vec3_laws::lemma_amplified_is_scaled;
use crate::vec3_laws::lemma_amplified_steady;
use crate::vec3_laws::lemma_amplified_bounded;
use crate::vec3_laws::lemma_amplified_moderate;
use crate::vec3_laws::lemma_largest_bounds;
use crate::vec3_laws::raw_dot;

verus! {

/// The pieces of a search for a hit, as plain integers in raw units: the
/// bound `b` on the direction, the direction `d`, the way `oc` from the origin to the centre, the parameter
/// `t0` of the nearest point of the line, that point's offset `f`, the
/// radius `r`, half the chord `s`, the root `tp` and the offset `g` of the
/// point at the root.
pub struct Search {
    /// A whole number that no component of the direction lies beyond.
    pub b: int,
    pub d1: int,
    pub d2: int,
    pub d3: int,
    pub oc1: int,
    pub oc2: int,
    pub oc3: int,
    pub t0: int,
    pub f1: int,
    pub f2: int,
    pub f3: int,
    pub r: int,
    pub x: int,
    pub y: int,
    pub s: int,
    pub tp: int,
    pub g1: int,
    pub g2: int,
    pub g3: int,
}

impl Search {
    /// The squared length of the direction.
    pub open spec fn a(self) -> int {
        self.d1 * self.d1 + self.d2 * self.d2 + self.d3 * self.d3
    }

    pub open spec fn h(self) -> int {
        self.d1 * self.oc1 + self.d2 * self.oc2 + self.d3 * self.oc3
    }

    /// The squared distance of the line from the centre.
    pub open spec fn p2(self) -> int {
        (self.oc1 - self.f1) * (self.oc1 - self.f1) + (self.oc2 - self.f2) * (self.oc2 - self.f2)
            + (self.oc3 - self.f3) * (self.oc3 - self.f3)
    }

    /// The squared distance of the point at the root from the centre.
    pub open spec fn reach(self) -> int {
        (self.g1 - self.oc1) * (self.g1 - self.oc1) + (self.g2 - self.oc2) * (self.g2 - self.oc2)
            + (self.g3 - self.oc3) * (self.g3 - self.oc3)
    }

    /// Every piece is what the search makes it, up to its one rounding.
    pub open spec fn sound(self) -> bool {
        &&& 1 <= self.b <= 16
        &&& -(self.b * SCALE) <= self.d1 <= self.b * SCALE
        &&& -(self.b * SCALE) <= self.d2 <= self.b * SCALE
        &&& -(self.b * SCALE) <= self.d3 <= self.b * SCALE
        &&& 0x1000_0000_0000_0000 <= self.a()
        &&& -self.a() < self.t0 * self.a() - self.h() * SCALE < self.a()
        &&& -SCALE < self.f1 * SCALE - self.d1 * self.t0 < SCALE
        &&& -SCALE < self.f2 * SCALE - self.d2 * self.t0 < SCALE
        &&& -SCALE < self.f3 * SCALE - self.d3 * self.t0 < SCALE
        &&& 0 <= self.r <= 0x1000_0000_0000
        &&& self.p2() <= self.r * self.r
        &&& 0 <= self.x && self.x * self.x <= (self.r * self.r - self.p2()) * 0x1_0000_0000 < (self.x
            + 1) * (self.x + 1)
        &&& 0 <= self.y && self.y * self.y <= self.a() * 0x4_0000_0000 < (self.y + 1) * (self.y + 1)
        &&& 0 <= self.s && self.s * self.y <= self.x * 0x2_0000_0000 < (self.s + 1) * self.y
        &&& (self.tp == self.t0 - self.s || self.tp == self.t0 + self.s)
        &&& -SCALE < self.g1 * SCALE - self.d1 * self.tp < SCALE
        &&& -SCALE < self.g2 * SCALE - self.d2 * self.tp < SCALE
        &&& -SCALE < self.g3 * SCALE - self.d3 * self.tp < SCALE
    }
}

/// Half the chord is at most four radii, and the roots it comes from are
/// bounded by the radius.
proof fn lemma_half_chord_bounds(k: Search)
    requires
        k.sound(),
    ensures
        k.x <= k.r * 65536,
        0x8000_0000_0000 <= k.y,
        k.s <= 4 * k.r,
        k.a() <= 3 * ((k.b * k.b) * (SCALE * SCALE)),
        1 <= k.b * k.b <= 256,
        SCALE * SCALE <= (k.b * k.b) * (SCALE * SCALE),
{
    let a = k.a();
    let wide = k.b * SCALE;
    assert(1 <= k.b * k.b <= 256) by (nonlinear_arith)
        requires
            1 <= k.b <= 16,
    ;
    assert(wide * wide == (k.b * k.b) * (SCALE * SCALE)) by (nonlinear_arith)
        requires
            wide == k.b * SCALE,
    ;
    assert(SCALE * SCALE <= (k.b * k.b) * (SCALE * SCALE)) by (nonlinear_arith)
        requires
            1 <= k.b * k.b,
    ;
    let dd = k.r * k.r - k.p2();
    assert(0 <= k.p2()) by (nonlinear_arith)
        requires
            k.p2() == (k.oc1 - k.f1) * (k.oc1 - k.f1) + (k.oc2 - k.f2) * (k.oc2 - k.f2) + (k.oc3
                - k.f3) * (k.oc3 - k.f3),
    ;
    assert(k.x <= k.r * 65536) by (nonlinear_arith)
        requires
            0 <= k.x,
            0 <= k.r,
            k.x * k.x <= dd * 0x1_0000_0000,
            dd <= k.r * k.r,
    {
        if k.x >= k.r * 65536 + 1 {
            assert(k.x * k.x >= (k.r * 65536 + 1) * (k.r * 65536 + 1));
            assert((k.r * 65536 + 1) * (k.r * 65536 + 1) > (k.r * k.r) * 0x1_0000_0000);
        }
    }
    assert(0x8000_0000_0000 <= k.y) by (nonlinear_arith)
        requires
            0 <= k.y,
            a * 0x4_0000_0000 < (k.y + 1) * (k.y + 1),
            0x1000_0000_0000_0000 <= a,
    {
        if k.y + 1 <= 0x8000_0000_0000 {
            assert((k.y + 1) * (k.y + 1) <= 0x8000_0000_0000 * 0x8000_0000_0000);
        }
    }
    assert(k.s <= 4 * k.r) by (nonlinear_arith)
        requires
            0 <= k.s,
            0 <= k.r,
            k.s * k.y <= k.x * 0x2_0000_0000,
            k.x <= k.r * 65536,
            0x8000_0000_0000 <= k.y,
    {
        if k.s >= 4 * k.r + 1 {
            assert(k.s * k.y >= (4 * k.r + 1) * 0x8000_0000_0000);
        }
    }
    assert(a <= 3 * (wide * wide)) by (nonlinear_arith)
        requires
            a == k.d1 * k.d1 + k.d2 * k.d2 + k.d3 * k.d3,
            -wide <= k.d1 <= wide,
            -wide <= k.d2 <= wide,
            -wide <= k.d3 <= wide,
    {
        assert(k.d1 * k.d1 <= wide * wide);
        assert(k.d2 * k.d2 <= wide * wide);
        assert(k.d3 * k.d3 <= wide * wide);
    }
}

/// The square of half the chord, times the squared length of the direction,
/// is the clearance times the square of the scale, up to some twenty-five
/// radii and three units of that square, times the square of the bound on
/// the direction.
proof fn lemma_half_chord_squared(k: Search)
    requires
        k.sound(),
    ensures
        -((24 * k.r + 3) * ((k.b * k.b) * (SCALE * SCALE)) + k.r * (SCALE * SCALE)) <= k.s * k.s
            * k.a() - (k.r * k.r - k.p2()) * (SCALE * SCALE) <= k.r * (SCALE * SCALE),
{
    lemma_half_chord_bounds(k);
    let zz = (k.b * k.b) * (SCALE * SCALE);
    let a = k.a();
    let dd = k.r * k.r - k.p2();
    let ss = SCALE * SCALE;
    let (x, y, s, r) = (k.x, k.y, k.s, k.r);
    let big = 0x4_0000_0000int;
    assert(ss == 0x1_0000_0000_0000_0000) by (nonlinear_arith)
        requires
            ss == SCALE * SCALE,
            SCALE == 4294967296,
    ;
    // Upper side.
    let sy1 = s * (y + 1);
    assert(sy1 <= x * 0x2_0000_0000 + s) by (nonlinear_arith)
        requires
            sy1 == s * (y + 1),
            s * y <= x * 0x2_0000_0000,
    ;
    assert((s * s) * (a * big) <= sy1 * sy1) by (nonlinear_arith)
        requires
            sy1 == s * (y + 1),
            a * big < (y + 1) * (y + 1),
            0 <= s,
            0 <= y,
    {
        assert(sy1 * sy1 == (s * s) * ((y + 1) * (y + 1)));
        assert(0 <= s * s);
    }
    let top = x * 0x2_0000_0000 + s;
    assert(sy1 * sy1 <= top * top) by (nonlinear_arith)
        requires
            0 <= sy1 <= top,
    ;
    assert(top * top == (x * x) * 0x4_0000_0000_0000_0000 + (x * s) * big + s * s)
        by (nonlinear_arith)
        requires
            top == x * 0x2_0000_0000 + s,
            big == 0x4_0000_0000int,
    ;
    assert((x * x) * 0x4_0000_0000_0000_0000 <= (dd * ss) * big) by (nonlinear_arith)
        requires
            x * x <= dd * 0x1_0000_0000,
            ss == 0x1_0000_0000_0000_0000,
            big == 0x4_0000_0000int,
    ;
    assert((s * s) * (a * big) == ((s * s) * a) * big) by (nonlinear_arith);
    assert(x * s <= r * (ss / 4)) by (nonlinear_arith)
        requires
            0 <= x <= r * 65536,
            0 <= s <= 4 * r,
            0 <= r <= 0x1000_0000_0000,
            ss == 0x1_0000_0000_0000_0000,
    {
        assert(x * s <= (r * 65536) * (4 * r));
        assert((r * 65536) * (4 * r) == (r * r) * 262144);
        assert(r * r <= r * 0x1000_0000_0000);
    }
    assert(s * s <= r * 0x1_0000_0000_0000) by (nonlinear_arith)
        requires
            0 <= s <= 4 * r,
            0 <= r <= 0x1000_0000_0000,
    {
        assert(s * s <= (4 * r) * (4 * r));
        assert(r * r <= r * 0x1000_0000_0000);
    }
    assert((s * s) * a - dd * ss <= r * ss) by (nonlinear_arith)
        requires
            ((s * s) * a) * big <= (dd * ss) * big + (x * s) * big + s * s,
            x * s <= r * (ss / 4),
            s * s <= r * 0x1_0000_0000_0000,
            0 <= r,
            ss == 0x1_0000_0000_0000_0000,
            big == 0x4_0000_0000int,
    ;
    // Lower side.
    let s1y = (s + 1) * y;
    assert(s1y * s1y >= (x * 0x2_0000_0000) * (x * 0x2_0000_0000)) by (nonlinear_arith)
        requires
            0 <= x * 0x2_0000_0000 < s1y,
    ;
    assert(s1y * s1y <= ((s + 1) * (s + 1)) * (a * big)) by (nonlinear_arith)
        requires
            s1y == (s + 1) * y,
            y * y <= a * big,
            0 <= s,
    {
        assert(s1y * s1y == ((s + 1) * (s + 1)) * (y * y));
        assert(0 <= (s + 1) * (s + 1));
    }
    assert((x * 0x2_0000_0000) * (x * 0x2_0000_0000) == (x * x) * 0x4_0000_0000_0000_0000)
        by (nonlinear_arith);
    assert((x * x) * 0x4_0000_0000_0000_0000 >= (dd * ss) * big - (2 * x) * 0x4_0000_0000_0000_0000)
        by (nonlinear_arith)
        requires
            dd * 0x1_0000_0000 < (x + 1) * (x + 1),
            0 <= x,
            ss == 0x1_0000_0000_0000_0000,
            big == 0x4_0000_0000int,
    {
        assert((x + 1) * (x + 1) == x * x + 2 * x + 1);
    }
    assert(((s + 1) * (s + 1)) * (a * big) == ((s * s) * a) * big + ((2 * s + 1) * a) * big)
        by (nonlinear_arith);
    assert((2 * s + 1) * a <= (24 * r + 3) * zz) by (nonlinear_arith)
        requires
            0 <= s <= 4 * r,
            0 <= a <= 3 * zz,
    {
        assert((2 * s + 1) * a <= (8 * r + 1) * a);
        assert((8 * r + 1) * a <= (8 * r + 1) * (3 * zz));
    }
    let slack = (24 * r + 3) * zz;
    assert((s * s) * a - dd * ss >= -(slack + r * ss)) by (nonlinear_arith)
        requires
            ((s * s) * a) * big + ((2 * s + 1) * a) * big >= (dd * ss) * big - (2 * x)
                * 0x4_0000_0000_0000_0000,
            (2 * s + 1) * a <= slack,
            0 <= x <= r * 65536,
            0 <= r,
            ss == 0x1_0000_0000_0000_0000,
            big == 0x4_0000_0000int,
    ;
    assert(k.s * k.s * k.a() == (s * s) * a);
}

/// One coordinate of the point at the root, measured from the centre and
/// times the scale: the step along the direction less the offset of the
/// line, and an error of less than two scales.
proof fn lemma_coordinate(
    b: int,
    d: int,
    oc: int,
    f: int,
    g: int,
    t0: int,
    tp: int,
    r: int,
    s: int,
)
    requires
        1 <= b <= 16,
        -(b * SCALE) <= d <= b * SCALE,
        -SCALE < f * SCALE - d * t0 < SCALE,
        -SCALE < g * SCALE - d * tp < SCALE,
        tp == t0 - s || tp == t0 + s,
        0 <= s <= 4 * r,
        (oc - f) * (oc - f) <= r * r,
        0 <= r,
    ensures
        ({
            let e = tp - t0;
            let u = d * e - (oc - f) * SCALE;
            let eta = (g * SCALE - d * tp) - (f * SCALE - d * t0);
            &&& (g - oc) * SCALE == u + eta
            &&& -2 * SCALE < eta < 2 * SCALE
            &&& ((g - oc) * (g - oc)) * (SCALE * SCALE) == u * u + 2 * (u * eta) + eta * eta
            &&& -10 * (r * ((b * b) * (SCALE * SCALE))) <= u * eta <= 10 * (r * ((b * b) * (SCALE
                * SCALE)))
            &&& 0 <= eta * eta <= 4 * (SCALE * SCALE)
            &&& u * u == (d * d) * (e * e) - 2 * (e * (((oc - f) * d) * SCALE)) + ((oc - f) * (oc
                - f)) * (SCALE * SCALE)
        }),
{
    let e = tp - t0;
    let q = oc - f;
    let u = d * e - q * SCALE;
    let eta = (g * SCALE - d * tp) - (f * SCALE - d * t0);
    assert(d * tp == d * t0 + d * e) by (nonlinear_arith)
        requires
            e == tp - t0,
    ;
    assert((g - oc) * SCALE == g * SCALE - oc * SCALE) by (nonlinear_arith);
    assert(q * SCALE == oc * SCALE - f * SCALE) by (nonlinear_arith)
        requires
            q == oc - f,
    ;
    assert((g - oc) * SCALE == u + eta);
    assert(-r <= q <= r) by (nonlinear_arith)
        requires
            q * q <= r * r,
            0 <= r,
    {
        if q > r {
            assert(q * q >= (r + 1) * (r + 1));
        }
        if q < -r {
            assert(q * q >= (r + 1) * (r + 1));
        }
    }
    assert(-(r * SCALE) <= q * SCALE <= r * SCALE) by (nonlinear_arith)
        requires
            -r <= q <= r,
            SCALE == 4294967296,
    ;
    let wide = b * SCALE;
    assert(-4 * (r * wide) <= d * e <= 4 * (r * wide)) by (nonlinear_arith)
        requires
            -wide <= d <= wide,
            -4 * r <= e <= 4 * r,
            0 <= r,
            0 <= wide,
    ;
    assert(r * SCALE <= r * wide) by (nonlinear_arith)
        requires
            wide == b * SCALE,
            1 <= b,
            0 <= r,
            SCALE == 4294967296,
    ;
    assert(-5 * (r * wide) <= u <= 5 * (r * wide));
    let w = (g - oc) * SCALE;
    assert(w * w == ((g - oc) * (g - oc)) * (SCALE * SCALE)) by (nonlinear_arith)
        requires
            w == (g - oc) * SCALE,
    ;
    assert(w * w == u * u + 2 * (u * eta) + eta * eta) by (nonlinear_arith)
        requires
            w == u + eta,
    ;
    let rw = r * wide;
    assert(-10 * (rw * SCALE) <= u * eta <= 10 * (rw * SCALE)) by (nonlinear_arith)
        requires
            -5 * rw <= u <= 5 * rw,
            -2 * SCALE < eta < 2 * SCALE,
            0 <= rw,
            SCALE == 4294967296,
    {
        assert((5 * rw) * (2 * SCALE) == 10 * (rw * SCALE));
    }
    assert(rw * SCALE <= r * ((b * b) * (SCALE * SCALE))) by (nonlinear_arith)
        requires
            rw == r * wide,
            wide == b * SCALE,
            1 <= b,
            0 <= r,
            SCALE == 4294967296,
    {
        assert(rw * SCALE == (r * b) * (SCALE * SCALE));
        assert(r * b <= r * (b * b));
        assert((r * b) * (SCALE * SCALE) <= (r * (b * b)) * (SCALE * SCALE));
        assert((r * (b * b)) * (SCALE * SCALE) == r * ((b * b) * (SCALE * SCALE)));
    }
    assert(0 <= eta * eta <= 4 * (SCALE * SCALE)) by (nonlinear_arith)
        requires
            -2 * SCALE < eta < 2 * SCALE,
            SCALE == 4294967296,
    ;
    let de = d * e;
    let qs = q * SCALE;
    assert(u * u == de * de - 2 * (de * qs) + qs * qs) by (nonlinear_arith)
        requires
            u == de - qs,
    ;
    assert(de * de == (d * d) * (e * e)) by (nonlinear_arith)
        requires
            de == d * e,
    ;
    assert(de * qs == e * ((q * d) * SCALE)) by (nonlinear_arith)
        requires
            de == d * e,
            qs == q * SCALE,
    ;
    assert(qs * qs == (q * q) * (SCALE * SCALE)) by (nonlinear_arith)
        requires
            qs == q * SCALE,
    ;
}

/// The offset of the line from the centre stands across the direction, up to
/// the roundings of the nearest point: their unrounded dot product, times the
/// scale, stays within six scales squared.
proof fn lemma_offset_across_direction(k: Search)
    requires
        k.sound(),
    ensures
        -6 * ((k.b * k.b) * (SCALE * SCALE)) <= ((k.oc1 - k.f1) * k.d1 + (k.oc2 - k.f2) * k.d2
            + (k.oc3 - k.f3) * k.d3) * SCALE <= 6 * ((k.b * k.b) * (SCALE * SCALE)),
{
    lemma_half_chord_bounds(k);
    let a = k.a();
    let h = k.h();
    let b1 = k.f1 * SCALE - k.d1 * k.t0;
    let b2 = k.f2 * SCALE - k.d2 * k.t0;
    let b3 = k.f3 * SCALE - k.d3 * k.t0;
    let alpha = k.t0 * a - h * SCALE;
    let qd = (k.oc1 - k.f1) * k.d1 + (k.oc2 - k.f2) * k.d2 + (k.oc3 - k.f3) * k.d3;
    assert(((k.oc1 - k.f1) * k.d1) * SCALE == (k.oc1 * k.d1) * SCALE - b1 * k.d1 - (k.d1 * k.d1)
        * k.t0) by (nonlinear_arith)
        requires
            b1 == k.f1 * SCALE - k.d1 * k.t0,
    ;
    assert(((k.oc2 - k.f2) * k.d2) * SCALE == (k.oc2 * k.d2) * SCALE - b2 * k.d2 - (k.d2 * k.d2)
        * k.t0) by (nonlinear_arith)
        requires
            b2 == k.f2 * SCALE - k.d2 * k.t0,
    ;
    assert(((k.oc3 - k.f3) * k.d3) * SCALE == (k.oc3 * k.d3) * SCALE - b3 * k.d3 - (k.d3 * k.d3)
        * k.t0) by (nonlinear_arith)
        requires
            b3 == k.f3 * SCALE - k.d3 * k.t0,
    ;
    assert(qd * SCALE == ((k.oc1 - k.f1) * k.d1) * SCALE + ((k.oc2 - k.f2) * k.d2) * SCALE + ((
        k.oc3 - k.f3) * k.d3) * SCALE) by (nonlinear_arith)
        requires
            qd == (k.oc1 - k.f1) * k.d1 + (k.oc2 - k.f2) * k.d2 + (k.oc3 - k.f3) * k.d3,
    ;
    assert(h * SCALE == (k.oc1 * k.d1) * SCALE + (k.oc2 * k.d2) * SCALE + (k.oc3 * k.d3) * SCALE)
        by (nonlinear_arith)
        requires
            h == k.d1 * k.oc1 + k.d2 * k.oc2 + k.d3 * k.oc3,
    ;
    assert(k.t0 * a == (k.d1 * k.d1) * k.t0 + (k.d2 * k.d2) * k.t0 + (k.d3 * k.d3) * k.t0)
        by (nonlinear_arith)
        requires
            a == k.d1 * k.d1 + k.d2 * k.d2 + k.d3 * k.d3,
    ;
    assert(qd * SCALE == -alpha - (b1 * k.d1 + b2 * k.d2 + b3 * k.d3));
    let wide = k.b * SCALE;
    let zz = (k.b * k.b) * (SCALE * SCALE);
    assert(wide * SCALE <= zz) by (nonlinear_arith)
        requires
            wide == k.b * SCALE,
            zz == (k.b * k.b) * (SCALE * SCALE),
            1 <= k.b,
            SCALE == 4294967296,
    {
        assert(wide * SCALE == k.b * (SCALE * SCALE));
        assert(k.b <= k.b * k.b);
        assert(k.b * (SCALE * SCALE) <= (k.b * k.b) * (SCALE * SCALE));
    }
    assert(-(wide * SCALE) <= b1 * k.d1 <= wide * SCALE) by (nonlinear_arith)
        requires
            -SCALE < b1 < SCALE,
            -wide <= k.d1 <= wide,
            SCALE == 4294967296,
    ;
    assert(-(wide * SCALE) <= b2 * k.d2 <= wide * SCALE) by (nonlinear_arith)
        requires
            -SCALE < b2 < SCALE,
            -wide <= k.d2 <= wide,
            SCALE == 4294967296,
    ;
    assert(-(wide * SCALE) <= b3 * k.d3 <= wide * SCALE) by (nonlinear_arith)
        requires
            -SCALE < b3 < SCALE,
            -wide <= k.d3 <= wide,
            SCALE == 4294967296,
    ;
}

/// The point at the root lies on the sphere up to rounding: the square of its
/// distance from the centre misses the square of the radius by at most `133`
/// radii and `15` squares of a raw unit, times the square of the bound on the
/// direction.
pub proof fn lemma_point_near_sphere(k: Search)
    requires
        k.sound(),
    ensures
        -((133 * k.r + 15) * (k.b * k.b)) <= k.reach() - k.r * k.r <= (133 * k.r + 15) * (k.b
            * k.b),
{
    lemma_half_chord_bounds(k);
    lemma_half_chord_squared(k);
    lemma_offset_across_direction(k);
    let ss = SCALE * SCALE;
    let r = k.r;
    let s = k.s;
    let e = k.tp - k.t0;
    let a = k.a();
    let p2 = k.p2();
    let (q1, q2, q3) = (k.oc1 - k.f1, k.oc2 - k.f2, k.oc3 - k.f3);
    assert(0 <= q1 * q1 && 0 <= q2 * q2 && 0 <= q3 * q3) by (nonlinear_arith);
    lemma_coordinate(k.b, k.d1, k.oc1, k.f1, k.g1, k.t0, k.tp, r, s);
    lemma_coordinate(k.b, k.d2, k.oc2, k.f2, k.g2, k.t0, k.tp, r, s);
    lemma_coordinate(k.b, k.d3, k.oc3, k.f3, k.g3, k.t0, k.tp, r, s);
    let bb = k.b * k.b;
    let zz = bb * ss;
    let u1 = k.d1 * e - q1 * SCALE;
    let u2 = k.d2 * e - q2 * SCALE;
    let u3 = k.d3 * e - q3 * SCALE;
    let n1 = (k.g1 * SCALE - k.d1 * k.tp) - (k.f1 * SCALE - k.d1 * k.t0);
    let n2 = (k.g2 * SCALE - k.d2 * k.tp) - (k.f2 * SCALE - k.d2 * k.t0);
    let n3 = (k.g3 * SCALE - k.d3 * k.tp) - (k.f3 * SCALE - k.d3 * k.t0);
    let reach = k.reach();
    let w1 = (k.g1 - k.oc1) * (k.g1 - k.oc1);
    let w2 = (k.g2 - k.oc2) * (k.g2 - k.oc2);
    let w3 = (k.g3 - k.oc3) * (k.g3 - k.oc3);
    assert(reach * ss == w1 * ss + w2 * ss + w3 * ss) by (nonlinear_arith)
        requires
            reach == w1 + w2 + w3,
    ;
    let uu = u1 * u1 + u2 * u2 + u3 * u3;
    let cross = u1 * n1 + u2 * n2 + u3 * n3;
    let noise = n1 * n1 + n2 * n2 + n3 * n3;
    assert(reach * ss == uu + 2 * cross + noise);
    let qd = q1 * k.d1 + q2 * k.d2 + q3 * k.d3;
    let qds = qd * SCALE;
    assert(qds == (q1 * k.d1) * SCALE + (q2 * k.d2) * SCALE + (q3 * k.d3) * SCALE)
        by (nonlinear_arith)
        requires
            qds == qd * SCALE,
            qd == q1 * k.d1 + q2 * k.d2 + q3 * k.d3,
    ;
    let ee = e * e;
    assert(ee == s * s) by (nonlinear_arith)
        requires
            ee == e * e,
            e == s || e == -s,
    ;
    assert(ee * a == (k.d1 * k.d1) * ee + (k.d2 * k.d2) * ee + (k.d3 * k.d3) * ee)
        by (nonlinear_arith)
        requires
            a == k.d1 * k.d1 + k.d2 * k.d2 + k.d3 * k.d3,
    ;
    let m1 = (q1 * k.d1) * SCALE;
    let m2 = (q2 * k.d2) * SCALE;
    let m3 = (q3 * k.d3) * SCALE;
    assert(e * qds == e * m1 + e * m2 + e * m3) by (nonlinear_arith)
        requires
            qds == m1 + m2 + m3,
    ;
    assert(p2 * ss == (q1 * q1) * ss + (q2 * q2) * ss + (q3 * q3) * ss) by (nonlinear_arith)
        requires
            p2 == q1 * q1 + q2 * q2 + q3 * q3,
    ;
    assert(uu == ee * a - 2 * (e * qds) + p2 * ss);
    assert(-24 * (r * zz) <= e * qds <= 24 * (r * zz)) by (nonlinear_arith)
        requires
            -4 * r <= e <= 4 * r,
            -6 * zz <= qds <= 6 * zz,
            0 <= r,
            0 <= zz,
    {
        assert((4 * r) * (6 * zz) == 24 * (r * zz));
    }
    let chord = k.s * k.s * k.a() - (k.r * k.r - k.p2()) * ss;
    assert(ee * a == k.s * k.s * k.a()) by (nonlinear_arith)
        requires
            ee == s * s,
            s == k.s,
            a == k.a(),
    ;
    assert((r * r - p2) * ss == (r * r) * ss - p2 * ss) by (nonlinear_arith);
    assert((24 * r + 3) * zz == 24 * (r * zz) + 3 * zz) by (nonlinear_arith);
    assert(uu - (r * r) * ss == chord - 2 * (e * qds));
    assert(0 <= ss) by (nonlinear_arith)
        requires
            ss == SCALE * SCALE,
    ;
    assert(0 <= r * ss <= r * zz) by (nonlinear_arith)
        requires
            0 <= r,
            0 <= ss <= zz,
    ;
    let gap = reach * ss - (r * r) * ss;
    assert(-(133 * (r * zz) + 15 * zz) <= gap <= 133 * (r * zz) + 15 * zz);
    assert(gap == (reach - r * r) * ss) by (nonlinear_arith)
        requires
            gap == reach * ss - (r * r) * ss,
    ;
    let limit = (133 * r + 15) * bb;
    assert(133 * (r * zz) + 15 * zz == limit * ss) by (nonlinear_arith)
        requires
            zz == bb * ss,
            limit == (133 * r + 15) * bb,
    ;
    assert(-limit <= reach - r * r <= limit) by (nonlinear_arith)
        requires
            -(limit * ss) <= (reach - r * r) * ss <= limit * ss,
            0 < ss,
    ;
}

/// The parameter of the nearest point of a line is not saturated, within the
/// range of the exact search and for a steady direction within `16`.
proof fn lemma_foot_in_range(sphere: Sphere, steady: Ray)
    requires
        sphere.spec_in_range(steady),
        STEADY_RAW <= steady.direction.spec_largest() <= 16 * SCALE,
    ensures
        ({
            let a = steady.direction.spec_norm_sq();
            let h = raw_dot(steady.direction, sphere.spec_oc(steady));
            let t0 = sphere.spec_foot(steady).raw;
            &&& 0x1000_0000_0000_0000 <= a
            &&& -a < t0 * a - h * SCALE < a
            &&& -0x80_0000_0000_0000 <= t0 <= 0x80_0000_0000_0000
            &&& sphere.spec_oc(steady).x.raw == sphere.center.x.raw - steady.origin.x.raw
            &&& sphere.spec_oc(steady).y.raw == sphere.center.y.raw - steady.origin.y.raw
            &&& sphere.spec_oc(steady).z.raw == sphere.center.z.raw - steady.origin.z.raw
        }),
{
    let d = steady.direction;
    let oc = sphere.spec_oc(steady);
    lemma_largest_bounds(d);
    let a = d.spec_norm_sq();
    let h = raw_dot(d, oc);
    let big = d.spec_largest();
    assert(0x1000_0000_0000_0000 <= a) by (nonlinear_arith)
        requires
            big * big <= a,
            0x4000_0000 <= big,
    {
        assert(big * big >= 0x4000_0000 * 0x4000_0000);
    }
    let far = 0x2000_0000_0000int;
    let wide = 0x10_0000_0000int;
    assert(-3 * (wide * far) <= h <= 3 * (wide * far)) by (nonlinear_arith)
        requires
            h == d.x.raw * oc.x.raw + d.y.raw * oc.y.raw + d.z.raw * oc.z.raw,
            -wide <= d.x.raw <= wide,
            -wide <= d.y.raw <= wide,
            -wide <= d.z.raw <= wide,
            -far <= oc.x.raw <= far,
            -far <= oc.y.raw <= far,
            -far <= oc.z.raw <= far,
            0 <= far,
            0 <= wide,
    {
        assert(-(wide * far) <= d.x.raw * oc.x.raw <= wide * far);
        assert(-(wide * far) <= d.y.raw * oc.y.raw <= wide * far);
        assert(-(wide * far) <= d.z.raw * oc.z.raw <= wide * far);
    }
    assert(wide * far == 0x2_0000_0000_0000_0000_0000int) by (nonlinear_arith)
        requires
            far == 0x2000_0000_0000int,
            wide == 0x10_0000_0000int,
    ;
    lemma_quot_bracket(h * SCALE, a);
    let q = quot_toward_zero(h * SCALE, a);
    let hs = h * SCALE;
    assert(-0x6_0000_0000_0000_0000_0000_0000_0000int <= hs
        <= 0x6_0000_0000_0000_0000_0000_0000_0000int) by (nonlinear_arith)
        requires
            hs == h * SCALE,
            -0x6_0000_0000_0000_0000_0000int <= h <= 0x6_0000_0000_0000_0000_0000int,
            SCALE == 4294967296,
    ;
    assert(-0x80_0000_0000_0000 <= q <= 0x80_0000_0000_0000) by (nonlinear_arith)
        requires
            -a < hs - q * a < a,
            0x1000_0000_0000_0000 <= a,
            -0x6_0000_0000_0000_0000_0000_0000_0000int <= hs
                <= 0x6_0000_0000_0000_0000_0000_0000_0000int,
    {
        if q > 0x80_0000_0000_0000 {
            assert(q * a >= 0x80_0000_0000_0001 * a);
            assert((0x80_0000_0000_0001 - 1) * a >= 0x80_0000_0000_0000 * 0x1000_0000_0000_0000);
        }
        if q < -0x80_0000_0000_0000 {
            assert(q * a <= -0x80_0000_0000_0001 * a);
            assert((0x80_0000_0000_0001 - 1) * a >= 0x80_0000_0000_0000 * 0x1000_0000_0000_0000);
        }
    }
    assert(q * a == a * q) by (nonlinear_arith);
}

/// A hit within the range of the exact search, by a ray that has a direction
/// with no component beyond the whole number `b`, up to `16`, lies on the
/// sphere up to rounding: the square of the distance of its point from the
/// centre misses the square of the radius by at most `133` radii and `15`
/// squares of a raw unit, times the square of `b`.
pub proof fn lemma_hit_lies_on_sphere(sphere: Sphere, ray: Ray, interval: Interval, b: int)
    requires
        sphere.spec_in_range(ray),
        1 <= b <= 16,
        0 < ray.direction.spec_largest() <= b * SCALE,
        0 <= sphere.radius.raw,
    ensures
        sphere.spec_intersect(ray, interval) matches Some(record) ==> -((133 * sphere.radius.raw
            + 15) * (b * b)) <= record.point.spec_sub(sphere.center).spec_norm_sq()
            - sphere.radius.raw * sphere.radius.raw <= (133 * sphere.radius.raw + 15) * (b * b),
{
    if let Some(root) = sphere.spec_root(ray, interval) {
        let steady = Sphere::spec_steady(ray);
        let d = steady.direction;
        let oc = sphere.spec_oc(steady);
        lemma_amplified_steady(ray.direction);
        lemma_amplified_bounded(ray.direction, b * SCALE);
        lemma_amplified_moderate(ray.direction);
        lemma_amplified_is_scaled(ray.direction);
        lemma_largest_bounds(d);
        lemma_largest_bounds(ray.direction);
        assert(sphere.spec_in_range(steady));
        lemma_foot_in_range(sphere, steady);
        let a = d.spec_norm_sq();
        let foot = sphere.spec_foot(steady);
        let t0 = foot.raw as int;
        let wide = 0x10_0000_0000int;
        let reach_bound = 0x80_0000_0000_0000int;
        let step_bound = 0x800_0000_0000_0000int;
        assert(wide * reach_bound == step_bound * SCALE) by (nonlinear_arith)
            requires
                wide == 0x10_0000_0000int,
                reach_bound == 0x80_0000_0000_0000int,
                step_bound == 0x800_0000_0000_0000int,
                SCALE == 4294967296,
        ;
        lemma_mul_bounded(d.x, foot, wide, reach_bound, step_bound);
        lemma_mul_bounded(d.y, foot, wide, reach_bound, step_bound);
        lemma_mul_bounded(d.z, foot, wide, reach_bound, step_bound);
        lemma_quot_bracket(d.x.raw * t0, SCALE as int);
        lemma_quot_bracket(d.y.raw * t0, SCALE as int);
        lemma_quot_bracket(d.z.raw * t0, SCALE as int);
        let f = d.spec_scale(foot);
        let perpendicular = sphere.spec_perpendicular(steady);
        assert(perpendicular.x.raw == oc.x.raw - f.x.raw);
        assert(perpendicular.y.raw == oc.y.raw - f.y.raw);
        assert(perpendicular.z.raw == oc.z.raw - f.z.raw);
        let r = sphere.radius.raw as int;
        let clearance = sphere.spec_clearance(steady);
        assert(clearance >= 0);
        lemma_floor_sqrt_exists(clearance * 0x1_0000_0000);
        lemma_floor_sqrt_exists(a * 0x4_0000_0000);
        let x = floor_sqrt(clearance * 0x1_0000_0000);
        let y = floor_sqrt(a * 0x4_0000_0000);
        assert(0x8000_0000_0000 <= y) by (nonlinear_arith)
            requires
                0 <= y,
                a * 0x4_0000_0000 < (y + 1) * (y + 1),
                0x1000_0000_0000_0000 <= a,
        {
            if y + 1 <= 0x8000_0000_0000 {
                assert((y + 1) * (y + 1) <= 0x8000_0000_0000 * 0x8000_0000_0000);
            }
        }
        let s = (x * 0x2_0000_0000) / y;
        vstd::arithmetic::div_mod::lemma_fundamental_div_mod(x * 0x2_0000_0000, y);
        vstd::arithmetic::div_mod::lemma_mod_bound(x * 0x2_0000_0000, y);
        vstd::arithmetic::div_mod::lemma_div_pos_is_pos(x * 0x2_0000_0000, y);
        assert(s * y <= x * 0x2_0000_0000 < (s + 1) * y) by (nonlinear_arith)
            requires
                x * 0x2_0000_0000 == y * s + (x * 0x2_0000_0000) % y,
                0 <= (x * 0x2_0000_0000) % y < y,
        ;
        let far_side = root != sphere.spec_near(ray);
        let tp = if far_side {
            t0 + s
        } else {
            t0 - s
        };
        let gain = ray.direction.spec_gain();
        let probe = Search {
            b,
            d1: d.x.raw as int,
            d2: d.y.raw as int,
            d3: d.z.raw as int,
            oc1: oc.x.raw as int,
            oc2: oc.y.raw as int,
            oc3: oc.z.raw as int,
            t0,
            f1: f.x.raw as int,
            f2: f.y.raw as int,
            f3: f.z.raw as int,
            r,
            x,
            y,
            s,
            tp,
            g1: quot_toward_zero(d.x.raw * tp, SCALE as int),
            g2: quot_toward_zero(d.y.raw * tp, SCALE as int),
            g3: quot_toward_zero(d.z.raw * tp, SCALE as int),
        };
        lemma_quot_bracket(d.x.raw * tp, SCALE as int);
        lemma_quot_bracket(d.y.raw * tp, SCALE as int);
        lemma_quot_bracket(d.z.raw * tp, SCALE as int);
        assert(probe.a() == a);
        assert(probe.h() == raw_dot(d, oc));
        assert(probe.p2() == perpendicular.spec_norm_sq());
        assert(probe.sound());
        lemma_half_chord_bounds(probe);
        lemma_point_near_sphere(probe);
        assert(sphere.spec_half_chord(steady).raw == s);
        let steady_root = if far_side {
            sphere.spec_steady_far(ray)
        } else {
            sphere.spec_steady_near(ray)
        };
        assert(steady_root.raw == tp);
        assert(root == steady_root.spec_times(gain));
        assert(interval.spec_surrounds(root));
        assert(root.raw == tp * gain);
        lemma_point_offset(ray.direction.x, d.x, root, tp, gain);
        lemma_point_offset(ray.direction.y, d.y, root, tp, gain);
        lemma_point_offset(ray.direction.z, d.z, root, tp, gain);
        let record = sphere.spec_record(ray, root);
        let away = record.point.spec_sub(sphere.center);
        assert(away.x.raw == probe.g1 - probe.oc1);
        assert(away.y.raw == probe.g2 - probe.oc2);
        assert(away.z.raw == probe.g3 - probe.oc3);
        assert(away.spec_norm_sq() == probe.reach());
    }
}

/// One coordinate of the step from the origin to the point at the root: by
/// the ray and by the amplified ray it is the same, and within reach.
proof fn lemma_point_offset(slow: Scalar, fast: Scalar, root: Scalar, tp: int, gain: int)
    requires
        fast.raw == slow.raw * gain,
        root.raw == tp * gain,
        -0x10_0000_0000 <= fast.raw <= 0x10_0000_0000,
        -0x100_0000_0000_0000 <= tp <= 0x100_0000_0000_0000,
    ensures
        slow.spec_mul(root).raw == quot_toward_zero(fast.raw * tp, SCALE as int),
        -0x1000_0000_0000_0000 <= slow.spec_mul(root).raw <= 0x1000_0000_0000_0000,
{
    assert(slow.raw * root.raw == fast.raw * tp) by (nonlinear_arith)
        requires
            fast.raw == slow.raw * gain,
            root.raw == tp * gain,
    ;
    let p = fast.raw * tp;
    let top = 0x1000_0000_0000_0000int;
    assert(-(top * SCALE) <= p <= top * SCALE) by (nonlinear_arith)
        requires
            p == fast.raw * tp,
            -0x10_0000_0000 <= fast.raw <= 0x10_0000_0000,
            -0x100_0000_0000_0000 <= tp <= 0x100_0000_0000_0000,
            top == 0x1000_0000_0000_0000int,
            SCALE == 4294967296,
    ;
    crate::arith::lemma_quot_of_multiple(top, SCALE as int);
    crate::arith::lemma_quot_of_multiple(-top, SCALE as int);
    assert((-top) * SCALE == -(top * SCALE)) by (nonlinear_arith);
    crate::arith::lemma_quot_monotone(p, top * SCALE, SCALE as int);
    crate::arith::lemma_quot_monotone(-(top * SCALE), p, SCALE as int);
}

/// The same in terms of the distance: for a radius of `2048` raw units or
/// more, which is less than `5e-7`, the point of a hit lies at the radius
/// from the centre within `68` raw units, which is less than `1.6e-8`.
pub proof fn lemma_hit_at_radius(sphere: Sphere, ray: Ray, interval: Interval)
    requires
        sphere.spec_in_range(ray),
        0 < ray.direction.spec_largest() <= SCALE,
        2048 <= sphere.radius.raw,
    ensures
        sphere.spec_intersect(ray, interval) matches Some(record) ==> sphere.radius.raw - 68
            <= record.point.spec_sub(sphere.center).spec_mag().raw <= sphere.radius.raw + 67,
{
    lemma_hit_lies_on_sphere(sphere, ray, interval, 1);
    if let Some(record) = sphere.spec_intersect(ray, interval) {
        let reach = record.point.spec_sub(sphere.center).spec_norm_sq();
        let r = sphere.radius.raw as int;
        assert(0 <= reach) by (nonlinear_arith)
            requires
                -(133 * r + 15) <= reach - r * r,
                2048 <= r,
        ;
        lemma_floor_sqrt_exists(reach);
        let m = floor_sqrt(reach);
        assert(r - 68 <= m <= r + 67) by (nonlinear_arith)
            requires
                0 <= m,
                m * m <= reach,
                reach < (m + 1) * (m + 1),
                -(133 * r + 15) <= reach - r * r <= 133 * r + 15,
                2048 <= r,
        {
            if m >= r + 68 {
                assert(m * m >= (r + 68) * (r + 68));
                assert((r + 68) * (r + 68) == r * r + 136 * r + 4624);
            }
            if m + 1 <= r - 68 {
                assert((m + 1) * (m + 1) <= (r - 68) * (r - 68));
                assert((r - 68) * (r - 68) == r * r - 136 * r + 4624);
            }
        }
    }
}

} // verus!
