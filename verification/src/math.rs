//! Fixed-point scalar and vector arithmetic for the simulation core.
//!
//! All simulated quantities are integers counted in subunits: `SCALE`
//! subunits make one world unit (one tile side). Positions are subunits,
//! velocities are subunits per second, accelerations subunits per second
//! squared. Keeping every quantity an integer makes the simulation exactly
//! deterministic, tick for tick, on every machine.

use vstd::prelude::*;
use vstd::arithmetic::div_mod::lemma_div_is_ordered;
use vstd::arithmetic::mul::lemma_mul_inequality;
use vstd::arithmetic::mul::lemma_mul_is_commutative;

verus! {

/// Number of fixed-point subunits in one world unit.
pub const SCALE: i64 = 1024;

/// Largest coordinate magnitude the world admits, in subunits.
pub const COORD_MAX: i64 = 0x4000_0000_0000;

/// Largest velocity magnitude per axis, in subunits per second.
pub const VEL_MAX: i64 = 0x20_0000;

/// Largest force (acceleration) magnitude per axis, in subunits per second
/// squared.
pub const FORCE_MAX: i64 = 0x100_0000_0000;

/// Mathematical counterpart of [`clamp64`].
pub open spec fn spec_clamp64(x: int, lo: int, hi: int) -> int {
    if x < lo {
        lo
    } else if x > hi {
        hi
    } else {
        x
    }
}

/// Clamps `x` into the inclusive range `[lo, hi]`.
pub fn clamp64(x: i64, lo: i64, hi: i64) -> (r: i64)
    requires
        lo <= hi,
    ensures
        r == spec_clamp64(x as int, lo as int, hi as int),
{
    if x < lo {
        lo
    } else if x > hi {
        hi
    } else {
        x
    }
}

/// Division by a positive divisor, rounding towards zero, defined through
/// division of non-negative integers only.
pub open spec fn spec_div_trunc(x: int, d: int) -> int
    recommends
        d > 0,
{
    if x >= 0 {
        x / d
    } else {
        -((-x) / d)
    }
}

/// Divides by a positive divisor, rounding towards zero.
pub fn div_trunc(x: i64, d: i64) -> (r: i64)
    requires
        d > 0,
        -0x4000_0000_0000_0000 <= x <= 0x4000_0000_0000_0000,
    ensures
        r == spec_div_trunc(x as int, d as int),
        x >= 0 ==> 0 <= r <= x,
        x < 0 ==> x <= r <= 0,
{
    proof {
        if x >= 0 {
            vstd::arithmetic::div_mod::lemma_div_is_ordered(0, x as int, d as int);
            vstd::arithmetic::div_mod::lemma_div_is_ordered_by_denominator(x as int, 1, d as int);
        } else {
            vstd::arithmetic::div_mod::lemma_div_is_ordered(0, -x as int, d as int);
            vstd::arithmetic::div_mod::lemma_div_is_ordered_by_denominator(-x as int, 1, d as int);
        }
    }
    if x >= 0 {
        x / d
    } else {
        -((-x) / d)
    }
}

/// Linear interpolation from `a` to `b` by `t / SCALE`, as an integer
/// function. Division always acts on a non-negative dividend, so the result
/// is independent of how the machine rounds signed quotients.
pub open spec fn spec_lerp64(a: int, b: int, t: int) -> int {
    if b >= a {
        a + (b - a) * t / (SCALE as int)
    } else {
        a - (a - b) * t / (SCALE as int)
    }
}

/// Interpolates between two fixed-point scalars with blend factor
/// `t` in `[0, SCALE]`.
pub fn lerp64(a: i64, b: i64, t: i64) -> (r: i64)
    requires
        0 <= t <= SCALE,
        -COORD_MAX - SCALE <= a <= COORD_MAX + SCALE,
        -COORD_MAX - SCALE <= b <= COORD_MAX + SCALE,
    ensures
        r == spec_lerp64(a as int, b as int, t as int),
{
    proof {
        lemma_lerp64_bounds(a as int, b as int, t as int);
    }
    if b >= a {
        a + (b - a) * t / SCALE
    } else {
        a - (a - b) * t / SCALE
    }
}

/// The interpolant never leaves the segment between its endpoints: for any
/// blend factor in `[0, SCALE]` the result lies between `a` and `b`, it is
/// exactly `a` at factor `0`, and exactly `b` at factor `SCALE`.
pub proof fn lemma_lerp64_bounds(a: int, b: int, t: int)
    requires
        0 <= t <= SCALE,
    ensures
        a <= b ==> a <= spec_lerp64(a, b, t) <= b,
        a > b ==> b <= spec_lerp64(a, b, t) <= a,
        spec_lerp64(a, b, 0) == a,
        spec_lerp64(a, b, SCALE as int) == b,
{
    let s = SCALE as int;
    if b >= a {
        let d = b - a;
        lemma_mul_inequality(t, s, d);
        lemma_mul_is_commutative(t, d);
        lemma_mul_is_commutative(s, d);
        lemma_div_is_ordered(d * t, d * s, s);
        assert(d * s / s == d) by (nonlinear_arith)
            requires
                d >= 0,
                s == 1024,
        ;
        assert(d * t >= 0) by (nonlinear_arith)
            requires
                d >= 0,
                t >= 0,
        ;
        lemma_div_is_ordered(0, d * t, s);
        assert(d * 0 == 0) by (nonlinear_arith);
    } else {
        let d = a - b;
        lemma_mul_inequality(t, s, d);
        lemma_mul_is_commutative(t, d);
        lemma_mul_is_commutative(s, d);
        lemma_div_is_ordered(d * t, d * s, s);
        assert(d * s / s == d) by (nonlinear_arith)
            requires
                d >= 0,
                s == 1024,
        ;
        assert(d * t >= 0) by (nonlinear_arith)
            requires
                d >= 0,
                t >= 0,
        ;
        lemma_div_is_ordered(0, d * t, s);
        assert(d * 0 == 0) by (nonlinear_arith);
    }
}

/// A larger blend factor never moves the interpolant backwards along the
/// segment from `a` to `b`.
pub proof fn lemma_lerp64_monotone(a: int, b: int, t1: int, t2: int)
    requires
        0 <= t1 <= t2 <= SCALE,
    ensures
        a <= b ==> spec_lerp64(a, b, t1) <= spec_lerp64(a, b, t2),
        a > b ==> spec_lerp64(a, b, t1) >= spec_lerp64(a, b, t2),
{
    let s = SCALE as int;
    if b >= a {
        let d = b - a;
        lemma_mul_inequality(t1, t2, d);
        lemma_mul_is_commutative(t1, d);
        lemma_mul_is_commutative(t2, d);
        lemma_div_is_ordered(d * t1, d * t2, s);
    } else {
        let d = a - b;
        lemma_mul_inequality(t1, t2, d);
        lemma_mul_is_commutative(t1, d);
        lemma_mul_is_commutative(t2, d);
        lemma_div_is_ordered(d * t1, d * t2, s);
    }
}

/// Scaling a non-negative value by a fraction `r / SCALE` with
/// `r <= SCALE` never enlarges it.
pub proof fn lemma_scale_frac_bounded(v: int, r: int)
    requires
        0 <= v,
        0 <= r <= SCALE,
    ensures
        0 <= v * r / (SCALE as int) <= v,
{
    let s = SCALE as int;
    lemma_mul_inequality(r, s, v);
    lemma_mul_is_commutative(r, v);
    lemma_mul_is_commutative(s, v);
    lemma_div_is_ordered(v * r, v * s, s);
    assert(v * s / s == v) by (nonlinear_arith)
        requires
            v >= 0,
            s == 1024,
    ;
    assert(v * r >= 0) by (nonlinear_arith)
        requires
            v >= 0,
            r >= 0,
    ;
    lemma_div_is_ordered(0, v * r, s);
}

/// A two-dimensional fixed-point vector.
#[derive(Clone, Copy, PartialEq, Eq, Structural, Debug)]
pub struct Vec2i {
    pub x: i64,
    pub y: i64,
}

/// Creates a 2D fixed-point vector.
pub fn vector(x: i64, y: i64) -> (r: Vec2i)
    ensures
        r == (Vec2i { x, y }),
{
    Vec2i { x, y }
}

impl Vec2i {
    /// Both coordinates lie within `[-m, m]`.
    pub open spec fn bounded(self, m: int) -> bool {
        -m <= self.x <= m && -m <= self.y <= m
    }

    /// The zero vector.
    pub fn zero() -> (r: Vec2i)
        ensures
            r == (Vec2i { x: 0, y: 0 }),
    {
        Vec2i { x: 0, y: 0 }
    }

    /// Component-wise sum.
    pub fn add(self, o: Vec2i) -> (r: Vec2i)
        requires
            self.bounded(0x2000_0000_0000_0000),
            o.bounded(0x2000_0000_0000_0000),
        ensures
            r.x == self.x + o.x,
            r.y == self.y + o.y,
    {
        Vec2i { x: self.x + o.x, y: self.y + o.y }
    }

    /// Component-wise difference.
    pub fn sub(self, o: Vec2i) -> (r: Vec2i)
        requires
            self.bounded(0x2000_0000_0000_0000),
            o.bounded(0x2000_0000_0000_0000),
        ensures
            r.x == self.x - o.x,
            r.y == self.y - o.y,
    {
        Vec2i { x: self.x - o.x, y: self.y - o.y }
    }

    /// Component-wise clamp into `[-m, m]`.
    pub fn clamp_box(self, m: i64) -> (r: Vec2i)
        requires
            m >= 0,
        ensures
            r.x == spec_clamp64(self.x as int, -m as int, m as int),
            r.y == spec_clamp64(self.y as int, -m as int, m as int),
            r.bounded(m as int),
    {
        Vec2i { x: clamp64(self.x, -m, m), y: clamp64(self.y, -m, m) }
    }

    /// Squared length; both coordinates must be small enough that the sum of
    /// squares fits the machine word.
    pub fn magnitude_squared(self) -> (r: i64)
        requires
            self.bounded(0x4000_0000),
        ensures
            r == self.x * self.x + self.y * self.y,
    {
        proof {
            assert(self.x * self.x <= 0x4000_0000 * 0x4000_0000 && self.x * self.x >= 0
                && self.y * self.y <= 0x4000_0000 * 0x4000_0000 && self.y * self.y >= 0)
                by (nonlinear_arith)
                requires
                    -0x4000_0000 <= self.x <= 0x4000_0000,
                    -0x4000_0000 <= self.y <= 0x4000_0000,
            ;
        }
        self.x * self.x + self.y * self.y
    }

    /// Mathematical counterpart of [`Vec2i::lerp`].
    pub open spec fn spec_lerp(self, o: Vec2i, t: int) -> Vec2i {
        Vec2i {
            x: spec_lerp64(self.x as int, o.x as int, t) as i64,
            y: spec_lerp64(self.y as int, o.y as int, t) as i64,
        }
    }

    /// Component-wise linear interpolation by `t / SCALE`.
    pub fn lerp(self, o: Vec2i, t: i64) -> (r: Vec2i)
        requires
            0 <= t <= SCALE,
            self.bounded(COORD_MAX as int + SCALE as int),
            o.bounded(COORD_MAX as int + SCALE as int),
        ensures
            r == self.spec_lerp(o, t as int),
            r.bounded(COORD_MAX as int + SCALE as int),
    {
        proof {
            lemma_lerp64_bounds(self.x as int, o.x as int, t as int);
            lemma_lerp64_bounds(self.y as int, o.y as int, t as int);
        }
        Vec2i { x: lerp64(self.x, o.x, t), y: lerp64(self.y, o.y, t) }
    }
}

/// An axis-aligned rectangle given by its top-left corner and size, in
/// subunits.
#[derive(Clone, Copy, PartialEq, Eq, Structural, Debug)]
pub struct Rect {
    pub x: i64,
    pub y: i64,
    pub width: i64,
    pub height: i64,
}

/// Creates a rectangle from a top-left point and a size.
pub fn rect(point: Vec2i, size: Vec2i) -> (r: Rect)
    ensures
        r == (Rect { x: point.x, y: point.y, width: size.x, height: size.y }),
{
    Rect { x: point.x, y: point.y, width: size.x, height: size.y }
}

impl Rect {
    /// The rectangle lies far enough inside the world's coordinate range
    /// that its center does too, and its extents are non-negative and no
    /// larger than a collider shape admits.
    pub open spec fn wf(self) -> bool {
        &&& -0x3FFF_F000_0000 <= self.x <= 0x3FFF_F000_0000
        &&& -0x3FFF_F000_0000 <= self.y <= 0x3FFF_F000_0000
        &&& 0 <= self.width <= 0x1000_0000
        &&& 0 <= self.height <= 0x1000_0000
    }

    /// The top-left corner.
    pub fn position(&self) -> (r: Vec2i)
        ensures
            r == (Vec2i { x: self.x, y: self.y }),
    {
        Vec2i { x: self.x, y: self.y }
    }

    /// The extents.
    pub fn size(&self) -> (r: Vec2i)
        ensures
            r == (Vec2i { x: self.width, y: self.height }),
    {
        Vec2i { x: self.width, y: self.height }
    }

    /// Mathematical counterpart of [`Rect::center`].
    pub open spec fn spec_center(self) -> Vec2i {
        Vec2i {
            x: (self.x + self.width / 2) as i64,
            y: (self.y + self.height / 2) as i64,
        }
    }

    /// The center point, rounding half-subunits towards the top left.
    pub fn center(&self) -> (r: Vec2i)
        requires
            self.wf(),
        ensures
            r == self.spec_center(),
            r.bounded(COORD_MAX as int),
    {
        Vec2i { x: self.x + self.width / 2, y: self.y + self.height / 2 }
    }

    /// Mathematical counterpart of [`Rect::half_extents`].
    pub open spec fn spec_half_extents(self) -> Vec2i {
        Vec2i { x: (self.width / 2) as i64, y: (self.height / 2) as i64 }
    }

    /// Half of the extents, rounded down.
    pub fn half_extents(&self) -> (r: Vec2i)
        requires
            self.wf(),
        ensures
            r == self.spec_half_extents(),
            0 <= r.x <= 0x1000_0000 && 0 <= r.y <= 0x1000_0000,
    {
        Vec2i { x: self.width / 2, y: self.height / 2 }
    }
}

} // verus!
