//! Tweening: tick-driven animation of a scalar value along an easing curve.
//!
//! A tween is purely cosmetic state (squish/stretch, spawn pop-in). It is
//! advanced once per simulation tick and sampled by the renderer, so its
//! value is an exact function of how many ticks have elapsed since it was
//! started.

use vstd::prelude::*;
use crate::math::{clamp64, spec_clamp64, SCALE, COORD_MAX};

verus! {

/// An easing curve, mapping a time factor in `[0, SCALE]` to an eased factor
/// in `[0, 2 * SCALE]`.
#[derive(Clone, Copy, PartialEq, Eq, Structural, Debug)]
pub enum Easing {
    /// The identity curve.
    Linear,
    /// Cubic ease-out: fast start, smooth stop.
    CubicOut,
    /// Overshooting bounce at the end.
    BounceOut,
}

/// Mathematical counterpart of [`ease`]. The raw curve value is clamped into
/// `[0, 2 * SCALE]`; the curves only leave `[0, SCALE]` by the deliberate
/// overshoot of [`Easing::BounceOut`].
pub open spec fn spec_ease(e: Easing, x: int) -> int {
    let s = SCALE as int;
    let raw = match e {
        Easing::Linear => x,
        Easing::CubicOut => s - (s - x) * (s - x) * (s - x) / (s * s),
        Easing::BounceOut => s - 3 * ((s - x) * (s - x) * (s - x)) / (s * s) + 2 * ((s - x) * (s
            - x)) / s,
    };
    spec_clamp64(raw, 0, 2 * s)
}

/// Applies an easing curve to a time factor in `[0, SCALE]`.
pub fn ease(e: Easing, x: i64) -> (r: i64)
    requires
        0 <= x <= SCALE,
    ensures
        r == spec_ease(e, x as int),
        0 <= r <= 2 * SCALE,
{
    let raw: i64 = match e {
        Easing::Linear => x,
        Easing::CubicOut => {
            let u = SCALE - x;
            proof {
                assert(0 <= (u as int) * (u as int) <= 1024 * 1024 && 0 <= (u as int) * (u as int)
                    * (u as int) <= 1024 * 1024 * 1024) by (nonlinear_arith)
                    requires
                        0 <= u <= 1024,
                ;
                vstd::arithmetic::div_mod::lemma_div_is_ordered(
                    0,
                    (u as int) * (u as int) * (u as int),
                    (SCALE * SCALE) as int,
                );
                vstd::arithmetic::div_mod::lemma_div_is_ordered(
                    (u as int) * (u as int) * (u as int),
                    1024int * 1024 * 1024,
                    (SCALE * SCALE) as int,
                );
            }
            SCALE - u * u * u / (SCALE * SCALE)
        },
        Easing::BounceOut => {
            let u = SCALE - x;
            proof {
                assert(0 <= (u as int) * (u as int) <= 1024 * 1024 && 0 <= (u as int) * (u as int)
                    * (u as int) <= 1024 * 1024 * 1024) by (nonlinear_arith)
                    requires
                        0 <= u <= 1024,
                ;
                vstd::arithmetic::div_mod::lemma_div_is_ordered(
                    0,
                    (u as int) * (u as int) * (u as int),
                    (SCALE * SCALE) as int,
                );
                vstd::arithmetic::div_mod::lemma_div_is_ordered(
                    (u as int) * (u as int) * (u as int),
                    1024int * 1024 * 1024,
                    (SCALE * SCALE) as int,
                );
                vstd::arithmetic::div_mod::lemma_div_is_ordered(
                    0,
                    (u as int) * (u as int),
                    SCALE as int,
                );
                vstd::arithmetic::div_mod::lemma_div_is_ordered(
                    (u as int) * (u as int),
                    1024int * 1024,
                    SCALE as int,
                );
            }
            SCALE - 3 * (u * u * u) / (SCALE * SCALE) + 2 * (u * u) / SCALE
        },
    };
    clamp64(raw, 0, 2 * SCALE)
}

/// Interpolation from `a` towards `b` by a factor `f / SCALE` that may
/// overshoot past `b` (`f` up to `2 * SCALE`). Division always acts on a
/// non-negative dividend.
pub open spec fn spec_tween_value(a: int, b: int, f: int) -> int {
    if b >= a {
        a + (b - a) * f / (SCALE as int)
    } else {
        a - (a - b) * f / (SCALE as int)
    }
}

/// Interpolates from `a` towards `b` by an eased factor `f` in
/// `[0, 2 * SCALE]`.
pub fn tween_value(a: i64, b: i64, f: i64) -> (r: i64)
    requires
        0 <= f <= 2 * SCALE,
        -COORD_MAX <= a <= COORD_MAX,
        -COORD_MAX <= b <= COORD_MAX,
    ensures
        r == spec_tween_value(a as int, b as int, f as int),
{
    proof {
        let s = SCALE as int;
        if b >= a {
            let d = b as int - a as int;
            assert(0 <= d * f <= d * (2 * s)) by (nonlinear_arith)
                requires
                    d >= 0,
                    0 <= f <= 2 * s,
            ;
            assert(d * f / s <= d * (2 * s) / s) by {
                vstd::arithmetic::div_mod::lemma_div_is_ordered(d * f, d * (2 * s), s);
            }
            assert(d * (2 * s) / s == 2 * d) by (nonlinear_arith)
                requires
                    s == 1024,
            ;
            assert(d * f / s >= 0) by {
                vstd::arithmetic::div_mod::lemma_div_is_ordered(0, d * f, s);
            }
        } else {
            let d = a as int - b as int;
            assert(0 <= d * f <= d * (2 * s)) by (nonlinear_arith)
                requires
                    d >= 0,
                    0 <= f <= 2 * s,
            ;
            assert(d * f / s <= d * (2 * s) / s) by {
                vstd::arithmetic::div_mod::lemma_div_is_ordered(d * f, d * (2 * s), s);
            }
            assert(d * (2 * s) / s == 2 * d) by (nonlinear_arith)
                requires
                    s == 1024,
            ;
            assert(d * f / s >= 0) by {
                vstd::arithmetic::div_mod::lemma_div_is_ordered(0, d * f, s);
            }
        }
    }
    if b >= a {
        a + (b - a) * f / SCALE
    } else {
        a - (a - b) * f / SCALE
    }
}

/// A tween one tick later: the elapsed counter grows by one and saturates
/// at its range.
pub open spec fn spec_tween_advanced(t: Tween) -> Tween {
    Tween {
        elapsed: if t.elapsed == u32::MAX {
            u32::MAX
        } else {
            (t.elapsed + 1) as u32
        },
        ..t
    }
}

/// A tween for a fixed-point scalar, advanced once per simulation tick.
#[derive(Clone, Copy, PartialEq, Eq, Structural, Debug)]
pub struct Tween {
    /// Value at the start of the animation.
    pub start: i64,
    /// Value the animation heads towards.
    pub end: i64,
    /// Ticks elapsed since the animation started.
    pub elapsed: u32,
    /// Total ticks the animation takes; always at least one.
    pub duration: u32,
    /// The curve shaping the animation.
    pub easing: Easing,
}

impl Tween {
    /// The tween's endpoints stay inside the world's coordinate range and
    /// its duration is positive.
    pub open spec fn wf(self) -> bool {
        &&& -COORD_MAX <= self.start <= COORD_MAX
        &&& -COORD_MAX <= self.end <= COORD_MAX
        &&& self.duration >= 1
    }

    /// Creates a finished tween resting at `initial_value`.
    pub fn new(initial_value: i64) -> (r: Tween)
        requires
            -COORD_MAX <= initial_value <= COORD_MAX,
        ensures
            r == (Tween {
                start: initial_value,
                end: initial_value,
                elapsed: 1,
                duration: 1,
                easing: Easing::Linear,
            }),
            r.wf(),
    {
        Tween { start: initial_value, end: initial_value, elapsed: 1, duration: 1, easing:
            Easing::Linear }
    }

    /// Restarts the animation with the given endpoints, duration in ticks,
    /// and easing curve.
    pub fn start(&mut self, start: i64, end: i64, duration: u32, easing: Easing)
        requires
            -COORD_MAX <= start <= COORD_MAX,
            -COORD_MAX <= end <= COORD_MAX,
            duration >= 1,
        ensures
            *final(self) == (Tween { start, end, elapsed: 0, duration, easing }),
            final(self).wf(),
    {
        self.start = start;
        self.end = end;
        self.elapsed = 0;
        self.duration = duration;
        self.easing = easing;
    }

    /// Advances the animation by one tick. Saturates once the counter can
    /// grow no further, long past the end of any animation.
    pub fn advance(&mut self)
        ensures
            *final(self) == spec_tween_advanced(*old(self)),
    {
        if self.elapsed < u32::MAX {
            self.elapsed = self.elapsed + 1;
        }
    }

    /// Mathematical counterpart of [`Tween::get`].
    pub open spec fn spec_get(self) -> int {
        let factor = if self.elapsed >= self.duration {
            SCALE as int
        } else {
            self.elapsed * (SCALE as int) / (self.duration as int)
        };
        spec_tween_value(self.start as int, self.end as int, spec_ease(self.easing, factor))
    }

    /// Samples the tween at the current tick.
    pub fn get(&self) -> (r: i64)
        requires
            self.wf(),
        ensures
            r == self.spec_get(),
    {
        let factor: i64 = if self.elapsed >= self.duration {
            SCALE
        } else {
            proof {
                let e = self.elapsed as int;
                let d = self.duration as int;
                assert(0 <= e * (SCALE as int) / d <= SCALE as int) by (nonlinear_arith)
                    requires
                        0 <= e < d,
                        d >= 1,
                ;
            }
            (self.elapsed as i64) * SCALE / (self.duration as i64)
        };
        let f = ease(self.easing, factor);
        tween_value(self.start, self.end, f)
    }
}

} // verus!
