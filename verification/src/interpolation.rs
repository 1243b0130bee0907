//! Frame-by-frame interpolation.
//!
//! The simulation advances at a fixed tick rate while rendering happens at
//! whatever rate the display runs. An [`Interpolated`] value keeps the pair
//! of its previous and current tick values, and the renderer blends between
//! them by how far into the next tick the frame falls.

use vstd::prelude::*;
use crate::math::{lerp64, spec_lerp64, lemma_lerp64_bounds, Vec2i, SCALE, COORD_MAX};

verus! {

/// Linear interpolation between two values of the same type by a blend
/// factor in `[0, SCALE]`.
pub trait Lerp: Sized + Copy {
    /// Values the interpolation is defined on.
    spec fn lerp_wf(self) -> bool;

    /// Mathematical counterpart of [`Lerp::lerp`].
    spec fn spec_lerp(self, rhs: Self, t: int) -> Self;

    /// Blends from `self` (factor `0`) to `rhs` (factor `SCALE`).
    fn lerp(self, rhs: Self, t: i64) -> (r: Self)
        requires
            0 <= t <= SCALE,
            self.lerp_wf(),
            rhs.lerp_wf(),
        ensures
            r == self.spec_lerp(rhs, t as int),
            r.lerp_wf(),
    ;
}

impl Lerp for i64 {
    open spec fn lerp_wf(self) -> bool {
        -COORD_MAX - SCALE <= self <= COORD_MAX + SCALE
    }

    open spec fn spec_lerp(self, rhs: i64, t: int) -> i64 {
        spec_lerp64(self as int, rhs as int, t) as i64
    }

    fn lerp(self, rhs: i64, t: i64) -> (r: i64) {
        proof {
            lemma_lerp64_bounds(self as int, rhs as int, t as int);
        }
        lerp64(self, rhs, t)
    }
}

impl Lerp for Vec2i {
    open spec fn lerp_wf(self) -> bool {
        self.bounded(COORD_MAX as int + SCALE as int)
    }

    open spec fn spec_lerp(self, rhs: Vec2i, t: int) -> Vec2i {
        Vec2i::spec_lerp(self, rhs, t)
    }

    fn lerp(self, rhs: Vec2i, t: i64) -> (r: Vec2i) {
        Vec2i::lerp(self, rhs, t)
    }
}

/// A linearly interpolated value: the value as of the end of the previous
/// simulation tick, and the current one.
#[derive(Clone, Copy, Debug)]
pub struct Interpolated<T: Lerp> {
    /// Value as of the current tick.
    pub current: T,
    /// Value as of the end of the previous tick. Only [`Interpolated::reset`]
    /// and [`Interpolated::update`], which run at tick boundaries, change it.
    pub previous: T,
}

impl<T: Lerp> Interpolated<T> {
    /// Both stored values admit interpolation.
    pub open spec fn wf(self) -> bool {
        self.current.lerp_wf() && self.previous.lerp_wf()
    }

    /// Creates a new interpolated value with no history: both entries are
    /// the given value.
    pub fn new(value: T) -> (r: Interpolated<T>)
        ensures
            r == (Interpolated { current: value, previous: value }),
    {
        Interpolated { current: value, previous: value }
    }

    /// Resets the interpolator, replacing the previous value with the
    /// current one.
    pub fn reset(&mut self)
        ensures
            *final(self) == (Interpolated { previous: old(self).current, ..*old(self) }),
    {
        self.previous = self.current;
    }

    /// Replaces the current value, leaving the previous value alone.
    pub fn set(&mut self, new_value: T)
        ensures
            *final(self) == (Interpolated { current: new_value, ..*old(self) }),
    {
        self.current = new_value;
    }

    /// Advances one tick: the previous value becomes the old current value,
    /// and the current value is replaced.
    pub fn update(&mut self, new_value: T)
        ensures
            *final(self) == (Interpolated { current: new_value, previous: old(self).current }),
    {
        self.reset();
        self.set(new_value);
    }

    /// Blends from the previous value (factor `0`) to the current one
    /// (factor `SCALE`).
    pub fn lerp(&self, coeff: i64) -> (r: T)
        requires
            0 <= coeff <= SCALE,
            self.wf(),
        ensures
            r == self.previous.spec_lerp(self.current, coeff as int),
    {
        self.previous.lerp(self.current, coeff)
    }

    /// Returns the current value.
    pub fn current(&self) -> (r: T)
        ensures
            r == self.current,
    {
        self.current
    }
}

/// The rendered position always lies on the segment between the previous
/// and the current tick value: component-wise it stays between the two
/// endpoints, it equals the previous value at blend factor `0`, and it
/// equals the current value at blend factor `SCALE`.
pub proof fn lemma_interpolation_bounded(ip: Interpolated<Vec2i>, t: int)
    requires
        0 <= t <= SCALE,
    ensures
        ({
            let r = ip.previous.spec_lerp(ip.current, t);
            let lo_x = if ip.previous.x <= ip.current.x {
                ip.previous.x
            } else {
                ip.current.x
            };
            let hi_x = if ip.previous.x <= ip.current.x {
                ip.current.x
            } else {
                ip.previous.x
            };
            let lo_y = if ip.previous.y <= ip.current.y {
                ip.previous.y
            } else {
                ip.current.y
            };
            let hi_y = if ip.previous.y <= ip.current.y {
                ip.current.y
            } else {
                ip.previous.y
            };
            &&& lo_x <= r.x <= hi_x
            &&& lo_y <= r.y <= hi_y
        }),
        ip.previous.spec_lerp(ip.current, 0) == ip.previous,
        ip.previous.spec_lerp(ip.current, SCALE as int) == ip.current,
{
    lemma_lerp64_bounds(ip.previous.x as int, ip.current.x as int, t);
    lemma_lerp64_bounds(ip.previous.y as int, ip.current.y as int, t);
    lemma_lerp64_bounds(ip.previous.x as int, ip.current.x as int, 0);
    lemma_lerp64_bounds(ip.previous.y as int, ip.current.y as int, 0);
    lemma_lerp64_bounds(ip.previous.x as int, ip.current.x as int, SCALE as int);
    lemma_lerp64_bounds(ip.previous.y as int, ip.current.y as int, SCALE as int);
}

/// A larger blend factor never moves the rendered position backwards along
/// that segment.
pub proof fn lemma_interpolation_monotone(ip: Interpolated<Vec2i>, t1: int, t2: int)
    requires
        0 <= t1 <= t2 <= SCALE,
    ensures
        ({
            let r1 = ip.previous.spec_lerp(ip.current, t1);
            let r2 = ip.previous.spec_lerp(ip.current, t2);
            &&& ip.previous.x <= ip.current.x ==> r1.x <= r2.x
            &&& ip.previous.x > ip.current.x ==> r1.x >= r2.x
            &&& ip.previous.y <= ip.current.y ==> r1.y <= r2.y
            &&& ip.previous.y > ip.current.y ==> r1.y >= r2.y
        }),
{
    lemma_lerp64_bounds(ip.previous.x as int, ip.current.x as int, t1);
    lemma_lerp64_bounds(ip.previous.y as int, ip.current.y as int, t1);
    lemma_lerp64_bounds(ip.previous.x as int, ip.current.x as int, t2);
    lemma_lerp64_bounds(ip.previous.y as int, ip.current.y as int, t2);
    crate::math::lemma_lerp64_monotone(ip.previous.x as int, ip.current.x as int, t1, t2);
    crate::math::lemma_lerp64_monotone(ip.previous.y as int, ip.current.y as int, t1, t2);
}

} // verus!
