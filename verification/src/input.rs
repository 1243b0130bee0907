//! Control-scheme independent input: the abstract buttons and the one
//! snapshot of them the simulation consumes each tick.
//!
//! How physical keys map to these abstractions is the embedding
//! application's business; the core only sees the snapshot.

use vstd::prelude::*;
use crate::math::{Vec2i, SCALE};

verus! {

/// Joystick component magnitude of a diagonal unit direction:
/// `SCALE / sqrt(2)`, rounded.
pub const JOY_DIAGONAL: i64 = 724;

/// An abstract button behind an input action.
#[derive(Clone, Copy, PartialEq, Eq, Structural, Debug, Hash)]
pub enum Button {
    Up,
    Down,
    Left,
    Right,
    Jump,
}

/// Everything the player control systems read in one tick.
#[derive(Clone, Copy, PartialEq, Eq, Structural, Debug)]
pub struct InputFrame {
    /// Direction the player steers, as a vector of length at most `SCALE`.
    pub joystick: Vec2i,
    /// Whether the jump button is held this tick.
    pub jump_down: bool,
    /// Whether the jump button was freshly pressed this tick.
    pub jump_pressed: bool,
}

impl InputFrame {
    /// The joystick never reports more than a unit deflection.
    pub open spec fn wf(self) -> bool {
        self.joystick.bounded(SCALE as int)
    }

    /// A tick with no input at all.
    pub fn idle() -> (r: InputFrame)
        ensures
            r == (InputFrame {
                joystick: Vec2i { x: 0, y: 0 },
                jump_down: false,
                jump_pressed: false,
            }),
            r.wf(),
    {
        InputFrame { joystick: Vec2i { x: 0, y: 0 }, jump_down: false, jump_pressed: false }
    }
}

/// Mathematical counterpart of [`joystick_of`].
pub open spec fn spec_joystick_of(left: bool, right: bool, up: bool, down: bool) -> Vec2i {
    let dx: int = (if right { 1int } else { 0int }) - (if left { 1int } else { 0int });
    let dy: int = (if down { 1int } else { 0int }) - (if up { 1int } else { 0int });
    let m: int = if dx != 0 && dy != 0 {
        JOY_DIAGONAL as int
    } else {
        SCALE as int
    };
    Vec2i { x: (dx * m) as i64, y: (dy * m) as i64 }
}

/// Turns the four direction buttons into a normalized joystick vector:
/// opposite buttons cancel, a single direction deflects by a full unit,
/// and a diagonal deflects by a unit split evenly between the axes.
pub fn joystick_of(left: bool, right: bool, up: bool, down: bool) -> (r: Vec2i)
    ensures
        r == spec_joystick_of(left, right, up, down),
        r.bounded(SCALE as int),
{
    let dx: i64 = (if right { 1i64 } else { 0i64 }) - (if left { 1i64 } else { 0i64 });
    let dy: i64 = (if down { 1i64 } else { 0i64 }) - (if up { 1i64 } else { 0i64 });
    let m: i64 = if dx != 0 && dy != 0 {
        JOY_DIAGONAL
    } else {
        SCALE
    };
    Vec2i { x: dx * m, y: dy * m }
}

} // verus!
