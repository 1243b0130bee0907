//! The player: morph states, control state machines, and their tuning
//! constants.

use vstd::prelude::*;
use crate::input::InputFrame;
use crate::math::{clamp64, spec_clamp64, spec_div_trunc, div_trunc, Vec2i, COORD_MAX, FORCE_MAX,
    SCALE, VEL_MAX};
use crate::physics::{lemma_first_hit_same, same_query_state, Body, BodyHandle, BodySlot,
    CollisionGroups, InteractionGroups, Physics, Shape};
use crate::sim::{comps_wf, sim_wf, world_wf};
use crate::tween::{spec_tween_advanced, Easing, Tween};
use crate::world::{Components, Entity, Slot, World};
use crate::camera::{spec_update_view_rel, spec_warp_rel};
use crate::dead::Kill;
use crate::entities::{InterpolatedPosition, Size};
use crate::interpolation::Interpolated;

verus! {

/// A player's morph state.
#[derive(Clone, Copy, PartialEq, Eq, Structural, Debug)]
pub enum Morph {
    /// No morph kind detected yet. A transient placeholder, only valid
    /// until the first zone-detection pass of the tick the player spawns
    /// in; it never persists past the spawn call.
    Unresolved,
    /// Free 8-directional movement, no gravity; a bouncy ball shape.
    Unshaped,
    /// Typical platformer movement under gravity; a box shape.
    Platformer,
}

impl Morph {
    /// The tag a morph zone's collider carries in its user data.
    pub open spec fn spec_to_tag(self) -> u64 {
        match self {
            Morph::Unresolved => 0,
            Morph::Unshaped => 1,
            Morph::Platformer => 2,
        }
    }

    /// Encodes this morph as a collider user-data tag.
    pub fn to_tag(self) -> (r: u64)
        ensures
            r == self.spec_to_tag(),
    {
        match self {
            Morph::Unresolved => 0,
            Morph::Unshaped => 1,
            Morph::Platformer => 2,
        }
    }

    /// The morph a zone tag stands for; anything but the platformer tag
    /// falls back to the default unshaped morph.
    pub open spec fn spec_from_tag(tag: u64) -> Morph {
        if tag == 2 {
            Morph::Platformer
        } else {
            Morph::Unshaped
        }
    }

    /// Decodes a collider user-data tag.
    pub fn from_tag(tag: u64) -> (r: Morph)
        ensures
            r == Morph::spec_from_tag(tag),
    {
        if tag == 2 {
            Morph::Platformer
        } else {
            Morph::Unshaped
        }
    }
}

/// Radius of the unshaped ball, in subunits (about a third of a tile).
pub const UNSHAPED_RADIUS: i64 = 307;

/// Extent of the unshaped ball along each axis: twice its radius.
pub const UNSHAPED_SIZE: i64 = 614;

/// Half extent of the platformer box, in subunits (the box is about four
/// fifths of a tile).
pub const PLATFORMER_HALF: i64 = 410;

/// Extent of the platformer box along each axis: twice its half extent.
pub const PLATFORMER_SIZE: i64 = 820;

/// Horizontal acceleration while walking, in subunits per second squared.
pub const ACCELERATION: i64 = 179200;

/// Numerator over `SCALE` of the per-tick horizontal velocity decay
/// applied while walking or grounded.
pub const DECELERATION_NUM: i64 = 819;

/// Upward acceleration a fresh jump applies, in subunits per second
/// squared.
pub const JUMP_STRENGTH: i64 = 716800;

/// Ticks the jump button may be held to keep gaining height.
pub const JUMP_SUSTAIN: u8 = 10;

/// Ticks of leeway during which a jump pressed while falling still
/// executes upon landing.
pub const JUMP_LEEWAY: u8 = 8;

/// Ticks after leaving a ledge during which a jump still executes.
pub const COYOTE_TIME: u8 = 10;

/// Largest horizontal speed that still counts as walking, in subunits per
/// second; walking players keep steering control.
pub const WALKING_VELOCITY: i64 = 12288;

/// Acceleration of the unshaped morph towards the joystick, in subunits
/// per second squared.
pub const UNSHAPED_ACCELERATION: i64 = 51200;

/// Numerator over `SCALE` of the per-tick velocity damping of an idle
/// unshaped player.
pub const UNSHAPED_DAMPING_NUM: i64 = 993;

/// Joystick magnitude (per `SCALE`) below which input counts as idle.
pub const JOY_DEAD_ZONE: i64 = 307;

/// Velocity threshold (subunits per second) separating rising from
/// falling for the landing-animation edge.
pub const FALL_VEL_EPS: i64 = 10;

/// Half width of the ground probe box: slightly narrower than the
/// platformer body, so brushing a wall does not count as standing.
pub const GROUND_PROBE_HALF: i64 = 359;

/// Ticks of the spawn pop-in animation.
pub const SPAWN_ANIM_TICKS: u32 = 15;

/// Ticks of the jump squish animation.
pub const JUMP_ANIM_TICKS: u32 = 21;

/// Ticks of the landing stretch animation.
pub const LAND_ANIM_TICKS: u32 = 15;

/// Physics parameters of one morph's body.
#[derive(Clone, Copy, PartialEq, Eq, Structural, Debug)]
pub struct PhysicsParams {
    /// Collision/render extents.
    pub size: Vec2i,
    /// Collision shape.
    pub shape: Shape,
    /// Bounce kept on contact, per `SCALE`.
    pub restitution: i64,
    /// Gravity scale, per `SCALE`.
    pub gravity_scale: i64,
}

/// Control state of the unshaped morph; the morph itself is stateless.
#[derive(Clone, Copy, PartialEq, Eq, Structural, Debug)]
pub struct Unshaped {}

impl Unshaped {
    /// Creates the unshaped control state.
    pub fn new() -> (r: Unshaped)
        ensures
            r == (Unshaped {  }),
    {
        Unshaped {  }
    }

    /// Extents of the unshaped ball.
    pub fn size() -> (r: Vec2i)
        ensures
            r == (Vec2i { x: UNSHAPED_SIZE, y: UNSHAPED_SIZE }),
    {
        Vec2i { x: UNSHAPED_SIZE, y: UNSHAPED_SIZE }
    }

    /// Mathematical counterpart of [`Unshaped::physics_params`].
    pub open spec fn spec_physics_params() -> PhysicsParams {
        PhysicsParams {
            size: Vec2i { x: UNSHAPED_SIZE, y: UNSHAPED_SIZE },
            shape: Shape::Ball { radius: UNSHAPED_RADIUS },
            restitution: 819,
            gravity_scale: 0,
        }
    }

    /// Physics parameters of the unshaped body: a bouncy ball that ignores
    /// gravity.
    pub fn physics_params() -> (r: PhysicsParams)
        ensures
            r == Unshaped::spec_physics_params(),
    {
        PhysicsParams {
            size: Unshaped::size(),
            shape: Shape::Ball { radius: UNSHAPED_RADIUS },
            restitution: 819,
            gravity_scale: 0,
        }
    }
}

/// Control state of the platformer morph.
#[derive(Clone, Copy, PartialEq, Eq, Structural, Debug)]
pub struct Platformer {
    /// Remaining ticks of jump sustain; holding the button keeps applying
    /// upward force while this runs.
    pub remaining_jump_ticks: u8,
    /// Remaining ticks during which a buffered jump press still counts.
    pub jump_buffer: u8,
    /// Remaining coyote ticks: refreshed while grounded, so a jump still
    /// executes shortly after leaving a ledge.
    pub air_time: u8,
    /// Animation of the width-to-height aspect ratio, for squishing and
    /// stretching.
    pub aspect_ratio: Tween,
    /// Velocity at the end of the previous tick, for catching the moment
    /// the player starts falling.
    pub previous_velocity: Vec2i,
}

/// The platformer control state at rest, as [`Platformer::new`] creates it.
pub open spec fn spec_platformer_initial() -> Platformer {
    Platformer {
        remaining_jump_ticks: 0,
        jump_buffer: 0,
        air_time: 0,
        aspect_ratio: Tween { start: SCALE, end: SCALE, elapsed: 1, duration: 1, easing:
            Easing::Linear },
        previous_velocity: Vec2i { x: 0, y: 0 },
    }
}

impl Platformer {
    /// Counters never exceed their arming values, and the stored state
    /// stays in range.
    pub open spec fn wf(self) -> bool {
        &&& self.remaining_jump_ticks <= JUMP_SUSTAIN
        &&& self.jump_buffer <= JUMP_LEEWAY
        &&& self.air_time <= COYOTE_TIME
        &&& self.aspect_ratio.wf()
        &&& self.previous_velocity.bounded(VEL_MAX as int)
    }

    /// Creates the platformer control state at rest.
    pub fn new() -> (r: Platformer)
        ensures
            r == spec_platformer_initial(),
            r.wf(),
    {
        Platformer {
            remaining_jump_ticks: 0,
            jump_buffer: 0,
            air_time: 0,
            aspect_ratio: Tween::new(SCALE),
            previous_velocity: Vec2i { x: 0, y: 0 },
        }
    }

    /// Extents of the platformer box.
    pub fn size() -> (r: Vec2i)
        ensures
            r == (Vec2i { x: PLATFORMER_SIZE, y: PLATFORMER_SIZE }),
    {
        Vec2i { x: PLATFORMER_SIZE, y: PLATFORMER_SIZE }
    }

    /// Mathematical counterpart of [`Platformer::physics_params`].
    pub open spec fn spec_physics_params() -> PhysicsParams {
        PhysicsParams {
            size: Vec2i { x: PLATFORMER_SIZE, y: PLATFORMER_SIZE },
            shape: Shape::Cuboid { half: Vec2i { x: PLATFORMER_HALF, y: PLATFORMER_HALF } },
            restitution: 0,
            gravity_scale: SCALE,
        }
    }

    /// Physics parameters of the platformer body: a box under normal
    /// gravity that does not bounce.
    pub fn physics_params() -> (r: PhysicsParams)
        ensures
            r == Platformer::spec_physics_params(),
    {
        PhysicsParams {
            size: Platformer::size(),
            shape: Shape::Cuboid { half: Vec2i { x: PLATFORMER_HALF, y: PLATFORMER_HALF } },
            restitution: 0,
            gravity_scale: SCALE,
        }
    }
}

/// Per-player state: where to respawn, and the spawn pop-in animation.
#[derive(Clone, Copy, PartialEq, Eq, Structural, Debug)]
pub struct Player {
    /// The last respawn position; death teleports the body here. Mutated
    /// only by checkpoint trigger completions.
    pub checkpoint: Vec2i,
    /// Animation restarted when the player spawns, respawns, or morphs.
    pub spawn_animation: Tween,
}

/// The spawn animation as freshly restarted: a bounce from nothing to full
/// size.
pub open spec fn spec_spawn_animation_started() -> Tween {
    Tween { start: 0, end: SCALE, elapsed: 0, duration: SPAWN_ANIM_TICKS, easing:
        Easing::BounceOut }
}

impl Player {
    /// The player's tween endpoints stay in range.
    pub open spec fn wf(self) -> bool {
        self.checkpoint.bounded(crate::math::COORD_MAX as int) && self.spawn_animation.wf()
    }

    /// Creates a new player with the given initial checkpoint; the spawn
    /// animation starts playing at once.
    pub fn new(checkpoint: Vec2i) -> (r: Player)
        requires
            checkpoint.bounded(crate::math::COORD_MAX as int),
        ensures
            r == (Player { checkpoint, spawn_animation: spec_spawn_animation_started() }),
            r.wf(),
    {
        let mut player = Player { checkpoint, spawn_animation: Tween::new(SCALE) };
        player.start_spawn_animation();
        player
    }

    /// Restarts the spawn pop-in animation.
    pub fn start_spawn_animation(&mut self)
        ensures
            *final(self) == (Player {
                spawn_animation: spec_spawn_animation_started(),
                ..*old(self)
            }),
    {
        self.spawn_animation.start(0, SCALE, SPAWN_ANIM_TICKS, Easing::BounceOut);
    }
}

/// The aspect-ratio tween of a fresh jump: compress, then release.
pub open spec fn spec_jump_squish_started() -> Tween {
    Tween { start: 614, end: SCALE, elapsed: 0, duration: JUMP_ANIM_TICKS, easing:
        Easing::CubicOut }
}

/// The aspect-ratio tween of a landing: stretch, then settle.
pub open spec fn spec_land_stretch_started() -> Tween {
    Tween { start: 1536, end: SCALE, elapsed: 0, duration: LAND_ANIM_TICKS, easing:
        Easing::CubicOut }
}

/// What the platformer control step hands back: the new control state, a
/// force to accumulate on the body, and the velocity to set it to.
#[derive(Clone, Copy, PartialEq, Eq, Structural, Debug)]
pub struct PlatformerStep {
    /// The control state one tick later.
    pub state: Platformer,
    /// Force to accumulate for the coming physics step.
    pub force: Vec2i,
    /// Velocity the body is set to.
    pub velocity: Vec2i,
}

/// Jump sustain strength for `remaining` sustain ticks: the sixth power of
/// `remaining / JUMP_SUSTAIN`, in `SCALE` units. Sharply front-loaded.
pub open spec fn spec_sustain_strength(remaining: int) -> int {
    let s = SCALE as int;
    let x = remaining * s / (JUMP_SUSTAIN as int);
    let x2 = x * x / s;
    let x4 = x2 * x2 / s;
    x4 * x2 / s
}

/// Mathematical counterpart of [`platformer_control_step`]. One tick of
/// platformer controls for one player, given the input frame, the ground
/// probe's answer, and the body's current velocity:
///
/// - steering applies a horizontal force only while moving slower than
///   `WALKING_VELOCITY`;
/// - a jump press arms `jump_buffer` for `JUMP_LEEWAY` ticks, standing on
///   ground arms `air_time` for `COYOTE_TIME` ticks, and a jump executes
///   exactly when both are armed, consuming the buffer, zeroing vertical
///   velocity, and arming `JUMP_SUSTAIN` ticks of sustain;
/// - holding jump during sustain keeps applying upward force scaled by
///   [`spec_sustain_strength`]; releasing it cancels the sustain at once;
/// - all three counters then decay by one (saturating at zero);
/// - horizontal velocity decays by `DECELERATION_NUM / SCALE` while
///   walking or grounded, and is kept at speed in the air;
/// - the squish animation restarts on a fresh jump press during sustain,
///   and the stretch animation on the rising-to-falling edge.
pub open spec fn spec_platformer_control_step(
    p: Platformer,
    input: InputFrame,
    grounded: bool,
    velocity: Vec2i,
) -> PlatformerStep {
    let is_walking = -WALKING_VELOCITY < velocity.x < WALKING_VELOCITY;
    let walk_force_x: int = if is_walking && (input.joystick.x > JOY_DEAD_ZONE || input.joystick.x
        < -JOY_DEAD_ZONE) {
        spec_div_trunc(ACCELERATION * input.joystick.x, SCALE as int)
    } else {
        0
    };
    let jb1: int = if input.jump_pressed {
        JUMP_LEEWAY as int
    } else {
        p.jump_buffer as int
    };
    let at1: int = if grounded {
        COYOTE_TIME as int
    } else {
        p.air_time as int
    };
    let jumps = jb1 > 0 && at1 > 0;
    let rjt1: int = if jumps {
        JUMP_SUSTAIN as int
    } else {
        p.remaining_jump_ticks as int
    };
    let jb2: int = if jumps {
        0
    } else {
        jb1
    };
    let vy: int = if jumps {
        0
    } else {
        velocity.y as int
    };
    let sustains = input.jump_down && rjt1 > 0;
    let force_y: int = if sustains {
        -(JUMP_STRENGTH * spec_sustain_strength(rjt1) / (SCALE as int))
    } else {
        0
    };
    let aspect1 = if sustains && input.jump_pressed {
        spec_jump_squish_started()
    } else {
        p.aspect_ratio
    };
    let rjt2: int = if !input.jump_down {
        0
    } else {
        rjt1
    };
    let at2: int = if at1 > 0 {
        at1 - 1
    } else {
        0
    };
    let jb3: int = if jb2 > 0 {
        jb2 - 1
    } else {
        0
    };
    let rjt3: int = if rjt2 > 0 {
        rjt2 - 1
    } else {
        0
    };
    let vx: int = if is_walking || grounded {
        spec_div_trunc(velocity.x * DECELERATION_NUM, SCALE as int)
    } else {
        velocity.x as int
    };
    let lands = p.previous_velocity.y > FALL_VEL_EPS && vy <= FALL_VEL_EPS;
    let aspect2 = if lands {
        spec_land_stretch_started()
    } else {
        aspect1
    };
    PlatformerStep {
        state: Platformer {
            remaining_jump_ticks: rjt3 as u8,
            jump_buffer: jb3 as u8,
            air_time: at2 as u8,
            aspect_ratio: aspect2,
            previous_velocity: Vec2i { x: vx as i64, y: vy as i64 },
        },
        force: Vec2i { x: walk_force_x as i64, y: force_y as i64 },
        velocity: Vec2i { x: vx as i64, y: vy as i64 },
    }
}

/// Runs one tick of platformer controls for one player.
pub fn platformer_control_step(
    p: Platformer,
    input: InputFrame,
    grounded: bool,
    velocity: Vec2i,
) -> (r: PlatformerStep)
    requires
        input.wf(),
        p.wf(),
        velocity.bounded(VEL_MAX as int),
    ensures
        r == spec_platformer_control_step(p, input, grounded, velocity),
        r.state.wf(),
        r.force.bounded(crate::math::FORCE_MAX as int),
        r.velocity.bounded(VEL_MAX as int),
{
    let is_walking = -WALKING_VELOCITY < velocity.x && velocity.x < WALKING_VELOCITY;
    let walk_force_x: i64 = if is_walking && (input.joystick.x > JOY_DEAD_ZONE || input.joystick.x
        < -JOY_DEAD_ZONE) {
        proof {
            assert(-0x1_0000_0000 <= ACCELERATION * input.joystick.x <= 0x1_0000_0000)
                by (nonlinear_arith)
                requires
                    -1024 <= input.joystick.x <= 1024,
                    ACCELERATION == 179200,
            ;
        }
        div_trunc(ACCELERATION * input.joystick.x, SCALE)
    } else {
        0
    };
    let jb1: u8 = if input.jump_pressed {
        JUMP_LEEWAY
    } else {
        p.jump_buffer
    };
    let at1: u8 = if grounded {
        COYOTE_TIME
    } else {
        p.air_time
    };
    let jumps = jb1 > 0 && at1 > 0;
    let rjt1: u8 = if jumps {
        JUMP_SUSTAIN
    } else {
        p.remaining_jump_ticks
    };
    let jb2: u8 = if jumps {
        0
    } else {
        jb1
    };
    let vy: i64 = if jumps {
        0
    } else {
        velocity.y
    };
    let sustains = input.jump_down && rjt1 > 0;
    let force_y: i64 = if sustains {
        let x = (rjt1 as i64) * SCALE / (JUMP_SUSTAIN as i64);
        proof {
            assert((rjt1 as int) * 1024 / 10 <= 1024int && (rjt1 as int) * 1024 >= 0)
                by (nonlinear_arith)
                requires
                    0 <= rjt1 <= 10,
            ;
            assert(0 <= x * x <= 0x10_0000) by (nonlinear_arith)
                requires
                    0 <= x <= 1024,
            ;
        }
        let x2 = x * x / SCALE;
        proof {
            vstd::arithmetic::div_mod::lemma_div_is_ordered(x * x, 0x10_0000, SCALE as int);
            vstd::arithmetic::div_mod::lemma_div_is_ordered(0, x * x, SCALE as int);
            assert(0 <= x2 * x2 <= 0x10_0000) by (nonlinear_arith)
                requires
                    0 <= x2 <= 1024,
            ;
        }
        let x4 = x2 * x2 / SCALE;
        proof {
            vstd::arithmetic::div_mod::lemma_div_is_ordered(x2 * x2, 0x10_0000, SCALE as int);
            vstd::arithmetic::div_mod::lemma_div_is_ordered(0, x2 * x2, SCALE as int);
            assert(0 <= x4 * x2 <= 0x10_0000) by (nonlinear_arith)
                requires
                    0 <= x4 <= 1024,
                    0 <= x2 <= 1024,
            ;
        }
        let x6 = x4 * x2 / SCALE;
        proof {
            vstd::arithmetic::div_mod::lemma_div_is_ordered(x4 * x2, 0x10_0000, SCALE as int);
            vstd::arithmetic::div_mod::lemma_div_is_ordered(0, x4 * x2, SCALE as int);
            assert(0 <= JUMP_STRENGTH * x6 <= 0x2_0000_0000_0000) by (nonlinear_arith)
                requires
                    0 <= x6 <= 1024,
                    JUMP_STRENGTH == 716800,
            ;
            vstd::arithmetic::div_mod::lemma_div_is_ordered(0, JUMP_STRENGTH * x6, SCALE as int);
            vstd::arithmetic::div_mod::lemma_div_is_ordered(JUMP_STRENGTH * x6,
                0x2_0000_0000_0000, SCALE as int);
        }
        -(JUMP_STRENGTH * x6 / SCALE)
    } else {
        0
    };
    let aspect1: Tween = if sustains && input.jump_pressed {
        Tween { start: 614, end: SCALE, elapsed: 0, duration: JUMP_ANIM_TICKS, easing:
            Easing::CubicOut }
    } else {
        p.aspect_ratio
    };
    let rjt2: u8 = if !input.jump_down {
        0
    } else {
        rjt1
    };
    let at2: u8 = if at1 > 0 {
        at1 - 1
    } else {
        0
    };
    let jb3: u8 = if jb2 > 0 {
        jb2 - 1
    } else {
        0
    };
    let rjt3: u8 = if rjt2 > 0 {
        rjt2 - 1
    } else {
        0
    };
    let vx: i64 = if is_walking || grounded {
        proof {
            assert(-0x1_0000_0000 <= velocity.x * DECELERATION_NUM <= 0x1_0000_0000)
                by (nonlinear_arith)
                requires
                    -WALKING_VELOCITY <= velocity.x <= WALKING_VELOCITY || (-VEL_MAX <= velocity.x
                        <= VEL_MAX),
                    DECELERATION_NUM == 819,
                    WALKING_VELOCITY == 12288,
                    VEL_MAX == 0x20_0000,
            ;
            if velocity.x >= 0 {
                crate::math::lemma_scale_frac_bounded(velocity.x as int, DECELERATION_NUM as int);
            } else {
                crate::math::lemma_scale_frac_bounded(-velocity.x as int, DECELERATION_NUM as int);
            }
        }
        div_trunc(velocity.x * DECELERATION_NUM, SCALE)
    } else {
        velocity.x
    };
    let lands = p.previous_velocity.y > FALL_VEL_EPS && vy <= FALL_VEL_EPS;
    let aspect2: Tween = if lands {
        Tween { start: 1536, end: SCALE, elapsed: 0, duration: LAND_ANIM_TICKS, easing:
            Easing::CubicOut }
    } else {
        aspect1
    };
    PlatformerStep {
        state: Platformer {
            remaining_jump_ticks: rjt3,
            jump_buffer: jb3,
            air_time: at2,
            aspect_ratio: aspect2,
            previous_velocity: Vec2i { x: vx, y: vy },
        },
        force: Vec2i { x: walk_force_x, y: force_y },
        velocity: Vec2i { x: vx, y: vy },
    }
}

/// What the unshaped control step hands back: a force to accumulate and
/// the velocity to set.
#[derive(Clone, Copy, PartialEq, Eq, Structural, Debug)]
pub struct UnshapedStep {
    /// Force to accumulate for the coming physics step.
    pub force: Vec2i,
    /// Velocity the body is set to.
    pub velocity: Vec2i,
}

/// Mathematical counterpart of [`unshaped_control_step`]: with the
/// joystick deflected past the dead zone the player accelerates towards
/// it; otherwise the velocity is damped multiplicatively towards rest.
pub open spec fn spec_unshaped_control_step(input: InputFrame, velocity: Vec2i) -> UnshapedStep {
    let mag_sq = input.joystick.x * input.joystick.x + input.joystick.y * input.joystick.y;
    if mag_sq > JOY_DEAD_ZONE * JOY_DEAD_ZONE {
        UnshapedStep {
            force: Vec2i {
                x: spec_div_trunc(input.joystick.x * UNSHAPED_ACCELERATION, SCALE as int) as i64,
                y: spec_div_trunc(input.joystick.y * UNSHAPED_ACCELERATION, SCALE as int) as i64,
            },
            velocity,
        }
    } else {
        UnshapedStep {
            force: Vec2i { x: 0, y: 0 },
            velocity: Vec2i {
                x: spec_div_trunc(velocity.x * UNSHAPED_DAMPING_NUM, SCALE as int) as i64,
                y: spec_div_trunc(velocity.y * UNSHAPED_DAMPING_NUM, SCALE as int) as i64,
            },
        }
    }
}

/// Runs one tick of unshaped controls for one player.
pub fn unshaped_control_step(input: InputFrame, velocity: Vec2i) -> (r: UnshapedStep)
    requires
        input.wf(),
        velocity.bounded(VEL_MAX as int),
    ensures
        r == spec_unshaped_control_step(input, velocity),
        r.force.bounded(crate::math::FORCE_MAX as int),
        r.velocity.bounded(VEL_MAX as int),
{
    let mag_sq = input.joystick.magnitude_squared();
    if mag_sq > JOY_DEAD_ZONE * JOY_DEAD_ZONE {
        proof {
            assert(-0x4_0000_0000 <= input.joystick.x * UNSHAPED_ACCELERATION <= 0x4_0000_0000
                && -0x4_0000_0000 <= input.joystick.y * UNSHAPED_ACCELERATION <= 0x4_0000_0000)
                by (nonlinear_arith)
                requires
                    -1024 <= input.joystick.x <= 1024,
                    -1024 <= input.joystick.y <= 1024,
                    UNSHAPED_ACCELERATION == 51200,
            ;
        }
        UnshapedStep {
            force: Vec2i {
                x: div_trunc(input.joystick.x * UNSHAPED_ACCELERATION, SCALE),
                y: div_trunc(input.joystick.y * UNSHAPED_ACCELERATION, SCALE),
            },
            velocity,
        }
    } else {
        proof {
            assert(-0x2_0000_0000 <= velocity.x * UNSHAPED_DAMPING_NUM <= 0x2_0000_0000
                && -0x2_0000_0000 <= velocity.y * UNSHAPED_DAMPING_NUM <= 0x2_0000_0000)
                by (nonlinear_arith)
                requires
                    -VEL_MAX <= velocity.x <= VEL_MAX,
                    -VEL_MAX <= velocity.y <= VEL_MAX,
                    UNSHAPED_DAMPING_NUM == 993,
                    VEL_MAX == 0x20_0000,
            ;
            if velocity.x >= 0 {
                crate::math::lemma_scale_frac_bounded(velocity.x as int, UNSHAPED_DAMPING_NUM
                    as int);
            } else {
                crate::math::lemma_scale_frac_bounded(-velocity.x as int, UNSHAPED_DAMPING_NUM
                    as int);
            }
            if velocity.y >= 0 {
                crate::math::lemma_scale_frac_bounded(velocity.y as int, UNSHAPED_DAMPING_NUM
                    as int);
            } else {
                crate::math::lemma_scale_frac_bounded(-velocity.y as int, UNSHAPED_DAMPING_NUM
                    as int);
            }
        }
        UnshapedStep {
            force: Vec2i { x: 0, y: 0 },
            velocity: Vec2i {
                x: div_trunc(velocity.x * UNSHAPED_DAMPING_NUM, SCALE),
                y: div_trunc(velocity.y * UNSHAPED_DAMPING_NUM, SCALE),
            },
        }
    }
}

/// What the animation step leaves in one slot: the spawn animation and the
/// platformer's aspect-ratio animation each advance by one tick.
pub open spec fn spec_animated_comps(c: Components) -> Components {
    let c1 = if c.player is Some {
        Components {
            player: Some(Player {
                spawn_animation: spec_tween_advanced(c.player->Some_0.spawn_animation),
                ..c.player->Some_0
            }),
            ..c
        }
    } else {
        c
    };
    if c1.platformer is Some {
        Components {
            platformer: Some(Platformer {
                aspect_ratio: spec_tween_advanced(c1.platformer->Some_0.aspect_ratio),
                ..c1.platformer->Some_0
            }),
            ..c1
        }
    } else {
        c1
    }
}

/// Relation between the worlds before and after one animation tick.
pub open spec fn spec_animations_rel(w0: World, w1: World) -> bool {
    &&& w1.slots@.len() == w0.slots@.len()
    &&& forall|i: int|
        0 <= i < w0.slots@.len() ==> #[trigger] w1.slots@[i] == (Slot {
            c: spec_animated_comps(w0.slots@[i].c),
            ..w0.slots@[i]
        })
}

/// Advances every player animation by one tick.
pub fn advance_animations(world: &mut World)
    requires
        world_wf(*old(world)),
    ensures
        final(world).slots@.len() == old(world).slots@.len(),
        forall|i: int|
            0 <= i < old(world).slots@.len() ==> #[trigger] final(world).slots@[i] == (Slot {
                c: spec_animated_comps(old(world).slots@[i].c),
                ..old(world).slots@[i]
            }),
        world_wf(*final(world)),
{
    let n = world.slots.len();
    let mut i: usize = 0;
    while i < n
        invariant
            world_wf(*old(world)),
            n == world.slots@.len(),
            world.slots@.len() == old(world).slots@.len(),
            i <= n,
            forall|j: int|
                i <= j < n ==> #[trigger] world.slots@[j] == old(world).slots@[j],
            forall|j: int|
                0 <= j < i ==> #[trigger] world.slots@[j] == (Slot {
                    c: spec_animated_comps(old(world).slots@[j].c),
                    ..old(world).slots@[j]
                }),
            forall|j: int| 0 <= j < i ==> comps_wf((#[trigger] world.slots@[j]).c),
        decreases n - i,
    {
        match world.slots[i].c.player {
            Some(p) => {
                let mut anim = p.spawn_animation;
                anim.advance();
                world.slots[i].c.player = Some(Player { spawn_animation: anim, ..p });
            },
            None => {},
        }
        match world.slots[i].c.platformer {
            Some(pf) => {
                let mut anim = pf.aspect_ratio;
                anim.advance();
                world.slots[i].c.platformer = Some(Platformer { aspect_ratio: anim, ..pf });
            },
            None => {},
        }
        i = i + 1;
    }
}

/// Mathematical counterpart of [`is_on_ground`]: a thin probe box around
/// the bottom face of the platformer body strictly overlaps some solid.
pub open spec fn spec_on_ground(p: Physics, h: BodyHandle) -> bool {
    let pos = p.body_of(h).position;
    p.spec_first_hit(
        Vec2i { x: pos.x, y: (pos.y + PLATFORMER_HALF) as i64 },
        Vec2i { x: GROUND_PROBE_HALF, y: 1 },
        InteractionGroups { memberships: CollisionGroups::PLAYER, filter: CollisionGroups::SOLIDS },
    ) is Some
}

/// Whether the (player's) physics body is standing on solid ground: a thin
/// box around the body's bottom face, slightly narrower than the body, is
/// tested for overlap against the solids group.
pub fn is_on_ground(physics: &Physics, h: BodyHandle) -> (r: bool)
    requires
        physics.wf(),
        physics.body_live(h),
    ensures
        r == spec_on_ground(*physics, h),
{
    let b = physics.body(h);
    let center = Vec2i { x: b.position.x, y: b.position.y + PLATFORMER_HALF };
    let probe = Shape::Cuboid { half: Vec2i { x: GROUND_PROBE_HALF, y: 1 } };
    let groups = InteractionGroups {
        memberships: CollisionGroups::PLAYER,
        filter: CollisionGroups::SOLIDS,
    };
    physics.intersection_with_shape(center, probe, groups).is_some()
}

/// Whether the player in slot `i` takes a control tick: a live, not dead
/// or dying player with a body and at least one morph's control state.
pub open spec fn spec_controls_applies(w: World, i: int) -> bool {
    let c = w.slots@[i].c;
    &&& 0 <= i < w.slots@.len()
    &&& w.slots@[i].alive
    &&& c.spec_alive()
    &&& c.player is Some
    &&& c.rigid_body is Some
    &&& (c.unshaped is Some || c.platformer is Some)
}

/// The body handle of the player in slot `i`.
pub open spec fn spec_body_handle(w: World, i: int) -> BodyHandle {
    w.slots@[i].c.rigid_body->Some_0.0
}

/// The body the control tick leaves for the player in slot `i`: the
/// control step's velocity, and its force accumulated on top of what the
/// body already carried.
pub open spec fn spec_controls_new_body(w: World, p: Physics, input: InputFrame, i: int) -> Body {
    let c = w.slots@[i].c;
    let h = spec_body_handle(w, i);
    let b = p.body_of(h);
    let (f, v) = if c.unshaped is Some {
        let st = spec_unshaped_control_step(input, b.velocity);
        (st.force, st.velocity)
    } else {
        let st = spec_platformer_control_step(c.platformer->Some_0, input, spec_on_ground(p, h),
            b.velocity);
        (st.force, st.velocity)
    };
    Body {
        velocity: v,
        force: Vec2i {
            x: spec_clamp64(b.force.x + f.x, -FORCE_MAX as int, FORCE_MAX as int) as i64,
            y: spec_clamp64(b.force.y + f.y, -FORCE_MAX as int, FORCE_MAX as int) as i64,
        },
        ..b
    }
}

/// The control state the control tick leaves in slot `i`.
pub open spec fn spec_controls_new_platformer(w: World, p: Physics, input: InputFrame, i: int)
    -> Option<Platformer> {
    let c = w.slots@[i].c;
    if spec_controls_applies(w, i) && c.unshaped is None && c.platformer is Some {
        Some(spec_platformer_control_step(c.platformer->Some_0, input, spec_on_ground(p,
            spec_body_handle(w, i)), p.body_of(spec_body_handle(w, i)).velocity).state)
    } else {
        c.platformer
    }
}

/// Relation between the worlds before and after one control tick: every
/// live player with control state takes one control step; every body of
/// such a player picks up the step's force and velocity; everything else
/// stays put.
pub open spec fn spec_controls_rel(
    w0: World,
    p0: Physics,
    input: InputFrame,
    w1: World,
    p1: Physics,
) -> bool {
    &&& w1.slots@.len() == w0.slots@.len()
    &&& (forall|i: int|
        0 <= i < w0.slots@.len() ==> #[trigger] w1.slots@[i] == (Slot {
            c: Components {
                platformer: spec_controls_new_platformer(w0, p0, input, i),
                ..w0.slots@[i].c
            },
            ..w0.slots@[i]
        }))
    &&& p1.gravity == p0.gravity
    &&& p1.colliders@ == p0.colliders@
    &&& p1.bodies@.len() == p0.bodies@.len()
    &&& (forall|i: int|
        spec_controls_applies(w0, i) ==> p1.bodies@[spec_body_handle(w0, i).index as int] == (
        BodySlot {
            generation: p0.bodies@[spec_body_handle(w0, i).index as int].generation,
            body: Some(spec_controls_new_body(w0, p0, input, i)),
        }))
    &&& (forall|j: int|
        0 <= j < p0.bodies@.len() && (forall|i: int|
            spec_controls_applies(w0, i) ==> spec_body_handle(w0, i).index != j) ==> p1.bodies@[
            j] == p0.bodies@[j])
}

impl Player {
    /// Runs the players' per-tick controls: every live player's control
    /// state machine reads the input frame and writes forces and
    /// velocities to its body.
    pub fn tick_controls(world: &mut World, physics: &mut Physics, input: &InputFrame)
        requires
            sim_wf(*old(world), *old(physics)),
            input.wf(),
        ensures
            sim_wf(*final(world), *final(physics)),
            spec_controls_rel(*old(world), *old(physics), *input, *final(world), *final(physics)),
    {
        let n = world.slots.len();
        let mut i: usize = 0;
        while i < n
            invariant
                sim_wf(*old(world), *old(physics)),
                input.wf(),
                n == world.slots@.len(),
                world.slots@.len() == old(world).slots@.len(),
                i <= n,
                physics.wf(),
                same_query_state(*old(physics), *physics),
                physics.gravity == old(physics).gravity,
                physics.colliders@ == old(physics).colliders@,
                physics.bodies@.len() == old(physics).bodies@.len(),
                forall|j: int|
                    i <= j < n ==> #[trigger] world.slots@[j] == old(world).slots@[j],
                forall|j: int|
                    0 <= j < i ==> #[trigger] world.slots@[j] == (Slot {
                        c: Components {
                            platformer: spec_controls_new_platformer(*old(world), *old(physics),
                                *input, j),
                            ..old(world).slots@[j].c
                        },
                        ..old(world).slots@[j]
                    }),
                forall|j: int| 0 <= j < i ==> comps_wf((#[trigger] world.slots@[j]).c),
                forall|k: int|
                    0 <= k < i && spec_controls_applies(*old(world), k) ==> physics.bodies@[
                    spec_body_handle(*old(world), k).index as int] == (BodySlot {
                        generation: old(physics).bodies@[spec_body_handle(*old(world),
                            k).index as int].generation,
                        body: Some(spec_controls_new_body(*old(world), *old(physics), *input, k)),
                    }),
                forall|j: int|
                    0 <= j < old(physics).bodies@.len() && (forall|k: int|
                        0 <= k < i && spec_controls_applies(*old(world), k)
                            ==> spec_body_handle(*old(world), k).index != j)
                        ==> #[trigger] physics.bodies@[j] == old(physics).bodies@[j],
            decreases n - i,
        {
            let applies = world.slots[i].alive && world.slots[i].c.kill.is_none() && world.slots[
                i].c.dead.is_none() && world.slots[i].c.player.is_some() && world.slots[
                i].c.rigid_body.is_some() && (world.slots[i].c.unshaped.is_some() || world.slots[
                i].c.platformer.is_some());
            if applies {
                let h = match world.slots[i].c.rigid_body {
                    Some(rb) => rb.0,
                    None => unreached(),
                };
                proof {
                    assert(spec_controls_applies(*old(world), i as int));
                    assert(old(physics).body_live(h));
                    assert(forall|k: int|
                        0 <= k < i && spec_controls_applies(*old(world), k)
                            ==> spec_body_handle(*old(world), k).index != h.index);
                    assert(physics.bodies@[h.index as int] == old(physics).bodies@[
                        h.index as int]);
                }
                let b = physics.body(h);
                let st_force: Vec2i;
                let st_velocity: Vec2i;
                if world.slots[i].c.unshaped.is_some() {
                    let st = unshaped_control_step(*input, b.velocity);
                    st_force = st.force;
                    st_velocity = st.velocity;
                } else {
                    let pf = match world.slots[i].c.platformer {
                        Some(pf) => pf,
                        None => unreached(),
                    };
                    proof {
                        lemma_first_hit_same(*old(physics), *physics, 0, Vec2i {
                            x: old(physics).body_of(h).position.x,
                            y: (old(physics).body_of(h).position.y + PLATFORMER_HALF) as i64,
                        }, Vec2i { x: GROUND_PROBE_HALF, y: 1 }, InteractionGroups {
                            memberships: CollisionGroups::PLAYER,
                            filter: CollisionGroups::SOLIDS,
                        });
                    }
                    let grounded = is_on_ground(physics, h);
                    let st = platformer_control_step(pf, *input, grounded, b.velocity);
                    world.slots[i].c.platformer = Some(st.state);
                    st_force = st.force;
                    st_velocity = st.velocity;
                }
                let nb = Body {
                    velocity: st_velocity,
                    force: Vec2i {
                        x: clamp64(b.force.x + st_force.x, -FORCE_MAX, FORCE_MAX),
                        y: clamp64(b.force.y + st_force.y, -FORCE_MAX, FORCE_MAX),
                    },
                    ..b
                };
                physics.set_body(h, nb);
            }
            i = i + 1;
        }
    }
}

/// Whether the player in slot `i` touches deadly geometry this tick: a
/// live, not dead or dying player whose body box overlaps the deadly
/// group.
pub open spec fn spec_touches_deadly(w: World, p: Physics, i: int) -> bool {
    let c = w.slots@[i].c;
    &&& 0 <= i < w.slots@.len()
    &&& w.slots@[i].alive
    &&& c.spec_alive()
    &&& c.player is Some
    &&& c.size is Some
    &&& c.rigid_body is Some
    &&& p.body_live(c.rigid_body->Some_0.0)
    &&& p.spec_first_hit(
        p.body_of(c.rigid_body->Some_0.0).position,
        Vec2i {
            x: ((c.size->Some_0.0.x as int) / 2) as i64,
            y: ((c.size->Some_0.0.y as int) / 2) as i64,
        },
        InteractionGroups {
            memberships: CollisionGroups::PLAYER,
            filter: CollisionGroups::DEADLY,
        },
    ) is Some
}

/// Relation between the worlds before and after the death-detection pass:
/// every live player overlapping the deadly group picks up a one-tick
/// death countdown; everything else stays put.
pub open spec fn spec_kill_detect_rel(w0: World, p: Physics, w1: World) -> bool {
    &&& w1.slots@.len() == w0.slots@.len()
    &&& forall|i: int|
        0 <= i < w0.slots@.len() ==> #[trigger] w1.slots@[i] == if spec_touches_deadly(w0, p, i) {
            Slot {
                c: Components { kill: Some(Kill { remaining_time: 1 }), ..w0.slots@[i].c },
                ..w0.slots@[i]
            }
        } else {
            w0.slots@[i]
        }
}

/// Whether the player in slot `i` is dead and due for a respawn.
pub open spec fn spec_respawns(w: World, p: Physics, i: int) -> bool {
    let c = w.slots@[i].c;
    &&& 0 <= i < w.slots@.len()
    &&& w.slots@[i].alive
    &&& c.player is Some
    &&& c.dead is Some
    &&& c.interpolated_position is Some
    &&& c.rigid_body is Some
    &&& p.body_live(c.rigid_body->Some_0.0)
}

/// What a respawn leaves in the player's slot: the dead marker is gone,
/// both interpolation entries rest at the checkpoint, and the spawn
/// animation restarts.
pub open spec fn spec_respawned_comps(c: Components) -> Components {
    let ckpt = c.player->Some_0.checkpoint;
    Components {
        dead: None,
        interpolated_position: Some(InterpolatedPosition(Interpolated {
            current: ckpt,
            previous: ckpt,
        })),
        player: Some(Player {
            spawn_animation: spec_spawn_animation_started(),
            ..c.player->Some_0
        }),
        ..c
    }
}

/// Relation between the worlds before and after the respawn pass: every
/// dead player is teleported to its checkpoint with zero velocity, loses
/// the dead marker, and restarts its spawn animation — regardless of where
/// it died or how fast it was going. This is the sole respawn path.
pub open spec fn spec_respawn_rel(w0: World, p0: Physics, w1: World, p1: Physics) -> bool {
    &&& w1.slots@.len() == w0.slots@.len()
    &&& (forall|i: int|
        0 <= i < w0.slots@.len() ==> #[trigger] w1.slots@[i] == if spec_respawns(w0, p0, i) {
            Slot { c: spec_respawned_comps(w0.slots@[i].c), ..w0.slots@[i] }
        } else {
            w0.slots@[i]
        })
    &&& p1.gravity == p0.gravity
    &&& p1.colliders@ == p0.colliders@
    &&& p1.bodies@.len() == p0.bodies@.len()
    &&& (forall|i: int|
        spec_respawns(w0, p0, i) ==> p1.bodies@[spec_body_handle(w0, i).index as int] == (
        BodySlot {
            generation: p0.bodies@[spec_body_handle(w0, i).index as int].generation,
            body: Some(Body {
                position: w0.slots@[i].c.player->Some_0.checkpoint,
                velocity: Vec2i { x: 0, y: 0 },
                ..p0.body_of(spec_body_handle(w0, i))
            }),
        }))
    &&& (forall|j: int|
        0 <= j < p0.bodies@.len() && (forall|i: int|
            spec_respawns(w0, p0, i) ==> spec_body_handle(w0, i).index != j) ==> p1.bodies@[j]
            == p0.bodies@[j])
}

/// The morph the zones at the player's position ask for: the tag of the
/// first overlapping morph-zone collider, or the default unshaped morph
/// when the player stands in no zone.
pub open spec fn spec_zone_morph(w: World, p: Physics, i: int) -> Morph {
    let h = spec_body_handle(w, i);
    match p.spec_first_hit(p.body_of(h).position, Vec2i { x: 10, y: 10 }, InteractionGroups {
        memberships: CollisionGroups::PLAYER,
        filter: CollisionGroups::MORPH_ZONES,
    }) {
        Some(k) => Morph::spec_from_tag(p.colliders@[k].collider->Some_0.user_data),
        None => Morph::Unshaped,
    }
}

/// Whether the player in slot `i` switches morph this tick: the zones ask
/// for a morph other than the one it carries. Dead players are included,
/// so a respawned player resolves its morph in the same tick.
pub open spec fn spec_morphs(w: World, p: Physics, i: int) -> bool {
    let c = w.slots@[i].c;
    &&& 0 <= i < w.slots@.len()
    &&& w.slots@[i].alive
    &&& c.player is Some
    &&& c.morph is Some
    &&& c.rigid_body is Some
    &&& c.collider is Some
    &&& p.body_live(c.rigid_body->Some_0.0)
    &&& p.collider_live(c.collider->Some_0.0)
    &&& spec_zone_morph(w, p, i) != c.morph->Some_0
}

/// The collider handle of the player in slot `i`.
pub open spec fn spec_collider_handle(w: World, i: int) -> crate::physics::ColliderHandle {
    w.slots@[i].c.collider->Some_0.0
}

/// The physics parameters of a morph. The unresolved placeholder never
/// reaches a body; it maps to the default unshaped parameters.
pub open spec fn spec_morph_params(m: Morph) -> PhysicsParams {
    match m {
        Morph::Platformer => Platformer::spec_physics_params(),
        _ => Unshaped::spec_physics_params(),
    }
}

/// What a morph switch leaves in the player's slot, applied atomically:
/// exactly the new morph's control component is present, the size matches
/// the new morph, and the spawn animation restarts.
pub open spec fn spec_morphed_comps(c: Components, m: Morph) -> Components {
    Components {
        morph: Some(m),
        unshaped: if m is Platformer {
            None
        } else {
            Some(Unshaped {  })
        },
        platformer: if m is Platformer {
            Some(spec_platformer_initial())
        } else {
            None
        },
        size: Some(Size(spec_morph_params(m).size)),
        player: Some(Player {
            spawn_animation: spec_spawn_animation_started(),
            ..c.player->Some_0
        }),
        ..c
    }
}

/// Relation between the worlds before and after the morph pass: every
/// player standing in a zone of a different morph switches to it — its
/// components, its collider's shape and restitution, and its body's
/// gravity scale all switch together; everything else stays put.
pub open spec fn spec_morph_rel(w0: World, p0: Physics, w1: World, p1: Physics) -> bool {
    &&& w1.slots@.len() == w0.slots@.len()
    &&& (forall|i: int|
        0 <= i < w0.slots@.len() ==> #[trigger] w1.slots@[i] == if spec_morphs(w0, p0, i) {
            Slot {
                c: spec_morphed_comps(w0.slots@[i].c, spec_zone_morph(w0, p0, i)),
                ..w0.slots@[i]
            }
        } else {
            w0.slots@[i]
        })
    &&& p1.gravity == p0.gravity
    &&& p1.bodies@.len() == p0.bodies@.len()
    &&& p1.colliders@.len() == p0.colliders@.len()
    &&& (forall|i: int|
        spec_morphs(w0, p0, i) ==> p1.bodies@[spec_body_handle(w0, i).index as int] == (BodySlot {
            generation: p0.bodies@[spec_body_handle(w0, i).index as int].generation,
            body: Some(Body {
                gravity_scale: spec_morph_params(spec_zone_morph(w0, p0, i)).gravity_scale,
                ..p0.body_of(spec_body_handle(w0, i))
            }),
        }))
    &&& (forall|j: int|
        0 <= j < p0.bodies@.len() && (forall|i: int|
            spec_morphs(w0, p0, i) ==> spec_body_handle(w0, i).index != j) ==> p1.bodies@[j]
            == p0.bodies@[j])
    &&& (forall|i: int|
        spec_morphs(w0, p0, i) ==> p1.colliders@[spec_collider_handle(w0, i).index as int] == (
        crate::physics::ColliderSlot {
            generation: p0.colliders@[spec_collider_handle(w0, i).index as int].generation,
            collider: Some(crate::physics::Collider {
                shape: spec_morph_params(spec_zone_morph(w0, p0, i)).shape,
                restitution: spec_morph_params(spec_zone_morph(w0, p0, i)).restitution,
                ..p0.collider_of(spec_collider_handle(w0, i))
            }),
        }))
    &&& (forall|j: int|
        0 <= j < p0.colliders@.len() && (forall|i: int|
            spec_morphs(w0, p0, i) ==> spec_collider_handle(w0, i).index != j) ==> p1.colliders@[
            j] == p0.colliders@[j])
}

/// The death-detection pass: marks every live player overlapping the
/// deadly group for death, with a one-tick delay so the tick in progress
/// finishes consistently.
fn kill_detect(world: &mut World, physics: &Physics)
    requires
        sim_wf(*old(world), *physics),
    ensures
        sim_wf(*final(world), *physics),
        spec_kill_detect_rel(*old(world), *physics, *final(world)),
{
    let n = world.slots.len();
    let mut i: usize = 0;
    while i < n
        invariant
            sim_wf(*old(world), *physics),
            n == world.slots@.len(),
            world.slots@.len() == old(world).slots@.len(),
            i <= n,
            forall|j: int|
                i <= j < n ==> #[trigger] world.slots@[j] == old(world).slots@[j],
            forall|j: int|
                0 <= j < i ==> #[trigger] world.slots@[j] == if spec_touches_deadly(*old(world),
                    *physics, j) {
                    Slot {
                        c: Components {
                            kill: Some(Kill { remaining_time: 1 }),
                            ..old(world).slots@[j].c
                        },
                        ..old(world).slots@[j]
                    }
                } else {
                    old(world).slots@[j]
                },
            forall|j: int| 0 <= j < i ==> comps_wf((#[trigger] world.slots@[j]).c),
        decreases n - i,
    {
        let candidate = world.slots[i].alive && world.slots[i].c.kill.is_none() && world.slots[
            i].c.dead.is_none() && world.slots[i].c.player.is_some() && world.slots[
            i].c.size.is_some() && world.slots[i].c.rigid_body.is_some();
        if candidate {
            let h = match world.slots[i].c.rigid_body {
                Some(rb) => rb.0,
                None => unreached(),
            };
            let size = match world.slots[i].c.size {
                Some(s) => s.0,
                None => unreached(),
            };
            let b = physics.body(h);
            let half = Vec2i { x: size.x / 2, y: size.y / 2 };
            let groups = InteractionGroups {
                memberships: CollisionGroups::PLAYER,
                filter: CollisionGroups::DEADLY,
            };
            let hit = physics.intersection_with_shape(b.position, Shape::Cuboid { half }, groups);
            if hit.is_some() {
                world.slots[i].c.kill = Some(Kill { remaining_time: 1 });
            }
        }
        i = i + 1;
    }
}

/// The respawn pass: unconditionally teleports every dead player to its
/// checkpoint with zero velocity, clears the dead marker, resets the
/// interpolation history so no stale motion is blended, and restarts the
/// spawn animation.
fn respawn_dead(world: &mut World, physics: &mut Physics)
    requires
        sim_wf(*old(world), *old(physics)),
    ensures
        sim_wf(*final(world), *final(physics)),
        spec_respawn_rel(*old(world), *old(physics), *final(world), *final(physics)),
{
    let n = world.slots.len();
    let mut i: usize = 0;
    while i < n
        invariant
            sim_wf(*old(world), *old(physics)),
            n == world.slots@.len(),
            world.slots@.len() == old(world).slots@.len(),
            i <= n,
            physics.wf(),
            physics.gravity == old(physics).gravity,
            physics.colliders@ == old(physics).colliders@,
            physics.bodies@.len() == old(physics).bodies@.len(),
            forall|j: int|
                i <= j < n ==> #[trigger] world.slots@[j] == old(world).slots@[j],
            forall|j: int|
                0 <= j < i ==> #[trigger] world.slots@[j] == if spec_respawns(*old(world), *old(
                    physics), j) {
                    Slot { c: spec_respawned_comps(old(world).slots@[j].c), ..old(world).slots@[
                        j] }
                } else {
                    old(world).slots@[j]
                },
            forall|j: int| 0 <= j < i ==> comps_wf((#[trigger] world.slots@[j]).c),
            forall|k: int|
                0 <= k < i && spec_respawns(*old(world), *old(physics), k) ==> physics.bodies@[
                spec_body_handle(*old(world), k).index as int] == (BodySlot {
                    generation: old(physics).bodies@[spec_body_handle(*old(world),
                        k).index as int].generation,
                    body: Some(Body {
                        position: old(world).slots@[k].c.player->Some_0.checkpoint,
                        velocity: Vec2i { x: 0, y: 0 },
                        ..old(physics).body_of(spec_body_handle(*old(world), k))
                    }),
                }),
            forall|j: int|
                0 <= j < old(physics).bodies@.len() && (forall|k: int|
                    0 <= k < i && spec_respawns(*old(world), *old(physics), k)
                        ==> spec_body_handle(*old(world), k).index != j)
                    ==> #[trigger] physics.bodies@[j] == old(physics).bodies@[j],
        decreases n - i,
    {
        let candidate = world.slots[i].alive && world.slots[i].c.player.is_some() && world.slots[
            i].c.dead.is_some() && world.slots[i].c.interpolated_position.is_some()
            && world.slots[i].c.rigid_body.is_some();
        if candidate {
            let h = match world.slots[i].c.rigid_body {
                Some(rb) => rb.0,
                None => unreached(),
            };
            let pl = match world.slots[i].c.player {
                Some(p) => p,
                None => unreached(),
            };
            proof {
                assert(spec_respawns(*old(world), *old(physics), i as int));
                assert(forall|k: int|
                    0 <= k < i && spec_respawns(*old(world), *old(physics), k)
                        ==> spec_body_handle(*old(world), k).index != h.index);
                assert(physics.bodies@[h.index as int] == old(physics).bodies@[h.index as int]);
            }
            let ckpt = pl.checkpoint;
            world.slots[i].c.dead = None;
            world.slots[i].c.interpolated_position = Some(InterpolatedPosition(Interpolated {
                current: ckpt,
                previous: ckpt,
            }));
            let mut npl = pl;
            npl.start_spawn_animation();
            world.slots[i].c.player = Some(npl);
            let b = physics.body(h);
            physics.set_body(h, Body { position: ckpt, velocity: Vec2i { x: 0, y: 0 }, ..b });
        }
        i = i + 1;
    }
}

/// The morph scan: finds every player standing in a zone of a different
/// morph, in slot order, without touching anything.
fn morph_scan(world: &World, physics: &Physics) -> (ms: Vec<(usize, Morph)>)
    requires
        sim_wf(*world, *physics),
    ensures
        forall|k: int|
            0 <= k < ms@.len() ==> {
                &&& spec_morphs(*world, *physics, (#[trigger] ms@[k]).0 as int)
                &&& ms@[k].1 == spec_zone_morph(*world, *physics, ms@[k].0 as int)
            },
        forall|k1: int, k2: int|
            0 <= k1 < k2 < ms@.len() ==> (#[trigger] ms@[k1]).0 < (#[trigger] ms@[k2]).0,
        forall|i: int|
            spec_morphs(*world, *physics, i) ==> exists|k: int|
                0 <= k < ms@.len() && (#[trigger] ms@[k]).0 == i,
{
    let n = world.slots.len();
    let mut ms: Vec<(usize, Morph)> = Vec::new();
    let mut i: usize = 0;
    while i < n
        invariant
            sim_wf(*world, *physics),
            n == world.slots@.len(),
            i <= n,
            forall|k: int|
                0 <= k < ms@.len() ==> {
                    &&& spec_morphs(*world, *physics, (#[trigger] ms@[k]).0 as int)
                    &&& ms@[k].1 == spec_zone_morph(*world, *physics, ms@[k].0 as int)
                    &&& ms@[k].0 < i
                },
            forall|k1: int, k2: int|
                0 <= k1 < k2 < ms@.len() ==> (#[trigger] ms@[k1]).0 < (#[trigger] ms@[k2]).0,
            forall|j: int|
                0 <= j < i && spec_morphs(*world, *physics, j) ==> exists|k: int|
                    0 <= k < ms@.len() && (#[trigger] ms@[k]).0 == j,
        decreases n - i,
    {
        let candidate = world.slots[i].alive && world.slots[i].c.player.is_some() && world.slots[
            i].c.morph.is_some() && world.slots[i].c.rigid_body.is_some() && world.slots[
            i].c.collider.is_some();
        if candidate {
            let h = match world.slots[i].c.rigid_body {
                Some(rb) => rb.0,
                None => unreached(),
            };
            let m = match world.slots[i].c.morph {
                Some(m) => m,
                None => unreached(),
            };
            let b = physics.body(h);
            let groups = InteractionGroups {
                memberships: CollisionGroups::PLAYER,
                filter: CollisionGroups::MORPH_ZONES,
            };
            let probe = Shape::Cuboid { half: Vec2i { x: 10, y: 10 } };
            let zone_morph = match physics.intersection_with_shape(b.position, probe, groups) {
                Some(ch) => Morph::from_tag(physics.collider(ch).user_data),
                None => Morph::Unshaped,
            };
            if !(zone_morph == m) {
                let ghost ms0 = ms@;
                ms.push((i, zone_morph));
                proof {
                    assert(ms@[ms@.len() - 1].0 == i);
                    assert forall|j: int|
                        0 <= j < i + 1 && spec_morphs(*world, *physics, j) implies exists|k: int|
                        0 <= k < ms@.len() && (#[trigger] ms@[k]).0 == j by {
                        if j < i {
                            let k = choose|k: int|
                                0 <= k < ms0.len() && (#[trigger] ms0[k]).0 == j;
                            assert(ms@[k].0 == j);
                        } else {
                            assert(ms@[ms@.len() - 1].0 == j);
                        }
                    }
                }
            } else {
                proof {
                    assert(zone_morph == spec_zone_morph(*world, *physics, i as int));
                    assert(!spec_morphs(*world, *physics, i as int));
                }
            }
        } else {
            proof {
                assert(!spec_morphs(*world, *physics, i as int));
            }
        }
        i = i + 1;
    }
    ms
}

/// The morph apply pass: performs the switches the scan found, each one
/// atomically across the entity's components, its collider and its body.
fn morph_apply(world: &mut World, physics: &mut Physics, ms: &Vec<(usize, Morph)>)
    requires
        sim_wf(*old(world), *old(physics)),
        forall|k: int|
            0 <= k < ms@.len() ==> {
                &&& spec_morphs(*old(world), *old(physics), (#[trigger] ms@[k]).0 as int)
                &&& ms@[k].1 == spec_zone_morph(*old(world), *old(physics), ms@[k].0 as int)
            },
        forall|k1: int, k2: int|
            0 <= k1 < k2 < ms@.len() ==> (#[trigger] ms@[k1]).0 < (#[trigger] ms@[k2]).0,
        forall|i: int|
            spec_morphs(*old(world), *old(physics), i) ==> exists|k: int|
                0 <= k < ms@.len() && (#[trigger] ms@[k]).0 == i,
    ensures
        sim_wf(*final(world), *final(physics)),
        spec_morph_rel(*old(world), *old(physics), *final(world), *final(physics)),
{
    let n = ms.len();
    let mut k: usize = 0;
    while k < n
        invariant
            sim_wf(*old(world), *old(physics)),
            n == ms@.len(),
            k <= n,
            world.slots@.len() == old(world).slots@.len(),
            physics.wf(),
            physics.gravity == old(physics).gravity,
            physics.bodies@.len() == old(physics).bodies@.len(),
            physics.colliders@.len() == old(physics).colliders@.len(),
            forall|kk: int|
                0 <= kk < ms@.len() ==> {
                    &&& spec_morphs(*old(world), *old(physics), (#[trigger] ms@[kk]).0 as int)
                    &&& ms@[kk].1 == spec_zone_morph(*old(world), *old(physics), ms@[kk].0 as int)
                },
            forall|k1: int, k2: int|
                0 <= k1 < k2 < ms@.len() ==> (#[trigger] ms@[k1]).0 < (#[trigger] ms@[k2]).0,
            forall|j: int|
                0 <= j < world.slots@.len() && !(exists|kk: int|
                    0 <= kk < k && (#[trigger] ms@[kk]).0 == j) ==> #[trigger] world.slots@[j]
                    == old(world).slots@[j],
            forall|kk: int|
                0 <= kk < k ==> #[trigger] world.slots@[ms@[kk].0 as int] == (Slot {
                    c: spec_morphed_comps(old(world).slots@[ms@[kk].0 as int].c, ms@[kk].1),
                    ..old(world).slots@[ms@[kk].0 as int]
                }),
            forall|j: int| 0 <= j < world.slots@.len() ==> comps_wf((#[trigger] world.slots@[
                j]).c),
            forall|kk: int|
                0 <= kk < k ==> physics.bodies@[spec_body_handle(*old(world),
                    ms@[kk].0 as int).index as int] == (BodySlot {
                    generation: old(physics).bodies@[spec_body_handle(*old(world),
                        ms@[kk].0 as int).index as int].generation,
                    body: Some(Body {
                        gravity_scale: spec_morph_params(ms@[kk].1).gravity_scale,
                        ..old(physics).body_of(spec_body_handle(*old(world), ms@[kk].0 as int))
                    }),
                }),
            forall|j: int|
                0 <= j < old(physics).bodies@.len() && (forall|kk: int|
                    0 <= kk < k ==> spec_body_handle(*old(world), (#[trigger] ms@[
                    kk]).0 as int).index != j) ==> #[trigger] physics.bodies@[j] == old(
                physics).bodies@[j],
            forall|kk: int|
                0 <= kk < k ==> physics.colliders@[spec_collider_handle(*old(world),
                    ms@[kk].0 as int).index as int] == (crate::physics::ColliderSlot {
                    generation: old(physics).colliders@[spec_collider_handle(*old(world),
                        ms@[kk].0 as int).index as int].generation,
                    collider: Some(crate::physics::Collider {
                        shape: spec_morph_params(ms@[kk].1).shape,
                        restitution: spec_morph_params(ms@[kk].1).restitution,
                        ..old(physics).collider_of(spec_collider_handle(*old(world),
                            ms@[kk].0 as int))
                    }),
                }),
            forall|j: int|
                0 <= j < old(physics).colliders@.len() && (forall|kk: int|
                    0 <= kk < k ==> spec_collider_handle(*old(world), (#[trigger] ms@[
                    kk]).0 as int).index != j) ==> #[trigger] physics.colliders@[j] == old(
                physics).colliders@[j],
        decreases n - k,
    {
        let (i, m) = ms[k];
        proof {
            assert(spec_morphs(*old(world), *old(physics), i as int));
            assert(forall|kk: int| 0 <= kk < k ==> (#[trigger] ms@[kk]).0 < i);
            assert(!(exists|kk: int| 0 <= kk < k && (#[trigger] ms@[kk]).0 == i as int));
            assert(world.slots@[i as int] == old(world).slots@[i as int]);
        }
        let h = match world.slots[i].c.rigid_body {
            Some(rb) => rb.0,
            None => unreached(),
        };
        let ch = match world.slots[i].c.collider {
            Some(c) => c.0,
            None => unreached(),
        };
        let pl = match world.slots[i].c.player {
            Some(p) => p,
            None => unreached(),
        };
        proof {
            assert(forall|kk: int|
                0 <= kk < k ==> spec_body_handle(*old(world), (#[trigger] ms@[kk]).0 as int).index
                    != h.index);
            assert(physics.bodies@[h.index as int] == old(physics).bodies@[h.index as int]);
            assert(forall|kk: int|
                0 <= kk < k ==> spec_collider_handle(*old(world), (#[trigger] ms@[
                kk]).0 as int).index != ch.index);
            assert(physics.colliders@[ch.index as int] == old(physics).colliders@[
                ch.index as int]);
        }
        let params = match m {
            Morph::Platformer => Platformer::physics_params(),
            _ => Unshaped::physics_params(),
        };
        world.slots[i].c.morph = Some(m);
        if matches!(m, Morph::Platformer) {
            world.slots[i].c.unshaped = None;
            world.slots[i].c.platformer = Some(Platformer::new());
        } else {
            world.slots[i].c.unshaped = Some(Unshaped::new());
            world.slots[i].c.platformer = None;
        }
        world.slots[i].c.size = Some(Size(params.size));
        let mut npl = pl;
        npl.start_spawn_animation();
        world.slots[i].c.player = Some(npl);
        let b = physics.body(h);
        physics.set_body(h, Body { gravity_scale: params.gravity_scale, ..b });
        let col = physics.collider(ch);
        physics.set_collider(ch, crate::physics::Collider {
            shape: params.shape,
            restitution: params.restitution,
            ..col
        });
        k = k + 1;
    }
    proof {
        assert forall|i: int| 0 <= i < old(world).slots@.len() implies #[trigger] world.slots@[i]
            == if spec_morphs(*old(world), *old(physics), i) {
            Slot {
                c: spec_morphed_comps(old(world).slots@[i].c, spec_zone_morph(*old(world), *old(
                    physics), i)),
                ..old(world).slots@[i]
            }
        } else {
            old(world).slots@[i]
        } by {
            if spec_morphs(*old(world), *old(physics), i) {
                let kk = choose|kk: int|
                    0 <= kk < ms@.len() && (#[trigger] ms@[kk]).0 == i;
                assert(world.slots@[ms@[kk].0 as int] == (Slot {
                    c: spec_morphed_comps(old(world).slots@[ms@[kk].0 as int].c, ms@[kk].1),
                    ..old(world).slots@[ms@[kk].0 as int]
                }));
            }
        }
        assert forall|i: int|
            spec_morphs(*old(world), *old(physics), i) implies physics.bodies@[spec_body_handle(
            *old(world), i).index as int] == (BodySlot {
            generation: old(physics).bodies@[spec_body_handle(*old(world), i).index
                as int].generation,
            body: Some(Body {
                gravity_scale: spec_morph_params(spec_zone_morph(*old(world), *old(physics),
                    i)).gravity_scale,
                ..old(physics).body_of(spec_body_handle(*old(world), i))
            }),
        }) by {
            let kk = choose|kk: int| 0 <= kk < ms@.len() && (#[trigger] ms@[kk]).0 == i;
            assert(physics.bodies@[spec_body_handle(*old(world), ms@[kk].0 as int).index as int]
                == (BodySlot {
                generation: old(physics).bodies@[spec_body_handle(*old(world),
                    ms@[kk].0 as int).index as int].generation,
                body: Some(Body {
                    gravity_scale: spec_morph_params(ms@[kk].1).gravity_scale,
                    ..old(physics).body_of(spec_body_handle(*old(world), ms@[kk].0 as int))
                }),
            }));
        }
        assert forall|j: int|
            0 <= j < old(physics).bodies@.len() && (forall|i: int|
                spec_morphs(*old(world), *old(physics), i) ==> spec_body_handle(*old(world),
                    i).index != j) implies #[trigger] physics.bodies@[j] == old(physics).bodies@[
            j] by {
            assert(forall|kk: int|
                0 <= kk < ms@.len() ==> spec_body_handle(*old(world), (#[trigger] ms@[
                kk]).0 as int).index != j);
        }
        assert forall|i: int|
            spec_morphs(*old(world), *old(physics), i) implies physics.colliders@[
            spec_collider_handle(*old(world), i).index as int] == (crate::physics::ColliderSlot {
            generation: old(physics).colliders@[spec_collider_handle(*old(world), i).index
                as int].generation,
            collider: Some(crate::physics::Collider {
                shape: spec_morph_params(spec_zone_morph(*old(world), *old(physics), i)).shape,
                restitution: spec_morph_params(spec_zone_morph(*old(world), *old(physics),
                    i)).restitution,
                ..old(physics).collider_of(spec_collider_handle(*old(world), i))
            }),
        }) by {
            let kk = choose|kk: int| 0 <= kk < ms@.len() && (#[trigger] ms@[kk]).0 == i;
            assert(physics.colliders@[spec_collider_handle(*old(world),
                ms@[kk].0 as int).index as int] == (crate::physics::ColliderSlot {
                generation: old(physics).colliders@[spec_collider_handle(*old(world),
                    ms@[kk].0 as int).index as int].generation,
                collider: Some(crate::physics::Collider {
                    shape: spec_morph_params(ms@[kk].1).shape,
                    restitution: spec_morph_params(ms@[kk].1).restitution,
                    ..old(physics).collider_of(spec_collider_handle(*old(world),
                        ms@[kk].0 as int))
                }),
            }));
        }
        assert forall|j: int|
            0 <= j < old(physics).colliders@.len() && (forall|i: int|
                spec_morphs(*old(world), *old(physics), i) ==> spec_collider_handle(*old(world),
                    i).index != j) implies #[trigger] physics.colliders@[j] == old(
            physics).colliders@[j] by {
            assert(forall|kk: int|
                0 <= kk < ms@.len() ==> spec_collider_handle(*old(world), (#[trigger] ms@[
                kk]).0 as int).index != j);
        }
    }
}

/// Relation between the worlds before and after one [`Player::tick`]:
/// death detection, respawn and morph switching compose, in that order.
pub open spec fn spec_player_tick_rel(w0: World, p0: Physics, w1: World, p1: Physics) -> bool {
    exists|w_kd: World, w_rs: World, p_rs: Physics|
        {
            &&& spec_kill_detect_rel(w0, p0, w_kd)
            &&& #[trigger] spec_respawn_rel(w_kd, p0, w_rs, p_rs)
            &&& spec_morph_rel(w_rs, p_rs, w1, p1)
        }
}

impl Player {
    /// Ticks players: death detection, respawn, and morph switching, in
    /// that order. A player that died earlier respawns at its checkpoint
    /// this tick, and a freshly respawned player resolves its morph from
    /// the zones at the checkpoint within the same call.
    pub fn tick(world: &mut World, physics: &mut Physics)
        requires
            sim_wf(*old(world), *old(physics)),
        ensures
            sim_wf(*final(world), *final(physics)),
            spec_player_tick_rel(*old(world), *old(physics), *final(world), *final(physics)),
    {
        kill_detect(world, physics);
        let ghost w_kd = *world;
        respawn_dead(world, physics);
        let ghost w_rs = *world;
        let ghost p_rs = *physics;
        let ms = morph_scan(world, physics);
        morph_apply(world, physics, &ms);
        proof {
            assert(spec_kill_detect_rel(*old(world), *old(physics), w_kd));
            assert(spec_respawn_rel(w_kd, *old(physics), w_rs, p_rs));
            assert(spec_morph_rel(w_rs, p_rs, *final(world), *final(physics)));
        }
    }
}

/// One player tick never creates or destroys entities.
pub proof fn lemma_player_tick_preserves_live(w0: World, p0: Physics, w1: World, p1: Physics)
    requires
        spec_player_tick_rel(w0, p0, w1, p1),
    ensures
        w1.slots@.len() == w0.slots@.len(),
        forall|g: Entity| (#[trigger] w1.live(g)) == w0.live(g),
{
    let (w_kd, w_rs, p_rs): (World, World, Physics) = choose|w_kd: World, w_rs: World,
        p_rs: Physics|
        {
            &&& spec_kill_detect_rel(w0, p0, w_kd)
            &&& #[trigger] spec_respawn_rel(w_kd, p0, w_rs, p_rs)
            &&& spec_morph_rel(w_rs, p_rs, w1, p1)
        };
    assert forall|g: Entity| (#[trigger] w1.live(g)) == w0.live(g) by {
        if (g.index as int) < w0.slots@.len() {
            assert(w_kd.slots@[g.index as int].alive == w0.slots@[g.index as int].alive
                && w_kd.slots@[g.index as int].generation == w0.slots@[g.index as int].generation);
            assert(w_rs.slots@[g.index as int].alive == w_kd.slots@[g.index as int].alive
                && w_rs.slots@[g.index as int].generation == w_kd.slots@[
                g.index as int].generation);
            assert(w1.slots@[g.index as int].alive == w_rs.slots@[g.index as int].alive
                && w1.slots@[g.index as int].generation == w_rs.slots@[
                g.index as int].generation);
        }
    }
}

/// A camera warp never creates or destroys entities.
pub proof fn lemma_warp_preserves_live(w0: World, p: Physics, w1: World, e: Entity)
    requires
        spec_warp_rel(w0, p, w1, e),
    ensures
        w1.slots@.len() == w0.slots@.len(),
        forall|g: Entity| (#[trigger] w1.live(g)) == w0.live(g),
{
    let w_v = choose|w_v: World|
        {
            &&& #[trigger] spec_update_view_rel(w0, p, w_v)
            &&& w1.slots@.len() == w_v.slots@.len()
            &&& forall|j: int|
                0 <= j < w_v.slots@.len() && j != e.index ==> w1.slots@[j] == w_v.slots@[j]
            &&& (e.index as int) < w_v.slots@.len() ==> w1.slots@[e.index as int] == (Slot {
                c: crate::camera::spec_camera_warped_comps(w_v, e),
                ..w_v.slots@[e.index as int]
            })
            &&& (e.index as int) >= w_v.slots@.len() ==> w1.slots@ == w_v.slots@
        };
    assert forall|g: Entity| (#[trigger] w1.live(g)) == w0.live(g) by {
        if (g.index as int) < w0.slots@.len() {
            assert(w_v.slots@[g.index as int].alive == w0.slots@[g.index as int].alive
                && w_v.slots@[g.index as int].generation == w0.slots@[g.index as int].generation);
            assert(w1.slots@[g.index as int].alive == w_v.slots@[g.index as int].alive
                && w1.slots@[g.index as int].generation == w_v.slots@[g.index as int].generation);
        }
    }
}

/// What spawning a player puts in the world before its first tick: the
/// player record with its checkpoint at the spawn position, a dynamic body
/// resting there, the platformer-sized collider watching solids and
/// triggers, the unresolved morph placeholder, and a fresh camera.
pub open spec fn spec_player_spawn_base_rel(
    w0: World,
    p0: Physics,
    w1: World,
    p1: Physics,
    e: Entity,
    position: Vec2i,
) -> bool {
    let c = w1.comps(e);
    &&& w1.slots@.len() == w0.slots@.len()
    &&& w1.live(e)
    &&& (forall|g: Entity| (#[trigger] w1.live(g)) == w0.live(g))
    &&& (forall|g: Entity|
        g.index != e.index && w0.live(g) ==> (#[trigger] w1.comps(g)) == w0.comps(g))
    &&& c == (Components {
        player: Some(Player { checkpoint: position, spawn_animation: spec_spawn_animation_started(
        ) }),
        position: Some(crate::entities::Position(position)),
        interpolated_position: Some(crate::entities::InterpolatedPosition(
            crate::interpolation::Interpolated { current: position, previous: position },
        )),
        size: Some(Size(Vec2i { x: PLATFORMER_SIZE, y: PLATFORMER_SIZE })),
        rigid_body: c.rigid_body,
        collider: c.collider,
        morph: Some(Morph::Unresolved),
        camera: Some(crate::camera::Camera {
            view: None,
            position: crate::interpolation::Interpolated {
                current: Vec2i { x: 0, y: 0 },
                previous: Vec2i { x: 0, y: 0 },
            },
            size: crate::interpolation::Interpolated {
                current: Vec2i { x: 0, y: 0 },
                previous: Vec2i { x: 0, y: 0 },
            },
        }),
        ..crate::world::spec_no_components()
    })
    &&& c.rigid_body is Some
    &&& c.collider is Some
    &&& p1.body_live(c.rigid_body->Some_0.0)
    &&& p1.collider_live(c.collider->Some_0.0)
    &&& p1.body_of(c.rigid_body->Some_0.0) == (Body {
        position,
        velocity: Vec2i { x: 0, y: 0 },
        force: Vec2i { x: 0, y: 0 },
        gravity_scale: SCALE,
        dynamic: true,
    })
    &&& p1.collider_of(c.collider->Some_0.0) == (crate::physics::Collider {
        parent: Some(c.rigid_body->Some_0.0),
        position: Vec2i { x: 0, y: 0 },
        shape: Shape::Cuboid { half: Vec2i { x: PLATFORMER_HALF, y: PLATFORMER_HALF } },
        groups: InteractionGroups {
            memberships: CollisionGroups::PLAYER,
            filter: CollisionGroups::SOLIDS | CollisionGroups::TRIGGERS,
        },
        sensor: false,
        restitution: 0,
        user_data: e.spec_to_bits(),
    })
    &&& p1.gravity == p0.gravity
    &&& (forall|h: BodyHandle|
        p0.body_live(h) ==> (#[trigger] p1.body_live(h)) && p1.body_of(h) == p0.body_of(h))
    &&& (forall|h: crate::physics::ColliderHandle|
        p0.collider_live(h) ==> (#[trigger] p1.collider_live(h)) && p1.collider_of(h)
            == p0.collider_of(h))
}

impl Player {
    /// Spawns a new player: a dynamic body at `position`, the player's
    /// collider, and the full component set, with the morph still
    /// unresolved. The camera then warps to the view at the spawn point,
    /// and one player tick runs immediately, so the morph placeholder is
    /// resolved from the zones before anything can observe it.
    #[verifier::spinoff_prover]
    #[verifier::rlimit(100)]
    pub fn spawn(world: &mut World, physics: &mut Physics, entity: Entity, position: Vec2i)
        requires
            sim_wf(*old(world), *old(physics)),
            old(world).live(entity),
            position.bounded(COORD_MAX as int),
        ensures
            sim_wf(*final(world), *final(physics)),
            exists|w_base: World, p_base: Physics, w_warp: World|
                {
                    &&& spec_player_spawn_base_rel(*old(world), *old(physics), w_base, p_base,
                        entity, position)
                    &&& #[trigger] spec_warp_rel(w_base, p_base, w_warp, entity)
                    &&& spec_player_tick_rel(w_warp, p_base, *final(world), *final(physics))
                },
            final(world).live(entity),
            forall|g: Entity| (#[trigger] final(world).live(g)) == old(world).live(g),
            final(world).slots@.len() == old(world).slots@.len(),
            forall|g: Entity|
                old(world).live(g) && g.index != entity.index ==> crate::sim::spec_marks_preserved(
                    old(world).comps(g),
                    #[trigger] final(world).comps(g),
                ),
            ({
                let c = final(world).comps(entity);
                &&& c.player is Some
                &&& c.player->Some_0.checkpoint == position
                &&& c.player->Some_0.spawn_animation == spec_spawn_animation_started()
                &&& c.morph is Some
                &&& !(c.morph->Some_0 is Unresolved)
                &&& (c.morph->Some_0 is Platformer <==> c.platformer is Some)
                &&& (c.morph->Some_0 is Platformer <==> c.unshaped is None)
                &&& c.size == Some(Size(spec_morph_params(c.morph->Some_0).size))
                &&& c.position == Some(crate::entities::Position(position))
                &&& c.rigid_body is Some
                &&& c.collider is Some
                &&& c.camera is Some
                &&& final(physics).body_live(c.rigid_body->Some_0.0)
                &&& final(physics).body_of(c.rigid_body->Some_0.0).position == position
                &&& final(physics).body_of(c.rigid_body->Some_0.0).velocity == (Vec2i {
                    x: 0,
                    y: 0,
                })
            }),
    {
        let body = Body::new_dynamic(position);
        let h = physics.insert_body(body);
        let ghost p_mid = *physics;
        let collider = crate::physics::Collider {
            parent: Some(h),
            position: Vec2i { x: 0, y: 0 },
            shape: Shape::Cuboid { half: Vec2i { x: PLATFORMER_HALF, y: PLATFORMER_HALF } },
            groups: InteractionGroups {
                memberships: CollisionGroups::PLAYER,
                filter: CollisionGroups::SOLIDS | CollisionGroups::TRIGGERS,
            },
            sensor: false,
            restitution: 0,
            user_data: entity.to_bits(),
        };
        let ch = physics.insert_collider(collider);
        let mut c = Components::none();
        c.player = Some(Player::new(position));
        c.position = Some(crate::entities::Position(position));
        c.interpolated_position = Some(crate::entities::InterpolatedPosition(
            crate::interpolation::Interpolated::new(position),
        ));
        c.size = Some(Size(Platformer::size()));
        c.rigid_body = Some(crate::entities::RigidBody(h));
        c.collider = Some(crate::entities::Collider(ch));
        c.morph = Some(Morph::Unresolved);
        c.camera = Some(crate::camera::Camera::new());
        world.spawn_at(entity, c);
        proof {
            assert(physics.wf());
            assert(crate::sim::comps_wf(world.comps(entity)));
            assert(world_wf(*world));
            assert(crate::sim::players_ok(*world));
            assert forall|i: int|
                0 <= i < world.slots@.len() && world.slots@[i].alive implies {
                &&& ((#[trigger] world.slots@[i].c).rigid_body is Some ==> physics.body_live(
                    world.slots@[i].c.rigid_body->Some_0.0))
                &&& (world.slots@[i].c.collider is Some ==> physics.collider_live(
                    world.slots@[i].c.collider->Some_0.0))
            } by {
                if i == entity.index as int {
                    assert(physics.body_live(h));
                    assert(physics.collider_live(ch));
                } else {
                    assert(world.slots@[i] == old(world).slots@[i]);
                    if world.slots@[i].c.rigid_body is Some {
                        let g = world.slots@[i].c.rigid_body->Some_0.0;
                        assert(old(physics).body_live(g));
                        assert(g.index != h.index);
                        assert(p_mid.body_live(g));
                        assert(physics.bodies == p_mid.bodies);
                        assert(physics.body_live(g));
                    }
                    if world.slots@[i].c.collider is Some {
                        let g = world.slots@[i].c.collider->Some_0.0;
                        assert(old(physics).collider_live(g));
                        assert(p_mid.collider_live(g) && p_mid.collider_of(g) == old(
                            physics).collider_of(g));
                        assert(g.index != ch.index);
                        assert(physics.collider_live(g));
                    }
                }
            }
            assert(crate::sim::handles_ok(*world, *physics));
            assert(crate::sim::bodies_injective(*world));
            assert(crate::sim::colliders_injective(*world));
        }
        proof {
            assert forall|g: BodyHandle| old(physics).body_live(g) implies (#[trigger]
            physics.body_live(g)) && physics.body_of(g) == old(physics).body_of(g) by {
                assert(g.index != h.index);
                assert(p_mid.body_live(g) && p_mid.body_of(g) == old(physics).body_of(g));
                assert(physics.bodies == p_mid.bodies);
            }
            assert forall|g: crate::physics::ColliderHandle| old(physics).collider_live(g)
                implies (#[trigger] physics.collider_live(g)) && physics.collider_of(g) == old(
            physics).collider_of(g) by {
                assert(p_mid.collider_live(g) && p_mid.collider_of(g) == old(
                    physics).collider_of(g));
                assert(g.index != ch.index);
            }
        }
        let ghost w_base = *world;
        let ghost p_base = *physics;
        crate::camera::Camera::warp(world, physics, entity);
        let ghost w_warp = *world;
        Player::tick(world, physics);
        proof {
            assert(spec_player_spawn_base_rel(*old(world), *old(physics), w_base, p_base, entity,
                position));
            lemma_warp_preserves_live(w_base, p_base, w_warp, entity);
            lemma_player_tick_preserves_live(w_warp, p_base, *final(world), *final(physics));
            let (w_kd, w_rs, p_rs): (World, World, Physics) = choose|w_kd: World, w_rs: World,
                p_rs: Physics|
                {
                    &&& spec_kill_detect_rel(w_warp, p_base, w_kd)
                    &&& #[trigger] spec_respawn_rel(w_kd, p_base, w_rs, p_rs)
                    &&& spec_morph_rel(w_rs, p_rs, *final(world), *final(physics))
                };
            let w_v = choose|w_v: World|
                {
                    &&& #[trigger] spec_update_view_rel(w_base, p_base, w_v)
                    &&& w_warp.slots@.len() == w_v.slots@.len()
                    &&& forall|j: int|
                        0 <= j < w_v.slots@.len() && j != entity.index ==> w_warp.slots@[j]
                            == w_v.slots@[j]
                    &&& (entity.index as int) < w_v.slots@.len() ==> w_warp.slots@[
                        entity.index as int] == (Slot {
                        c: crate::camera::spec_camera_warped_comps(w_v, entity),
                        ..w_v.slots@[entity.index as int]
                    })
                };
            let i = entity.index as int;
            // the entity's non-camera components survive the warp
            assert(w_v.slots@[i].c == crate::camera::spec_camera_viewed_comps(w_base, p_base, i));
            assert(w_warp.slots@[i].c.player == w_base.slots@[i].c.player);
            assert(w_warp.slots@[i].c.morph == w_base.slots@[i].c.morph);
            assert(w_warp.slots@[i].c.rigid_body == w_base.slots@[i].c.rigid_body);
            assert(w_warp.slots@[i].c.collider == w_base.slots@[i].c.collider);
            assert(w_warp.slots@[i].c.position == w_base.slots@[i].c.position);
            assert(w_warp.slots@[i].alive && w_warp.slots@[i].generation == entity.generation);
            // death detection can only add a kill marker
            assert(w_kd.slots@[i].c.player == w_warp.slots@[i].c.player);
            assert(w_kd.slots@[i].c.morph == w_warp.slots@[i].c.morph);
            assert(w_kd.slots@[i].c.dead is None);
            assert(w_kd.slots@[i].alive);
            // the fresh player is not dead, so respawn leaves it alone
            assert(!spec_respawns(w_kd, p_base, i));
            assert(w_rs.slots@[i] == w_kd.slots@[i]);
            // its body survives other players' respawns
            let hh = w_rs.slots@[i].c.rigid_body->Some_0.0;
            assert(hh == h);
            assert(forall|k: int|
                spec_respawns(w_kd, p_base, k) ==> spec_body_handle(w_kd, k).index != h.index);
            assert(p_rs.bodies@[h.index as int] == p_base.bodies@[h.index as int]);
            assert(p_rs.body_live(h) && p_rs.body_of(h) == p_base.body_of(h));
            assert(p_rs.colliders@ == p_base.colliders@);
            assert(p_rs.collider_live(ch));
            // the morph pass always fires on the unresolved placeholder
            assert(!(spec_zone_morph(w_rs, p_rs, i) is Unresolved));
            assert(spec_morphs(w_rs, p_rs, i));
            assert(final(world).slots@[i] == (Slot {
                c: spec_morphed_comps(w_rs.slots@[i].c, spec_zone_morph(w_rs, p_rs, i)),
                ..w_rs.slots@[i]
            }));
            assert(final(physics).bodies@[h.index as int] == (BodySlot {
                generation: p_rs.bodies@[h.index as int].generation,
                body: Some(Body {
                    gravity_scale: spec_morph_params(spec_zone_morph(w_rs, p_rs, i)).gravity_scale,
                    ..p_rs.body_of(h)
                }),
            }));
            assert forall|g: Entity|
                old(world).live(g) && g.index != entity.index implies
                crate::sim::spec_marks_preserved(old(world).comps(g), #[trigger] final(
            world).comps(g)) by {
                let j = g.index as int;
                let c0 = old(world).comps(g);
                assert(w_base.comps(g) == c0);
                let c_v = w_v.slots@[j].c;
                assert(c_v == crate::camera::spec_camera_viewed_comps(w_base, p_base, j));
                assert(crate::sim::spec_marks_preserved(c0, c_v));
                assert(w_warp.slots@[j] == w_v.slots@[j]);
                let c_kd = w_kd.slots@[j].c;
                assert(crate::sim::spec_marks_preserved(c_v, c_kd));
                let c_rs = w_rs.slots@[j].c;
                assert(crate::sim::spec_marks_preserved(c_kd, c_rs));
                let c_m = final(world).slots@[j].c;
                assert(crate::sim::spec_marks_preserved(c_rs, c_m));
                crate::sim::lemma_marks_preserved_trans(c0, c_v, c_kd);
                crate::sim::lemma_marks_preserved_trans(c0, c_kd, c_rs);
                crate::sim::lemma_marks_preserved_trans(c0, c_rs, c_m);
            }
        }
    }
}

/// Morph switching is atomic: a player that switches morph ends the pass
/// with exactly one of the two morph control components, its size set to
/// the new morph's extents, and its collider's shape and restitution
/// switched in the same pass; a player that does not switch keeps its
/// exactly-one invariant.
pub proof fn lemma_morph_atomicity(w0: World, p0: Physics, w1: World, p1: Physics, i: int)
    requires
        spec_morph_rel(w0, p0, w1, p1),
        0 <= i < w0.slots@.len(),
    ensures
        spec_morphs(w0, p0, i) ==> ({
            let c = w1.slots@[i].c;
            let m = spec_zone_morph(w0, p0, i);
            &&& !(m is Unresolved)
            &&& c.morph == Some(m)
            &&& (c.unshaped is Some) != (c.platformer is Some)
            &&& c.size == Some(Size(spec_morph_params(m).size))
            &&& p1.collider_of(spec_collider_handle(w0, i)).shape == spec_morph_params(m).shape
            &&& p1.collider_of(spec_collider_handle(w0, i)).restitution == spec_morph_params(
                m).restitution
            &&& p1.body_of(spec_body_handle(w0, i)).gravity_scale == spec_morph_params(
                m).gravity_scale
        }),
        !spec_morphs(w0, p0, i) && ((w0.slots@[i].c.unshaped is Some) != (w0.slots@[
            i].c.platformer is Some)) ==> ((w1.slots@[i].c.unshaped is Some) != (w1.slots@[
            i].c.platformer is Some)),
{
}

/// The platformer control state after a run of ticks, each given by its
/// input frame, ground contact, and body velocity.
pub open spec fn spec_steps_state(p: Platformer, ticks: Seq<(InputFrame, bool, Vec2i)>)
    -> Platformer
    decreases ticks.len(),
{
    if ticks.len() == 0 {
        p
    } else {
        spec_steps_state(spec_platformer_control_step(p, ticks[0].0, ticks[0].1,
            ticks[0].2).state, ticks.drop_first())
    }
}

/// Whether one control tick executes a jump: both the jump buffer (armed
/// by a press) and the coyote window (armed by ground contact) are open.
pub open spec fn spec_jump_executes(p: Platformer, input: InputFrame, grounded: bool) -> bool {
    &&& (if input.jump_pressed {
        JUMP_LEEWAY as int
    } else {
        p.jump_buffer as int
    }) > 0
    &&& (if grounded {
        COYOTE_TIME as int
    } else {
        p.air_time as int
    }) > 0
}

/// A tick that executes a jump zeroes the vertical velocity and arms the
/// full jump sustain; one that does not leaves vertical velocity alone.
pub proof fn lemma_jump_execution_observable(
    p: Platformer,
    input: InputFrame,
    grounded: bool,
    velocity: Vec2i,
)
    ensures
        spec_jump_executes(p, input, grounded) ==> spec_platformer_control_step(p, input,
            grounded, velocity).velocity.y == 0,
        !spec_jump_executes(p, input, grounded) ==> spec_platformer_control_step(p, input,
            grounded, velocity).velocity.y == velocity.y,
{
}

/// Over airborne ticks without a jump press, the jump buffer and the
/// coyote window each decay by one per tick, and nothing jumps.
pub proof fn lemma_quiet_ticks_decay(p: Platformer, ticks: Seq<(InputFrame, bool, Vec2i)>)
    requires
        p.jump_buffer == 0 || p.air_time == 0,
        forall|k: int|
            0 <= k < ticks.len() ==> !(#[trigger] ticks[k]).0.jump_pressed && !ticks[k].1,
    ensures
        ({
            let q = spec_steps_state(p, ticks);
            &&& q.jump_buffer as int == if p.jump_buffer >= ticks.len() {
                p.jump_buffer - ticks.len()
            } else {
                0
            }
            &&& q.air_time as int == if p.air_time >= ticks.len() {
                p.air_time - ticks.len()
            } else {
                0
            }
        }),
    decreases ticks.len(),
{
    if ticks.len() == 0 {
    } else {
        let p1 = spec_platformer_control_step(p, ticks[0].0, ticks[0].1, ticks[0].2).state;
        assert(p1.jump_buffer as int == if p.jump_buffer as int - 1 >= 0 {
            p.jump_buffer as int - 1
        } else {
            0
        });
        assert(p1.jump_buffer == 0 || p1.air_time == 0);
        assert(forall|k: int|
            0 <= k < ticks.drop_first().len() ==> !(#[trigger] ticks.drop_first()[
            k]).0.jump_pressed && !ticks.drop_first()[k].1);
        lemma_quiet_ticks_decay(p1, ticks.drop_first());
    }
}

/// The jump buffer window: a jump pressed in the air, with the coyote
/// window closed, still executes when the player lands -- if and only if
/// the landing comes within `JUMP_LEEWAY` ticks of the press.
pub proof fn lemma_jump_buffer_window(
    p0: Platformer,
    press: (InputFrame, bool, Vec2i),
    quiet: Seq<(InputFrame, bool, Vec2i)>,
    land_input: InputFrame,
)
    requires
        p0.air_time == 0,
        press.0.jump_pressed,
        !press.1,
        forall|k: int|
            0 <= k < quiet.len() ==> !(#[trigger] quiet[k]).0.jump_pressed && !quiet[k].1,
        !land_input.jump_pressed,
    ensures
        ({
            let after_press = spec_platformer_control_step(p0, press.0, press.1, press.2).state;
            let at_landing = spec_steps_state(after_press, quiet);
            spec_jump_executes(at_landing, land_input, true) <==> quiet.len() + 1 < JUMP_LEEWAY
        }),
{
    let after_press = spec_platformer_control_step(p0, press.0, press.1, press.2).state;
    assert(after_press.jump_buffer == JUMP_LEEWAY - 1);
    lemma_quiet_ticks_decay(after_press, quiet);
}

/// The coyote window: after walking off a ledge without jumping, a jump
/// press still executes -- if and only if it comes within `COYOTE_TIME`
/// ticks of leaving the ground.
pub proof fn lemma_coyote_window(
    p0: Platformer,
    ground_tick: (InputFrame, bool, Vec2i),
    quiet: Seq<(InputFrame, bool, Vec2i)>,
    press_input: InputFrame,
)
    requires
        p0.jump_buffer == 0,
        !ground_tick.0.jump_pressed,
        ground_tick.1,
        forall|k: int|
            0 <= k < quiet.len() ==> !(#[trigger] quiet[k]).0.jump_pressed && !quiet[k].1,
        press_input.jump_pressed,
    ensures
        ({
            let after_ground = spec_platformer_control_step(p0, ground_tick.0, ground_tick.1,
                ground_tick.2).state;
            let at_press = spec_steps_state(after_ground, quiet);
            spec_jump_executes(at_press, press_input, false) <==> quiet.len() + 1 < COYOTE_TIME
        }),
{
    let after_ground = spec_platformer_control_step(p0, ground_tick.0, ground_tick.1,
        ground_tick.2).state;
    assert(after_ground.air_time == COYOTE_TIME - 1);
    lemma_quiet_ticks_decay(after_ground, quiet);
}

/// Respawn correctness: for any player whose death countdown reaches zero,
/// the countdown tick makes it dead, and the next player tick teleports
/// its body to its checkpoint with zero velocity, resets its interpolation
/// history to the checkpoint, removes the dead marker, and restarts the
/// spawn animation -- regardless of where it died or how fast it was
/// going. The in-between systems of the tick never touch the death
/// markers, so the two hypotheses are exactly "one tick elapses".
pub proof fn lemma_respawn_correctness(
    w0: World,
    w1: World,
    p: Physics,
    w2: World,
    p2: Physics,
    e: Entity,
)
    requires
        sim_wf(w0, p),
        w0.live(e),
        ({
            let c = w0.comps(e);
            &&& c.player is Some
            &&& c.kill is Some
            &&& c.kill->Some_0.remaining_time <= 1
            &&& c.dead is None
        }),
        crate::dead::spec_kill_rel(w0, w1),
        spec_player_tick_rel(w1, p, w2, p2),
    ensures
        w1.comps(e).dead is Some,
        w1.comps(e).kill is None,
        ({
            let c = w2.slots@[e.index as int].c;
            let ckpt = w0.comps(e).player->Some_0.checkpoint;
            let h = spec_body_handle(w0, e.index as int);
            &&& c.dead is None
            &&& c.interpolated_position == Some(crate::entities::InterpolatedPosition(
                Interpolated { current: ckpt, previous: ckpt },
            ))
            &&& c.player->Some_0.spawn_animation == spec_spawn_animation_started()
            &&& p2.bodies@[h.index as int].body == Some(Body {
                position: ckpt,
                velocity: Vec2i { x: 0, y: 0 },
                gravity_scale: p2.bodies@[h.index as int].body->Some_0.gravity_scale,
                ..p.body_of(h)
            })
        }),
{
    let i = e.index as int;
    let c0 = w0.comps(e);
    let ckpt = c0.player->Some_0.checkpoint;
    let h = spec_body_handle(w0, i);
    assert(w1.slots@[i].c == crate::dead::spec_kill_ticked(c0));
    let (w_kd, w_rs, p_rs): (World, World, Physics) = choose|w_kd: World, w_rs: World,
        p_rs: Physics|
        {
            &&& spec_kill_detect_rel(w1, p, w_kd)
            &&& #[trigger] spec_respawn_rel(w_kd, p, w_rs, p_rs)
            &&& spec_morph_rel(w_rs, p_rs, w2, p2)
        };
    // the dead player is skipped by death detection
    assert(!spec_touches_deadly(w1, p, i));
    assert(w_kd.slots@[i] == w1.slots@[i]);
    // and respawned by the respawn pass
    assert(spec_respawns(w_kd, p, i));
    assert(w_rs.slots@[i].c == spec_respawned_comps(w_kd.slots@[i].c));
    assert(p_rs.bodies@[h.index as int].body == Some(Body {
        position: ckpt,
        velocity: Vec2i { x: 0, y: 0 },
        ..p.body_of(h)
    }));
    // the morph pass may switch its morph, but keeps the dead marker off,
    // the interpolation history, the restarted animation, and the body's
    // position and velocity
    if spec_morphs(w_rs, p_rs, i) {
        assert(w2.slots@[i].c == spec_morphed_comps(w_rs.slots@[i].c, spec_zone_morph(w_rs, p_rs,
            i)));
        assert(p2.bodies@[h.index as int] == (BodySlot {
            generation: p_rs.bodies@[h.index as int].generation,
            body: Some(Body {
                gravity_scale: spec_morph_params(spec_zone_morph(w_rs, p_rs, i)).gravity_scale,
                ..p_rs.body_of(h)
            }),
        }));
    } else {
        assert(w2.slots@[i] == w_rs.slots@[i]);
        // no other morphing player shares this body slot
        assert forall|k: int|
            spec_morphs(w_rs, p_rs, k) implies spec_body_handle(w_rs, k).index != h.index by {
            if 0 <= k < w_rs.slots@.len() && k != i {
                assert(w_rs.slots@[k].c.rigid_body == w0.slots@[k].c.rigid_body);
                assert(w_rs.slots@[k].alive == w0.slots@[k].alive);
            }
        }
        assert(p2.bodies@[h.index as int] == p_rs.bodies@[h.index as int]);
    }
}

} // verus!
