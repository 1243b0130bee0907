//! Plain spatial components shared by every entity kind.

use vstd::prelude::*;
use crate::camera::{spec_camera_rel, Camera};
use crate::checkpoint::{spec_checkpoint_rel, Checkpoint};
use crate::dead::{spec_kill_ticked, Kill};
use crate::input::InputFrame;
use crate::interpolation::Interpolated;
use crate::math::{Vec2i, COORD_MAX};
use crate::physics::{spec_step_rel, BodyHandle, ColliderHandle, Physics};
use crate::dead::spec_kill_rel;
use crate::player::{spec_animated_comps, spec_animations_rel, spec_controls_rel,
    spec_player_tick_rel, Player};
use crate::sim::{comps_wf, lemma_same_skeleton_sim_wf, lemma_step_preserves_sim_wf, sim_wf,
    world_wf};
use crate::trigger::{spec_trigger_rel, Trigger};
use crate::world::{Components, Slot, World};

verus! {

/// The authoritative simulated location of an entity. For physics-attached
/// entities it is written only by the physics sync step; kinematic entities
/// (checkpoints, zones) set it from gameplay logic.
#[derive(Clone, Copy, PartialEq, Eq, Structural, Debug)]
pub struct Position(pub Vec2i);

impl Default for Position {
    /// The default position is the origin; useful when the position is
    /// about to be overwritten by the physics sync step.
    fn default() -> (r: Position)
        ensures
            r == (Position(Vec2i { x: 0, y: 0 })),
    {
        Position(Vec2i { x: 0, y: 0 })
    }
}

/// Rotation in fixed-point radians (`SCALE` subunits to a radian);
/// immutable after spawn, used to orient static geometry.
#[derive(Clone, Copy, PartialEq, Eq, Structural, Debug)]
pub struct Rotation(pub i64);

/// Current collision/render extents; changes when a player morphs.
#[derive(Clone, Copy, PartialEq, Eq, Structural, Debug)]
pub struct Size(pub Vec2i);

/// Weak reference to the entity's rigid body. The physics world owns the
/// body; despawning the entity must free it separately.
#[derive(Clone, Copy, PartialEq, Eq, Structural, Debug)]
pub struct RigidBody(pub BodyHandle);

/// Weak reference to the entity's collider. The physics world owns the
/// collider; despawning the entity must free it separately.
#[derive(Clone, Copy, PartialEq, Eq, Structural, Debug)]
pub struct Collider(pub ColliderHandle);

/// The previous/current pair the renderer blends to draw this entity's
/// position between ticks.
#[derive(Clone, Copy, Debug)]
pub struct InterpolatedPosition(pub Interpolated<Vec2i>);

impl InterpolatedPosition {
    /// Creates an interpolated position with no history.
    pub fn new(position: Vec2i) -> (r: InterpolatedPosition)
        ensures
            r.0 == (Interpolated { current: position, previous: position }),
    {
        InterpolatedPosition(Interpolated::new(position))
    }

    /// Both stored values stay in the world's coordinate range.
    pub open spec fn wf(self) -> bool {
        self.0.current.bounded(COORD_MAX as int) && self.0.previous.bounded(COORD_MAX as int)
    }
}

/// What the physics sync step leaves in one slot: the position component
/// of an entity with a live body is overwritten by the body's translation;
/// everything else stays.
pub open spec fn spec_synced_comps(p: Physics, c: Components) -> Components {
    if c.position is Some && c.rigid_body is Some && p.body_live(c.rigid_body->Some_0.0) {
        Components { position: Some(Position(p.body_of(c.rigid_body->Some_0.0).position)), ..c }
    } else {
        c
    }
}

/// Syncs every entity's `Position` from its physics body, so gameplay and
/// rendering read where the body actually ended up after the step. Stale
/// body handles leave the position untouched.
pub fn sync_positions(world: &mut World, physics: &Physics)
    requires
        physics.wf(),
        world_wf(*old(world)),
    ensures
        final(world).slots@.len() == old(world).slots@.len(),
        forall|i: int|
            0 <= i < old(world).slots@.len() ==> #[trigger] final(world).slots@[i] == (Slot {
                c: spec_synced_comps(*physics, old(world).slots@[i].c),
                ..old(world).slots@[i]
            }),
        world_wf(*final(world)),
{
    let n = world.slots.len();
    let mut i: usize = 0;
    while i < n
        invariant
            physics.wf(),
            world_wf(*old(world)),
            n == world.slots@.len(),
            world.slots@.len() == old(world).slots@.len(),
            i <= n,
            forall|j: int|
                i <= j < n ==> #[trigger] world.slots@[j] == old(world).slots@[j],
            forall|j: int|
                0 <= j < i ==> #[trigger] world.slots@[j] == (Slot {
                    c: spec_synced_comps(*physics, old(world).slots@[j].c),
                    ..old(world).slots@[j]
                }),
            forall|j: int| 0 <= j < i ==> comps_wf((#[trigger] world.slots@[j]).c),
        decreases n - i,
    {
        let has_both = world.slots[i].c.position.is_some() && world.slots[i].c.rigid_body.is_some();
        if has_both {
            let h = match world.slots[i].c.rigid_body {
                Some(rb) => rb.0,
                None => unreached(),
            };
            match physics.get_body(h) {
                Some(b) => {
                    world.slots[i].c.position = Some(Position(b.position));
                },
                None => {},
            }
        }
        i = i + 1;
    }
}

/// What the interpolation step leaves in one slot: the previous value
/// becomes the old current one, and the current value is taken from the
/// entity's `Position`.
pub open spec fn spec_interpolated_comps(c: Components) -> Components {
    if c.interpolated_position is Some && c.position is Some {
        Components {
            interpolated_position: Some(InterpolatedPosition(Interpolated {
                current: c.position->Some_0.0,
                previous: c.interpolated_position->Some_0.0.current,
            })),
            ..c
        }
    } else {
        c
    }
}

/// Advances every interpolated position by one tick, at the tick boundary:
/// afterwards `previous` holds the value as of the end of the previous
/// tick and `current` the fresh position.
pub fn tick_interpolation(world: &mut World)
    requires
        world_wf(*old(world)),
    ensures
        final(world).slots@.len() == old(world).slots@.len(),
        forall|i: int|
            0 <= i < old(world).slots@.len() ==> #[trigger] final(world).slots@[i] == (Slot {
                c: spec_interpolated_comps(old(world).slots@[i].c),
                ..old(world).slots@[i]
            }),
        world_wf(*final(world)),
{
    let n = world.slots.len();
    let mut i: usize = 0;
    while i < n
        invariant
            world_wf(*old(world)),
            n == world.slots@.len(),
            world.slots@.len() == old(world).slots@.len(),
            i <= n,
            forall|j: int|
                i <= j < n ==> #[trigger] world.slots@[j] == old(world).slots@[j],
            forall|j: int|
                0 <= j < i ==> #[trigger] world.slots@[j] == (Slot {
                    c: spec_interpolated_comps(old(world).slots@[j].c),
                    ..old(world).slots@[j]
                }),
            forall|j: int| 0 <= j < i ==> comps_wf((#[trigger] world.slots@[j]).c),
        decreases n - i,
    {
        let has_both = world.slots[i].c.interpolated_position.is_some() && world.slots[
            i].c.position.is_some();
        if has_both {
            let pos = match world.slots[i].c.position {
                Some(p) => p.0,
                None => unreached(),
            };
            let cur = match world.slots[i].c.interpolated_position {
                Some(ip) => ip.0.current,
                None => unreached(),
            };
            world.slots[i].c.interpolated_position = Some(InterpolatedPosition(Interpolated {
                current: pos,
                previous: cur,
            }));
        }
        i = i + 1;
    }
}

/// Relation between the worlds before and after one position sync.
pub open spec fn spec_sync_rel(p: Physics, w0: World, w1: World) -> bool {
    &&& w1.slots@.len() == w0.slots@.len()
    &&& forall|i: int|
        0 <= i < w0.slots@.len() ==> #[trigger] w1.slots@[i] == (Slot {
            c: spec_synced_comps(p, w0.slots@[i].c),
            ..w0.slots@[i]
        })
}

/// Relation between the worlds before and after one interpolation tick.
pub open spec fn spec_interp_rel(w0: World, w1: World) -> bool {
    &&& w1.slots@.len() == w0.slots@.len()
    &&& forall|i: int|
        0 <= i < w0.slots@.len() ==> #[trigger] w1.slots@[i] == (Slot {
            c: spec_interpolated_comps(w0.slots@[i].c),
            ..w0.slots@[i]
        })
}

/// Relation between the simulation before and after one full tick, as the
/// composition of the per-system relations in the driver's fixed order:
/// player controls, player death/respawn/morph logic, death countdowns,
/// triggers, checkpoints, animations, the physics step, the position sync,
/// the interpolation update, and camera tracking.
pub open spec fn spec_tick_rel(
    w0: World,
    p0: Physics,
    input: InputFrame,
    w9: World,
    p9: Physics,
) -> bool {
    exists|w1: World, p1: Physics, w2: World, p2: Physics, w3: World, w4: World, w5: World,
        w6: World, w7: World, w8: World|
        {
            &&& #[trigger] spec_controls_rel(w0, p0, input, w1, p1)
            &&& #[trigger] spec_player_tick_rel(w1, p1, w2, p2)
            &&& #[trigger] spec_kill_rel(w2, w3)
            &&& #[trigger] spec_trigger_rel(w3, p2, w4)
            &&& #[trigger] spec_checkpoint_rel(w4, w5)
            &&& #[trigger] spec_animations_rel(w5, w6)
            &&& spec_step_rel(p2, p9)
            &&& #[trigger] spec_sync_rel(p9, w6, w7)
            &&& #[trigger] spec_interp_rel(w7, w8)
            &&& spec_camera_rel(w8, p9, w9)
        }
}

/// Packaging of the per-system relations into [`spec_tick_rel`].
proof fn lemma_tick_rel_intro(
    w0: World,
    p0: Physics,
    input: InputFrame,
    w1: World,
    p1: Physics,
    w2: World,
    p2: Physics,
    w3: World,
    w4: World,
    w5: World,
    w6: World,
    w7: World,
    w8: World,
    w9: World,
    p9: Physics,
)
    requires
        spec_controls_rel(w0, p0, input, w1, p1),
        spec_player_tick_rel(w1, p1, w2, p2),
        spec_kill_rel(w2, w3),
        spec_trigger_rel(w3, p2, w4),
        spec_checkpoint_rel(w4, w5),
        spec_animations_rel(w5, w6),
        spec_step_rel(p2, p9),
        spec_sync_rel(p9, w6, w7),
        spec_interp_rel(w7, w8),
        spec_camera_rel(w8, p9, w9),
    ensures
        spec_tick_rel(w0, p0, input, w9, p9),
{
}

/// Runs one full simulation tick, in the driver's fixed order. No work is
/// ever skipped: a caller that falls behind must call this once per due
/// tick before rendering again.
pub fn tick_systems(world: &mut World, physics: &mut Physics, input: &InputFrame)
    requires
        sim_wf(*old(world), *old(physics)),
        input.wf(),
    ensures
        sim_wf(*final(world), *final(physics)),
        spec_tick_rel(*old(world), *old(physics), *input, *final(world), *final(physics)),
{
    Player::tick_controls(world, physics, input);
    let ghost w1 = *world;
    let ghost p1 = *physics;
    Player::tick(world, physics);
    let ghost w2 = *world;
    let ghost p2 = *physics;
    Kill::tick(world);
    let ghost w3 = *world;
    proof {
        lemma_same_skeleton_sim_wf(w2, w3, p2);
    }
    Trigger::tick(world, physics);
    let ghost w4 = *world;
    Checkpoint::tick(world);
    let ghost w5 = *world;
    proof {
        lemma_same_skeleton_sim_wf(w4, w5, p2);
    }
    crate::player::advance_animations(world);
    let ghost w6 = *world;
    proof {
        lemma_same_skeleton_sim_wf(w5, w6, p2);
    }
    physics.step();
    proof {
        lemma_step_preserves_sim_wf(w6, p2, *physics);
    }
    sync_positions(world, physics);
    let ghost w7 = *world;
    proof {
        lemma_same_skeleton_sim_wf(w6, w7, *physics);
    }
    tick_interpolation(world);
    let ghost w8 = *world;
    proof {
        lemma_same_skeleton_sim_wf(w7, w8, *physics);
    }
    Camera::tick(world, physics);
    proof {
        lemma_tick_rel_intro(*old(world), *old(physics), *input, w1, p1, w2, p2, w3, w4, w5, w6,
            w7, w8, *final(world), *final(physics));
    }
}

} // verus!
