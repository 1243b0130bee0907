//! Well-formedness of the simulation as a whole: what must hold between
//! the entity world and the physics world for the per-tick systems to run.
//!
//! Handle-lookup failures are programming errors, not recoverable
//! conditions, so the systems demand up front that every handle a
//! component carries is live, and the spawn functions establish it.

use vstd::prelude::*;
use crate::math::COORD_MAX;
use crate::physics::HALF_MAX;
use crate::physics::Physics;
use crate::world::{Components, World};

verus! {

/// Every component of one entity lies within the simulation's ranges.
pub open spec fn comps_wf(c: Components) -> bool {
    &&& (c.position is Some ==> c.position->Some_0.0.bounded(COORD_MAX as int))
    &&& (c.size is Some ==> 0 <= c.size->Some_0.0.x <= HALF_MAX && 0 <= c.size->Some_0.0.y
        <= HALF_MAX)
    &&& (c.interpolated_position is Some ==> c.interpolated_position->Some_0.wf())
    &&& (c.player is Some ==> c.player->Some_0.wf())
    &&& (c.platformer is Some ==> c.platformer->Some_0.wf())
    &&& (c.camera is Some ==> c.camera->Some_0.wf())
}

/// Every slot's components lie within the simulation's ranges.
pub open spec fn world_wf(w: World) -> bool {
    forall|i: int| 0 <= i < w.slots@.len() ==> comps_wf(#[trigger] w.slots@[i].c)
}

/// A player entity carries everything the player systems dereference
/// unconditionally: body, collider, size, interpolated position and morph.
pub open spec fn player_complete(c: Components) -> bool {
    c.player is Some ==> {
        &&& c.rigid_body is Some
        &&& c.collider is Some
        &&& c.size is Some
        &&& c.interpolated_position is Some
        &&& c.morph is Some
    }
}

/// Every occupied slot with a player is fully formed.
pub open spec fn players_ok(w: World) -> bool {
    forall|i: int|
        0 <= i < w.slots@.len() && w.slots@[i].alive ==> player_complete(
            #[trigger] w.slots@[i].c)
}

/// Every handle an occupied slot carries refers to a live physics object.
pub open spec fn handles_ok(w: World, p: Physics) -> bool {
    forall|i: int|
        0 <= i < w.slots@.len() && w.slots@[i].alive ==> {
            &&& ((#[trigger] w.slots@[i].c).rigid_body is Some ==> p.body_live(
                w.slots@[i].c.rigid_body->Some_0.0))
            &&& (w.slots@[i].c.collider is Some ==> p.collider_live(
                w.slots@[i].c.collider->Some_0.0))
        }
}

/// Distinct entities never share a body slot.
pub open spec fn bodies_injective(w: World) -> bool {
    forall|i: int, j: int|
        0 <= i < w.slots@.len() && 0 <= j < w.slots@.len() && i != j && w.slots@[i].alive
            && w.slots@[j].alive && (#[trigger] w.slots@[i].c).rigid_body is Some && (
        #[trigger] w.slots@[j].c).rigid_body is Some ==> w.slots@[
        i].c.rigid_body->Some_0.0.index != w.slots@[j].c.rigid_body->Some_0.0.index
}

/// Distinct entities never share a collider slot.
pub open spec fn colliders_injective(w: World) -> bool {
    forall|i: int, j: int|
        0 <= i < w.slots@.len() && 0 <= j < w.slots@.len() && i != j && w.slots@[i].alive
            && w.slots@[j].alive && (#[trigger] w.slots@[i].c).collider is Some && (
        #[trigger] w.slots@[j].c).collider is Some ==> w.slots@[
        i].c.collider->Some_0.0.index != w.slots@[j].c.collider->Some_0.0.index
}

/// The standing invariant of the whole simulation, demanded and preserved
/// by every per-tick system.
pub open spec fn sim_wf(w: World, p: Physics) -> bool {
    &&& p.wf()
    &&& world_wf(w)
    &&& players_ok(w)
    &&& handles_ok(w, p)
    &&& bodies_injective(w)
    &&& colliders_injective(w)
}

/// Two worlds with the same entity skeleton: the same slots are occupied
/// under the same generations, with the same physics handles and the same
/// player presence.
pub open spec fn same_skeleton(w0: World, w1: World) -> bool {
    &&& w1.slots@.len() == w0.slots@.len()
    &&& forall|j: int|
        0 <= j < w0.slots@.len() ==> {
            let s1 = #[trigger] w1.slots@[j];
            let s0 = w0.slots@[j];
            &&& s1.alive == s0.alive
            &&& s1.generation == s0.generation
            &&& s1.c.rigid_body == s0.c.rigid_body
            &&& s1.c.collider == s0.c.collider
            &&& (s1.c.player is Some) == (s0.c.player is Some)
            &&& (s1.c.size is Some) == (s0.c.size is Some)
            &&& (s1.c.interpolated_position is Some) == (s0.c.interpolated_position is Some)
            &&& (s1.c.morph is Some) == (s0.c.morph is Some)
        }
}

/// A system that keeps the entity skeleton and the component ranges keeps
/// the whole standing invariant.
pub proof fn lemma_same_skeleton_sim_wf(w0: World, w1: World, p: Physics)
    requires
        sim_wf(w0, p),
        world_wf(w1),
        same_skeleton(w0, w1),
    ensures
        sim_wf(w1, p),
{
    assert(players_ok(w1));
    assert(handles_ok(w1, p));
    assert(bodies_injective(w1));
    assert(colliders_injective(w1));
}

/// A physics step keeps every handle valid: it moves bodies without
/// creating, destroying or renumbering them.
pub proof fn lemma_step_preserves_sim_wf(w: World, p0: Physics, p1: Physics)
    requires
        sim_wf(w, p0),
        p1.wf(),
        crate::physics::spec_step_rel(p0, p1),
    ensures
        sim_wf(w, p1),
{
    assert forall|i: int|
        0 <= i < w.slots@.len() && w.slots@[i].alive implies {
        &&& ((#[trigger] w.slots@[i].c).rigid_body is Some ==> p1.body_live(
            w.slots@[i].c.rigid_body->Some_0.0))
        &&& (w.slots@[i].c.collider is Some ==> p1.collider_live(w.slots@[i].c.collider->Some_0.0))
    } by {
        if w.slots@[i].c.rigid_body is Some {
            let h = w.slots@[i].c.rigid_body->Some_0.0;
            assert(p1.bodies@[h.index as int] == crate::physics::spec_stepped_slot(p0,
                h.index as int));
        }
    }
}

/// What any load-time operation on one entity leaves untouched on every
/// other live entity: all static components, the physics handles, the
/// player's checkpoint, and -- for entities that are not players -- the
/// whole record. Player-carried fields (morph, control state, size, death
/// markers) may change, because spawning a player runs one tick, but the
/// morph stays resolved and consistent with the size.
pub open spec fn spec_marks_preserved(c0: Components, c1: Components) -> bool {
    &&& c1.position == c0.position
    &&& c1.rotation == c0.rotation
    &&& c1.rigid_body == c0.rigid_body
    &&& c1.collider == c0.collider
    &&& c1.trigger == c0.trigger
    &&& c1.triggered == c0.triggered
    &&& c1.checkpoint == c0.checkpoint
    &&& c1.camera_view == c0.camera_view
    &&& c1.rect_collider == c0.rect_collider
    &&& c1.platformer_zone == c0.platformer_zone
    &&& c1.deadly_zone == c0.deadly_zone
    &&& c1.text == c0.text
    &&& (c1.player is Some <==> c0.player is Some)
    &&& (c0.player is Some ==> c1.player->Some_0.checkpoint == c0.player->Some_0.checkpoint)
    &&& (c1.morph is Some <==> c0.morph is Some)
    &&& (c1.camera is Some <==> c0.camera is Some)
    &&& (c0.camera is None ==> c1.camera == c0.camera)
    &&& (c0.player is None ==> {
        &&& c1.kill == c0.kill
        &&& c1.dead == c0.dead
        &&& c1.interpolated_position == c0.interpolated_position
        &&& c1.size == c0.size
        &&& c1.unshaped == c0.unshaped
        &&& c1.platformer == c0.platformer
        &&& c1.morph == c0.morph
    })
    &&& (c0.player is Some && c0.morph is Some && !(c0.morph->Some_0 is Unresolved) ==> c1.morph
        is Some && !(c1.morph->Some_0 is Unresolved))
    &&& (c0.player is Some && ((c0.unshaped is Some) != (c0.platformer is Some)) ==> ((
    c1.unshaped is Some) != (c1.platformer is Some)))
    &&& (c0.player is Some && c0.morph is Some && c0.size == Some(
        crate::entities::Size(crate::player::spec_morph_params(c0.morph->Some_0).size),
    ) ==> c1.morph is Some && c1.size == Some(
        crate::entities::Size(crate::player::spec_morph_params(c1.morph->Some_0).size),
    ))
}

/// [`spec_marks_preserved`] composes.
pub proof fn lemma_marks_preserved_trans(c0: Components, c1: Components, c2: Components)
    requires
        spec_marks_preserved(c0, c1),
        spec_marks_preserved(c1, c2),
    ensures
        spec_marks_preserved(c0, c2),
{
}

} // verus!
