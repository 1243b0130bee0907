//! Static solid colliders.

use vstd::prelude::*;
use crate::math::Rect;
use crate::physics::{CollisionGroups, InteractionGroups, Physics, Shape};
use crate::sim::sim_wf;
use crate::world::{spec_no_components, Components, Entity, World};

verus! {

/// Marker for an entity that is a plain rectangular solid collider.
#[derive(Clone, Copy, PartialEq, Eq, Structural, Debug)]
pub struct RectCollider;

impl RectCollider {
    /// Spawns a rectangular solid: static level geometry every category
    /// but triggers collides with.
    pub fn spawn(world: &mut World, physics: &mut Physics, entity: Entity, rect: Rect)
        requires
            sim_wf(*old(world), *old(physics)),
            old(world).live(entity),
            rect.wf(),
        ensures
            sim_wf(*final(world), *final(physics)),
            final(world).live(entity),
            ({
                let c = final(world).comps(entity);
                &&& c == (Components {
                    rect_collider: Some(RectCollider),
                    collider: c.collider,
                    ..spec_no_components()
                })
                &&& c.collider is Some
                &&& final(physics).collider_live(c.collider->Some_0.0)
                &&& final(physics).collider_of(c.collider->Some_0.0) == (crate::physics::Collider {
                    parent: None,
                    position: rect.spec_center(),
                    shape: Shape::Cuboid { half: rect.spec_half_extents() },
                    groups: InteractionGroups {
                        memberships: CollisionGroups::SOLIDS,
                        filter: CollisionGroups::ALL,
                    },
                    sensor: false,
                    restitution: 0,
                    user_data: entity.spec_to_bits(),
                })
            }),
            final(world).slots@.len() == old(world).slots@.len(),
            forall|g: Entity|
                (#[trigger] final(world).live(g)) == old(world).live(g),
            forall|g: Entity|
                g.index != entity.index && old(world).live(g) ==> (#[trigger] final(world).comps(
                g)) == old(world).comps(g),
            final(physics).bodies == old(physics).bodies,
            final(physics).gravity == old(physics).gravity,
            forall|h: crate::physics::ColliderHandle|
                old(physics).collider_live(h) ==> (#[trigger] final(physics).collider_live(h))
                    && final(physics).collider_of(h) == old(physics).collider_of(h),
    {
        let half = rect.half_extents();
        let collider = crate::physics::Collider {
            parent: None,
            position: rect.center(),
            shape: Shape::Cuboid { half },
            groups: InteractionGroups {
                memberships: CollisionGroups::SOLIDS,
                filter: CollisionGroups::ALL,
            },
            sensor: false,
            restitution: 0,
            user_data: entity.to_bits(),
        };
        let ch = physics.insert_collider(collider);
        let mut c = Components::none();
        c.rect_collider = Some(RectCollider);
        c.collider = Some(crate::entities::Collider(ch));
        world.spawn_at(entity, c);
    }
}

} // verus!
