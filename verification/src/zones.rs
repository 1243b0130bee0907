//! Zones: static regions that change the player's morph or kill on touch.

use vstd::prelude::*;
use crate::entities::{Position, Rotation, Size};
use crate::math::Vec2i;
use crate::physics::{CollisionGroups, InteractionGroups, Physics, Shape};
use crate::player::Morph;
use crate::sim::sim_wf;
use crate::world::{spec_no_components, Components, Entity, World};

verus! {

/// A zone's palette index, used by the renderer to pick its color band.
pub trait ZoneIndex {
    /// The unique, constant index of the zone kind.
    fn index() -> usize;
}

/// Marker for a zone that morphs the player into the platformer.
#[derive(Clone, Copy, PartialEq, Eq, Structural, Debug)]
pub struct PlatformerZone;

impl ZoneIndex for PlatformerZone {
    fn index() -> usize {
        1
    }
}

/// Marker for a zone that kills the player on touch.
#[derive(Clone, Copy, PartialEq, Eq, Structural, Debug)]
pub struct DeadlyZone;

impl ZoneIndex for DeadlyZone {
    fn index() -> usize {
        2
    }
}

/// The closed set of zone kinds a level can place.
#[derive(Clone, Copy, PartialEq, Eq, Structural, Debug)]
pub enum ZoneKind {
    /// Morphs the player into the platformer.
    Platformer,
    /// Kills the player.
    Deadly,
}

/// Namespace for zone-related systems.
pub struct Zones;

impl Zones {
    /// Number of palette slots reserved for zone indices.
    pub const MAX: usize = 32;
}

/// The collider a zone kind gets: platformer zones are morph-zone sensors
/// tagged with the platformer morph; deadly zones belong to the deadly
/// group.
pub open spec fn spec_zone_groups(kind: ZoneKind) -> InteractionGroups {
    match kind {
        ZoneKind::Platformer => InteractionGroups {
            memberships: CollisionGroups::MORPH_ZONES,
            filter: CollisionGroups::PLAYER,
        },
        ZoneKind::Deadly => InteractionGroups {
            memberships: CollisionGroups::DEADLY,
            filter: CollisionGroups::PLAYER,
        },
    }
}

/// The user-data tag a zone kind's collider carries.
pub open spec fn spec_zone_tag(kind: ZoneKind) -> u64 {
    match kind {
        ZoneKind::Platformer => Morph::Platformer.spec_to_tag(),
        ZoneKind::Deadly => 0,
    }
}

impl Zones {
    /// Spawns a zone into the world: a static region of the given kind,
    /// centered at `center`, with a sensor collider the player systems
    /// query. The stored rotation orients rendering; collision uses the
    /// axis-aligned box.
    pub fn spawn(
        world: &mut World,
        physics: &mut Physics,
        entity: Entity,
        kind: ZoneKind,
        center: Vec2i,
        size: Vec2i,
        rotation: i64,
    )
        requires
            sim_wf(*old(world), *old(physics)),
            old(world).live(entity),
            center.bounded(crate::math::COORD_MAX as int),
            0 <= size.x <= crate::physics::HALF_MAX && 0 <= size.y <= crate::physics::HALF_MAX,
        ensures
            sim_wf(*final(world), *final(physics)),
            final(world).live(entity),
            ({
                let c = final(world).comps(entity);
                &&& c == (Components {
                    platformer_zone: if kind is Platformer {
                        Some(PlatformerZone)
                    } else {
                        None
                    },
                    deadly_zone: if kind is Deadly {
                        Some(DeadlyZone)
                    } else {
                        None
                    },
                    position: Some(Position(center)),
                    size: Some(Size(size)),
                    rotation: Some(Rotation(rotation)),
                    collider: c.collider,
                    ..spec_no_components()
                })
                &&& c.collider is Some
                &&& final(physics).collider_live(c.collider->Some_0.0)
                &&& final(physics).collider_of(c.collider->Some_0.0) == (crate::physics::Collider {
                    parent: None,
                    position: center,
                    shape: Shape::Cuboid {
                        half: Vec2i { x: (size.x / 2) as i64, y: (size.y / 2) as i64 },
                    },
                    groups: spec_zone_groups(kind),
                    sensor: true,
                    restitution: 0,
                    user_data: spec_zone_tag(kind),
                })
            }),
            final(world).slots@.len() == old(world).slots@.len(),
            forall|g: Entity|
                (#[trigger] final(world).live(g)) == old(world).live(g),
            forall|g: Entity|
                g.index != entity.index && old(world).live(g) ==> (#[trigger] final(world).comps(
                g)) == old(world).comps(g),
            final(physics).bodies == old(physics).bodies,
            final(physics).gravity == old(physics).gravity,
            forall|h: crate::physics::ColliderHandle|
                old(physics).collider_live(h) ==> (#[trigger] final(physics).collider_live(h))
                    && final(physics).collider_of(h) == old(physics).collider_of(h),
    {
        let groups = match kind {
            ZoneKind::Platformer => InteractionGroups {
                memberships: CollisionGroups::MORPH_ZONES,
                filter: CollisionGroups::PLAYER,
            },
            ZoneKind::Deadly => InteractionGroups {
                memberships: CollisionGroups::DEADLY,
                filter: CollisionGroups::PLAYER,
            },
        };
        let tag: u64 = match kind {
            ZoneKind::Platformer => Morph::Platformer.to_tag(),
            ZoneKind::Deadly => 0,
        };
        let collider = crate::physics::Collider {
            parent: None,
            position: center,
            shape: Shape::Cuboid { half: Vec2i { x: size.x / 2, y: size.y / 2 } },
            groups,
            sensor: true,
            restitution: 0,
            user_data: tag,
        };
        let ch = physics.insert_collider(collider);
        let mut c = Components::none();
        match kind {
            ZoneKind::Platformer => {
                c.platformer_zone = Some(PlatformerZone);
            },
            ZoneKind::Deadly => {
                c.deadly_zone = Some(DeadlyZone);
            },
        }
        c.position = Some(Position(center));
        c.size = Some(Size(size));
        c.rotation = Some(Rotation(rotation));
        c.collider = Some(crate::entities::Collider(ch));
        world.spawn_at(entity, c);
    }
}

} // verus!
