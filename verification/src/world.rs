//! The entity world: a generational arena of entities, each owning a
//! closed registry of optional components.
//!
//! The component set of this game is closed, so instead of a type-erased
//! table the world stores one [`Components`] record per entity, with one
//! `Option` field per component kind. Inserting, removing and querying a
//! component are plain field operations; systems iterate the slots
//! directly.

use vstd::prelude::*;
use crate::camera::{Camera, CameraView};
use crate::checkpoint::Checkpoint;
use crate::colliders::RectCollider;
use crate::dead::{Dead, Kill};
use crate::entities::{Collider, InterpolatedPosition, Position, RigidBody, Rotation, Size};
use crate::player::{Morph, Platformer, Player, Unshaped};
use crate::text::Text;
use crate::trigger::{Trigger, Triggered};
use crate::zones::{DeadlyZone, PlatformerZone};

verus! {

/// An entity: an opaque generational index. Recycled slots come back under
/// a new generation, so stale entity values never alias a new entity.
#[derive(Clone, Copy, PartialEq, Eq, Structural, Debug)]
pub struct Entity {
    /// Arena slot.
    pub index: u32,
    /// Generation the slot had when the entity was created.
    pub generation: u32,
}

/// Mathematical counterpart of [`Entity::from_bits`].
pub open spec fn spec_entity_from_bits(bits: u64) -> Entity {
    Entity { index: (bits % 0x1_0000_0000) as u32, generation: (bits / 0x1_0000_0000) as u32 }
}

impl Entity {
    /// Mathematical counterpart of [`Entity::to_bits`].
    pub open spec fn spec_to_bits(self) -> u64 {
        (self.generation * 0x1_0000_0000 + self.index) as u64
    }

    /// Packs the entity into a single word, for collider user data.
    pub fn to_bits(self) -> (r: u64)
        ensures
            r == self.spec_to_bits(),
    {
        (self.generation as u64) * 0x1_0000_0000 + (self.index as u64)
    }

    /// Unpacks an entity from a single word; inverse of
    /// [`Entity::to_bits`].
    pub fn from_bits(bits: u64) -> (r: Entity)
        ensures
            r == spec_entity_from_bits(bits),
            forall|e: Entity| bits == e.spec_to_bits() ==> r == e,
    {
        Entity { index: (bits % 0x1_0000_0000) as u32, generation: (bits / 0x1_0000_0000) as u32 }
    }
}

/// The closed registry of components an entity may carry.
#[derive(Clone, Debug)]
pub struct Components {
    /// Authoritative simulated location.
    pub position: Option<Position>,
    /// Orientation of static geometry.
    pub rotation: Option<Rotation>,
    /// Collision/render extents.
    pub size: Option<Size>,
    /// Previous/current position pair for rendering.
    pub interpolated_position: Option<InterpolatedPosition>,
    /// Weak reference to a rigid body.
    pub rigid_body: Option<RigidBody>,
    /// Weak reference to a collider.
    pub collider: Option<Collider>,
    /// Player state.
    pub player: Option<Player>,
    /// The player's current morph tag.
    pub morph: Option<Morph>,
    /// Unshaped morph control state.
    pub unshaped: Option<Unshaped>,
    /// Platformer morph control state.
    pub platformer: Option<Platformer>,
    /// Pending death countdown.
    pub kill: Option<Kill>,
    /// Dead marker.
    pub dead: Option<Dead>,
    /// Collision trigger state.
    pub trigger: Option<Trigger>,
    /// Event a trigger posted here.
    pub triggered: Option<Triggered>,
    /// Checkpoint marker.
    pub checkpoint: Option<Checkpoint>,
    /// Camera tracking state.
    pub camera: Option<Camera>,
    /// Camera view region marker.
    pub camera_view: Option<CameraView>,
    /// Plain solid collider marker.
    pub rect_collider: Option<RectCollider>,
    /// Platformer zone marker.
    pub platformer_zone: Option<PlatformerZone>,
    /// Deadly zone marker.
    pub deadly_zone: Option<DeadlyZone>,
    /// Text label.
    pub text: Option<Text>,
}

/// The record of an entity that carries no components at all.
pub open spec fn spec_no_components() -> Components {
    Components {
        position: None,
        rotation: None,
        size: None,
        interpolated_position: None,
        rigid_body: None,
        collider: None,
        player: None,
        morph: None,
        unshaped: None,
        platformer: None,
        kill: None,
        dead: None,
        trigger: None,
        triggered: None,
        checkpoint: None,
        camera: None,
        camera_view: None,
        rect_collider: None,
        platformer_zone: None,
        deadly_zone: None,
        text: None,
    }
}

impl Components {
    /// Creates an empty component record.
    pub fn none() -> (c: Components)
        ensures
            c == spec_no_components(),
    {
        Components {
            position: None,
            rotation: None,
            size: None,
            interpolated_position: None,
            rigid_body: None,
            collider: None,
            player: None,
            morph: None,
            unshaped: None,
            platformer: None,
            kill: None,
            dead: None,
            trigger: None,
            triggered: None,
            checkpoint: None,
            camera: None,
            camera_view: None,
            rect_collider: None,
            platformer_zone: None,
            deadly_zone: None,
            text: None,
        }
    }

    /// Whether the entity takes part in normal simulation: neither marked
    /// for death nor dead.
    pub open spec fn spec_alive(self) -> bool {
        self.kill is None && self.dead is None
    }
}

/// One slot of the entity arena.
#[derive(Clone, Debug)]
pub struct Slot {
    /// Bumped whenever the slot's occupant is despawned.
    pub generation: u32,
    /// Whether an entity currently occupies the slot.
    pub alive: bool,
    /// The occupant's components.
    pub c: Components,
}

/// The entity world.
#[derive(Debug)]
pub struct World {
    /// The entity arena; systems iterate and mutate the slots directly.
    pub slots: Vec<Slot>,
}

impl World {
    /// `e` refers to a live entity.
    pub open spec fn live(self, e: Entity) -> bool {
        &&& (e.index as int) < self.slots@.len()
        &&& self.slots@[e.index as int].alive
        &&& self.slots@[e.index as int].generation == e.generation
    }

    /// The components of entity `e`.
    pub open spec fn comps(self, e: Entity) -> Components {
        self.slots@[e.index as int].c
    }

    /// The entity occupying slot `i`.
    pub open spec fn spec_entity_at(self, i: int) -> Entity {
        Entity { index: i as u32, generation: self.slots@[i].generation }
    }

    /// Creates an empty world.
    pub fn new() -> (r: World)
        ensures
            r.slots@.len() == 0,
    {
        World { slots: Vec::new() }
    }

    /// Number of slots in the arena (live or vacant).
    pub fn len(&self) -> (r: usize)
        ensures
            r == self.slots@.len(),
    {
        self.slots.len()
    }

    /// The entity occupying slot `i`, if the slot is occupied.
    pub fn entity_at(&self, i: usize) -> (r: Option<Entity>)
        requires
            i < self.slots@.len(),
            i < 0xFFFF_FFFF,
        ensures
            r == if self.slots@[i as int].alive {
                Some(self.spec_entity_at(i as int))
            } else {
                None::<Entity>
            },
            r is Some ==> self.live(r->Some_0) && r->Some_0.index == i,
    {
        if self.slots[i].alive {
            Some(Entity { index: i as u32, generation: self.slots[i].generation })
        } else {
            None
        }
    }

    /// Reads an entity's components, if it is still live.
    pub fn get(&self, e: Entity) -> (r: Option<&Components>)
        ensures
            match r {
                Some(c) => self.live(e) && *c == self.comps(e),
                None => !self.live(e),
            },
    {
        if (e.index as usize) < self.slots.len() {
            let slot = &self.slots[e.index as usize];
            if slot.alive && slot.generation == e.generation {
                Some(&slot.c)
            } else {
                None
            }
        } else {
            None
        }
    }

    /// Reserves a fresh entity with no components, reusing a vacant slot
    /// when one exists. Reserved entities exist at once, so objects that
    /// refer to each other can be wired up before each one is filled in.
    pub fn reserve(&mut self) -> (e: Entity)
        requires
            old(self).slots@.len() < 0xFFFF_FFFF,
        ensures
            final(self).live(e),
            final(self).comps(e) == spec_no_components(),
            !old(self).live(e),
            forall|g: Entity|
                g != e ==> (#[trigger] final(self).live(g)) == old(self).live(g),
            forall|g: Entity|
                g != e && old(self).live(g) ==> (#[trigger] final(self).comps(g)) == old(
                self).comps(g),
            final(self).slots@.len() <= old(self).slots@.len() + 1,
            final(self).slots@.len() == old(self).slots@.len() || e.index
                == old(self).slots@.len(),
            forall|i: int|
                0 <= i < old(self).slots@.len() && i != e.index ==> #[trigger] final(self).slots@[
                i] == old(self).slots@[i],
            e.index < final(self).slots@.len(),
    {
        let n = self.slots.len();
        let mut i: usize = 0;
        while i < n
            invariant
                self == old(self),
                n == self.slots@.len(),
                n < 0xFFFF_FFFF,
                i <= n,
                forall|j: int| 0 <= j < i ==> (#[trigger] self.slots@[j]).alive,
            decreases n - i,
        {
            if !self.slots[i].alive {
                let generation = self.slots[i].generation;
                self.slots[i].alive = true;
                self.slots[i].c = Components::none();
                let e = Entity { index: i as u32, generation };
                return e;
            }
            i = i + 1;
        }
        let generation: u32 = 0;
        self.slots.push(Slot { generation, alive: true, c: Components::none() });
        Entity { index: n as u32, generation }
    }

    /// Replaces the components of a live entity wholesale.
    pub fn spawn_at(&mut self, e: Entity, c: Components)
        requires
            old(self).live(e),
        ensures
            final(self).live(e),
            final(self).comps(e) == c,
            forall|g: Entity|
                (#[trigger] final(self).live(g)) == old(self).live(g),
            forall|g: Entity|
                g.index != e.index && old(self).live(g) ==> (#[trigger] final(self).comps(g))
                    == old(self).comps(g),
            final(self).slots@.len() == old(self).slots@.len(),
            forall|i: int|
                0 <= i < old(self).slots@.len() && i != e.index ==> #[trigger] final(self).slots@[
                i] == old(self).slots@[i],
            final(self).slots@[e.index as int] == (Slot {
                c,
                ..old(self).slots@[e.index as int]
            }),
    {
        self.slots[e.index as usize].c = c;
    }

    /// Spawns a new entity carrying the given components.
    pub fn spawn(&mut self, c: Components) -> (e: Entity)
        requires
            old(self).slots@.len() < 0xFFFF_FFFF,
        ensures
            final(self).live(e),
            final(self).comps(e) == c,
            !old(self).live(e),
            forall|g: Entity|
                g != e ==> (#[trigger] final(self).live(g)) == old(self).live(g),
            forall|g: Entity|
                g != e && old(self).live(g) ==> (#[trigger] final(self).comps(g)) == old(
                self).comps(g),
            final(self).slots@.len() <= old(self).slots@.len() + 1,
            e.index < final(self).slots@.len(),
    {
        let e = self.reserve();
        self.spawn_at(e, c);
        e
    }

    /// Despawns an entity: the slot becomes vacant and comes back, if at
    /// all, under a new generation. Physics objects the entity referred to
    /// must be freed separately, or they leak.
    pub fn despawn(&mut self, e: Entity)
        requires
            old(self).live(e),
        ensures
            forall|g: Entity| g.index == e.index ==> !(#[trigger] final(self).live(g)),
            forall|g: Entity|
                g.index != e.index ==> (#[trigger] final(self).live(g)) == old(self).live(g),
            forall|g: Entity|
                g.index != e.index && old(self).live(g) ==> (#[trigger] final(self).comps(g))
                    == old(self).comps(g),
            final(self).slots@.len() == old(self).slots@.len(),
            forall|i: int|
                0 <= i < old(self).slots@.len() && i != e.index ==> #[trigger] final(self).slots@[
                i] == old(self).slots@[i],
    {
        let i = e.index as usize;
        self.slots[i].alive = false;
        self.slots[i].c = Components::none();
        if self.slots[i].generation < u32::MAX {
            let g = self.slots[i].generation;
            self.slots[i].generation = g + 1;
        }
    }
}

} // verus!
