//! The physics world: pooled rigid bodies and colliders, collision-group
//! filtered spatial queries, and a fixed-substep integrator.
//!
//! Bodies and colliders live in generation-checked arenas; entities refer to
//! them through weak handles. All geometry is axis-aligned: a collider's
//! shape occupies the axis-aligned box spanned by its half extents around
//! its center. Queries never mutate state, and out-of-range queries answer
//! `None` rather than failing.

use vstd::prelude::*;
use crate::math::{clamp64, div_trunc, spec_clamp64, spec_div_trunc, Vec2i, COORD_MAX, FORCE_MAX,
    SCALE, VEL_MAX};

verus! {

/// Collision group bits: a fixed taxonomy partitioning colliders into
/// semantic categories, combinable by bitwise or.
pub struct CollisionGroups;

impl CollisionGroups {
    /// The player's own body.
    pub const PLAYER: u32 = 0x0001;

    /// Solid level geometry.
    pub const SOLIDS: u32 = 0x0100;

    /// Geometry that kills the player on contact.
    pub const DEADLY: u32 = 0x0200;

    /// Zones that change the player's morph.
    pub const MORPH_ZONES: u32 = 0x0400;

    /// Sensors that post trigger events.
    pub const TRIGGERS: u32 = 0x0800;

    /// Regions the camera may frame.
    pub const CAMERA_VIEWS: u32 = 0x8000;

    /// Every category except triggers.
    pub const ALL: u32 = Self::PLAYER | Self::SOLIDS | Self::DEADLY | Self::MORPH_ZONES
        | Self::CAMERA_VIEWS;
}

/// A collider's membership/filter bitmask pair. Two colliders see each
/// other only if each one's memberships meet the other's filter.
#[derive(Clone, Copy, PartialEq, Eq, Structural, Debug)]
pub struct InteractionGroups {
    /// Categories this collider belongs to.
    pub memberships: u32,
    /// Categories this collider interacts with.
    pub filter: u32,
}

/// Whether a query (or contact) between colliders with groups `a` and `b`
/// is admissible: each side's memberships must meet the other's filter.
pub open spec fn spec_compatible(a: InteractionGroups, b: InteractionGroups) -> bool {
    (a.memberships & b.filter) != 0 && (b.memberships & a.filter) != 0
}

impl InteractionGroups {
    /// Creates a membership/filter pair.
    pub fn new(memberships: u32, filter: u32) -> (r: InteractionGroups)
        ensures
            r == (InteractionGroups { memberships, filter }),
    {
        InteractionGroups { memberships, filter }
    }

    /// Decides admissibility of a query between `self` and `other`.
    pub fn compatible(self, other: InteractionGroups) -> (r: bool)
        ensures
            r == spec_compatible(self, other),
    {
        (self.memberships & other.filter) != 0 && (other.memberships & self.filter) != 0
    }
}

/// Whether colliders see each other is symmetric in the two colliders.
pub proof fn lemma_compatible_symmetric(a: InteractionGroups, b: InteractionGroups)
    ensures
        spec_compatible(a, b) == spec_compatible(b, a),
{
}

/// Largest half extent a collider shape admits.
pub const HALF_MAX: i64 = 0x1000_0000;

/// A collision shape. Every shape is queried and resolved through the
/// axis-aligned box of its half extents.
#[derive(Clone, Copy, PartialEq, Eq, Structural, Debug)]
pub enum Shape {
    /// An axis-aligned box given by its half extents.
    Cuboid { half: Vec2i },
    /// A ball given by its radius; occupies the square box around it.
    Ball { radius: i64 },
}

impl Shape {
    /// Mathematical counterpart of [`Shape::half_extents`].
    pub open spec fn spec_half_extents(self) -> Vec2i {
        match self {
            Shape::Cuboid { half } => half,
            Shape::Ball { radius } => Vec2i { x: radius, y: radius },
        }
    }

    /// Extents are non-negative and bounded.
    pub open spec fn wf(self) -> bool {
        ({
            let h = self.spec_half_extents();
            0 <= h.x <= HALF_MAX && 0 <= h.y <= HALF_MAX
        })
    }

    /// The half extents of the shape's bounding box.
    pub fn half_extents(self) -> (r: Vec2i)
        ensures
            r == self.spec_half_extents(),
    {
        match self {
            Shape::Cuboid { half } => half,
            Shape::Ball { radius } => Vec2i { x: radius, y: radius },
        }
    }
}

/// Weak reference to a rigid body in the physics world.
#[derive(Clone, Copy, PartialEq, Eq, Structural, Debug)]
pub struct BodyHandle {
    /// Arena slot.
    pub index: usize,
    /// Generation the slot had when the body was created.
    pub generation: u64,
}

/// Weak reference to a collider in the physics world.
#[derive(Clone, Copy, PartialEq, Eq, Structural, Debug)]
pub struct ColliderHandle {
    /// Arena slot.
    pub index: usize,
    /// Generation the slot had when the collider was created.
    pub generation: u64,
}

/// A rigid body: a point mass with an integrated position and velocity.
/// Positions are in subunits, velocities in subunits per second, forces in
/// subunits per second squared (unit mass).
#[derive(Clone, Copy, PartialEq, Eq, Structural, Debug)]
pub struct Body {
    /// Center position, in subunits.
    pub position: Vec2i,
    /// Velocity, in subunits per second.
    pub velocity: Vec2i,
    /// Force accumulated for the coming tick; cleared by each step.
    pub force: Vec2i,
    /// How strongly gravity acts on this body, in `SCALE` units
    /// (`SCALE` is normal gravity, `0` none).
    pub gravity_scale: i64,
    /// Whether the body moves at all; static bodies never integrate.
    pub dynamic: bool,
}

impl Body {
    /// All quantities lie within the simulation's ranges.
    pub open spec fn wf(self) -> bool {
        &&& self.position.bounded(COORD_MAX as int)
        &&& self.velocity.bounded(VEL_MAX as int)
        &&& self.force.bounded(FORCE_MAX as int)
        &&& 0 <= self.gravity_scale <= 16 * SCALE
    }

    /// Creates a dynamic body resting at `position`.
    pub fn new_dynamic(position: Vec2i) -> (r: Body)
        requires
            position.bounded(COORD_MAX as int),
        ensures
            r == (Body {
                position,
                velocity: Vec2i { x: 0, y: 0 },
                force: Vec2i { x: 0, y: 0 },
                gravity_scale: SCALE,
                dynamic: true,
            }),
            r.wf(),
    {
        Body {
            position,
            velocity: Vec2i { x: 0, y: 0 },
            force: Vec2i { x: 0, y: 0 },
            gravity_scale: SCALE,
            dynamic: true,
        }
    }
}

/// A collider: a shaped region that participates in queries and, when not a
/// sensor, in contact resolution.
#[derive(Clone, Copy, PartialEq, Eq, Structural, Debug)]
pub struct Collider {
    /// Body the collider is attached to. An attached collider follows its
    /// body; a free collider is static geometry.
    pub parent: Option<BodyHandle>,
    /// Center position: absolute for a free collider, an offset from the
    /// body's center for an attached one.
    pub position: Vec2i,
    /// The collision shape.
    pub shape: Shape,
    /// Membership/filter pair deciding who sees this collider.
    pub groups: InteractionGroups,
    /// Sensors are seen by queries but never block movement.
    pub sensor: bool,
    /// Bounce kept on contact, in `SCALE` units (`0` dead stop, `SCALE`
    /// perfect bounce).
    pub restitution: i64,
    /// Free data slot; spawners store the owning entity's bits or a zone
    /// tag here.
    pub user_data: u64,
}

impl Collider {
    /// All quantities lie within the simulation's ranges.
    pub open spec fn wf(self) -> bool {
        &&& self.position.bounded(COORD_MAX as int)
        &&& self.shape.wf()
        &&& 0 <= self.restitution <= SCALE
    }
}

/// An arena slot for a rigid body.
#[derive(Clone, Copy, PartialEq, Eq, Structural, Debug)]
pub struct BodySlot {
    /// Bumped whenever the slot's occupant is removed.
    pub generation: u64,
    /// The occupant, if any.
    pub body: Option<Body>,
}

/// An arena slot for a collider.
#[derive(Clone, Copy, PartialEq, Eq, Structural, Debug)]
pub struct ColliderSlot {
    /// Bumped whenever the slot's occupant is removed.
    pub generation: u64,
    /// The occupant, if any.
    pub collider: Option<Collider>,
}

/// Every collider stored in `cs` lies within the simulation's ranges.
pub open spec fn colliders_wf(cs: Seq<ColliderSlot>) -> bool {
    forall|j: int|
        0 <= j < cs.len() && cs[j].collider is Some ==> (#[trigger] cs[j].collider->Some_0).wf()
}

/// The physics world.
pub struct Physics {
    /// Constant global gravity, in subunits per second squared, applied
    /// every substep. Down is positive `y`.
    pub gravity: Vec2i,
    /// Pooled rigid bodies.
    pub bodies: Vec<BodySlot>,
    /// Pooled colliders.
    pub colliders: Vec<ColliderSlot>,
}

impl Physics {
    /// `h` refers to a live body.
    pub open spec fn body_live(self, h: BodyHandle) -> bool {
        &&& h.index < self.bodies@.len()
        &&& self.bodies@[h.index as int].generation == h.generation
        &&& self.bodies@[h.index as int].body is Some
    }

    /// The body `h` refers to.
    pub open spec fn body_of(self, h: BodyHandle) -> Body {
        self.bodies@[h.index as int].body->Some_0
    }

    /// `h` refers to a live collider.
    pub open spec fn collider_live(self, h: ColliderHandle) -> bool {
        &&& h.index < self.colliders@.len()
        &&& self.colliders@[h.index as int].generation == h.generation
        &&& self.colliders@[h.index as int].collider is Some
    }

    /// The collider `h` refers to.
    pub open spec fn collider_of(self, h: ColliderHandle) -> Collider {
        self.colliders@[h.index as int].collider->Some_0
    }

    /// Everything stored in the world lies within the simulation's ranges.
    pub open spec fn wf(self) -> bool {
        &&& self.gravity.bounded(0x4000_0000)
        &&& (forall|i: int|
            0 <= i < self.bodies@.len() && self.bodies@[i].body is Some ==> (
            #[trigger] self.bodies@[i].body->Some_0).wf())
        &&& colliders_wf(self.colliders@)
    }

    /// Creates an empty physics world with the given gravity vector.
    pub fn new(gravity: Vec2i) -> (r: Physics)
        requires
            gravity.bounded(0x4000_0000),
        ensures
            r.gravity == gravity,
            r.bodies@.len() == 0,
            r.colliders@.len() == 0,
            r.wf(),
    {
        Physics { gravity, bodies: Vec::new(), colliders: Vec::new() }
    }

    /// Inserts a body, reusing a vacant slot when one exists, and returns
    /// its handle.
    pub fn insert_body(&mut self, b: Body) -> (h: BodyHandle)
        requires
            old(self).wf(),
            b.wf(),
        ensures
            final(self).wf(),
            final(self).gravity == old(self).gravity,
            final(self).colliders == old(self).colliders,
            final(self).body_live(h),
            final(self).body_of(h) == b,
            !old(self).body_live(h),
            forall|g: BodyHandle|
                old(self).body_live(g) ==> (#[trigger] g.index) != h.index,
            forall|g: BodyHandle|
                g != h ==> (#[trigger] final(self).body_live(g)) == old(self).body_live(g),
            forall|g: BodyHandle|
                g != h && old(self).body_live(g) ==> (#[trigger] final(self).body_of(g)) == old(
                self).body_of(g),
            final(self).bodies@.len() <= old(self).bodies@.len() + 1,
    {
        let n = self.bodies.len();
        let mut i: usize = 0;
        while i < n
            invariant
                old(self).wf(),
                b.wf(),
                self == old(self),
                n == self.bodies@.len(),
                i <= n,
                forall|j: int| 0 <= j < i ==> (#[trigger] self.bodies@[j]).body is Some,
            decreases n - i,
        {
            if self.bodies[i].body.is_none() {
                let generation = self.bodies[i].generation;
                self.bodies[i].body = Some(b);
                let h = BodyHandle { index: i, generation };
                assert(self.bodies@ == old(self).bodies@.update(i as int, self.bodies@[
                    i as int]));
                return h;
            }
            i = i + 1;
        }
        let generation: u64 = 0;
        self.bodies.push(BodySlot { generation, body: Some(b) });
        let h = BodyHandle { index: n, generation };
        h
    }

    /// Inserts a collider, reusing a vacant slot when one exists, and
    /// returns its handle.
    pub fn insert_collider(&mut self, c: Collider) -> (h: ColliderHandle)
        requires
            old(self).wf(),
            c.wf(),
        ensures
            final(self).wf(),
            final(self).gravity == old(self).gravity,
            final(self).bodies == old(self).bodies,
            final(self).collider_live(h),
            final(self).collider_of(h) == c,
            !old(self).collider_live(h),
            forall|g: ColliderHandle|
                old(self).collider_live(g) ==> (#[trigger] g.index) != h.index,
            forall|g: ColliderHandle|
                g != h ==> (#[trigger] final(self).collider_live(g)) == old(self).collider_live(g),
            forall|g: ColliderHandle|
                g != h && old(self).collider_live(g) ==> (#[trigger] final(self).collider_of(g))
                    == old(self).collider_of(g),
            final(self).colliders@.len() <= old(self).colliders@.len() + 1,
    {
        let n = self.colliders.len();
        let mut i: usize = 0;
        while i < n
            invariant
                old(self).wf(),
                c.wf(),
                self == old(self),
                n == self.colliders@.len(),
                i <= n,
                forall|j: int| 0 <= j < i ==> (#[trigger] self.colliders@[j]).collider is Some,
            decreases n - i,
        {
            if self.colliders[i].collider.is_none() {
                let generation = self.colliders[i].generation;
                self.colliders[i].collider = Some(c);
                let h = ColliderHandle { index: i, generation };
                assert(self.colliders@ == old(self).colliders@.update(i as int, self.colliders@[
                    i as int]));
                return h;
            }
            i = i + 1;
        }
        let generation: u64 = 0;
        self.colliders.push(ColliderSlot { generation, collider: Some(c) });
        let h = ColliderHandle { index: n, generation };
        h
    }

    /// Removes a body, freeing its slot for reuse under a new generation.
    pub fn remove_body(&mut self, h: BodyHandle)
        requires
            old(self).wf(),
            old(self).body_live(h),
        ensures
            final(self).wf(),
            final(self).gravity == old(self).gravity,
            final(self).colliders == old(self).colliders,
            !final(self).body_live(h),
            forall|g: BodyHandle|
                g.index != h.index ==> (#[trigger] final(self).body_live(g)) == old(
                self).body_live(g),
            forall|g: BodyHandle|
                g.index != h.index && old(self).body_live(g) ==> (#[trigger] final(self).body_of(
                g)) == old(self).body_of(g),
            forall|g: BodyHandle| g.index == h.index ==> !(#[trigger] final(self).body_live(g)),
            final(self).bodies@.len() == old(self).bodies@.len(),
    {
        let i = h.index;
        self.bodies[i].body = None;
        if self.bodies[i].generation < u64::MAX {
            self.bodies[i].generation = self.bodies[i].generation + 1;
        }
    }

    /// Removes a collider, freeing its slot for reuse under a new
    /// generation.
    pub fn remove_collider(&mut self, h: ColliderHandle)
        requires
            old(self).wf(),
            old(self).collider_live(h),
        ensures
            final(self).wf(),
            final(self).gravity == old(self).gravity,
            final(self).bodies == old(self).bodies,
            !final(self).collider_live(h),
            forall|g: ColliderHandle|
                g.index != h.index ==> (#[trigger] final(self).collider_live(g)) == old(
                self).collider_live(g),
            forall|g: ColliderHandle|
                g.index != h.index && old(self).collider_live(g) ==> (#[trigger] final(
                self).collider_of(g)) == old(self).collider_of(g),
            forall|g: ColliderHandle|
                g.index == h.index ==> !(#[trigger] final(self).collider_live(g)),
            final(self).colliders@.len() == old(self).colliders@.len(),
    {
        let i = h.index;
        self.colliders[i].collider = None;
        if self.colliders[i].generation < u64::MAX {
            self.colliders[i].generation = self.colliders[i].generation + 1;
        }
    }

    /// Reads a body through its handle.
    pub fn body(&self, h: BodyHandle) -> (b: Body)
        requires
            self.body_live(h),
        ensures
            b == self.body_of(h),
    {
        match self.bodies[h.index].body {
            Some(b) => b,
            None => unreached(),
        }
    }

    /// Reads a collider through its handle.
    pub fn collider(&self, h: ColliderHandle) -> (c: Collider)
        requires
            self.collider_live(h),
        ensures
            c == self.collider_of(h),
    {
        match self.colliders[h.index].collider {
            Some(c) => c,
            None => unreached(),
        }
    }

    /// Reads a body if the handle is still live.
    pub fn get_body(&self, h: BodyHandle) -> (b: Option<Body>)
        ensures
            b == if self.body_live(h) {
                Some(self.body_of(h))
            } else {
                None::<Body>
            },
    {
        if (h.index) < self.bodies.len() {
            let slot = self.bodies[h.index];
            if slot.generation == h.generation {
                slot.body
            } else {
                None
            }
        } else {
            None
        }
    }

    /// Reads a collider if the handle is still live.
    pub fn get_collider(&self, h: ColliderHandle) -> (c: Option<Collider>)
        ensures
            c == if self.collider_live(h) {
                Some(self.collider_of(h))
            } else {
                None::<Collider>
            },
    {
        if (h.index) < self.colliders.len() {
            let slot = self.colliders[h.index];
            if slot.generation == h.generation {
                slot.collider
            } else {
                None
            }
        } else {
            None
        }
    }

    /// Overwrites the body `h` refers to.
    pub fn set_body(&mut self, h: BodyHandle, b: Body)
        requires
            old(self).wf(),
            old(self).body_live(h),
            b.wf(),
        ensures
            final(self).wf(),
            final(self).gravity == old(self).gravity,
            final(self).colliders == old(self).colliders,
            final(self).bodies@.len() == old(self).bodies@.len(),
            final(self).body_live(h),
            final(self).body_of(h) == b,
            forall|g: BodyHandle|
                (#[trigger] final(self).body_live(g)) == old(self).body_live(g),
            forall|g: BodyHandle|
                g.index != h.index && old(self).body_live(g) ==> (#[trigger] final(self).body_of(
                g)) == old(self).body_of(g),
            final(self).bodies@ == old(self).bodies@.update(h.index as int, BodySlot {
                generation: old(self).bodies@[h.index as int].generation,
                body: Some(b),
            }),
    {
        self.bodies[h.index].body = Some(b);
    }

    /// Overwrites the collider `h` refers to.
    pub fn set_collider(&mut self, h: ColliderHandle, c: Collider)
        requires
            old(self).wf(),
            old(self).collider_live(h),
            c.wf(),
        ensures
            final(self).wf(),
            final(self).gravity == old(self).gravity,
            final(self).bodies == old(self).bodies,
            final(self).colliders@.len() == old(self).colliders@.len(),
            final(self).collider_live(h),
            final(self).collider_of(h) == c,
            forall|g: ColliderHandle|
                (#[trigger] final(self).collider_live(g)) == old(self).collider_live(g),
            forall|g: ColliderHandle|
                g.index != h.index && old(self).collider_live(g) ==> (#[trigger] final(
                self).collider_of(g)) == old(self).collider_of(g),
            final(self).colliders@ == old(self).colliders@.update(h.index as int, ColliderSlot {
                generation: old(self).colliders@[h.index as int].generation,
                collider: Some(c),
            }),
    {
        self.colliders[h.index].collider = Some(c);
    }
}

/// Strict overlap of two axis-aligned boxes given by centers and half
/// extents: touching edges do not overlap.
pub open spec fn spec_aabb_overlap(c1: Vec2i, h1: Vec2i, c2: Vec2i, h2: Vec2i) -> bool {
    &&& c1.x - h1.x < c2.x + h2.x
    &&& c2.x - h2.x < c1.x + h1.x
    &&& c1.y - h1.y < c2.y + h2.y
    &&& c2.y - h2.y < c1.y + h1.y
}

/// Decides strict overlap of two bounded axis-aligned boxes.
pub fn aabb_overlap(c1: Vec2i, h1: Vec2i, c2: Vec2i, h2: Vec2i) -> (r: bool)
    requires
        c1.bounded(4 * COORD_MAX as int),
        c2.bounded(4 * COORD_MAX as int),
        h1.bounded(HALF_MAX as int),
        h2.bounded(HALF_MAX as int),
    ensures
        r == spec_aabb_overlap(c1, h1, c2, h2),
{
    c1.x - h1.x < c2.x + h2.x && c2.x - h2.x < c1.x + h1.x && c1.y - h1.y < c2.y + h2.y && c2.y
        - h2.y < c1.y + h1.y
}

impl Physics {
    /// The absolute center of the collider in slot `j`: free colliders sit
    /// at their own position, attached ones follow their parent body.
    pub open spec fn spec_collider_center(self, j: int) -> Vec2i {
        let c = self.colliders@[j].collider->Some_0;
        match c.parent {
            None => c.position,
            Some(p) => if self.body_live(p) {
                Vec2i {
                    x: (self.body_of(p).position.x + c.position.x) as i64,
                    y: (self.body_of(p).position.y + c.position.y) as i64,
                }
            } else {
                c.position
            },
        }
    }

    /// Whether the collider in slot `j` is live, admissible for a query
    /// with groups `groups`, and strictly overlaps the box at `center` with
    /// half extents `half`.
    pub open spec fn spec_query_hit_at(
        self,
        j: int,
        center: Vec2i,
        half: Vec2i,
        groups: InteractionGroups,
    ) -> bool {
        &&& 0 <= j < self.colliders@.len()
        &&& self.colliders@[j].collider is Some
        &&& spec_compatible(groups, self.colliders@[j].collider->Some_0.groups)
        &&& spec_aabb_overlap(
            center,
            half,
            self.spec_collider_center(j),
            self.colliders@[j].collider->Some_0.shape.spec_half_extents(),
        )
    }

    /// First collider slot at or after `k` hit by the query, if any.
    pub open spec fn spec_first_hit_from(
        self,
        k: int,
        center: Vec2i,
        half: Vec2i,
        groups: InteractionGroups,
    ) -> Option<int>
        decreases self.colliders@.len() - k,
    {
        if k < 0 || k >= self.colliders@.len() {
            None
        } else if self.spec_query_hit_at(k, center, half, groups) {
            Some(k)
        } else {
            self.spec_first_hit_from(k + 1, center, half, groups)
        }
    }

    /// First collider slot hit by the query, if any.
    pub open spec fn spec_first_hit(
        self,
        center: Vec2i,
        half: Vec2i,
        groups: InteractionGroups,
    ) -> Option<int> {
        self.spec_first_hit_from(0, center, half, groups)
    }

    /// Any-overlap test: the first collider whose groups admit the query
    /// and whose box strictly overlaps the queried shape at `origin`.
    /// Returns `None` when nothing overlaps.
    pub fn intersection_with_shape(
        &self,
        origin: Vec2i,
        shape: Shape,
        groups: InteractionGroups,
    ) -> (r: Option<ColliderHandle>)
        requires
            self.wf(),
            origin.bounded(2 * COORD_MAX as int),
            shape.wf(),
        ensures
            match r {
                None => self.spec_first_hit(origin, shape.spec_half_extents(), groups) is None,
                Some(h) => {
                    &&& self.spec_first_hit(origin, shape.spec_half_extents(), groups) == Some(
                        h.index as int)
                    &&& self.collider_live(h)
                },
            },
    {
        let half = shape.half_extents();
        let n = self.colliders.len();
        let mut i: usize = 0;
        while i < n
            invariant
                self.wf(),
                origin.bounded(2 * COORD_MAX as int),
                half == shape.spec_half_extents(),
                shape.wf(),
                n == self.colliders@.len(),
                i <= n,
                self.spec_first_hit(origin, half, groups) == self.spec_first_hit_from(
                    i as int,
                    origin,
                    half,
                    groups,
                ),
            decreases n - i,
        {
            match self.colliders[i].collider {
                Some(c) => {
                    if groups.compatible(c.groups) {
                        let center = self.collider_center_at(i);
                        if aabb_overlap(origin, half, center, c.shape.half_extents()) {
                            let h = ColliderHandle {
                                index: i,
                                generation: self.colliders[i].generation,
                            };
                            return Some(h);
                        }
                    }
                },
                None => {},
            }
            i = i + 1;
        }
        None
    }

    /// The absolute center of the collider `h` refers to.
    pub fn collider_center(&self, h: ColliderHandle) -> (r: Vec2i)
        requires
            self.wf(),
            self.collider_live(h),
        ensures
            r == self.spec_collider_center(h.index as int),
            r.bounded(2 * COORD_MAX as int),
    {
        self.collider_center_at(h.index)
    }

    /// Computes the absolute center of the live collider in slot `i`.
    fn collider_center_at(&self, i: usize) -> (r: Vec2i)
        requires
            self.wf(),
            i < self.colliders@.len(),
            self.colliders@[i as int].collider is Some,
        ensures
            r == self.spec_collider_center(i as int),
            r.bounded(2 * COORD_MAX as int),
    {
        let c = match self.colliders[i].collider {
            Some(c) => c,
            None => unreached(),
        };
        match c.parent {
            None => c.position,
            Some(p) => {
                if (p.index) < self.bodies.len() {
                    let slot = self.bodies[p.index];
                    if slot.generation == p.generation {
                        match slot.body {
                            Some(b) => Vec2i {
                                x: b.position.x + c.position.x,
                                y: b.position.y + c.position.y,
                            },
                            None => c.position,
                        }
                    } else {
                        c.position
                    }
                } else {
                    c.position
                }
            },
        }
    }
}

/// Substeps per tick: each tick of the simulation advances the integrator
/// twice, to keep penetrations shallow.
pub const SUBSTEPS: u32 = 2;

/// Inverse of the substep duration: each substep covers `1 / SUBSTEP_RATE`
/// of a second.
pub const SUBSTEP_RATE: i64 = 120;

/// Positions the resolver may produce before the final clamp.
pub const RESOLVE_MAX: i64 = 0x8000_2000_0000;

/// First collider slot at or after `k` that is attached to body `h`.
pub open spec fn spec_find_attached_from(cs: Seq<ColliderSlot>, k: int, h: BodyHandle) -> Option<
    int>
    decreases cs.len() - k,
{
    if k < 0 || k >= cs.len() {
        None
    } else if cs[k].collider is Some && cs[k].collider->Some_0.parent == Some(h) {
        Some(k)
    } else {
        spec_find_attached_from(cs, k + 1, h)
    }
}

/// The moving body's horizontal state during resolution: position and
/// velocity along the axis.
pub type AxisState = (int, int);

/// Resolves the moving box against one collider slot along the `x` axis:
/// a live, static, non-sensor, group-compatible collider that strictly
/// overlaps the box pushes it back out along the direction it was moving,
/// and the velocity bounces scaled by the body collider's restitution.
pub open spec fn spec_resolve_x_one(
    s: ColliderSlot,
    bg: InteractionGroups,
    bh: Vec2i,
    off: Vec2i,
    rest: int,
    py: int,
    st: AxisState,
) -> AxisState {
    let (px, vx) = st;
    if s.collider is Some {
        let c = s.collider->Some_0;
        if c.parent is None && !c.sensor && spec_compatible(bg, c.groups) {
            let ch = c.shape.spec_half_extents();
            let cx = px + off.x;
            let cy = py + off.y;
            if cx - bh.x < c.position.x + ch.x && c.position.x - ch.x < cx + bh.x && cy - bh.y
                < c.position.y + ch.y && c.position.y - ch.y < cy + bh.y {
                if vx > 0 {
                    (c.position.x - ch.x - bh.x - off.x, -(vx * rest / (SCALE as int)))
                } else if vx < 0 {
                    (c.position.x + ch.x + bh.x - off.x, (-vx) * rest / (SCALE as int))
                } else {
                    st
                }
            } else {
                st
            }
        } else {
            st
        }
    } else {
        st
    }
}

/// Folds [`spec_resolve_x_one`] over the collider slots from `k` on.
pub open spec fn spec_resolve_x_from(
    cs: Seq<ColliderSlot>,
    k: int,
    bg: InteractionGroups,
    bh: Vec2i,
    off: Vec2i,
    rest: int,
    py: int,
    st: AxisState,
) -> AxisState
    decreases cs.len() - k,
{
    if k < 0 || k >= cs.len() {
        st
    } else {
        spec_resolve_x_from(cs, k + 1, bg, bh, off, rest, py, spec_resolve_x_one(cs[k], bg, bh,
            off, rest, py, st))
    }
}

/// Like [`spec_resolve_x_one`], along the `y` axis.
pub open spec fn spec_resolve_y_one(
    s: ColliderSlot,
    bg: InteractionGroups,
    bh: Vec2i,
    off: Vec2i,
    rest: int,
    px: int,
    st: AxisState,
) -> AxisState {
    let (py, vy) = st;
    if s.collider is Some {
        let c = s.collider->Some_0;
        if c.parent is None && !c.sensor && spec_compatible(bg, c.groups) {
            let ch = c.shape.spec_half_extents();
            let cx = px + off.x;
            let cy = py + off.y;
            if cx - bh.x < c.position.x + ch.x && c.position.x - ch.x < cx + bh.x && cy - bh.y
                < c.position.y + ch.y && c.position.y - ch.y < cy + bh.y {
                if vy > 0 {
                    (c.position.y - ch.y - bh.y - off.y, -(vy * rest / (SCALE as int)))
                } else if vy < 0 {
                    (c.position.y + ch.y + bh.y - off.y, (-vy) * rest / (SCALE as int))
                } else {
                    st
                }
            } else {
                st
            }
        } else {
            st
        }
    } else {
        st
    }
}

/// Folds [`spec_resolve_y_one`] over the collider slots from `k` on.
pub open spec fn spec_resolve_y_from(
    cs: Seq<ColliderSlot>,
    k: int,
    bg: InteractionGroups,
    bh: Vec2i,
    off: Vec2i,
    rest: int,
    px: int,
    st: AxisState,
) -> AxisState
    decreases cs.len() - k,
{
    if k < 0 || k >= cs.len() {
        st
    } else {
        spec_resolve_y_from(cs, k + 1, bg, bh, off, rest, px, spec_resolve_y_one(cs[k], bg, bh,
            off, rest, px, st))
    }
}

/// The velocity a substep gives the body along one axis: gravity (scaled by
/// the body's gravity scale) and the accumulated force act for one substep,
/// and the result is clamped to the velocity range.
pub open spec fn spec_substep_velocity(g: int, gravity_scale: int, f: int, v: int) -> int {
    spec_clamp64(
        v + spec_div_trunc(spec_div_trunc(g * gravity_scale, SCALE as int) + f, SUBSTEP_RATE
            as int),
        -VEL_MAX as int,
        VEL_MAX as int,
    )
}

/// One integration substep of one body: velocities pick up gravity and
/// force, the body moves axis by axis, and each axis move is resolved
/// against the static colliders. Bodies without an attached collider move
/// unresolved; static bodies do not move at all.
pub open spec fn spec_substep_body(
    cs: Seq<ColliderSlot>,
    gravity: Vec2i,
    h: BodyHandle,
    b: Body,
) -> Body {
    if !b.dynamic {
        b
    } else {
        let vx1 = spec_substep_velocity(gravity.x as int, b.gravity_scale as int, b.force.x as int,
            b.velocity.x as int);
        let vy1 = spec_substep_velocity(gravity.y as int, b.gravity_scale as int, b.force.y as int,
            b.velocity.y as int);
        let px1 = b.position.x + spec_div_trunc(vx1, SUBSTEP_RATE as int);
        let py1 = b.position.y + spec_div_trunc(vy1, SUBSTEP_RATE as int);
        match spec_find_attached_from(cs, 0, h) {
            None => Body {
                position: Vec2i {
                    x: spec_clamp64(px1, -COORD_MAX as int, COORD_MAX as int) as i64,
                    y: spec_clamp64(py1, -COORD_MAX as int, COORD_MAX as int) as i64,
                },
                velocity: Vec2i { x: vx1 as i64, y: vy1 as i64 },
                ..b
            },
            Some(j) => {
                let c = cs[j].collider->Some_0;
                let bh = c.shape.spec_half_extents();
                let off = c.position;
                let rest = c.restitution as int;
                let (px2, vx2) = spec_resolve_x_from(cs, 0, c.groups, bh, off, rest, b.position.y
                    as int, (px1, vx1));
                let (py2, vy2) = spec_resolve_y_from(cs, 0, c.groups, bh, off, rest, px2, (py1,
                    vy1));
                Body {
                    position: Vec2i {
                        x: spec_clamp64(px2, -COORD_MAX as int, COORD_MAX as int) as i64,
                        y: spec_clamp64(py2, -COORD_MAX as int, COORD_MAX as int) as i64,
                    },
                    velocity: Vec2i { x: vx2 as i64, y: vy2 as i64 },
                    ..b
                }
            },
        }
    }
}

/// A full tick of one body: two substeps, then the force accumulator is
/// cleared.
pub open spec fn spec_step_body(
    cs: Seq<ColliderSlot>,
    gravity: Vec2i,
    h: BodyHandle,
    b: Body,
) -> Body {
    let b1 = spec_substep_body(cs, gravity, h, b);
    let b2 = spec_substep_body(cs, gravity, h, b1);
    Body { force: Vec2i { x: 0, y: 0 }, ..b2 }
}

/// What one tick of [`Physics::step`] does: gravity and colliders are
/// untouched, and every pooled body advances by [`spec_step_body`],
/// independently of the other bodies.
pub open spec fn spec_stepped_slot(p: Physics, i: int) -> BodySlot {
    let s = p.bodies@[i];
    BodySlot {
        generation: s.generation,
        body: match s.body {
            None => None,
            Some(b) => Some(spec_step_body(p.colliders@, p.gravity, BodyHandle {
                index: i as usize,
                generation: s.generation,
            }, b)),
        },
    }
}

/// Relation between the physics world before and after one [`Physics::step`].
pub open spec fn spec_step_rel(p0: Physics, p1: Physics) -> bool {
    &&& p1.gravity == p0.gravity
    &&& p1.colliders == p0.colliders
    &&& p1.bodies@.len() == p0.bodies@.len()
    &&& forall|i: int|
        0 <= i < p0.bodies@.len() ==> #[trigger] p1.bodies@[i] == spec_stepped_slot(p0, i)
}

/// Finds the first collider attached to body `h`, if any.
fn find_attached(colliders: &Vec<ColliderSlot>, h: BodyHandle) -> (r: Option<usize>)
    ensures
        match r {
            None => spec_find_attached_from(colliders@, 0, h) is None,
            Some(j) => {
                &&& spec_find_attached_from(colliders@, 0, h) == Some(j as int)
                &&& j < colliders@.len()
                &&& colliders@[j as int].collider is Some
                &&& colliders@[j as int].collider->Some_0.parent == Some(h)
            },
        },
{
    let n = colliders.len();
    let mut i: usize = 0;
    while i < n
        invariant
            n == colliders@.len(),
            i <= n,
            spec_find_attached_from(colliders@, 0, h) == spec_find_attached_from(colliders@,
                i as int, h),
        decreases n - i,
    {
        match colliders[i].collider {
            Some(c) => {
                let is_attached = match c.parent {
                    Some(p) => p.index == h.index && p.generation == h.generation,
                    None => false,
                };
                if is_attached {
                    return Some(i);
                }
            },
            None => {},
        }
        i = i + 1;
    }
    None
}

/// Resolves one axis move against all static colliders, along `x`.
fn resolve_axis_x(
    colliders: &Vec<ColliderSlot>,
    bg: InteractionGroups,
    bh: Vec2i,
    off: Vec2i,
    rest: i64,
    py: i64,
    px0: i64,
    vx0: i64,
) -> (r: (i64, i64))
    requires
        colliders_wf(colliders@),
        0 <= bh.x <= HALF_MAX && 0 <= bh.y <= HALF_MAX,
        off.bounded(COORD_MAX as int),
        0 <= rest <= SCALE,
        -RESOLVE_MAX <= py <= RESOLVE_MAX,
        -RESOLVE_MAX <= px0 <= RESOLVE_MAX,
        -VEL_MAX <= vx0 <= VEL_MAX,
    ensures
        (r.0 as int, r.1 as int) == spec_resolve_x_from(colliders@, 0, bg, bh, off, rest as int,
            py as int, (px0 as int, vx0 as int)),
        -RESOLVE_MAX <= r.0 <= RESOLVE_MAX,
        -VEL_MAX <= r.1 <= VEL_MAX,
{
    let n = colliders.len();
    let mut i: usize = 0;
    let mut px = px0;
    let mut vx = vx0;
    while i < n
        invariant
            colliders_wf(colliders@),
            0 <= bh.x <= HALF_MAX && 0 <= bh.y <= HALF_MAX,
            off.bounded(COORD_MAX as int),
            0 <= rest <= SCALE,
            -RESOLVE_MAX <= py <= RESOLVE_MAX,
            -RESOLVE_MAX <= px <= RESOLVE_MAX,
            -VEL_MAX <= vx <= VEL_MAX,
            n == colliders@.len(),
            i <= n,
            spec_resolve_x_from(colliders@, 0, bg, bh, off, rest as int, py as int, (px0 as int,
                vx0 as int)) == spec_resolve_x_from(colliders@, i as int, bg, bh, off, rest as int,
                py as int, (px as int, vx as int)),
        decreases n - i,
    {
        match colliders[i].collider {
            Some(c) => {
                let is_static = match c.parent {
                    Some(_) => false,
                    None => true,
                };
                if is_static && !c.sensor && bg.compatible(c.groups) {
                    let ch = c.shape.half_extents();
                    let cx = px + off.x;
                    let cy = py + off.y;
                    if cx - bh.x < c.position.x + ch.x && c.position.x - ch.x < cx + bh.x && cy
                        - bh.y < c.position.y + ch.y && c.position.y - ch.y < cy + bh.y {
                        if vx > 0 {
                            proof {
                                crate::math::lemma_scale_frac_bounded(vx as int, rest as int);
                            }
                            px = c.position.x - ch.x - bh.x - off.x;
                            vx = -(vx * rest / SCALE);
                        } else if vx < 0 {
                            proof {
                                crate::math::lemma_scale_frac_bounded(-vx as int, rest as int);
                            }
                            px = c.position.x + ch.x + bh.x - off.x;
                            vx = (-vx) * rest / SCALE;
                        }
                    }
                }
            },
            None => {},
        }
        i = i + 1;
    }
    (px, vx)
}

/// Resolves one axis move against all static colliders, along `y`.
fn resolve_axis_y(
    colliders: &Vec<ColliderSlot>,
    bg: InteractionGroups,
    bh: Vec2i,
    off: Vec2i,
    rest: i64,
    px: i64,
    py0: i64,
    vy0: i64,
) -> (r: (i64, i64))
    requires
        colliders_wf(colliders@),
        0 <= bh.x <= HALF_MAX && 0 <= bh.y <= HALF_MAX,
        off.bounded(COORD_MAX as int),
        0 <= rest <= SCALE,
        -RESOLVE_MAX <= px <= RESOLVE_MAX,
        -RESOLVE_MAX <= py0 <= RESOLVE_MAX,
        -VEL_MAX <= vy0 <= VEL_MAX,
    ensures
        (r.0 as int, r.1 as int) == spec_resolve_y_from(colliders@, 0, bg, bh, off, rest as int,
            px as int, (py0 as int, vy0 as int)),
        -RESOLVE_MAX <= r.0 <= RESOLVE_MAX,
        -VEL_MAX <= r.1 <= VEL_MAX,
{
    let n = colliders.len();
    let mut i: usize = 0;
    let mut py = py0;
    let mut vy = vy0;
    while i < n
        invariant
            colliders_wf(colliders@),
            0 <= bh.x <= HALF_MAX && 0 <= bh.y <= HALF_MAX,
            off.bounded(COORD_MAX as int),
            0 <= rest <= SCALE,
            -RESOLVE_MAX <= px <= RESOLVE_MAX,
            -RESOLVE_MAX <= py <= RESOLVE_MAX,
            -VEL_MAX <= vy <= VEL_MAX,
            n == colliders@.len(),
            i <= n,
            spec_resolve_y_from(colliders@, 0, bg, bh, off, rest as int, px as int, (py0 as int,
                vy0 as int)) == spec_resolve_y_from(colliders@, i as int, bg, bh, off, rest as int,
                px as int, (py as int, vy as int)),
        decreases n - i,
    {
        match colliders[i].collider {
            Some(c) => {
                let is_static = match c.parent {
                    Some(_) => false,
                    None => true,
                };
                if is_static && !c.sensor && bg.compatible(c.groups) {
                    let ch = c.shape.half_extents();
                    let cx = px + off.x;
                    let cy = py + off.y;
                    if cx - bh.x < c.position.x + ch.x && c.position.x - ch.x < cx + bh.x && cy
                        - bh.y < c.position.y + ch.y && c.position.y - ch.y < cy + bh.y {
                        if vy > 0 {
                            proof {
                                crate::math::lemma_scale_frac_bounded(vy as int, rest as int);
                            }
                            py = c.position.y - ch.y - bh.y - off.y;
                            vy = -(vy * rest / SCALE);
                        } else if vy < 0 {
                            proof {
                                crate::math::lemma_scale_frac_bounded(-vy as int, rest as int);
                            }
                            py = c.position.y + ch.y + bh.y - off.y;
                            vy = (-vy) * rest / SCALE;
                        }
                    }
                }
            },
            None => {},
        }
        i = i + 1;
    }
    (py, vy)
}

/// Advances one body by one substep.
fn substep_body(colliders: &Vec<ColliderSlot>, gravity: Vec2i, h: BodyHandle, b: Body) -> (nb:
    Body)
    requires
        colliders_wf(colliders@),
        gravity.bounded(0x4000_0000),
        b.wf(),
    ensures
        nb == spec_substep_body(colliders@, gravity, h, b),
        nb.wf(),
{
    if !b.dynamic {
        return b;
    }
    proof {
        assert(-0x1_0000_0000_0000 <= gravity.x * b.gravity_scale <= 0x1_0000_0000_0000
            && -0x1_0000_0000_0000 <= gravity.y * b.gravity_scale <= 0x1_0000_0000_0000)
            by (nonlinear_arith)
            requires
                -0x4000_0000 <= gravity.x <= 0x4000_0000,
                -0x4000_0000 <= gravity.y <= 0x4000_0000,
                0 <= b.gravity_scale <= 16 * 1024,
        ;
    }
    let dvx = div_trunc(div_trunc(gravity.x * b.gravity_scale, SCALE) + b.force.x, SUBSTEP_RATE);
    let dvy = div_trunc(div_trunc(gravity.y * b.gravity_scale, SCALE) + b.force.y, SUBSTEP_RATE);
    let vx1 = clamp64(b.velocity.x + dvx, -VEL_MAX, VEL_MAX);
    let vy1 = clamp64(b.velocity.y + dvy, -VEL_MAX, VEL_MAX);
    let px1 = b.position.x + div_trunc(vx1, SUBSTEP_RATE);
    let py1 = b.position.y + div_trunc(vy1, SUBSTEP_RATE);
    match find_attached(colliders, h) {
        None => Body {
            position: Vec2i {
                x: clamp64(px1, -COORD_MAX, COORD_MAX),
                y: clamp64(py1, -COORD_MAX, COORD_MAX),
            },
            velocity: Vec2i { x: vx1, y: vy1 },
            ..b
        },
        Some(j) => {
            let c = match colliders[j].collider {
                Some(c) => c,
                None => unreached(),
            };
            let bh = c.shape.half_extents();
            let off = c.position;
            let (px2, vx2) = resolve_axis_x(colliders, c.groups, bh, off, c.restitution,
                b.position.y, px1, vx1);
            let (py2, vy2) = resolve_axis_y(colliders, c.groups, bh, off, c.restitution, px2, py1,
                vy1);
            Body {
                position: Vec2i {
                    x: clamp64(px2, -COORD_MAX, COORD_MAX),
                    y: clamp64(py2, -COORD_MAX, COORD_MAX),
                },
                velocity: Vec2i { x: vx2, y: vy2 },
                ..b
            }
        },
    }
}

impl Physics {
    /// Applies a force to a body, accumulating for the coming tick. The
    /// accumulator saturates at the force range.
    pub fn apply_force(&mut self, h: BodyHandle, f: Vec2i)
        requires
            old(self).wf(),
            old(self).body_live(h),
            f.bounded(FORCE_MAX as int),
        ensures
            final(self).wf(),
            final(self).gravity == old(self).gravity,
            final(self).colliders == old(self).colliders,
            final(self).bodies@.len() == old(self).bodies@.len(),
            forall|g: BodyHandle|
                (#[trigger] final(self).body_live(g)) == old(self).body_live(g),
            forall|g: BodyHandle|
                g.index != h.index && old(self).body_live(g) ==> (#[trigger] final(self).body_of(
                g)) == old(self).body_of(g),
            final(self).body_of(h) == (Body {
                force: Vec2i {
                    x: spec_clamp64(old(self).body_of(h).force.x + f.x, -FORCE_MAX as int,
                        FORCE_MAX as int) as i64,
                    y: spec_clamp64(old(self).body_of(h).force.y + f.y, -FORCE_MAX as int,
                        FORCE_MAX as int) as i64,
                },
                ..old(self).body_of(h)
            }),
            final(self).bodies@ == old(self).bodies@.update(h.index as int, BodySlot {
                generation: old(self).bodies@[h.index as int].generation,
                body: Some(final(self).body_of(h)),
            }),
    {
        let b = self.body(h);
        let nf = Vec2i {
            x: clamp64(b.force.x + f.x, -FORCE_MAX, FORCE_MAX),
            y: clamp64(b.force.y + f.y, -FORCE_MAX, FORCE_MAX),
        };
        self.set_body(h, Body { force: nf, ..b });
    }

    /// Advances the simulation by one fixed tick: two substeps of gravity,
    /// force integration and contact resolution for every pooled body, then
    /// force accumulators are cleared. Static colliders and gravity are
    /// untouched; bodies advance independently of one another.
    pub fn step(&mut self)
        requires
            old(self).wf(),
        ensures
            final(self).wf(),
            spec_step_rel(*old(self), *final(self)),
    {
        let n = self.bodies.len();
        let mut i: usize = 0;
        while i < n
            invariant
                old(self).wf(),
                self.gravity == old(self).gravity,
                self.colliders == old(self).colliders,
                n == self.bodies@.len(),
                self.bodies@.len() == old(self).bodies@.len(),
                i <= n,
                forall|j: int|
                    i <= j < n ==> #[trigger] self.bodies@[j] == old(self).bodies@[j],
                forall|j: int|
                    0 <= j < i ==> #[trigger] self.bodies@[j] == spec_stepped_slot(*old(self), j),
                forall|j: int|
                    0 <= j < i && self.bodies@[j].body is Some ==> (#[trigger] self.bodies@[
                    j].body->Some_0).wf(),
            decreases n - i,
        {
            let slot = self.bodies[i];
            match slot.body {
                Some(b) => {
                    let h = BodyHandle { index: i, generation: slot.generation };
                    let b1 = substep_body(&self.colliders, self.gravity, h, b);
                    let b2 = substep_body(&self.colliders, self.gravity, h, b1);
                    let nb = Body { force: Vec2i { x: 0, y: 0 }, ..b2 };
                    self.bodies[i].body = Some(nb);
                },
                None => {},
            }
            i = i + 1;
        }
    }
}

/// Two physics states answer queries alike: same colliders, and same body
/// occupancy and positions (velocities and forces may differ).
pub open spec fn same_query_state(p1: Physics, p2: Physics) -> bool {
    &&& p2.colliders@ == p1.colliders@
    &&& p2.bodies@.len() == p1.bodies@.len()
    &&& forall|j: int|
        0 <= j < p1.bodies@.len() ==> {
            &&& (#[trigger] p2.bodies@[j]).generation == p1.bodies@[j].generation
            &&& (p2.bodies@[j].body is Some) == (p1.bodies@[j].body is Some)
            &&& (p1.bodies@[j].body is Some ==> p2.bodies@[j].body->Some_0.position == p1.bodies@[
                j].body->Some_0.position)
        }
}

/// Queries cannot tell two states in [`same_query_state`] apart.
pub proof fn lemma_first_hit_same(
    p1: Physics,
    p2: Physics,
    k: int,
    center: Vec2i,
    half: Vec2i,
    groups: InteractionGroups,
)
    requires
        same_query_state(p1, p2),
    ensures
        p1.spec_first_hit_from(k, center, half, groups) == p2.spec_first_hit_from(k, center,
            half, groups),
    decreases p1.colliders@.len() - k,
{
    if k < 0 || k >= p1.colliders@.len() {
    } else {
        assert(p1.spec_collider_center(k) == p2.spec_collider_center(k));
        assert(p1.spec_query_hit_at(k, center, half, groups) == p2.spec_query_hit_at(k, center,
            half, groups));
        lemma_first_hit_same(p1, p2, k + 1, center, half, groups);
    }
}

} // verus!
