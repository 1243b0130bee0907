//! Loading a parsed level into the world: the mapping from object kinds to
//! spawn functions, and the tile layer's extra physics.
//!
//! The map format itself (Tiled JSON) is parsed outside the core; the
//! loader receives each object as a normalized kind tag, rectangle,
//! rotation and property bag, already converted to subunits. A malformed
//! object is reported and skipped; it never aborts the rest of the load.

use vstd::prelude::*;
use crate::camera::{Camera, CameraView};
use crate::checkpoint::Checkpoint;
use crate::colliders::RectCollider;
use crate::entities::{Position, Rotation, Size};
use crate::interpolation::Interpolated;
use crate::physics::{CollisionGroups, InteractionGroups, Shape};
use crate::math::{Rect, Vec2i, COORD_MAX, SCALE};
use crate::physics::Physics;
use crate::player::Player;
use crate::sim::{sim_wf, world_wf};
use crate::text::{FontFamily, Text, TextHAlign};
use crate::tiles::{build_tile_extra, spec_spike_collider, Tileset};
use crate::trigger::Trigger;
use crate::world::{spec_no_components, Components, Entity, World};
use crate::zones::{spec_zone_groups, spec_zone_tag, DeadlyZone, PlatformerZone, ZoneKind,
    Zones};
use crate::player::{spec_morph_params, spec_spawn_animation_started, Morph};

verus! {

/// The entity kinds a level may place.
#[derive(Clone, Copy, PartialEq, Eq, Structural, Debug)]
pub enum EntityKind {
    Player,
    Text,
    Collider,
    CameraView,
    Trigger,
    Checkpoint,
    ZonePlatformer,
    ZoneDeadly,
}

/// The value of an object property.
#[derive(Clone, PartialEq, Eq, Debug)]
pub enum PropertyValue {
    String(String),
    Int(i32),
    Bool(bool),
    Object(u32),
}

impl PropertyValue {
    /// The object id this property refers to, if it is an object
    /// reference.
    pub fn as_object(&self) -> (r: Option<u32>)
        ensures
            r == if self is Object {
                Some(self->Object_0)
            } else {
                None::<u32>
            },
    {
        match self {
            PropertyValue::Object(id) => Some(*id),
            _ => None,
        }
    }

    /// The integer this property holds, if it is an integer.
    pub fn as_int(&self) -> (r: Option<i32>)
        ensures
            r == if self is Int {
                Some(self->Int_0)
            } else {
                None::<i32>
            },
    {
        match self {
            PropertyValue::Int(v) => Some(*v),
            _ => None,
        }
    }
}

/// One named property of a level object.
#[derive(Clone, PartialEq, Eq, Debug)]
pub struct Property {
    /// The property's name.
    pub name: String,
    /// The property's value.
    pub value: PropertyValue,
}

/// A level object's free-form property bag.
#[derive(Clone, PartialEq, Eq, Debug)]
pub struct Properties {
    /// The properties, in file order.
    pub entries: Vec<Property>,
}

/// The first property named `name`, if any.
pub open spec fn spec_prop_lookup(entries: Seq<Property>, name: Seq<char>) -> Option<
    PropertyValue>
    decreases entries.len(),
{
    if entries.len() == 0 {
        None
    } else if entries[0].name@ == name {
        Some(entries[0].value)
    } else {
        spec_prop_lookup(entries.drop_first(), name)
    }
}

impl Properties {
    /// An empty property bag.
    pub fn new() -> (r: Properties)
        ensures
            r.entries@.len() == 0,
    {
        Properties { entries: Vec::new() }
    }

    /// Looks up the first property with the given name.
    pub fn get(&self, name: &String) -> (r: Option<&PropertyValue>)
        ensures
            match r {
                Some(v) => spec_prop_lookup(self.entries@, name@) == Some(*v),
                None => spec_prop_lookup(self.entries@, name@) is None,
            },
    {
        let n = self.entries.len();
        let mut i: usize = 0;
        proof {
            assert(self.entries@.skip(0) =~= self.entries@);
        }
        while i < n
            invariant
                n == self.entries@.len(),
                i <= n,
                spec_prop_lookup(self.entries@, name@) == spec_prop_lookup(self.entries@.skip(
                    i as int), name@),
            decreases n - i,
        {
            proof {
                assert(self.entries@.skip(i as int)[0] == self.entries@[i as int]);
                assert(self.entries@.skip(i as int).drop_first() =~= self.entries@.skip(i as int
                    + 1));
            }
            if self.entries[i].name == *name {
                return Some(&self.entries[i].value);
            }
            i = i + 1;
        }
        proof {
            assert(self.entries@.skip(n as int) =~= Seq::<Property>::empty());
        }
        None
    }
}

/// The text payload of a text object. A font family the assets do not
/// know arrives as `None` and the object is skipped.
#[derive(Clone, PartialEq, Eq, Debug)]
pub struct TextData {
    /// The parsed font family, if it was recognized.
    pub font_family: Option<FontFamily>,
    /// Horizontal alignment.
    pub h_align: TextHAlign,
    /// Pixel size of the type.
    pub pixel_size: u32,
    /// The label.
    pub text: String,
}

/// One object of an object layer, normalized to subunits.
#[derive(Clone, PartialEq, Eq, Debug)]
pub struct ObjectData {
    /// The object's id in the level file; triggers wire to targets by it.
    pub id: u32,
    /// Top-left corner, in subunits.
    pub x: i64,
    pub y: i64,
    /// Extents, in subunits.
    pub width: i64,
    pub height: i64,
    /// Rotation in fixed-point radians.
    pub rotation: i64,
    /// The free-form property bag.
    pub properties: Properties,
    /// Present when the object is a text object.
    pub text: Option<TextData>,
}

impl ObjectData {
    /// Coordinates and extents lie in the ranges the spawners accept.
    pub open spec fn wf(self) -> bool {
        &&& -0x3FFF_F000_0000 <= self.x <= 0x3FFF_F000_0000
        &&& -0x3FFF_F000_0000 <= self.y <= 0x3FFF_F000_0000
        &&& 0 <= self.width <= 0x1000_0000
        &&& 0 <= self.height <= 0x1000_0000
    }

    /// The object's rectangle.
    pub fn rect(&self) -> (r: Rect)
        ensures
            r == (Rect { x: self.x, y: self.y, width: self.width, height: self.height }),
    {
        Rect { x: self.x, y: self.y, width: self.width, height: self.height }
    }
}

/// Why one object could not be spawned. A failed object is skipped and
/// reported; the rest of the level still loads.
#[derive(Clone, Copy, PartialEq, Eq, Structural, Debug)]
pub enum SpawnError {
    /// The object's kind string matched no known kind.
    UnknownKind,
    /// A trigger object without a `trigger` property.
    MissingTriggerTarget,
    /// A trigger object whose `trigger` property is not an object
    /// reference.
    TriggerTargetNotObject,
    /// A trigger object whose `method` property is not an integer.
    MethodNotInt,
    /// A text object without text payload.
    NotATextObject,
    /// A text object set in an unknown font family.
    InvalidFontFamily,
}

/// The loader: memoizes which entity each object id maps to, so objects
/// that refer to each other (triggers to targets) can be wired before
/// every object is parsed.
pub struct Loader {
    /// Object id to entity, in reservation order.
    pub entries: Vec<(u32, Entity)>,
}

/// The entity already reserved for `id`, if any.
pub open spec fn spec_loader_lookup(entries: Seq<(u32, Entity)>, id: u32) -> Option<Entity>
    decreases entries.len(),
{
    if entries.len() == 0 {
        None
    } else if entries[0].0 == id {
        Some(entries[0].1)
    } else {
        spec_loader_lookup(entries.drop_first(), id)
    }
}

/// Every entity the loader handed out is live in the world.
pub open spec fn loader_wf(l: Loader, w: World) -> bool {
    forall|k: int| 0 <= k < l.entries@.len() ==> w.live((#[trigger] l.entries@[k]).1)
}

/// The loader never hands the same entity out twice.
pub open spec fn loader_entities_distinct(l: Loader) -> bool {
    forall|k1: int, k2: int|
        0 <= k1 < k2 < l.entries@.len() ==> (#[trigger] l.entries@[k1]).1 != (
        #[trigger] l.entries@[k2]).1
}

/// A successful lookup comes from an entry carrying that id.
proof fn lemma_loader_lookup_entry(entries: Seq<(u32, Entity)>, id: u32)
    requires
        spec_loader_lookup(entries, id) is Some,
    ensures
        exists|m: int|
            0 <= m < entries.len() && (#[trigger] entries[m]).0 == id && entries[m].1
                == spec_loader_lookup(entries, id)->Some_0,
    decreases entries.len(),
{
    if entries[0].0 == id {
        assert(entries[0].0 == id && entries[0].1 == spec_loader_lookup(entries, id)->Some_0);
    } else {
        lemma_loader_lookup_entry(entries.drop_first(), id);
        let m = choose|m: int|
            0 <= m < entries.drop_first().len() && (#[trigger] entries.drop_first()[m]).0 == id
                && entries.drop_first()[m].1 == spec_loader_lookup(entries.drop_first(),
                id)->Some_0;
        assert((#[trigger] entries[m + 1]).0 == id && entries[m + 1].1 == spec_loader_lookup(
            entries, id)->Some_0);
    }
}

/// Distinct ids resolve to distinct entities.
proof fn lemma_loader_lookup_distinct(l: Loader, id1: u32, id2: u32)
    requires
        loader_entities_distinct(l),
        id1 != id2,
        spec_loader_lookup(l.entries@, id1) is Some,
        spec_loader_lookup(l.entries@, id2) is Some,
    ensures
        spec_loader_lookup(l.entries@, id1) != spec_loader_lookup(l.entries@, id2),
{
    lemma_loader_lookup_entry(l.entries@, id1);
    lemma_loader_lookup_entry(l.entries@, id2);
    let m1 = choose|m: int|
        0 <= m < l.entries@.len() && (#[trigger] l.entries@[m]).0 == id1 && l.entries@[m].1
            == spec_loader_lookup(l.entries@, id1)->Some_0;
    let m2 = choose|m: int|
        0 <= m < l.entries@.len() && (#[trigger] l.entries@[m]).0 == id2 && l.entries@[m].1
            == spec_loader_lookup(l.entries@, id2)->Some_0;
    assert(m1 != m2);
}

impl Loader {
    /// Creates an empty loader.
    pub fn new() -> (r: Loader)
        ensures
            r.entries@.len() == 0,
    {
        Loader { entries: Vec::new() }
    }

    /// The entity for object `id`: the one already reserved for it, or a
    /// freshly reserved empty entity that later objects will find again.
    pub fn entity(&mut self, world: &mut World, id: u32) -> (e: Entity)
        requires
            loader_wf(*old(self), *old(world)),
            loader_entities_distinct(*old(self)),
            old(world).slots@.len() < 0xFFFF_FFFF,
        ensures
            loader_wf(*final(self), *final(world)),
            loader_entities_distinct(*final(self)),
            forall|idq: u32|
                spec_loader_lookup(old(self).entries@, idq) is Some
                    ==> #[trigger] spec_loader_lookup(final(self).entries@, idq)
                    == spec_loader_lookup(old(self).entries@, idq),
            final(world).live(e),
            match spec_loader_lookup(old(self).entries@, id) {
                Some(known) => {
                    &&& e == known
                    &&& *final(world) == *old(world)
                    &&& *final(self) == *old(self)
                },
                None => {
                    &&& !old(world).live(e)
                    &&& final(world).comps(e) == spec_no_components()
                    &&& final(self).entries@ == old(self).entries@.push((id, e))
                    &&& (forall|g: Entity|
                        g != e ==> (#[trigger] final(world).live(g)) == old(world).live(g))
                    &&& (forall|g: Entity|
                        g != e && old(world).live(g) ==> (#[trigger] final(world).comps(g)) == old(
                        world).comps(g))
                    &&& final(world).slots@.len() <= old(world).slots@.len() + 1
                    &&& (final(world).slots@.len() == old(world).slots@.len() || e.index == old(
                        world).slots@.len())
                    &&& (forall|i: int|
                        0 <= i < old(world).slots@.len() && i != e.index ==> #[trigger] final(
                        world).slots@[i] == old(world).slots@[i])
                },
            },
            spec_loader_lookup(final(self).entries@, id) == Some(e),
    {
        let n = self.entries.len();
        let mut k: usize = 0;
        proof {
            assert(self.entries@.skip(0) =~= self.entries@);
        }
        while k < n
            invariant
                loader_wf(*old(self), *old(world)),
                loader_entities_distinct(*old(self)),
                *self == *old(self),
                *world == *old(world),
                n == self.entries@.len(),
                k <= n,
                spec_loader_lookup(self.entries@, id) == spec_loader_lookup(self.entries@.skip(
                    k as int), id),
            decreases n - k,
        {
            proof {
                assert(self.entries@.skip(k as int)[0] == self.entries@[k as int]);
                assert(self.entries@.skip(k as int).drop_first() =~= self.entries@.skip(k as int
                    + 1));
            }
            if self.entries[k].0 == id {
                return self.entries[k].1;
            }
            k = k + 1;
        }
        proof {
            assert(self.entries@.skip(n as int) =~= Seq::<(u32, Entity)>::empty());
        }
        let e = world.reserve();
        let ghost entries0 = self.entries@;
        self.entries.push((id, e));
        proof {
            assert(spec_loader_lookup(entries0, id) is None);
            lemma_loader_lookup_push(entries0, id, e);
            assert forall|idq: u32|
                spec_loader_lookup(entries0, idq) is Some implies #[trigger] spec_loader_lookup(
                self.entries@, idq) == spec_loader_lookup(entries0, idq) by {
                lemma_loader_lookup_push_other(entries0, idq, (id, e));
            }
            assert forall|k1: int, k2: int|
                0 <= k1 < k2 < self.entries@.len() implies (#[trigger] self.entries@[k1]).1 != (
            #[trigger] self.entries@[k2]).1 by {
                if k2 == self.entries@.len() - 1 {
                    assert(old(world).live(entries0[k1].1));
                    assert(!old(world).live(e));
                }
            }
        }
        e
    }
}

/// A push never changes the result of a lookup that already succeeds.
proof fn lemma_loader_lookup_push_other(entries: Seq<(u32, Entity)>, id: u32, p: (u32, Entity))
    requires
        spec_loader_lookup(entries, id) is Some,
    ensures
        spec_loader_lookup(entries.push(p), id) == spec_loader_lookup(entries, id),
    decreases entries.len(),
{
    let ep = entries.push(p);
    assert(ep[0] == entries[0]);
    if entries[0].0 == id {
    } else {
        assert(ep.drop_first() =~= entries.drop_first().push(p));
        lemma_loader_lookup_push_other(entries.drop_first(), id, p);
    }
}

/// Looking up an id after pushing it finds the pushed entity, unless an
/// earlier entry already had the id.
proof fn lemma_loader_lookup_push(entries: Seq<(u32, Entity)>, id: u32, e: Entity)
    requires
        spec_loader_lookup(entries, id) is None,
    ensures
        spec_loader_lookup(entries.push((id, e)), id) == Some(e),
    decreases entries.len(),
{
    let ep = entries.push((id, e));
    if entries.len() == 0 {
        assert(ep[0] == (id, e));
    } else {
        assert(ep[0] == entries[0]);
        assert(ep.drop_first() =~= entries.drop_first().push((id, e)));
        lemma_loader_lookup_push(entries.drop_first(), id, e);
    }
}


/// The target object id of a trigger object's `trigger` property.
pub open spec fn spec_trigger_target_id(data: ObjectData) -> u32 {
    spec_prop_lookup(data.properties.entries@, "trigger"@)->Some_0->Object_0
}

/// The method a trigger object carries: its `method` property, or `0`
/// when the property is absent.
pub open spec fn spec_trigger_method(data: ObjectData) -> u32 {
    match spec_prop_lookup(data.properties.entries@, "method"@) {
        None => 0,
        Some(v) => v->Int_0 as u32,
    }
}

/// What a successful spawn of one object of the given kind leaves in the
/// world, on the object's entity `e`: exactly the components and physics
/// objects the kind's spawner creates.
pub open spec fn spec_spawned_object(
    kind: EntityKind,
    data: ObjectData,
    e: Entity,
    l: Loader,
    w: World,
    p: Physics,
) -> bool {
    let c = w.comps(e);
    let rect = Rect { x: data.x, y: data.y, width: data.width, height: data.height };
    let center = Vec2i {
        x: (data.x + data.width / 2) as i64,
        y: (data.y + data.height / 2) as i64,
    };
    match kind {
        EntityKind::Player => {
            &&& c.player is Some
            &&& c.player->Some_0.checkpoint == (Vec2i { x: data.x, y: data.y })
            &&& c.player->Some_0.spawn_animation == spec_spawn_animation_started()
            &&& c.morph is Some
            &&& !(c.morph->Some_0 is Unresolved)
            &&& (c.morph->Some_0 is Platformer <==> c.platformer is Some)
            &&& (c.morph->Some_0 is Platformer <==> c.unshaped is None)
            &&& c.size == Some(Size(spec_morph_params(c.morph->Some_0).size))
            &&& c.position == Some(Position(Vec2i { x: data.x, y: data.y }))
            &&& c.rigid_body is Some
            &&& c.collider is Some
            &&& c.camera is Some
            &&& p.body_live(c.rigid_body->Some_0.0)
            &&& p.body_of(c.rigid_body->Some_0.0).position == (Vec2i { x: data.x, y: data.y })
            &&& p.body_of(c.rigid_body->Some_0.0).velocity == (Vec2i { x: 0, y: 0 })
        },
        EntityKind::Text => c == (Components {
            text: Some(Text {
                font_family: data.text->Some_0.font_family->Some_0,
                h_align: data.text->Some_0.h_align,
                size: data.text->Some_0.pixel_size,
                text: data.text->Some_0.text,
            }),
            position: Some(Position(Vec2i { x: data.x, y: data.y })),
            size: Some(Size(Vec2i { x: data.width, y: data.height })),
            ..spec_no_components()
        }),
        EntityKind::Collider => {
            &&& c == (Components {
                rect_collider: Some(RectCollider),
                collider: c.collider,
                ..spec_no_components()
            })
            &&& c.collider is Some
            &&& p.collider_live(c.collider->Some_0.0)
            &&& p.collider_of(c.collider->Some_0.0) == (crate::physics::Collider {
                parent: None,
                position: rect.spec_center(),
                shape: Shape::Cuboid { half: rect.spec_half_extents() },
                groups: InteractionGroups {
                    memberships: CollisionGroups::SOLIDS,
                    filter: CollisionGroups::ALL,
                },
                sensor: false,
                restitution: 0,
                user_data: e.spec_to_bits(),
            })
        },
        EntityKind::CameraView => {
            &&& c == (Components {
                camera_view: Some(CameraView),
                position: Some(Position(Vec2i { x: data.x, y: data.y })),
                size: Some(Size(Vec2i { x: data.width, y: data.height })),
                collider: c.collider,
                ..spec_no_components()
            })
            &&& c.collider is Some
            &&& p.collider_live(c.collider->Some_0.0)
            &&& p.collider_of(c.collider->Some_0.0) == (crate::physics::Collider {
                parent: None,
                position: rect.spec_center(),
                shape: Shape::Cuboid { half: rect.spec_half_extents() },
                groups: InteractionGroups {
                    memberships: CollisionGroups::CAMERA_VIEWS,
                    filter: CollisionGroups::PLAYER,
                },
                sensor: false,
                restitution: 0,
                user_data: e.spec_to_bits(),
            })
        },
        EntityKind::Trigger => {
            &&& spec_loader_lookup(l.entries@, spec_trigger_target_id(data)) is Some
            &&& c == (Components {
                trigger: Some(Trigger {
                    target: spec_loader_lookup(l.entries@, spec_trigger_target_id(
                        data))->Some_0,
                    method: spec_trigger_method(data),
                    triggered_this_tick: false,
                }),
                position: Some(Position(Vec2i { x: data.x, y: data.y })),
                size: Some(Size(Vec2i { x: data.width, y: data.height })),
                collider: c.collider,
                ..spec_no_components()
            })
            &&& c.collider is Some
            &&& p.collider_live(c.collider->Some_0.0)
            &&& p.collider_of(c.collider->Some_0.0) == (crate::physics::Collider {
                parent: None,
                position: rect.spec_center(),
                shape: Shape::Cuboid { half: rect.spec_half_extents() },
                groups: InteractionGroups {
                    memberships: CollisionGroups::TRIGGERS,
                    filter: CollisionGroups::PLAYER,
                },
                sensor: true,
                restitution: 0,
                user_data: e.spec_to_bits(),
            })
        },
        EntityKind::Checkpoint => c == (Components {
            checkpoint: Some(Checkpoint),
            position: Some(Position(Vec2i { x: data.x, y: data.y })),
            ..spec_no_components()
        }),
        EntityKind::ZonePlatformer | EntityKind::ZoneDeadly => {
            let zk = if kind is ZonePlatformer {
                ZoneKind::Platformer
            } else {
                ZoneKind::Deadly
            };
            &&& c == (Components {
                platformer_zone: if zk is Platformer {
                    Some(PlatformerZone)
                } else {
                    None
                },
                deadly_zone: if zk is Deadly {
                    Some(DeadlyZone)
                } else {
                    None
                },
                position: Some(Position(center)),
                size: Some(Size(Vec2i { x: data.width, y: data.height })),
                rotation: Some(Rotation(data.rotation)),
                collider: c.collider,
                ..spec_no_components()
            })
            &&& c.collider is Some
            &&& p.collider_live(c.collider->Some_0.0)
            &&& p.collider_of(c.collider->Some_0.0) == (crate::physics::Collider {
                parent: None,
                position: center,
                shape: Shape::Cuboid {
                    half: Vec2i { x: (data.width / 2) as i64, y: (data.height / 2) as i64 },
                },
                groups: spec_zone_groups(zk),
                sensor: true,
                restitution: 0,
                user_data: spec_zone_tag(zk),
            })
        },
    }
}

/// Which error, if any, prevents spawning an object of the given kind.
pub open spec fn spec_spawn_error(kind: EntityKind, data: ObjectData) -> Option<SpawnError> {
    match kind {
        EntityKind::Trigger => match spec_prop_lookup(data.properties.entries@, "trigger"@) {
            None => Some(SpawnError::MissingTriggerTarget),
            Some(v) => if !(v is Object) {
                Some(SpawnError::TriggerTargetNotObject)
            } else {
                match spec_prop_lookup(data.properties.entries@, "method"@) {
                    None => None,
                    Some(m) => if m is Int {
                        None
                    } else {
                        Some(SpawnError::MethodNotInt)
                    },
                }
            },
        },
        EntityKind::Text => match data.text {
            None => Some(SpawnError::NotATextObject),
            Some(t) => if t.font_family is None {
                Some(SpawnError::InvalidFontFamily)
            } else {
                None
            },
        },
        _ => None,
    }
}

impl Loader {
    /// Spawns an entity of the given kind from one level object. This is
    /// the kind-to-spawn-function mapping of the level format: players,
    /// text, solid colliders, camera views, triggers, checkpoints and
    /// zones each go to their own spawner. Returns the exact reason when
    /// the object is malformed, leaving the object's entity reserved but
    /// empty.
    #[verifier::spinoff_prover]
    #[verifier::rlimit(80)]
    pub fn spawn_entity(
        &mut self,
        kind: EntityKind,
        data: ObjectData,
        world: &mut World,
        physics: &mut Physics,
    ) -> (r: Result<(), SpawnError>)
        requires
            sim_wf(*old(world), *old(physics)),
            loader_wf(*old(self), *old(world)),
            loader_entities_distinct(*old(self)),
            data.wf(),
            old(world).slots@.len() + 2 < 0xFFFF_FFFF,
        ensures
            sim_wf(*final(world), *final(physics)),
            loader_wf(*final(self), *final(world)),
            loader_entities_distinct(*final(self)),
            forall|idq: u32|
                spec_loader_lookup(old(self).entries@, idq) is Some
                    ==> #[trigger] spec_loader_lookup(final(self).entries@, idq)
                    == spec_loader_lookup(old(self).entries@, idq),
            forall|g: Entity| old(world).live(g) ==> #[trigger] final(world).live(g),
            forall|g: Entity|
                old(world).live(g) && Some(g) != spec_loader_lookup(final(self).entries@,
                    data.id) ==> crate::sim::spec_marks_preserved(
                    old(world).comps(g),
                    #[trigger] final(world).comps(g),
                ),
            final(world).slots@.len() <= old(world).slots@.len() + 2,
            r is Err <==> spec_spawn_error(kind, data) is Some,
            r is Err ==> Some(r->Err_0) == spec_spawn_error(kind, data),
            r is Ok ==> {
                &&& spec_loader_lookup(final(self).entries@, data.id) is Some
                &&& final(world).live(spec_loader_lookup(final(self).entries@, data.id)->Some_0)
                &&& spec_spawned_object(kind, data, spec_loader_lookup(final(self).entries@,
                    data.id)->Some_0, *final(self), *final(world), *final(physics))
            },
    {
        let entity = self.entity(world, data.id);
        proof {
            if !old(world).live(entity) {
                assert forall|i: int|
                    0 <= i < world.slots@.len() implies crate::sim::comps_wf((
                #[trigger] world.slots@[i]).c) by {
                    if i == entity.index as int {
                        assert(world.comps(entity) == spec_no_components());
                    } else {
                        assert(world.slots@[i] == old(world).slots@[i]);
                    }
                }
                lemma_world_only_spawn_keeps_sim_wf(*old(world), *world, *physics, entity);
            }
            assert(sim_wf(*world, *physics));
        }
        let ghost w_reserved = *world;
        let ghost self_reserved = *self;
        let position = Vec2i { x: data.x, y: data.y };
        let rect = data.rect();
        match kind {
            EntityKind::Player => {
                Player::spawn(world, physics, entity, position);
                proof {
                    assert(loader_wf(*self, *world));
                }
            },
            EntityKind::Text => {
                match data.text {
                    Some(t) => {
                        match t.font_family {
                            Some(family) => {
                                Text::spawn(world, entity, rect, family, t.h_align, t.pixel_size,
                                    t.text);
                                proof {
                                    lemma_world_only_spawn_keeps_sim_wf(w_reserved, *world,
                                        *physics, entity);
                                    assert(loader_wf(*self, *world));
                                }
                            },
                            None => {
                                proof {
                                    lemma_spawn_marks_unchanged(*old(world), *world, entity);
                                }
                                return Err(SpawnError::InvalidFontFamily);
                            },
                        }
                    },
                    None => {
                        proof {
                            lemma_spawn_marks_unchanged(*old(world), *world, entity);
                        }
                        return Err(SpawnError::NotATextObject);
                    },
                }
            },
            EntityKind::Collider => {
                RectCollider::spawn(world, physics, entity, rect);
                proof {
                    assert(loader_wf(*self, *world));
                }
            },
            EntityKind::CameraView => {
                CameraView::spawn(world, physics, entity, rect);
                proof {
                    assert(loader_wf(*self, *world));
                }
            },
            EntityKind::Trigger => {
                let trigger_key: String = "trigger".to_owned();
                let target_id: u32 = match self.entity_target(&data, &trigger_key) {
                    Ok(id) => id,
                    Err(e) => {
                        proof {
                            lemma_spawn_marks_unchanged(*old(world), *world, entity);
                        }
                        return Err(e);
                    },
                };
                let method_key: String = "method".to_owned();
                let method: u32 = match data.properties.get(&method_key) {
                    None => 0,
                    Some(v) => match v.as_int() {
                        Some(m) => #[verifier::truncate] (m as u32),
                        None => {
                            proof {
                                lemma_spawn_marks_unchanged(*old(world), *world, entity);
                            }
                            return Err(SpawnError::MethodNotInt);
                        },
                    },
                };
                let ghost entries_before_target = self.entries@;
                let target = self.entity(world, target_id);
                proof {
                    if self.entries@ != entries_before_target {
                        lemma_loader_lookup_push_other(entries_before_target, data.id,
                            self.entries@.last());
                        assert(self.entries@ =~= entries_before_target.push(
                            self.entries@.last()));
                    }
                    assert(spec_loader_lookup(self.entries@, data.id) == Some(entity));
                    if !w_reserved.live(target) {
                        assert forall|i: int|
                            0 <= i < world.slots@.len() implies crate::sim::comps_wf((
                        #[trigger] world.slots@[i]).c) by {
                            if i == target.index as int {
                                assert(world.comps(target) == spec_no_components());
                            } else {
                                assert(world.slots@[i] == w_reserved.slots@[i]);
                            }
                        }
                        lemma_world_only_spawn_keeps_sim_wf(w_reserved, *world, *physics, target);
                    }
                    assert(sim_wf(*world, *physics));
                    assert(world.live(entity));
                }
                let t = Trigger::new(target, method);
                Trigger::spawn(world, physics, entity, rect, t);
                proof {
                    assert(loader_wf(*self, *world));
                }
            },
            EntityKind::Checkpoint => {
                Checkpoint::spawn(world, entity, position);
                proof {
                    lemma_world_only_spawn_keeps_sim_wf(w_reserved, *world, *physics, entity);
                    assert(loader_wf(*self, *world));
                }
            },
            EntityKind::ZoneDeadly => {
                let center = Vec2i { x: data.x + data.width / 2, y: data.y + data.height / 2 };
                let size = Vec2i { x: data.width, y: data.height };
                Zones::spawn(world, physics, entity, ZoneKind::Deadly, center, size,
                    data.rotation);
                proof {
                    assert(loader_wf(*self, *world));
                }
            },
            EntityKind::ZonePlatformer => {
                let center = Vec2i { x: data.x + data.width / 2, y: data.y + data.height / 2 };
                let size = Vec2i { x: data.width, y: data.height };
                Zones::spawn(world, physics, entity, ZoneKind::Platformer, center, size,
                    data.rotation);
                proof {
                    assert(loader_wf(*self, *world));
                }
            },
        }
        proof {
            assert forall|g: Entity|
                old(world).live(g) && Some(g) != spec_loader_lookup(self.entries@, data.id)
                implies crate::sim::spec_marks_preserved(old(world).comps(g), #[trigger]
            world.comps(g)) by {
                assert(g != entity);
                assert(world.live(g));
                assert(g.index != entity.index);
            }
        }
        Ok(())
    }

    /// Reads and checks the trigger target property.
    fn entity_target(&self, data: &ObjectData, trigger_key: &String) -> (r: Result<u32,
        SpawnError>)
        requires
            trigger_key@ == "trigger"@,
        ensures
            match spec_prop_lookup(data.properties.entries@, "trigger"@) {
                None => r == Result::<u32, SpawnError>::Err(SpawnError::MissingTriggerTarget),
                Some(v) => if v is Object {
                    r == Result::<u32, SpawnError>::Ok(v->Object_0)
                } else {
                    r == Result::<u32, SpawnError>::Err(SpawnError::TriggerTargetNotObject)
                },
            },
    {
        match data.properties.get(trigger_key) {
            None => Err(SpawnError::MissingTriggerTarget),
            Some(v) => match v.as_object() {
                Some(id) => Ok(id),
                None => Err(SpawnError::TriggerTargetNotObject),
            },
        }
    }

    /// Spawns every object of an object layer, in order. Each malformed
    /// object -- an unrecognized kind or an exact spawn error -- is skipped
    /// and reported with its id; every other object is spawned and stays
    /// established for the rest of the load. A single bad object never
    /// aborts the layer.
    pub fn create_object_layer(
        &mut self,
        objects: Vec<(Option<EntityKind>, ObjectData)>,
        world: &mut World,
        physics: &mut Physics,
    ) -> (errors: Vec<(u32, SpawnError)>)
        requires
            sim_wf(*old(world), *old(physics)),
            loader_wf(*old(self), *old(world)),
            loader_entities_distinct(*old(self)),
            forall|k: int| 0 <= k < objects@.len() ==> (#[trigger] objects@[k]).1.wf(),
            forall|k1: int, k2: int|
                0 <= k1 < k2 < objects@.len() ==> (#[trigger] objects@[k1]).1.id != (
                #[trigger] objects@[k2]).1.id,
            old(world).slots@.len() + 2 * objects@.len() < 0xFFFF_FFFF,
        ensures
            sim_wf(*final(world), *final(physics)),
            loader_wf(*final(self), *final(world)),
            loader_entities_distinct(*final(self)),
            errors@ == spec_load_errors(objects@),
            forall|k: int|
                0 <= k < objects@.len() && spec_object_error(#[trigger] objects@[k]) is None
                    ==> spec_object_established(objects@[k].0->Some_0, objects@[k].1, *final(
                self), *final(world)),
    {
        let ghost objects0 = objects@;
        let ghost mut done: Seq<(Option<EntityKind>, ObjectData)> = Seq::empty();
        let mut rest = objects;
        let mut errors: Vec<(u32, SpawnError)> = Vec::new();
        proof {
            assert(objects0 =~= done + rest@);
        }
        while rest.len() > 0
            invariant
                sim_wf(*world, *physics),
                loader_wf(*self, *world),
                loader_entities_distinct(*self),
                objects0 == done + rest@,
                done.len() + rest@.len() == objects0.len(),
                errors@ == spec_load_errors(done),
                forall|j: int| 0 <= j < objects0.len() ==> (#[trigger] objects0[j]).1.wf(),
                forall|k1: int, k2: int|
                    0 <= k1 < k2 < objects0.len() ==> (#[trigger] objects0[k1]).1.id != (
                    #[trigger] objects0[k2]).1.id,
                world.slots@.len() + 2 * rest@.len() < 0xFFFF_FFFF,
                forall|k: int|
                    0 <= k < done.len() && spec_object_error(#[trigger] done[k]) is None
                        ==> spec_object_established(done[k].0->Some_0, done[k].1, *self, *world),
            decreases rest@.len(),
        {
            let ghost o = rest@[0];
            let ghost pre_self = *self;
            let ghost pre_world = *world;
            proof {
                assert(o == objects0[done.len() as int]);
                assert(o.1.wf());
            }
            let (kind, data) = rest.remove(0);
            let id = data.id;
            let ghost data_id = data.id;
            match kind {
                Some(kind) => {
                    match self.spawn_entity(kind, data, world, physics) {
                        Ok(_) => {},
                        Err(e) => {
                            errors.push((id, e));
                        },
                    }
                },
                None => {
                    errors.push((id, SpawnError::UnknownKind));
                },
            }
            proof {
                lemma_load_errors_push(done, o);
                // previously established objects stay established
                assert forall|k: int|
                    0 <= k < done.len() && spec_object_error(#[trigger] done[k]) is None implies
                    spec_object_established(done[k].0->Some_0, done[k].1, *self, *world) by {
                    if o.0 is Some {
                        let data_k = done[k].1;
                        let e_k = spec_loader_lookup(pre_self.entries@, data_k.id)->Some_0;
                        assert(done[k] == objects0[k]);
                        assert(data_k.id != data_id);
                        assert(spec_loader_lookup(self.entries@, data_k.id) == Some(e_k));
                        match spec_loader_lookup(self.entries@, data_id) {
                            None => {},
                            Some(cur) => {
                                lemma_loader_lookup_distinct(*self, data_k.id, data_id);
                            },
                        }
                        assert(Some(e_k) != spec_loader_lookup(self.entries@, data_id));
                        assert(crate::sim::spec_marks_preserved(pre_world.comps(e_k),
                            world.comps(e_k)));
                        lemma_established_preserved(done[k].0->Some_0, data_k, pre_self, *self,
                            pre_world, *world);
                    } else {
                        assert(*self == pre_self && *world == pre_world);
                    }
                }
                done = done.push(o);
                assert(objects0 =~= done + rest@);
                // the fresh object, when well formed, is established
                assert forall|k: int|
                    0 <= k < done.len() && spec_object_error(#[trigger] done[k]) is None implies
                    spec_object_established(done[k].0->Some_0, done[k].1, *self, *world) by {
                    if k == done.len() - 1 {
                        assert(done[k] == o);
                        assert(spec_spawned_object(o.0->Some_0, o.1, spec_loader_lookup(
                            self.entries@, data_id)->Some_0, *self, *world, *physics));
                        assert(spec_object_established(o.0->Some_0, o.1, *self, *world));
                    }
                }
                assert(errors@ == spec_load_errors(done));
            }
        }
        proof {
            assert(done =~= objects0);
        }
        errors
    }
}


/// The error one object of the layer produces, if any: an unrecognized
/// kind, or the kind's spawn error.
pub open spec fn spec_object_error(o: (Option<EntityKind>, ObjectData)) -> Option<SpawnError> {
    match o.0 {
        None => Some(SpawnError::UnknownKind),
        Some(kind) => spec_spawn_error(kind, o.1),
    }
}

/// The full error report of an object layer: each malformed object, in
/// layer order, with its id and its exact error.
pub open spec fn spec_load_errors(objects: Seq<(Option<EntityKind>, ObjectData)>) -> Seq<(
    u32,
    SpawnError,
)>
    decreases objects.len(),
{
    if objects.len() == 0 {
        Seq::empty()
    } else {
        let head: Seq<(u32, SpawnError)> = match spec_object_error(objects[0]) {
            Some(e) => seq![(objects[0].1.id, e)],
            None => Seq::empty(),
        };
        head + spec_load_errors(objects.drop_first())
    }
}

/// The error report of one more object comes at the end of the report.
proof fn lemma_load_errors_push(objects: Seq<(Option<EntityKind>, ObjectData)>, o: (
    Option<EntityKind>,
    ObjectData,
))
    ensures
        spec_load_errors(objects.push(o)) == spec_load_errors(objects) + (
        match spec_object_error(o) {
            Some(e) => seq![(o.1.id, e)],
            None => Seq::<(u32, SpawnError)>::empty(),
        }),
    decreases objects.len(),
{
    let op = objects.push(o);
    let head: Seq<(u32, SpawnError)> = match spec_object_error(o) {
        Some(e) => seq![(o.1.id, e)],
        None => Seq::empty(),
    };
    if objects.len() == 0 {
        assert(op[0] == o);
        assert(op.drop_first().len() == 0);
        assert(spec_load_errors(op.drop_first()) == Seq::<(u32, SpawnError)>::empty());
        assert(spec_load_errors(op) == head + spec_load_errors(op.drop_first()));
        assert(head + spec_load_errors(op.drop_first()) =~= head);
        assert(spec_load_errors(objects) == Seq::<(u32, SpawnError)>::empty());
        assert(spec_load_errors(objects) + head =~= head);
    } else {
        assert(op[0] == objects[0]);
        assert(op.drop_first() =~= objects.drop_first().push(o));
        lemma_load_errors_push(objects.drop_first(), o);
        assert(spec_load_errors(op) =~= spec_load_errors(objects) + (
        match spec_object_error(o) {
            Some(e) => seq![(o.1.id, e)],
            None => Seq::<(u32, SpawnError)>::empty(),
        }));
    }
}

/// What remains true of one successfully spawned object for the rest of
/// the load, whatever later objects do: its entity is registered under its
/// id and live, and it carries its kind's components. A later player spawn
/// runs a simulation tick, which may advance another player's morph or
/// death state, so for player objects the morph is pinned to "resolved and
/// consistent" rather than to one value; everything else is pinned
/// exactly.
pub open spec fn spec_object_established(
    kind: EntityKind,
    data: ObjectData,
    l: Loader,
    w: World,
) -> bool {
    let e = spec_loader_lookup(l.entries@, data.id)->Some_0;
    let c = w.comps(e);
    let center = Vec2i {
        x: (data.x + data.width / 2) as i64,
        y: (data.y + data.height / 2) as i64,
    };
    &&& spec_loader_lookup(l.entries@, data.id) is Some
    &&& w.live(e)
    &&& match kind {
        EntityKind::Player => {
            &&& c.player is Some
            &&& c.player->Some_0.checkpoint == (Vec2i { x: data.x, y: data.y })
            &&& c.position == Some(Position(Vec2i { x: data.x, y: data.y }))
            &&& c.rigid_body is Some
            &&& c.collider is Some
            &&& c.camera is Some
            &&& c.morph is Some
            &&& !(c.morph->Some_0 is Unresolved)
            &&& ((c.unshaped is Some) != (c.platformer is Some))
            &&& c.size == Some(Size(spec_morph_params(c.morph->Some_0).size))
        },
        EntityKind::Text => c == (Components {
            text: Some(Text {
                font_family: data.text->Some_0.font_family->Some_0,
                h_align: data.text->Some_0.h_align,
                size: data.text->Some_0.pixel_size,
                text: data.text->Some_0.text,
            }),
            position: Some(Position(Vec2i { x: data.x, y: data.y })),
            size: Some(Size(Vec2i { x: data.width, y: data.height })),
            ..spec_no_components()
        }),
        EntityKind::Collider => {
            &&& c == (Components {
                rect_collider: Some(RectCollider),
                collider: c.collider,
                ..spec_no_components()
            })
            &&& c.collider is Some
        },
        EntityKind::CameraView => {
            &&& c == (Components {
                camera_view: Some(CameraView),
                position: Some(Position(Vec2i { x: data.x, y: data.y })),
                size: Some(Size(Vec2i { x: data.width, y: data.height })),
                collider: c.collider,
                ..spec_no_components()
            })
            &&& c.collider is Some
        },
        EntityKind::Trigger => {
            &&& spec_loader_lookup(l.entries@, spec_trigger_target_id(data)) is Some
            &&& c == (Components {
                trigger: Some(Trigger {
                    target: spec_loader_lookup(l.entries@, spec_trigger_target_id(
                        data))->Some_0,
                    method: spec_trigger_method(data),
                    triggered_this_tick: false,
                }),
                position: Some(Position(Vec2i { x: data.x, y: data.y })),
                size: Some(Size(Vec2i { x: data.width, y: data.height })),
                collider: c.collider,
                ..spec_no_components()
            })
            &&& c.collider is Some
        },
        EntityKind::Checkpoint => c == (Components {
            checkpoint: Some(Checkpoint),
            position: Some(Position(Vec2i { x: data.x, y: data.y })),
            ..spec_no_components()
        }),
        EntityKind::ZonePlatformer | EntityKind::ZoneDeadly => {
            let zk = if kind is ZonePlatformer {
                ZoneKind::Platformer
            } else {
                ZoneKind::Deadly
            };
            &&& c == (Components {
                platformer_zone: if zk is Platformer {
                    Some(PlatformerZone)
                } else {
                    None
                },
                deadly_zone: if zk is Deadly {
                    Some(DeadlyZone)
                } else {
                    None
                },
                position: Some(Position(center)),
                size: Some(Size(Vec2i { x: data.width, y: data.height })),
                rotation: Some(Rotation(data.rotation)),
                collider: c.collider,
                ..spec_no_components()
            })
            &&& c.collider is Some
        },
    }
}

/// An established object stays established: its registration survives new
/// loader entries, its entity stays live, and the preserved marks keep its
/// components.
proof fn lemma_established_preserved(
    kind: EntityKind,
    data: ObjectData,
    l0: Loader,
    l1: Loader,
    w0: World,
    w1: World,
)
    requires
        spec_object_established(kind, data, l0, w0),
        forall|idq: u32|
            spec_loader_lookup(l0.entries@, idq) is Some ==> #[trigger] spec_loader_lookup(
                l1.entries@, idq) == spec_loader_lookup(l0.entries@, idq),
        forall|g: Entity| w0.live(g) ==> #[trigger] w1.live(g),
        crate::sim::spec_marks_preserved(
            w0.comps(spec_loader_lookup(l0.entries@, data.id)->Some_0),
            w1.comps(spec_loader_lookup(l0.entries@, data.id)->Some_0),
        ),
    ensures
        spec_object_established(kind, data, l1, w1),
{
    let e = spec_loader_lookup(l0.entries@, data.id)->Some_0;
    let c0 = w0.comps(e);
    let c1 = w1.comps(e);
    assert(spec_loader_lookup(l1.entries@, data.id) == Some(e));
    match kind {
        EntityKind::Player => {},
        _ => {
            assert(c0.player is None && c0.camera is None);
            assert(c1 == c0);
        },
    }
}

/// A spawn step that left every other entity's components alone preserves
/// their marks outright.
proof fn lemma_spawn_marks_unchanged(w0: World, w1: World, e: Entity)
    requires
        forall|g: Entity|
            g != e && w0.live(g) ==> (#[trigger] w1.comps(g)) == w0.comps(g),
    ensures
        forall|g: Entity|
            w0.live(g) && g != e ==> crate::sim::spec_marks_preserved(w0.comps(g), #[trigger]
            w1.comps(g)),
{
}

/// A spawn that touches only the world (no physics objects) cannot break
/// the standing invariant: the new entity carries no handles.
proof fn lemma_world_only_spawn_keeps_sim_wf(w0: World, w1: World, p: Physics, e: Entity)
    requires
        sim_wf(w0, p),
        world_wf(w1),
        w1.slots@.len() >= w0.slots@.len(),
        forall|i: int|
            0 <= i < w0.slots@.len() && i != e.index ==> #[trigger] w1.slots@[i] == w0.slots@[i],
        forall|i: int|
            w0.slots@.len() <= i < w1.slots@.len() && i != e.index ==> (#[trigger] w1.slots@[
            i].c) == spec_no_components(),
        (e.index as int) < w1.slots@.len() ==> {
            &&& w1.slots@[e.index as int].c.rigid_body is None
            &&& w1.slots@[e.index as int].c.collider is None
            &&& w1.slots@[e.index as int].c.player is None
        },
    ensures
        sim_wf(w1, p),
{
    assert(crate::sim::players_ok(w1));
    assert(crate::sim::handles_ok(w1, p));
    assert(crate::sim::bodies_injective(w1));
    assert(crate::sim::colliders_injective(w1));
}

/// One stored chunk of the tile layer: the tile coordinate of its
/// top-left tile, and its 64 tile ids in row-major order.
#[derive(Clone, PartialEq, Eq, Debug)]
pub struct Chunk {
    /// Top-left tile x coordinate, in tiles.
    pub x: i32,
    /// Top-left tile y coordinate, in tiles.
    pub y: i32,
    /// Tile ids, row-major, 8 by 8.
    pub tiles: Vec<u16>,
}

/// Raw chunk data as the map file carries it: the top-left tile coordinate
/// and 64 raw tile ids.
#[derive(Clone, PartialEq, Eq, Debug)]
pub struct ChunkData {
    /// Top-left tile x coordinate.
    pub x: i32,
    /// Top-left tile y coordinate.
    pub y: i32,
    /// Raw tile ids, row-major, 8 by 8. In the file `0` is the empty tile
    /// and real ids start at `1`.
    pub data: Vec<u16>,
}

impl ChunkData {
    /// The chunk lies in range and carries exactly its 64 tiles.
    pub open spec fn wf(self) -> bool {
        &&& -0x10_0000 <= self.x <= 0x10_0000
        &&& -0x10_0000 <= self.y <= 0x10_0000
        &&& self.data@.len() == 64
    }
}

/// The center of tile `j` (row-major) of a chunk, in subunits.
pub open spec fn spec_tile_center(cd: ChunkData, j: int) -> Vec2i {
    Vec2i {
        x: ((cd.x + j % 8) * 1024 + 512) as i64,
        y: ((cd.y + j / 8) * 1024 + 512) as i64,
    }
}

/// The deadly collider of tile `j` of chunk `cd` stands in the physics
/// world, when the tile is a spike tile.
pub open spec fn spec_chunk_spike_present(p: Physics, cd: ChunkData, ts: Tileset, j: int)
    -> bool {
    let kind = ts.spec_kind(spec_tile_id(cd.data@[j]));
    kind.spec_spike_direction() is Some ==> exists|h: crate::physics::ColliderHandle|
        (#[trigger] p.collider_live(h)) && p.collider_of(h) == spec_spike_collider(
            kind.spec_spike_direction()->Some_0,
            spec_tile_center(cd, j),
        )
}

/// A spike collider that stands in the world survives any change that
/// keeps the live colliders.
proof fn lemma_spike_present_persists(p0: Physics, p1: Physics, cd: ChunkData, ts: Tileset, j:
    int)
    requires
        spec_chunk_spike_present(p0, cd, ts, j),
        forall|h: crate::physics::ColliderHandle|
            p0.collider_live(h) ==> (#[trigger] p1.collider_live(h)) && p1.collider_of(h)
                == p0.collider_of(h),
    ensures
        spec_chunk_spike_present(p1, cd, ts, j),
{
    let kind = ts.spec_kind(spec_tile_id(cd.data@[j]));
    if kind.spec_spike_direction() is Some {
        let h = choose|h: crate::physics::ColliderHandle|
            (#[trigger] p0.collider_live(h)) && p0.collider_of(h) == spec_spike_collider(
                kind.spec_spike_direction()->Some_0,
                spec_tile_center(cd, j),
            );
        assert(p1.collider_live(h) && p1.collider_of(h) == p0.collider_of(h));
    }
}

/// A raw file tile id shifted down by one: the file stores the empty tile
/// as `0` and real ids from `1`.
pub open spec fn spec_tile_id(raw: u16) -> u16 {
    if raw == 0 {
        0
    } else {
        (raw - 1) as u16
    }
}

/// Builds the tile layer: converts each chunk's raw ids, and adds the
/// deadly collider of every spike tile while keeping every collider that
/// already stood in the world.
#[verifier::spinoff_prover]
#[verifier::rlimit(50)]
pub fn create_tile_layer(in_chunks: Vec<ChunkData>, tileset: &Tileset, physics: &mut Physics)
    -> (chunks: Vec<Chunk>)
    requires
        old(physics).wf(),
        forall|k: int| 0 <= k < in_chunks@.len() ==> (#[trigger] in_chunks@[k]).wf(),
    ensures
        final(physics).wf(),
        final(physics).gravity == old(physics).gravity,
        final(physics).bodies == old(physics).bodies,
        forall|h: crate::physics::ColliderHandle|
            old(physics).collider_live(h) ==> (#[trigger] final(physics).collider_live(h))
                && final(physics).collider_of(h) == old(physics).collider_of(h),
        forall|k: int, j: int|
            0 <= k < in_chunks@.len() && 0 <= j < 64 ==> #[trigger] spec_chunk_spike_present(
                *final(physics), in_chunks@[k], *tileset, j),
        chunks@.len() == in_chunks@.len(),
        forall|k: int|
            0 <= k < in_chunks@.len() ==> {
                &&& (#[trigger] chunks@[k]).x == in_chunks@[k].x
                &&& chunks@[k].y == in_chunks@[k].y
                &&& chunks@[k].tiles@.len() == 64
                &&& forall|j: int|
                    0 <= j < 64 ==> chunks@[k].tiles@[j] == spec_tile_id(#[trigger] in_chunks@[
                    k].data@[j])
            },
{
    let ghost p_init = *old(physics);
    let n = in_chunks.len();
    let mut chunks: Vec<Chunk> = Vec::new();
    let mut k: usize = 0;
    while k < n
        invariant
            physics.wf(),
            physics.gravity == p_init.gravity,
            physics.bodies == p_init.bodies,
            forall|h: crate::physics::ColliderHandle|
                p_init.collider_live(h) ==> (#[trigger] physics.collider_live(h))
                    && physics.collider_of(h) == p_init.collider_of(h),
            forall|kk: int, jj: int|
                0 <= kk < k && 0 <= jj < 64 ==> #[trigger] spec_chunk_spike_present(*physics,
                    in_chunks@[kk], *tileset, jj),
            n == in_chunks@.len(),
            k <= n,
            forall|kk: int| 0 <= kk < in_chunks@.len() ==> (#[trigger] in_chunks@[kk]).wf(),
            chunks@.len() == k,
            forall|kk: int|
                0 <= kk < k ==> {
                    &&& (#[trigger] chunks@[kk]).x == in_chunks@[kk].x
                    &&& chunks@[kk].y == in_chunks@[kk].y
                    &&& chunks@[kk].tiles@.len() == 64
                    &&& forall|j: int|
                        0 <= j < 64 ==> chunks@[kk].tiles@[j] == spec_tile_id(
                        #[trigger] in_chunks@[kk].data@[j])
                },
        decreases n - k,
    {
        let cd = &in_chunks[k];
        let mut tiles: Vec<u16> = Vec::new();
        let mut j: usize = 0;
        while j < 64
            invariant
                physics.wf(),
                physics.gravity == p_init.gravity,
                physics.bodies == p_init.bodies,
                forall|h: crate::physics::ColliderHandle|
                    p_init.collider_live(h) ==> (#[trigger] physics.collider_live(h))
                        && physics.collider_of(h) == p_init.collider_of(h),
                forall|kk: int, jj: int|
                    0 <= kk < k && 0 <= jj < 64 ==> #[trigger] spec_chunk_spike_present(
                        *physics, in_chunks@[kk], *tileset, jj),
                forall|jj: int|
                    0 <= jj < j ==> spec_chunk_spike_present(*physics, in_chunks@[k as int],
                        *tileset, jj),
                cd == &in_chunks@[k as int],
                k < in_chunks@.len(),
                in_chunks@[k as int].wf(),
                j <= 64,
                tiles@.len() == j,
                forall|jj: int|
                    0 <= jj < j ==> tiles@[jj] == spec_tile_id(#[trigger] in_chunks@[
                    k as int].data@[jj]),
            decreases 64 - j,
        {
            let raw = cd.data[j];
            let tile_id: u16 = if raw == 0 {
                0
            } else {
                raw - 1
            };
            tiles.push(tile_id);
            let kind = tileset.kind(tile_id);
            let tx = cd.x as i64 + (j % 8) as i64;
            let ty = cd.y as i64 + (j / 8) as i64;
            let center = Vec2i { x: tx * SCALE + SCALE / 2, y: ty * SCALE + SCALE / 2 };
            proof {
                assert(-0x20_0000 * 1024 <= tx * 1024 <= 0x20_0000 * 1024) by (nonlinear_arith)
                    requires
                        -0x20_0000 <= tx <= 0x20_0000,
                ;
                assert(-0x20_0000 * 1024 <= ty * 1024 <= 0x20_0000 * 1024) by (nonlinear_arith)
                    requires
                        -0x20_0000 <= ty <= 0x20_0000,
                ;
                assert(center == spec_tile_center(in_chunks@[k as int], j as int));
                assert(tile_id == spec_tile_id(in_chunks@[k as int].data@[j as int]));
            }
            let ghost p_before = *physics;
            build_tile_extra(kind, physics, center);
            proof {
                assert forall|h: crate::physics::ColliderHandle| p_init.collider_live(h)
                    implies (#[trigger] physics.collider_live(h)) && physics.collider_of(h)
                    == p_init.collider_of(h) by {
                    assert(p_before.collider_live(h) && p_before.collider_of(h)
                        == p_init.collider_of(h));
                    assert(physics.collider_live(h) && physics.collider_of(h)
                        == p_before.collider_of(h));
                }
                assert forall|kk: int, jj: int|
                    0 <= kk < k && 0 <= jj < 64 implies #[trigger] spec_chunk_spike_present(
                    *physics, in_chunks@[kk], *tileset, jj) by {
                    lemma_spike_present_persists(p_before, *physics, in_chunks@[kk], *tileset,
                        jj);
                }
                assert forall|jj: int|
                    0 <= jj < j + 1 implies spec_chunk_spike_present(*physics,
                    in_chunks@[k as int], *tileset, jj) by {
                    if jj < j {
                        lemma_spike_present_persists(p_before, *physics, in_chunks@[k as int],
                            *tileset, jj);
                    } else {
                        assert(spec_chunk_spike_present(*physics, in_chunks@[k as int], *tileset,
                            j as int));
                    }
                }
            }
            j = j + 1;
        }
        chunks.push(Chunk { x: cd.x, y: cd.y, tiles });
        k = k + 1;
    }
    proof {
        assert forall|h: crate::physics::ColliderHandle| old(physics).collider_live(h) implies (
        #[trigger] physics.collider_live(h)) && physics.collider_of(h) == old(
        physics).collider_of(h) by {
            assert(p_init.collider_live(h));
        }
    }
    chunks
}

} // verus!
