//! Trigger entities: sensor colliders that post one-shot events.

use vstd::prelude::*;
use crate::entities::{Position, Size};
use crate::math::{Rect, Vec2i};
use crate::physics::{CollisionGroups, InteractionGroups, Physics, Shape};
use crate::sim::{comps_wf, sim_wf};
use crate::world::{spec_entity_from_bits, spec_no_components, Components, Entity, Slot, World};

verus! {

/// One-tick component posted to a trigger's target entity when the
/// trigger's collider overlap transitions from not intersecting to
/// intersecting.
#[derive(Clone, Copy, PartialEq, Eq, Structural, Debug)]
pub struct Triggered {
    /// Which method was triggered.
    pub method: u32,
    /// Which entity's collider set the trigger off.
    pub source: Entity,
    /// Which trigger posted the event.
    pub trigger: Entity,
}

/// Component marking an entity as a collision trigger.
#[derive(Clone, Copy, PartialEq, Eq, Structural, Debug)]
pub struct Trigger {
    /// The entity this trigger posts events to.
    pub target: Entity,
    /// The method the event carries.
    pub method: u32,
    /// Whether the trigger's collider currently overlaps something; the
    /// trigger only fires on the edge where this turns true.
    pub triggered_this_tick: bool,
}

impl Trigger {
    /// Creates a new trigger component aimed at `target`.
    pub fn new(target: Entity, method: u32) -> (r: Trigger)
        ensures
            r == (Trigger { target, method, triggered_this_tick: false }),
    {
        Trigger { target, method, triggered_this_tick: false }
    }
}

/// Whether slot `i` holds a trigger the scan looks at: an occupied slot
/// with trigger state and a live collider.
pub open spec fn spec_trigger_scans(w: World, p: Physics, i: int) -> bool {
    let c = w.slots@[i].c;
    &&& 0 <= i < w.slots@.len()
    &&& w.slots@[i].alive
    &&& c.trigger is Some
    &&& c.collider is Some
    &&& p.collider_live(c.collider->Some_0.0)
}

/// The query answer for the trigger in slot `i`: the first collider its
/// own shape and groups overlap.
pub open spec fn spec_trigger_hit(w: World, p: Physics, i: int) -> Option<int> {
    let h = w.slots@[i].c.collider->Some_0.0;
    p.spec_first_hit(
        p.spec_collider_center(h.index as int),
        p.collider_of(h).shape.spec_half_extents(),
        p.collider_of(h).groups,
    )
}

/// Whether the trigger in slot `i` currently overlaps something it sees.
pub open spec fn spec_trigger_overlaps(w: World, p: Physics, i: int) -> bool {
    spec_trigger_scans(w, p, i) && spec_trigger_hit(w, p, i) is Some
}

/// Whether the trigger in slot `i` fires this tick: it overlaps, and it
/// was not already overlapping on the previous tick (edge triggering).
pub open spec fn spec_trigger_fires(w: World, p: Physics, i: int) -> bool {
    spec_trigger_overlaps(w, p, i) && !w.slots@[i].c.trigger->Some_0.triggered_this_tick
}

/// The event the trigger in slot `i` posts when it fires: its method, the
/// entity decoded from the hit collider's user data as the source, and the
/// trigger entity itself.
pub open spec fn spec_trigger_payload(w: World, p: Physics, i: int) -> (Entity, Triggered) {
    let t = w.slots@[i].c.trigger->Some_0;
    let hit = spec_trigger_hit(w, p, i)->Some_0;
    (
        t.target,
        Triggered {
            method: t.method,
            source: spec_entity_from_bits(p.colliders@[hit].collider->Some_0.user_data),
            trigger: w.spec_entity_at(i),
        },
    )
}

/// What the scan leaves in slot `i`: the overlap flag tracks whether the
/// trigger currently overlaps.
pub open spec fn spec_trigger_scanned_slot(w: World, p: Physics, i: int) -> Slot {
    if spec_trigger_scans(w, p, i) {
        Slot {
            c: Components {
                trigger: Some(Trigger {
                    triggered_this_tick: spec_trigger_hit(w, p, i) is Some,
                    ..w.slots@[i].c.trigger->Some_0
                }),
                ..w.slots@[i].c
            },
            ..w.slots@[i]
        }
    } else {
        w.slots@[i]
    }
}

/// The events fired this tick by the triggers in slots `i` and later, in
/// slot order.
pub open spec fn spec_fires_from(w: World, p: Physics, i: int) -> Seq<(Entity, Triggered)>
    decreases w.slots@.len() - i,
{
    if i < 0 || i >= w.slots@.len() {
        Seq::empty()
    } else if spec_trigger_fires(w, p, i) {
        seq![spec_trigger_payload(w, p, i)] + spec_fires_from(w, p, i + 1)
    } else {
        spec_fires_from(w, p, i + 1)
    }
}

/// Applies one fired event: a target that is still live receives the
/// posted component; a stale target drops the event.
pub open spec fn spec_apply_one_fire(slots: Seq<Slot>, f: (Entity, Triggered)) -> Seq<Slot> {
    let (target, payload) = f;
    if target.index < slots.len() && slots[target.index as int].alive && slots[
        target.index as int].generation == target.generation {
        slots.update(target.index as int, Slot {
            c: Components { triggered: Some(payload), ..slots[target.index as int].c },
            ..slots[target.index as int]
        })
    } else {
        slots
    }
}

/// Applies the fired events in order; a later event to the same target
/// overwrites an earlier one.
pub open spec fn spec_apply_fires(slots: Seq<Slot>, fires: Seq<(Entity, Triggered)>) -> Seq<Slot>
    decreases fires.len(),
{
    if fires.len() == 0 {
        slots
    } else {
        spec_apply_fires(spec_apply_one_fire(slots, fires[0]), fires.drop_first())
    }
}

/// Appending one event to the batch is the same as applying it after the
/// batch.
pub proof fn lemma_apply_fires_push(slots: Seq<Slot>, fires: Seq<(Entity, Triggered)>, f: (
    Entity,
    Triggered,
))
    ensures
        spec_apply_fires(slots, fires.push(f)) == spec_apply_one_fire(spec_apply_fires(slots,
            fires), f),
    decreases fires.len(),
{
    let fp = fires.push(f);
    assert(fp.len() == fires.len() + 1);
    if fires.len() == 0 {
        assert(fp[0] == f);
        assert(fp.drop_first() =~= Seq::<(Entity, Triggered)>::empty());
        assert(spec_apply_fires(slots, fp) == spec_apply_fires(spec_apply_one_fire(slots, f),
            fp.drop_first()));
        assert(spec_apply_fires(spec_apply_one_fire(slots, f), fp.drop_first())
            == spec_apply_one_fire(slots, f));
        assert(spec_apply_fires(slots, fires) == slots);
    } else {
        assert(fp[0] == fires[0]);
        assert(fp.drop_first() =~= fires.drop_first().push(f));
        assert(spec_apply_fires(slots, fp) == spec_apply_fires(spec_apply_one_fire(slots,
            fires[0]), fp.drop_first()));
        lemma_apply_fires_push(spec_apply_one_fire(slots, fires[0]), fires.drop_first(), f);
        assert(spec_apply_fires(slots, fires) == spec_apply_fires(spec_apply_one_fire(slots,
            fires[0]), fires.drop_first()));
    }
}

/// Applying fires changes nothing but the `triggered` components.
pub proof fn lemma_apply_fires_frame(slots: Seq<Slot>, fires: Seq<(Entity, Triggered)>)
    ensures
        spec_apply_fires(slots, fires).len() == slots.len(),
        forall|j: int|
            0 <= j < slots.len() ==> {
                let s = #[trigger] spec_apply_fires(slots, fires)[j];
                &&& s.generation == slots[j].generation
                &&& s.alive == slots[j].alive
                &&& s.c == (Components { triggered: s.c.triggered, ..slots[j].c })
            },
    decreases fires.len(),
{
    if fires.len() == 0 {
    } else {
        lemma_apply_fires_frame(spec_apply_one_fire(slots, fires[0]), fires.drop_first());
    }
}

/// Relation between the worlds before and after one trigger tick: every
/// trigger's overlap flag tracks its current overlap, and each trigger
/// whose overlap freshly began posts exactly one event to its target.
pub open spec fn spec_trigger_rel(w0: World, p: Physics, w1: World) -> bool {
    w1.slots@ == spec_apply_fires(
        Seq::new(w0.slots@.len(), |i: int| spec_trigger_scanned_slot(w0, p, i)),
        spec_fires_from(w0, p, 0),
    )
}

impl Trigger {
    /// Ticks all triggers in the world: scans every trigger's collider for
    /// overlap against its own groups, fires the ones whose overlap
    /// freshly began, and posts the fired events after the scan completes
    /// so the scan never observes its own effects.
    pub fn tick(world: &mut World, physics: &Physics)
        requires
            sim_wf(*old(world), *physics),
        ensures
            sim_wf(*final(world), *physics),
            spec_trigger_rel(*old(world), *physics, *final(world)),
    {
        let ghost w0 = *old(world);
        let n = world.slots.len();
        let ghost scanned = Seq::new(w0.slots@.len(), |i: int| spec_trigger_scanned_slot(w0,
            *physics, i));
        let mut fires: Vec<(Entity, Triggered)> = Vec::new();
        let mut i: usize = 0;
        while i < n
            invariant
                sim_wf(w0, *physics),
                w0 == *old(world),
                n == world.slots@.len(),
                world.slots@.len() == w0.slots@.len(),
                scanned == Seq::new(w0.slots@.len(), |k: int| spec_trigger_scanned_slot(w0,
                    *physics, k)),
                i <= n,
                forall|j: int|
                    i <= j < n ==> #[trigger] world.slots@[j] == w0.slots@[j],
                forall|j: int|
                    0 <= j < i ==> #[trigger] world.slots@[j] == spec_trigger_scanned_slot(w0,
                        *physics, j),
                spec_fires_from(w0, *physics, 0) == fires@ + spec_fires_from(w0, *physics,
                    i as int),
                forall|j: int| 0 <= j < i ==> comps_wf((#[trigger] world.slots@[j]).c),
            decreases n - i,
        {
            let scans = world.slots[i].alive && world.slots[i].c.trigger.is_some() && world.slots[
                i].c.collider.is_some();
            if scans {
                let t = match world.slots[i].c.trigger {
                    Some(t) => t,
                    None => unreached(),
                };
                let ch = match world.slots[i].c.collider {
                    Some(c) => c.0,
                    None => unreached(),
                };
                let col = physics.collider(ch);
                let center = physics.collider_center(ch);
                let hit = physics.intersection_with_shape(center, col.shape, col.groups);
                match hit {
                    Some(other) => {
                        if !t.triggered_this_tick {
                            let other_col = physics.collider(other);
                            let source = Entity::from_bits(other_col.user_data);
                            let trigger_entity = Entity {
                                index: i as u32,
                                generation: world.slots[i].generation,
                            };
                            proof {
                                assert(spec_trigger_fires(w0, *physics, i as int));
                            }
                            fires.push((t.target, Triggered {
                                method: t.method,
                                source,
                                trigger: trigger_entity,
                            }));
                            proof {
                                assert(fires@.last() == spec_trigger_payload(w0, *physics,
                                    i as int));
                                assert(spec_fires_from(w0, *physics, i as int) == seq![
                                    spec_trigger_payload(w0, *physics, i as int)]
                                    + spec_fires_from(w0, *physics, i as int + 1));
                                assert(fires@ + spec_fires_from(w0, *physics, i as int + 1)
                                    =~= fires@.drop_last() + spec_fires_from(w0, *physics,
                                    i as int));
                            }
                        } else {
                            proof {
                                assert(!spec_trigger_fires(w0, *physics, i as int));
                            }
                        }
                        world.slots[i].c.trigger = Some(Trigger {
                            triggered_this_tick: true,
                            ..t
                        });
                    },
                    None => {
                        proof {
                            assert(!spec_trigger_fires(w0, *physics, i as int));
                        }
                        world.slots[i].c.trigger = Some(Trigger {
                            triggered_this_tick: false,
                            ..t
                        });
                    },
                }
            } else {
                proof {
                    assert(!spec_trigger_fires(w0, *physics, i as int));
                    assert(world.slots@[i as int] == spec_trigger_scanned_slot(w0, *physics,
                        i as int));
                }
            }
            i = i + 1;
        }
        proof {
            assert(world.slots@ =~= scanned);
            assert(spec_fires_from(w0, *physics, n as int) =~= Seq::<(Entity,
                Triggered)>::empty());
            assert(fires@ + spec_fires_from(w0, *physics, n as int) =~= fires@);
            assert(spec_fires_from(w0, *physics, 0) == fires@);
        }
        let m = fires.len();
        let mut k: usize = 0;
        while k < m
            invariant
                sim_wf(w0, *physics),
                w0 == *old(world),
                m == fires@.len(),
                k <= m,
                world.slots@.len() == w0.slots@.len(),
                scanned == Seq::new(w0.slots@.len(), |kk: int| spec_trigger_scanned_slot(w0,
                    *physics, kk)),
                spec_fires_from(w0, *physics, 0) == fires@,
                world.slots@ == spec_apply_fires(scanned, fires@.take(k as int)),
                forall|j: int|
                    0 <= j < world.slots@.len() ==> comps_wf((#[trigger] world.slots@[j]).c),
            decreases m - k,
        {
            let (target, payload) = fires[k];
            proof {
                assert(fires@.take(k as int).push(fires@[k as int]) =~= fires@.take(k as int
                    + 1));
                lemma_apply_fires_push(scanned, fires@.take(k as int), fires@[k as int]);
            }
            let ti = target.index as usize;
            if ti < world.slots.len() {
                if world.slots[ti].alive && world.slots[ti].generation == target.generation {
                    world.slots[ti].c.triggered = Some(payload);
                }
            }
            k = k + 1;
        }
        proof {
            assert(fires@.take(m as int) =~= fires@);
            lemma_apply_fires_frame(scanned, fires@);
            assert(forall|j: int|
                0 <= j < w0.slots@.len() ==> (#[trigger] scanned[j]).alive == w0.slots@[j].alive
                    && scanned[j].generation == w0.slots@[j].generation && scanned[j].c == (
                Components { trigger: scanned[j].c.trigger, ..w0.slots@[j].c }));
            assert(forall|j: int|
                0 <= j < w0.slots@.len() ==> {
                    let s = #[trigger] world.slots@[j];
                    &&& s.alive == w0.slots@[j].alive
                    &&& s.c.rigid_body == w0.slots@[j].c.rigid_body
                    &&& s.c.collider == w0.slots@[j].c.collider
                    &&& s.c.player == w0.slots@[j].c.player
                    &&& s.c.morph == w0.slots@[j].c.morph
                    &&& s.c.size == w0.slots@[j].c.size
                    &&& s.c.interpolated_position == w0.slots@[j].c.interpolated_position
                });
            assert(crate::sim::players_ok(*world));
            assert(crate::sim::handles_ok(*world, *physics));
            assert(crate::sim::bodies_injective(*world));
            assert(crate::sim::colliders_injective(*world));
        }
    }
}

impl Trigger {
    /// Spawns a trigger entity: a sensor box over `rect` that watches for
    /// the player and posts to the trigger's target.
    pub fn spawn(world: &mut World, physics: &mut Physics, entity: Entity, rect: Rect, trigger:
        Trigger)
        requires
            sim_wf(*old(world), *old(physics)),
            old(world).live(entity),
            rect.wf(),
        ensures
            sim_wf(*final(world), *final(physics)),
            final(world).live(entity),
            ({
                let c = final(world).comps(entity);
                &&& c == (Components {
                    trigger: Some(trigger),
                    position: Some(Position(Vec2i { x: rect.x, y: rect.y })),
                    size: Some(Size(Vec2i { x: rect.width, y: rect.height })),
                    collider: c.collider,
                    ..spec_no_components()
                })
                &&& c.collider is Some
                &&& final(physics).collider_live(c.collider->Some_0.0)
                &&& final(physics).collider_of(c.collider->Some_0.0) == (crate::physics::Collider {
                    parent: None,
                    position: rect.spec_center(),
                    shape: Shape::Cuboid { half: rect.spec_half_extents() },
                    groups: InteractionGroups {
                        memberships: CollisionGroups::TRIGGERS,
                        filter: CollisionGroups::PLAYER,
                    },
                    sensor: true,
                    restitution: 0,
                    user_data: entity.spec_to_bits(),
                })
                &&& !old(physics).collider_live(c.collider->Some_0.0)
            }),
            final(world).slots@.len() == old(world).slots@.len(),
            forall|g: Entity|
                (#[trigger] final(world).live(g)) == old(world).live(g),
            forall|g: Entity|
                g.index != entity.index && old(world).live(g) ==> (#[trigger] final(world).comps(
                g)) == old(world).comps(g),
            final(physics).bodies == old(physics).bodies,
            final(physics).gravity == old(physics).gravity,
            forall|h: crate::physics::ColliderHandle|
                old(physics).collider_live(h) ==> (#[trigger] final(physics).collider_live(h))
                    && final(physics).collider_of(h) == old(physics).collider_of(h),
    {
        let half = rect.half_extents();
        let collider = crate::physics::Collider {
            parent: None,
            position: rect.center(),
            shape: Shape::Cuboid { half },
            groups: InteractionGroups {
                memberships: CollisionGroups::TRIGGERS,
                filter: CollisionGroups::PLAYER,
            },
            sensor: true,
            restitution: 0,
            user_data: entity.to_bits(),
        };
        let ch = physics.insert_collider(collider);
        let mut c = Components::none();
        c.trigger = Some(trigger);
        c.position = Some(Position(rect.position()));
        c.size = Some(Size(rect.size()));
        c.collider = Some(crate::entities::Collider(ch));
        world.spawn_at(entity, c);
    }
}

/// Edge-triggering fires exactly once per overlap: a trigger whose
/// collider freshly overlaps fires on that tick, and while the overlap
/// persists through further ticks over the same geometry it never fires
/// again.
pub proof fn lemma_edge_trigger_fires_once(w0: World, p: Physics, w1: World, w2: World, i: int)
    requires
        spec_trigger_rel(w0, p, w1),
        spec_trigger_rel(w1, p, w2),
        spec_trigger_scans(w0, p, i),
        !w0.slots@[i].c.trigger->Some_0.triggered_this_tick,
        spec_trigger_hit(w0, p, i) is Some,
    ensures
        spec_trigger_fires(w0, p, i),
        w1.slots@[i].c.trigger->Some_0.triggered_this_tick,
        !spec_trigger_fires(w1, p, i),
{
    let scanned = Seq::new(w0.slots@.len(), |j: int| spec_trigger_scanned_slot(w0, p, j));
    lemma_apply_fires_frame(scanned, spec_fires_from(w0, p, 0));
    assert(w1.slots@[i].c.trigger == scanned[i].c.trigger);
    assert(w1.slots@[i].c.collider == w0.slots@[i].c.collider);
    assert(w1.slots@[i].alive == w0.slots@[i].alive);
    assert(spec_trigger_hit(w1, p, i) == spec_trigger_hit(w0, p, i));
}

/// Once the overlap ends the trigger re-arms: a tick without overlap
/// clears the flag, and a fresh overlap afterwards fires again.
pub proof fn lemma_edge_trigger_rearms(
    w1: World,
    p_apart: Physics,
    w2: World,
    p_back: Physics,
    i: int,
)
    requires
        spec_trigger_rel(w1, p_apart, w2),
        spec_trigger_scans(w1, p_apart, i),
        spec_trigger_hit(w1, p_apart, i) is None,
        spec_trigger_scans(w2, p_back, i),
        spec_trigger_hit(w2, p_back, i) is Some,
    ensures
        !w2.slots@[i].c.trigger->Some_0.triggered_this_tick,
        spec_trigger_fires(w2, p_back, i),
{
    let scanned = Seq::new(w1.slots@.len(), |j: int| spec_trigger_scanned_slot(w1, p_apart, j));
    lemma_apply_fires_frame(scanned, spec_fires_from(w1, p_apart, 0));
    assert(w2.slots@[i].c.trigger == scanned[i].c.trigger);
}

} // verus!
