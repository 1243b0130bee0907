//! Externally triggered checkpoints.

use vstd::prelude::*;
use crate::math::Vec2i;
use crate::player::Player;
use crate::sim::comps_wf;
use crate::world::{spec_no_components, Components, Entity, Slot, World};
use crate::entities::Position;

verus! {

/// Trigger method that moves the triggering entity's respawn position to
/// the checkpoint.
pub const SET_RESPAWN_POSITION: u32 = 0;

/// Marker for an entity that is a checkpoint.
#[derive(Clone, Copy, PartialEq, Eq, Structural, Debug)]
pub struct Checkpoint;

/// Whether the checkpoint in slot `i` completes a trigger this tick: an
/// occupied checkpoint carrying a posted event with the respawn method and
/// a position to hand out.
pub open spec fn spec_checkpoint_fires(w: World, i: int) -> bool {
    let c = w.slots@[i].c;
    &&& 0 <= i < w.slots@.len()
    &&& w.slots@[i].alive
    &&& c.checkpoint is Some
    &&& c.triggered is Some
    &&& c.triggered->Some_0.method == SET_RESPAWN_POSITION
    &&& c.position is Some
}

/// The completion record of the checkpoint in slot `i`: who triggered it,
/// and where the checkpoint stands.
pub open spec fn spec_checkpoint_payload(w: World, i: int) -> (Entity, Vec2i) {
    let c = w.slots@[i].c;
    (c.triggered->Some_0.source, c.position->Some_0.0)
}

/// The completions of the checkpoints in slots `i` and later, in slot
/// order. Each entry carries the checkpoint's own slot, the entity that
/// triggered it, and the checkpoint's position.
pub open spec fn spec_checkpoint_fires_from(w: World, i: int) -> Seq<(usize, Entity, Vec2i)>
    decreases w.slots@.len() - i,
{
    if i < 0 || i >= w.slots@.len() {
        Seq::empty()
    } else if spec_checkpoint_fires(w, i) {
        seq![
            (i as usize, spec_checkpoint_payload(w, i).0, spec_checkpoint_payload(w, i).1),
        ] + spec_checkpoint_fires_from(w, i + 1)
    } else {
        spec_checkpoint_fires_from(w, i + 1)
    }
}

/// Applies one completion: the checkpoint's posted event is consumed, and
/// if the triggering entity is still a live player its respawn position
/// moves to the checkpoint. A stale or playerless source just consumes
/// the event.
pub open spec fn spec_checkpoint_apply_one(slots: Seq<Slot>, f: (usize, Entity, Vec2i)) -> Seq<
    Slot> {
    let (i, source, pos) = f;
    let s1 = if (i as int) < slots.len() {
        slots.update(i as int, Slot {
            c: Components { triggered: None, ..slots[i as int].c },
            ..slots[i as int]
        })
    } else {
        slots
    };
    if source.index < s1.len() && s1[source.index as int].alive && s1[
        source.index as int].generation == source.generation && s1[
        source.index as int].c.player is Some {
        s1.update(source.index as int, Slot {
            c: Components {
                player: Some(Player {
                    checkpoint: pos,
                    ..s1[source.index as int].c.player->Some_0
                }),
                ..s1[source.index as int].c
            },
            ..s1[source.index as int]
        })
    } else {
        s1
    }
}

/// Applies the completions in order; a later checkpoint overwrites an
/// earlier one's respawn position.
pub open spec fn spec_checkpoint_apply(slots: Seq<Slot>, fs: Seq<(usize, Entity, Vec2i)>) -> Seq<
    Slot>
    decreases fs.len(),
{
    if fs.len() == 0 {
        slots
    } else {
        spec_checkpoint_apply(spec_checkpoint_apply_one(slots, fs[0]), fs.drop_first())
    }
}

/// Appending one completion to the batch is the same as applying it after
/// the batch.
pub proof fn lemma_checkpoint_apply_push(slots: Seq<Slot>, fs: Seq<(usize, Entity, Vec2i)>, f: (
    usize,
    Entity,
    Vec2i,
))
    ensures
        spec_checkpoint_apply(slots, fs.push(f)) == spec_checkpoint_apply_one(
            spec_checkpoint_apply(slots, fs), f),
    decreases fs.len(),
{
    let fp = fs.push(f);
    assert(fp.len() == fs.len() + 1);
    if fs.len() == 0 {
        assert(fp[0] == f);
        assert(fp.drop_first() =~= Seq::<(usize, Entity, Vec2i)>::empty());
        assert(spec_checkpoint_apply(slots, fp) == spec_checkpoint_apply(
            spec_checkpoint_apply_one(slots, f), fp.drop_first()));
    } else {
        assert(fp[0] == fs[0]);
        assert(fp.drop_first() =~= fs.drop_first().push(f));
        assert(spec_checkpoint_apply(slots, fp) == spec_checkpoint_apply(
            spec_checkpoint_apply_one(slots, fs[0]), fp.drop_first()));
        lemma_checkpoint_apply_push(spec_checkpoint_apply_one(slots, fs[0]), fs.drop_first(), f);
    }
}

/// Applying completions changes nothing but `triggered` and `player`
/// components.
pub proof fn lemma_checkpoint_apply_frame(slots: Seq<Slot>, fs: Seq<(usize, Entity, Vec2i)>)
    ensures
        spec_checkpoint_apply(slots, fs).len() == slots.len(),
        forall|j: int|
            0 <= j < slots.len() ==> {
                let s = #[trigger] spec_checkpoint_apply(slots, fs)[j];
                &&& s.generation == slots[j].generation
                &&& s.alive == slots[j].alive
                &&& s.c == (Components { triggered: s.c.triggered, player: s.c.player, ..slots[
                    j].c })
                &&& (s.c.player is Some) == (slots[j].c.player is Some)
            },
    decreases fs.len(),
{
    if fs.len() == 0 {
    } else {
        lemma_checkpoint_apply_frame(spec_checkpoint_apply_one(slots, fs[0]), fs.drop_first());
    }
}

/// Relation between the worlds before and after one checkpoint tick.
pub open spec fn spec_checkpoint_rel(w0: World, w1: World) -> bool {
    w1.slots@ == spec_checkpoint_apply(w0.slots@, spec_checkpoint_fires_from(w0, 0))
}

impl Checkpoint {
    /// Ticks checkpoints: every checkpoint whose trigger posted the
    /// respawn method moves the triggering player's respawn position to
    /// the checkpoint and consumes the event.
    pub fn tick(world: &mut World)
        requires
            crate::sim::world_wf(*old(world)),
        ensures
            crate::sim::world_wf(*final(world)),
            spec_checkpoint_rel(*old(world), *final(world)),
            final(world).slots@.len() == old(world).slots@.len(),
            forall|j: int|
                0 <= j < old(world).slots@.len() ==> {
                    let s = #[trigger] final(world).slots@[j];
                    &&& s.generation == old(world).slots@[j].generation
                    &&& s.alive == old(world).slots@[j].alive
                    &&& s.c == (Components {
                        triggered: s.c.triggered,
                        player: s.c.player,
                        ..old(world).slots@[j].c
                    })
                    &&& (s.c.player is Some) == (old(world).slots@[j].c.player is Some)
                },
    {
        let ghost w0 = *old(world);
        let n = world.slots.len();
        let mut fs: Vec<(usize, Entity, Vec2i)> = Vec::new();
        let mut i: usize = 0;
        while i < n
            invariant
                crate::sim::world_wf(w0),
                w0 == *old(world),
                *world == w0,
                n == world.slots@.len(),
                i <= n,
                spec_checkpoint_fires_from(w0, 0) == fs@ + spec_checkpoint_fires_from(w0,
                    i as int),
                forall|kk: int|
                    0 <= kk < fs@.len() ==> -crate::math::COORD_MAX <= (#[trigger] fs@[kk]).2.x
                        <= crate::math::COORD_MAX && -crate::math::COORD_MAX <= fs@[kk].2.y
                        <= crate::math::COORD_MAX,
            decreases n - i,
        {
            let fires = world.slots[i].alive && world.slots[i].c.checkpoint.is_some()
                && world.slots[i].c.triggered.is_some() && world.slots[i].c.position.is_some();
            if fires {
                let t = match world.slots[i].c.triggered {
                    Some(t) => t,
                    None => unreached(),
                };
                if t.method == SET_RESPAWN_POSITION {
                    let pos = match world.slots[i].c.position {
                        Some(p) => p.0,
                        None => unreached(),
                    };
                    fs.push((i, t.source, pos));
                    proof {
                        assert(fs@.last() == (i as usize, spec_checkpoint_payload(w0,
                            i as int).0, spec_checkpoint_payload(w0, i as int).1));
                        assert(spec_checkpoint_fires_from(w0, i as int) == seq![
                            (i as usize, spec_checkpoint_payload(w0, i as int).0,
                            spec_checkpoint_payload(w0, i as int).1),
                        ] + spec_checkpoint_fires_from(w0, i as int + 1));
                        assert(fs@ + spec_checkpoint_fires_from(w0, i as int + 1)
                            =~= fs@.drop_last() + spec_checkpoint_fires_from(w0, i as int));
                    }
                } else {
                    proof {
                        assert(!spec_checkpoint_fires(w0, i as int));
                    }
                }
            } else {
                proof {
                    assert(!spec_checkpoint_fires(w0, i as int));
                }
            }
            i = i + 1;
        }
        proof {
            assert(spec_checkpoint_fires_from(w0, n as int) =~= Seq::<(usize, Entity,
                Vec2i)>::empty());
            assert(fs@ + spec_checkpoint_fires_from(w0, n as int) =~= fs@);
            assert(spec_checkpoint_fires_from(w0, 0) == fs@);
        }
        let m = fs.len();
        let mut k: usize = 0;
        while k < m
            invariant
                crate::sim::world_wf(w0),
                w0 == *old(world),
                m == fs@.len(),
                k <= m,
                world.slots@.len() == w0.slots@.len(),
                spec_checkpoint_fires_from(w0, 0) == fs@,
                world.slots@ == spec_checkpoint_apply(w0.slots@, fs@.take(k as int)),
                forall|j: int|
                    0 <= j < world.slots@.len() ==> comps_wf((#[trigger] world.slots@[j]).c),
                forall|kk: int|
                    0 <= kk < fs@.len() ==> -crate::math::COORD_MAX <= (#[trigger] fs@[kk]).2.x
                        <= crate::math::COORD_MAX && -crate::math::COORD_MAX <= fs@[kk].2.y
                        <= crate::math::COORD_MAX,
            decreases m - k,
        {
            let (ci, source, pos) = fs[k];
            proof {
                assert(fs@.take(k as int).push(fs@[k as int]) =~= fs@.take(k as int + 1));
                lemma_checkpoint_apply_push(w0.slots@, fs@.take(k as int), fs@[k as int]);
            }
            if ci < world.slots.len() {
                world.slots[ci].c.triggered = None;
            }
            let si = source.index as usize;
            if si < world.slots.len() {
                if world.slots[si].alive && world.slots[si].generation == source.generation
                    && world.slots[si].c.player.is_some() {
                    let pl = match world.slots[si].c.player {
                        Some(p) => p,
                        None => unreached(),
                    };
                    world.slots[si].c.player = Some(Player { checkpoint: pos, ..pl });
                }
            }
            k = k + 1;
        }
        proof {
            assert(fs@.take(m as int) =~= fs@);
            lemma_checkpoint_apply_frame(w0.slots@, fs@);
        }
    }
}

impl Checkpoint {
    /// Spawns a checkpoint at the given position. Checkpoints carry no
    /// collider of their own; the level wires a separate trigger entity at
    /// them.
    pub fn spawn(world: &mut World, entity: Entity, position: Vec2i)
        requires
            crate::sim::world_wf(*old(world)),
            old(world).live(entity),
            position.bounded(crate::math::COORD_MAX as int),
        ensures
            crate::sim::world_wf(*final(world)),
            final(world).live(entity),
            final(world).comps(entity) == (Components {
                checkpoint: Some(Checkpoint),
                position: Some(Position(position)),
                ..spec_no_components()
            }),
            forall|g: Entity|
                (#[trigger] final(world).live(g)) == old(world).live(g),
            forall|g: Entity|
                g.index != entity.index && old(world).live(g) ==> (#[trigger] final(world).comps(
                g)) == old(world).comps(g),
            final(world).slots@.len() == old(world).slots@.len(),
            forall|i: int|
                0 <= i < old(world).slots@.len() && i != entity.index ==> #[trigger] final(
                world).slots@[i] == old(world).slots@[i],
            final(world).slots@[entity.index as int].alive == old(world).slots@[
                entity.index as int].alive,
            final(world).slots@[entity.index as int].generation == old(world).slots@[
                entity.index as int].generation,
    {
        let mut c = Components::none();
        c.checkpoint = Some(Checkpoint);
        c.position = Some(Position(position));
        world.spawn_at(entity, c);
    }
}

} // verus!
