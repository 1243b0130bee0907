//! Marking entities for death, and the dead.

use vstd::prelude::*;
use crate::sim::{world_wf, comps_wf};
use crate::world::{Components, Slot, World};

verus! {

/// Marker keeping an entity around for a few more ticks (for example to
/// finish an animation) before it is made dead.
#[derive(Clone, Copy, PartialEq, Eq, Structural, Debug)]
pub struct Kill {
    /// Remaining ticks before the entity is made dead. The swap happens at
    /// the end of the tick that brings this to zero, so `0` acts the same
    /// as `1`.
    pub remaining_time: usize,
}

impl Kill {
    /// Creates a component that makes an entity dead after `n_ticks` ticks
    /// have passed.
    pub fn after(n_ticks: usize) -> (r: Kill)
        ensures
            r == (Kill { remaining_time: n_ticks }),
    {
        Kill { remaining_time: n_ticks }
    }
}

/// Marker for an entity that is dead: excluded from normal simulation and
/// rendering, but still a target for respawn logic.
#[derive(Clone, Copy, PartialEq, Eq, Structural, Debug)]
pub struct Dead;

/// What one tick does to a slot's death countdown: the counter falls by
/// one, and the tick that brings it to zero swaps the marker for [`Dead`].
pub open spec fn spec_kill_ticked(c: Components) -> Components {
    if c.kill is Some {
        let t = c.kill->Some_0.remaining_time;
        if t <= 1 {
            Components { kill: None, dead: Some(Dead), ..c }
        } else {
            Components { kill: Some(Kill { remaining_time: (t - 1) as usize }), ..c }
        }
    } else {
        c
    }
}

/// Relation between the worlds before and after one [`Kill::tick`].
pub open spec fn spec_kill_rel(w0: World, w1: World) -> bool {
    &&& w1.slots@.len() == w0.slots@.len()
    &&& forall|i: int|
        0 <= i < w0.slots@.len() ==> #[trigger] w1.slots@[i] == (Slot {
            c: spec_kill_ticked(w0.slots@[i].c),
            ..w0.slots@[i]
        })
}

impl Kill {
    /// Ticks every pending death in the world.
    pub fn tick(world: &mut World)
        requires
            world_wf(*old(world)),
        ensures
            final(world).slots@.len() == old(world).slots@.len(),
            forall|i: int|
                0 <= i < old(world).slots@.len() ==> #[trigger] final(world).slots@[i] == (Slot {
                    c: spec_kill_ticked(old(world).slots@[i].c),
                    ..old(world).slots@[i]
                }),
            world_wf(*final(world)),
    {
        let n = world.slots.len();
        let mut i: usize = 0;
        while i < n
            invariant
                world_wf(*old(world)),
                n == world.slots@.len(),
                world.slots@.len() == old(world).slots@.len(),
                i <= n,
                forall|j: int|
                    i <= j < n ==> #[trigger] world.slots@[j] == old(world).slots@[j],
                forall|j: int|
                    0 <= j < i ==> #[trigger] world.slots@[j] == (Slot {
                        c: spec_kill_ticked(old(world).slots@[j].c),
                        ..old(world).slots@[j]
                    }),
                forall|j: int| 0 <= j < i ==> comps_wf((#[trigger] world.slots@[j]).c),
            decreases n - i,
        {
            match world.slots[i].c.kill {
                Some(k) => {
                    if k.remaining_time <= 1 {
                        world.slots[i].c.kill = None;
                        world.slots[i].c.dead = Some(Dead);
                    } else {
                        world.slots[i].c.kill = Some(Kill {
                            remaining_time: k.remaining_time - 1,
                        });
                    }
                },
                None => {},
            }
            i = i + 1;
        }
    }
}

} // verus!
