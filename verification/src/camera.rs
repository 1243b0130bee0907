//! Camera state: which view region an entity stands in, and the smoothed
//! viewport that follows it.

use vstd::prelude::*;
use crate::interpolation::Interpolated;
use crate::math::{lemma_lerp64_bounds, Vec2i, COORD_MAX, SCALE};
use crate::physics::{CollisionGroups, InteractionGroups, Physics, Shape};
use crate::sim::{comps_wf, sim_wf, world_wf};
use crate::world::{spec_entity_from_bits, spec_no_components, Components, Entity, Slot, World};
use crate::entities::{Position, Size};
use crate::math::Rect;

verus! {

/// Marker for an entity that is a camera view: a static rectangular region
/// the camera may frame.
#[derive(Clone, Copy, PartialEq, Eq, Structural, Debug)]
pub struct CameraView;

/// Camera state carried by a tracked entity.
#[derive(Clone, Copy, Debug)]
pub struct Camera {
    /// The view region the entity currently stands in, if any.
    pub view: Option<Entity>,
    /// Smoothed top-left corner of the viewport.
    pub position: Interpolated<Vec2i>,
    /// Smoothed extents of the viewport.
    pub size: Interpolated<Vec2i>,
}

impl Camera {
    /// The smoothed values stay in the world's coordinate range.
    pub open spec fn wf(self) -> bool {
        &&& self.position.current.bounded(COORD_MAX as int)
        &&& self.position.previous.bounded(COORD_MAX as int)
        &&& self.size.current.bounded(COORD_MAX as int)
        &&& self.size.previous.bounded(COORD_MAX as int)
    }

    /// Creates a camera looking at nothing, resting at the origin.
    pub fn new() -> (r: Camera)
        ensures
            r == (Camera {
                view: None,
                position: Interpolated {
                    current: Vec2i { x: 0, y: 0 },
                    previous: Vec2i { x: 0, y: 0 },
                },
                size: Interpolated {
                    current: Vec2i { x: 0, y: 0 },
                    previous: Vec2i { x: 0, y: 0 },
                },
            }),
            r.wf(),
    {
        Camera {
            view: None,
            position: Interpolated::new(Vec2i { x: 0, y: 0 }),
            size: Interpolated::new(Vec2i { x: 0, y: 0 }),
        }
    }
}

/// How far the camera moves towards its target each tick, per `SCALE`.
pub const ANIMATION_SPEED: i64 = 205;

/// Whether slot `i` holds a camera the view scan looks at: an occupied
/// slot with a camera, a live body and a live collider.
pub open spec fn spec_camera_scans(w: World, p: Physics, i: int) -> bool {
    let c = w.slots@[i].c;
    &&& 0 <= i < w.slots@.len()
    &&& w.slots@[i].alive
    &&& c.camera is Some
    &&& c.rigid_body is Some
    &&& c.collider is Some
    &&& p.body_live(c.rigid_body->Some_0.0)
    &&& p.collider_live(c.collider->Some_0.0)
}

/// The view region the camera in slot `i` currently stands in: a point
/// probe at the body's position against the camera-views group, decoded to
/// the owning entity through the hit collider's user data.
pub open spec fn spec_current_view(w: World, p: Physics, i: int) -> Option<Entity> {
    let c = w.slots@[i].c;
    match p.spec_first_hit(p.body_of(c.rigid_body->Some_0.0).position, Vec2i { x: 10, y: 10 },
        InteractionGroups {
            memberships: p.collider_of(c.collider->Some_0.0).groups.memberships,
            filter: CollisionGroups::CAMERA_VIEWS,
        }) {
        Some(k) => Some(spec_entity_from_bits(p.colliders@[k].collider->Some_0.user_data)),
        None => None,
    }
}

/// What the view scan leaves in slot `i`.
pub open spec fn spec_camera_viewed_comps(w: World, p: Physics, i: int) -> Components {
    let c = w.slots@[i].c;
    if spec_camera_scans(w, p, i) {
        Components {
            camera: Some(Camera { view: spec_current_view(w, p, i), ..c.camera->Some_0 }),
            ..c
        }
    } else {
        c
    }
}

/// Relation between the worlds before and after the view scan.
pub open spec fn spec_update_view_rel(w0: World, p: Physics, w1: World) -> bool {
    &&& w1.slots@.len() == w0.slots@.len()
    &&& forall|i: int|
        0 <= i < w0.slots@.len() ==> #[trigger] w1.slots@[i] == (Slot {
            c: spec_camera_viewed_comps(w0, p, i),
            ..w0.slots@[i]
        })
}

/// What the animation step leaves in slot `i` of the scanned world: a
/// camera looking at a live view with a position and size eases one
/// `ANIMATION_SPEED` fraction of the way towards the view's rectangle,
/// advancing its interpolation pair; any other camera stays put.
pub open spec fn spec_camera_animated_comps(slots: Seq<Slot>, i: int) -> Components {
    let c = slots[i].c;
    if slots[i].alive && c.camera is Some && c.camera->Some_0.view is Some {
        let cam = c.camera->Some_0;
        let v = cam.view->Some_0;
        if v.index < slots.len() && slots[v.index as int].alive && slots[
            v.index as int].generation == v.generation && slots[v.index as int].c.position is Some
            && slots[v.index as int].c.size is Some {
            let target_pos = slots[v.index as int].c.position->Some_0.0;
            let target_size = slots[v.index as int].c.size->Some_0.0;
            Components {
                camera: Some(Camera {
                    position: Interpolated {
                        previous: cam.position.current,
                        current: cam.position.current.spec_lerp(target_pos, ANIMATION_SPEED
                            as int),
                    },
                    size: Interpolated {
                        previous: cam.size.current,
                        current: cam.size.current.spec_lerp(target_size, ANIMATION_SPEED as int),
                    },
                    ..cam
                }),
                ..c
            }
        } else {
            c
        }
    } else {
        c
    }
}

/// Relation between the worlds before and after one full camera tick:
/// first every camera's current view is refreshed, then every camera with
/// a view eases towards it.
pub open spec fn spec_camera_rel(w0: World, p: Physics, w1: World) -> bool {
    let viewed = Seq::new(w0.slots@.len(), |i: int| Slot {
        c: spec_camera_viewed_comps(w0, p, i),
        ..w0.slots@[i]
    });
    &&& w1.slots@.len() == w0.slots@.len()
    &&& forall|i: int|
        0 <= i < w0.slots@.len() ==> #[trigger] w1.slots@[i] == (Slot {
            c: spec_camera_animated_comps(viewed, i),
            ..viewed[i]
        })
}

impl Camera {
    /// Refreshes which view region each camera currently stands in.
    fn update_current_view(world: &mut World, physics: &Physics)
        requires
            sim_wf(*old(world), *physics),
        ensures
            sim_wf(*final(world), *physics),
            spec_update_view_rel(*old(world), *physics, *final(world)),
    {
        let n = world.slots.len();
        let mut i: usize = 0;
        while i < n
            invariant
                sim_wf(*old(world), *physics),
                n == world.slots@.len(),
                world.slots@.len() == old(world).slots@.len(),
                i <= n,
                forall|j: int|
                    i <= j < n ==> #[trigger] world.slots@[j] == old(world).slots@[j],
                forall|j: int|
                    0 <= j < i ==> #[trigger] world.slots@[j] == (Slot {
                        c: spec_camera_viewed_comps(*old(world), *physics, j),
                        ..old(world).slots@[j]
                    }),
                forall|j: int| 0 <= j < i ==> comps_wf((#[trigger] world.slots@[j]).c),
            decreases n - i,
        {
            let scans = world.slots[i].alive && world.slots[i].c.camera.is_some() && world.slots[
                i].c.rigid_body.is_some() && world.slots[i].c.collider.is_some();
            if scans {
                let cam = match world.slots[i].c.camera {
                    Some(c) => c,
                    None => unreached(),
                };
                let h = match world.slots[i].c.rigid_body {
                    Some(rb) => rb.0,
                    None => unreached(),
                };
                let ch = match world.slots[i].c.collider {
                    Some(c) => c.0,
                    None => unreached(),
                };
                let b = physics.body(h);
                let groups = InteractionGroups {
                    memberships: physics.collider(ch).groups.memberships,
                    filter: CollisionGroups::CAMERA_VIEWS,
                };
                let probe = Shape::Ball { radius: 10 };
                let view = match physics.intersection_with_shape(b.position, probe, groups) {
                    Some(vc) => Some(Entity::from_bits(physics.collider(vc).user_data)),
                    None => None,
                };
                world.slots[i].c.camera = Some(Camera { view, ..cam });
            }
            i = i + 1;
        }
    }

    /// Ticks cameras: refreshes each camera's current view, then eases
    /// every camera with a view towards its view's rectangle. Cameras
    /// never snap, except through [`Camera::warp`].
    pub fn tick(world: &mut World, physics: &Physics)
        requires
            sim_wf(*old(world), *physics),
        ensures
            sim_wf(*final(world), *physics),
            spec_camera_rel(*old(world), *physics, *final(world)),
    {
        Camera::update_current_view(world, physics);
        let ghost viewed = world.slots@;
        let n = world.slots.len();
        let mut i: usize = 0;
        while i < n
            invariant
                sim_wf(*old(world), *physics),
                n == viewed.len(),
                world.slots@.len() == viewed.len(),
                i <= n,
                world_wf(*world),
                crate::sim::players_ok(*world),
                crate::sim::handles_ok(*world, *physics),
                crate::sim::bodies_injective(*world),
                crate::sim::colliders_injective(*world),
                forall|j: int|
                    i <= j < n ==> #[trigger] world.slots@[j] == viewed[j],
                forall|j: int|
                    0 <= j < i ==> #[trigger] world.slots@[j] == (Slot {
                        c: spec_camera_animated_comps(viewed, j),
                        ..viewed[j]
                    }),
                forall|j: int|
                    0 <= j < viewed.len() ==> (#[trigger] world.slots@[j]).alive == viewed[
                    j].alive && world.slots@[j].generation == viewed[j].generation
                        && world.slots@[j].c.position == viewed[j].c.position && world.slots@[
                    j].c.size == viewed[j].c.size,
            decreases n - i,
        {
            let animates = world.slots[i].alive && world.slots[i].c.camera.is_some();
            if animates {
                let cam = match world.slots[i].c.camera {
                    Some(c) => c,
                    None => unreached(),
                };
                match cam.view {
                    Some(v) => {
                        let vi = v.index as usize;
                        if vi < world.slots.len() {
                            let target_ok = world.slots[vi].alive && world.slots[vi].generation
                                == v.generation && world.slots[vi].c.position.is_some()
                                && world.slots[vi].c.size.is_some();
                            if target_ok {
                                let target_pos = match world.slots[vi].c.position {
                                    Some(p) => p.0,
                                    None => unreached(),
                                };
                                let target_size = match world.slots[vi].c.size {
                                    Some(s) => s.0,
                                    None => unreached(),
                                };
                                proof {
                                    lemma_lerp64_bounds(cam.position.current.x as int,
                                        target_pos.x as int, ANIMATION_SPEED as int);
                                    lemma_lerp64_bounds(cam.position.current.y as int,
                                        target_pos.y as int, ANIMATION_SPEED as int);
                                    lemma_lerp64_bounds(cam.size.current.x as int,
                                        target_size.x as int, ANIMATION_SPEED as int);
                                    lemma_lerp64_bounds(cam.size.current.y as int,
                                        target_size.y as int, ANIMATION_SPEED as int);
                                }
                                let np = cam.position.current.lerp(target_pos, ANIMATION_SPEED);
                                let ns = cam.size.current.lerp(target_size, ANIMATION_SPEED);
                                world.slots[i].c.camera = Some(Camera {
                                    position: Interpolated {
                                        previous: cam.position.current,
                                        current: np,
                                    },
                                    size: Interpolated { previous: cam.size.current, current: ns },
                                    ..cam
                                });
                            }
                        }
                    },
                    None => {},
                }
            }
            i = i + 1;
        }
    }

    /// Warps an entity's camera instantly to the view it stands in, with
    /// the interpolation history reset, so no pan is visible; used at
    /// spawn to avoid a pop.
    pub fn warp(world: &mut World, physics: &Physics, entity: Entity)
        requires
            sim_wf(*old(world), *physics),
        ensures
            sim_wf(*final(world), *physics),
            spec_warp_rel(*old(world), *physics, *final(world), entity),
    {
        Camera::update_current_view(world, physics);
        let ghost w_v = *world;
        let applies = (entity.index as usize) < world.slots.len();
        if applies {
            let i = entity.index as usize;
            let warps = world.slots[i].alive && world.slots[i].generation == entity.generation
                && world.slots[i].c.camera.is_some();
            if warps {
                let cam = match world.slots[i].c.camera {
                    Some(c) => c,
                    None => unreached(),
                };
                match cam.view {
                    Some(v) => {
                        let vi = v.index as usize;
                        if vi < world.slots.len() {
                            let target_ok = world.slots[vi].alive && world.slots[vi].generation
                                == v.generation && world.slots[vi].c.position.is_some()
                                && world.slots[vi].c.size.is_some();
                            if target_ok {
                                let target_pos = match world.slots[vi].c.position {
                                    Some(p) => p.0,
                                    None => unreached(),
                                };
                                let target_size = match world.slots[vi].c.size {
                                    Some(s) => s.0,
                                    None => unreached(),
                                };
                                world.slots[i].c.camera = Some(Camera {
                                    position: Interpolated {
                                        previous: target_pos,
                                        current: target_pos,
                                    },
                                    size: Interpolated {
                                        previous: target_size,
                                        current: target_size,
                                    },
                                    ..cam
                                });
                            }
                        }
                    },
                    None => {},
                }
            }
        }
    }
}

/// Relation between the worlds before and after [`Camera::warp`]: views
/// are refreshed everywhere, then the one entity's camera snaps to its
/// view.
pub open spec fn spec_warp_rel(w0: World, p: Physics, w1: World, e: Entity) -> bool {
    exists|w_v: World|
        {
            &&& #[trigger] spec_update_view_rel(w0, p, w_v)
            &&& w1.slots@.len() == w_v.slots@.len()
            &&& forall|j: int|
                0 <= j < w_v.slots@.len() && j != e.index ==> w1.slots@[j] == w_v.slots@[j]
            &&& (e.index as int) < w_v.slots@.len() ==> w1.slots@[e.index as int] == (Slot {
                c: spec_camera_warped_comps(w_v, e),
                ..w_v.slots@[e.index as int]
            })
            &&& (e.index as int) >= w_v.slots@.len() ==> w1.slots@ == w_v.slots@
        }
}

/// What a warp leaves in the warped entity's slot: if it is a live camera
/// holder whose view is live with a position and size, both interpolation
/// pairs rest exactly at the view's rectangle.
pub open spec fn spec_camera_warped_comps(w: World, e: Entity) -> Components {
    let c = w.slots@[e.index as int].c;
    if w.live(e) && c.camera is Some && c.camera->Some_0.view is Some {
        let cam = c.camera->Some_0;
        let v = cam.view->Some_0;
        if v.index < w.slots@.len() && w.slots@[v.index as int].alive && w.slots@[
            v.index as int].generation == v.generation && w.slots@[v.index as int].c.position
            is Some && w.slots@[v.index as int].c.size is Some {
            let target_pos = w.slots@[v.index as int].c.position->Some_0.0;
            let target_size = w.slots@[v.index as int].c.size->Some_0.0;
            Components {
                camera: Some(Camera {
                    position: Interpolated { previous: target_pos, current: target_pos },
                    size: Interpolated { previous: target_size, current: target_size },
                    ..cam
                }),
                ..c
            }
        } else {
            c
        }
    } else {
        c
    }
}

impl CameraView {
    /// Spawns a camera view: a static region over `rect` that cameras can
    /// find through a point query; the view entity is recorded in the
    /// collider's user data.
    pub fn spawn(world: &mut World, physics: &mut Physics, entity: Entity, rect: Rect)
        requires
            sim_wf(*old(world), *old(physics)),
            old(world).live(entity),
            rect.wf(),
        ensures
            sim_wf(*final(world), *final(physics)),
            final(world).live(entity),
            ({
                let c = final(world).comps(entity);
                &&& c == (Components {
                    camera_view: Some(CameraView),
                    position: Some(Position(Vec2i { x: rect.x, y: rect.y })),
                    size: Some(Size(Vec2i { x: rect.width, y: rect.height })),
                    collider: c.collider,
                    ..spec_no_components()
                })
                &&& c.collider is Some
                &&& final(physics).collider_live(c.collider->Some_0.0)
                &&& final(physics).collider_of(c.collider->Some_0.0) == (crate::physics::Collider {
                    parent: None,
                    position: rect.spec_center(),
                    shape: Shape::Cuboid { half: rect.spec_half_extents() },
                    groups: InteractionGroups {
                        memberships: CollisionGroups::CAMERA_VIEWS,
                        filter: CollisionGroups::PLAYER,
                    },
                    sensor: false,
                    restitution: 0,
                    user_data: entity.spec_to_bits(),
                })
            }),
            final(world).slots@.len() == old(world).slots@.len(),
            forall|g: Entity|
                (#[trigger] final(world).live(g)) == old(world).live(g),
            forall|g: Entity|
                g.index != entity.index && old(world).live(g) ==> (#[trigger] final(world).comps(
                g)) == old(world).comps(g),
            final(physics).bodies == old(physics).bodies,
            final(physics).gravity == old(physics).gravity,
            forall|h: crate::physics::ColliderHandle|
                old(physics).collider_live(h) ==> (#[trigger] final(physics).collider_live(h))
                    && final(physics).collider_of(h) == old(physics).collider_of(h),
    {
        let half = rect.half_extents();
        let collider = crate::physics::Collider {
            parent: None,
            position: rect.center(),
            shape: Shape::Cuboid { half },
            groups: InteractionGroups {
                memberships: CollisionGroups::CAMERA_VIEWS,
                filter: CollisionGroups::PLAYER,
            },
            sensor: false,
            restitution: 0,
            user_data: entity.to_bits(),
        };
        let ch = physics.insert_collider(collider);
        let mut c = Components::none();
        c.camera_view = Some(CameraView);
        c.position = Some(Position(rect.position()));
        c.size = Some(Size(rect.size()));
        c.collider = Some(crate::entities::Collider(ch));
        world.spawn_at(entity, c);
    }
}

} // verus!
