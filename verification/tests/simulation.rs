//! End-to-end checks of the simulation core: spawning, ticking, death and
//! respawn, morphing, triggers, and the jump windows.

use morphsim::dead::Kill;
use morphsim::entities::tick_systems;
use morphsim::input::{joystick_of, InputFrame};
use morphsim::math::{vector, Rect, Vec2i, SCALE};
use morphsim::physics::{CollisionGroups, InteractionGroups, Physics};
use morphsim::player::{Morph, Player, JUMP_SUSTAIN};
use morphsim::colliders::RectCollider;
use morphsim::trigger::Trigger;
use morphsim::world::World;
use morphsim::zones::{ZoneKind, Zones};

fn gravity() -> Vec2i {
    vector(0, 40 * SCALE)
}

/// A world with a wide solid floor whose top edge lies at `y == 410`, so a
/// platformer body centered at the origin rests exactly on it.
fn floor_world() -> (World, Physics) {
    let mut world = World::new();
    let mut physics = Physics::new(gravity());
    let floor = world.reserve();
    RectCollider::spawn(
        &mut world,
        &mut physics,
        floor,
        Rect { x: -20 * SCALE, y: 410, width: 40 * SCALE, height: 4 * SCALE },
    );
    (world, physics)
}

fn spawn_platformer_player(world: &mut World, physics: &mut Physics) -> morphsim::world::Entity {
    // a platformer zone covering the spawn area morphs the player on spawn
    let zone = world.reserve();
    Zones::spawn(
        world,
        physics,
        zone,
        ZoneKind::Platformer,
        vector(0, 0),
        vector(40 * SCALE, 40 * SCALE),
        0,
    );
    let player = world.reserve();
    Player::spawn(world, physics, player, vector(0, 0));
    player
}

fn body_of(world: &World, physics: &Physics, e: morphsim::world::Entity) -> morphsim::physics::Body {
    let c = world.get(e).unwrap();
    physics.get_body(c.rigid_body.as_ref().unwrap().0).unwrap()
}

#[test]
fn player_spawn_resolves_morph() {
    let (mut world, mut physics) = floor_world();
    let player = spawn_platformer_player(&mut world, &mut physics);
    let c = world.get(player).unwrap();
    assert_eq!(c.morph, Some(Morph::Platformer));
    assert!(c.platformer.is_some());
    assert!(c.unshaped.is_none());
    assert_eq!(c.player.as_ref().unwrap().checkpoint, vector(0, 0));
}

#[test]
fn player_without_zone_defaults_to_unshaped() {
    let mut world = World::new();
    let mut physics = Physics::new(gravity());
    let player = world.reserve();
    Player::spawn(&mut world, &mut physics, player, vector(0, 0));
    let c = world.get(player).unwrap();
    assert_eq!(c.morph, Some(Morph::Unshaped));
    assert!(c.unshaped.is_some());
    assert!(c.platformer.is_none());
}

#[test]
fn standing_on_floor_is_stable() {
    let (mut world, mut physics) = floor_world();
    let player = spawn_platformer_player(&mut world, &mut physics);
    let input = InputFrame::idle();
    for _ in 0..10 {
        tick_systems(&mut world, &mut physics, &input);
        let b = body_of(&world, &physics, player);
        assert!(b.position.y.abs() <= 8, "player sank or launched: y = {}", b.position.y);
        assert_eq!(b.position.x, 0);
    }
}

#[test]
fn respawn_after_kill() {
    let (mut world, mut physics) = floor_world();
    let player = spawn_platformer_player(&mut world, &mut physics);
    // push the player somewhere else and mark it for death
    let h = world.get(player).unwrap().rigid_body.as_ref().unwrap().0;
    let b = physics.get_body(h).unwrap();
    physics.set_body(
        h,
        morphsim::physics::Body { position: vector(5 * SCALE, -3 * SCALE), velocity: vector(900, -800), ..b },
    );
    world.slots[player.index as usize].c.kill = Some(Kill { remaining_time: 1 });
    Kill::tick(&mut world);
    assert!(world.get(player).unwrap().dead.is_some());
    assert!(world.get(player).unwrap().kill.is_none());
    Player::tick(&mut world, &mut physics);
    let c = world.get(player).unwrap();
    assert!(c.dead.is_none());
    let b = physics.get_body(h).unwrap();
    assert_eq!(b.position, vector(0, 0));
    assert_eq!(b.velocity, vector(0, 0));
    let ip = c.interpolated_position.as_ref().unwrap().0;
    assert_eq!(ip.current, vector(0, 0));
    assert_eq!(ip.previous, vector(0, 0));
    assert_eq!(c.player.as_ref().unwrap().spawn_animation.elapsed, 0);
}

#[test]
fn deadly_zone_kills() {
    let (mut world, mut physics) = floor_world();
    let zone = world.reserve();
    Zones::spawn(
        &mut world,
        &mut physics,
        zone,
        ZoneKind::Deadly,
        vector(0, 0),
        vector(4 * SCALE, 4 * SCALE),
        0,
    );
    let player = world.reserve();
    Player::spawn(&mut world, &mut physics, player, vector(0, 0));
    // the spawn's own tick already detects the overlap
    assert!(world.get(player).unwrap().kill.is_some());
}

#[test]
fn edge_trigger_fires_exactly_once() {
    let (mut world, mut physics) = floor_world();
    let player = spawn_platformer_player(&mut world, &mut physics);
    let target = world.reserve();
    let trig = world.reserve();
    // a trigger box over the player's spawn point
    Trigger::spawn(
        &mut world,
        &mut physics,
        trig,
        Rect { x: -2 * SCALE, y: -2 * SCALE, width: 4 * SCALE, height: 4 * SCALE },
        Trigger::new(target, 7),
    );
    Trigger::tick(&mut world, &physics);
    let posted = world.get(target).unwrap().triggered;
    assert!(posted.is_some());
    assert_eq!(posted.unwrap().method, 7);
    assert_eq!(posted.unwrap().source, player);
    assert_eq!(posted.unwrap().trigger, trig);
    // consume the event; continuous overlap must not fire again
    world.slots[target.index as usize].c.triggered = None;
    for _ in 0..5 {
        Trigger::tick(&mut world, &physics);
        assert!(world.get(target).unwrap().triggered.is_none());
    }
    // moving the player away resets the trigger, coming back fires again
    let h = world.get(player).unwrap().rigid_body.as_ref().unwrap().0;
    let b = physics.get_body(h).unwrap();
    physics.set_body(h, morphsim::physics::Body { position: vector(100 * SCALE, 0), ..b });
    Trigger::tick(&mut world, &physics);
    assert!(world.get(target).unwrap().triggered.is_none());
    physics.set_body(h, morphsim::physics::Body { position: vector(0, 0), ..b });
    Trigger::tick(&mut world, &physics);
    assert!(world.get(target).unwrap().triggered.is_some());
}

/// Runs one jump: press on the first tick, hold for `hold` ticks, then
/// release, and report the highest point reached (smallest `y`).
fn jump_peak(hold: u32) -> i64 {
    let (mut world, mut physics) = floor_world();
    let player = spawn_platformer_player(&mut world, &mut physics);
    // settle for a few ticks first
    let idle = InputFrame::idle();
    for _ in 0..5 {
        tick_systems(&mut world, &mut physics, &idle);
    }
    let mut peak: i64 = i64::MAX;
    for t in 0..120u32 {
        let input = InputFrame {
            joystick: vector(0, 0),
            jump_down: t < hold,
            jump_pressed: t == 0,
        };
        tick_systems(&mut world, &mut physics, &input);
        let b = body_of(&world, &physics, player);
        if b.position.y < peak {
            peak = b.position.y;
        }
    }
    peak
}

#[test]
fn holding_jump_longer_jumps_higher() {
    let short = jump_peak(3);
    let full = jump_peak(JUMP_SUSTAIN as u32);
    assert!(short < 0, "a short jump must leave the ground, peak {}", short);
    assert!(full < short, "holding jump must jump higher: full {} short {}", full, short);
}

#[test]
fn jump_buffer_executes_on_landing() {
    // pressing jump while falling, shortly before touching down, still jumps
    let (mut world, mut physics) = floor_world();
    let player = spawn_platformer_player(&mut world, &mut physics);
    let idle = InputFrame::idle();
    for _ in 0..5 {
        tick_systems(&mut world, &mut physics, &idle);
    }
    // lift the player a little and let it fall
    let h = world.get(player).unwrap().rigid_body.as_ref().unwrap().0;
    let b = physics.get_body(h).unwrap();
    physics.set_body(h, morphsim::physics::Body { position: vector(0, -900), ..b });
    let press = InputFrame { joystick: vector(0, 0), jump_down: true, jump_pressed: true };
    tick_systems(&mut world, &mut physics, &press);
    // within the leeway the player lands and takes off again
    let mut jumped = false;
    for _ in 0..8 {
        let hold = InputFrame { joystick: vector(0, 0), jump_down: true, jump_pressed: false };
        tick_systems(&mut world, &mut physics, &hold);
        let b = body_of(&world, &physics, player);
        if b.velocity.y < -2000 {
            jumped = true;
        }
    }
    assert!(jumped, "the buffered jump must execute on landing");
}

#[test]
fn collision_group_masks_meet_for_death_detection() {
    // the death query runs with (PLAYER, DEADLY); a deadly zone collider has
    // (DEADLY, PLAYER): both directions of the mask test must pass
    let query = InteractionGroups::new(CollisionGroups::PLAYER, CollisionGroups::DEADLY);
    let deadly = InteractionGroups::new(CollisionGroups::DEADLY, CollisionGroups::PLAYER);
    assert!(query.compatible(deadly));
    assert!(deadly.compatible(query));
    // and the predicate is exactly the two mask intersections
    assert_eq!(
        query.compatible(deadly),
        (query.memberships & deadly.filter) != 0 && (deadly.memberships & query.filter) != 0
    );
    // a solids collider is not deadly
    let solids = InteractionGroups::new(CollisionGroups::SOLIDS, CollisionGroups::ALL);
    assert!(!query.compatible(solids));
}

#[test]
fn joystick_directions() {
    assert_eq!(joystick_of(false, false, false, false), vector(0, 0));
    assert_eq!(joystick_of(false, true, false, false), vector(SCALE, 0));
    assert_eq!(joystick_of(true, false, false, false), vector(-SCALE, 0));
    assert_eq!(joystick_of(false, false, true, false), vector(0, -SCALE));
    assert_eq!(joystick_of(false, true, false, true), vector(724, 724));
    assert_eq!(joystick_of(true, true, true, true), vector(0, 0));
}
