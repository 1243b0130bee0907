//! Unit checks of the smaller pieces: interpolation, tweens, tiles, the
//! property bag and the object loader.

use morphsim::interpolation::Interpolated;
use morphsim::level::{
    create_tile_layer, ChunkData, EntityKind, Loader, ObjectData, Properties, Property,
    PropertyValue, SpawnError,
};
use morphsim::math::{lerp64, vector, Vec2i, SCALE};
use morphsim::physics::Physics;
use morphsim::tiles::{Axis, Corner, Side, Sides, TileKind, Tileset};
use morphsim::tween::{ease, Easing, Tween};
use morphsim::world::World;
use morphsim::checkpoint::Checkpoint;
use morphsim::trigger::Triggered;

#[test]
fn lerp_endpoints_and_bounds() {
    assert_eq!(lerp64(100, 300, 0), 100);
    assert_eq!(lerp64(100, 300, SCALE), 300);
    assert_eq!(lerp64(100, 300, SCALE / 2), 200);
    assert_eq!(lerp64(300, 100, SCALE), 100);
    for t in [0, 1, 100, 511, 512, 1000, 1024] {
        let v = lerp64(-50, 70, t);
        assert!((-50..=70).contains(&v));
        let w = lerp64(70, -50, t);
        assert!((-50..=70).contains(&w));
    }
}

#[test]
fn interpolated_update_shifts_history() {
    let mut ip: Interpolated<Vec2i> = Interpolated::new(vector(10, 20));
    assert_eq!(ip.current(), vector(10, 20));
    ip.update(vector(30, 40));
    assert_eq!(ip.previous, vector(10, 20));
    assert_eq!(ip.current, vector(30, 40));
    assert_eq!(ip.lerp(0), vector(10, 20));
    assert_eq!(ip.lerp(SCALE), vector(30, 40));
    ip.set(vector(50, 60));
    assert_eq!(ip.previous, vector(10, 20));
    ip.reset();
    assert_eq!(ip.previous, vector(50, 60));
}

#[test]
fn easing_endpoints() {
    assert_eq!(ease(Easing::Linear, 0), 0);
    assert_eq!(ease(Easing::Linear, SCALE), SCALE);
    assert_eq!(ease(Easing::CubicOut, 0), 0);
    assert_eq!(ease(Easing::CubicOut, SCALE), SCALE);
    assert_eq!(ease(Easing::BounceOut, 0), 0);
    assert_eq!(ease(Easing::BounceOut, SCALE), SCALE);
    // the bounce overshoots somewhere in the middle
    let mut overshot = false;
    for x in 0..=1024 {
        if ease(Easing::BounceOut, x) > SCALE {
            overshot = true;
        }
    }
    assert!(overshot);
}

#[test]
fn tween_runs_to_its_end() {
    let mut t = Tween::new(5 * SCALE);
    assert_eq!(t.get(), 5 * SCALE);
    t.start(0, SCALE, 4, Easing::Linear);
    assert_eq!(t.get(), 0);
    t.advance();
    assert_eq!(t.get(), SCALE / 4);
    t.advance();
    assert_eq!(t.get(), SCALE / 2);
    t.advance();
    t.advance();
    assert_eq!(t.get(), SCALE);
    t.advance();
    assert_eq!(t.get(), SCALE);
}

#[test]
fn tile_sides_and_spikes() {
    assert_eq!(TileKind::SolidTop.side(), Some(Side::Top));
    assert_eq!(TileKind::SolidLeftFadeTop.side(), Some(Side::Left));
    assert_eq!(TileKind::SolidTile.side(), None);
    assert_eq!(TileKind::SpikesUp.spike_direction(), Some(Side::Top));
    assert_eq!(TileKind::SpikesLeft.spike_direction(), Some(Side::Left));
    assert_eq!(TileKind::SolidTop.spike_direction(), None);
    assert_eq!(TileKind::SolidCornerTopLeft.corner(), Some(Corner::TopLeft));
    assert_eq!(TileKind::SolidTile.corner(), None);
    assert_eq!(Side::Top.axis(), Axis::X);
    assert_eq!(Side::Left.axis(), Axis::Y);
    let s = Sides::try_from(TileKind::SolidVTop).unwrap();
    assert!(s.contains(Sides::TOP));
    assert!(s.contains(Sides::LEFT));
    assert!(s.contains(Sides::RIGHT));
    assert!(!s.contains(Sides::BOTTOM));
    assert_eq!(Sides::try_from(TileKind::SolidTile).unwrap().bits, Sides::ALL);
    assert!(Sides::try_from(TileKind::SlopeUp).is_err());
}

#[test]
fn spike_tile_kills_the_player() {
    let mut world = World::new();
    let mut physics = Physics::new(vector(0, 40 * SCALE));
    // one chunk with spikes on tile (0, 0); tile ids are shifted by one
    let mut data = vec![0u16; 64];
    data[0] = 2;
    let tileset = Tileset { kinds: vec![TileKind::Empty, TileKind::SpikesUp] };
    let chunks = create_tile_layer(
        vec![ChunkData { x: 0, y: 0, data }],
        &tileset,
        &mut physics,
    );
    assert_eq!(chunks.len(), 1);
    assert_eq!(chunks[0].tiles[0], 1);
    // a player on the spike tile is marked for death by its first tick
    let player = world.reserve();
    morphsim::player::Player::spawn(&mut world, &mut physics, player, vector(SCALE / 2, SCALE / 2));
    assert!(world.get(player).unwrap().kill.is_some());
}

fn object(id: u32, kind_props: Properties) -> ObjectData {
    ObjectData {
        id,
        x: 0,
        y: 0,
        width: 2 * SCALE,
        height: 2 * SCALE,
        rotation: 0,
        properties: kind_props,
        text: None,
    }
}

#[test]
fn trigger_object_needs_a_target() {
    let mut world = World::new();
    let mut physics = Physics::new(vector(0, 40 * SCALE));
    let mut loader = Loader::new();
    let r = loader.spawn_entity(EntityKind::Trigger, object(1, Properties::new()), &mut world, &mut physics);
    assert_eq!(r, Err(SpawnError::MissingTriggerTarget));
    let props = Properties {
        entries: vec![Property { name: "trigger".to_owned(), value: PropertyValue::Int(3) }],
    };
    let r = loader.spawn_entity(EntityKind::Trigger, object(2, props), &mut world, &mut physics);
    assert_eq!(r, Err(SpawnError::TriggerTargetNotObject));
    let props = Properties {
        entries: vec![
            Property { name: "trigger".to_owned(), value: PropertyValue::Object(9) },
            Property { name: "method".to_owned(), value: PropertyValue::Bool(true) },
        ],
    };
    let r = loader.spawn_entity(EntityKind::Trigger, object(3, props), &mut world, &mut physics);
    assert_eq!(r, Err(SpawnError::MethodNotInt));
    let props = Properties {
        entries: vec![
            Property { name: "trigger".to_owned(), value: PropertyValue::Object(9) },
            Property { name: "method".to_owned(), value: PropertyValue::Int(4) },
        ],
    };
    let r = loader.spawn_entity(EntityKind::Trigger, object(4, props), &mut world, &mut physics);
    assert_eq!(r, Ok(()));
}

#[test]
fn bad_objects_do_not_abort_the_load() {
    let mut world = World::new();
    let mut physics = Physics::new(vector(0, 40 * SCALE));
    let mut loader = Loader::new();
    let objects = vec![
        (None, object(1, Properties::new())),
        (Some(EntityKind::Trigger), object(2, Properties::new())),
        (Some(EntityKind::Collider), object(3, Properties::new())),
        (Some(EntityKind::Checkpoint), object(4, Properties::new())),
    ];
    let errors = loader.create_object_layer(objects, &mut world, &mut physics);
    assert_eq!(errors.len(), 2);
    assert_eq!(errors[0], (1, SpawnError::UnknownKind));
    assert_eq!(errors[1], (2, SpawnError::MissingTriggerTarget));
    // the well-formed objects were spawned
    let collider_entity = loader.entries.iter().find(|(id, _)| *id == 3).unwrap().1;
    assert!(world.get(collider_entity).unwrap().rect_collider.is_some());
    let checkpoint_entity = loader.entries.iter().find(|(id, _)| *id == 4).unwrap().1;
    assert!(world.get(checkpoint_entity).unwrap().checkpoint.is_some());
}

#[test]
fn checkpoint_moves_the_respawn_position() {
    let mut world = World::new();
    let mut physics = Physics::new(vector(0, 40 * SCALE));
    let player = world.reserve();
    morphsim::player::Player::spawn(&mut world, &mut physics, player, vector(0, 0));
    let ckpt = world.reserve();
    Checkpoint::spawn(&mut world, ckpt, vector(9 * SCALE, 2 * SCALE));
    world.slots[ckpt.index as usize].c.triggered = Some(Triggered {
        method: morphsim::checkpoint::SET_RESPAWN_POSITION,
        source: player,
        trigger: ckpt,
    });
    Checkpoint::tick(&mut world);
    let c = world.get(player).unwrap();
    assert_eq!(c.player.as_ref().unwrap().checkpoint, vector(9 * SCALE, 2 * SCALE));
    assert!(world.get(ckpt).unwrap().triggered.is_none());
}
