//! Tiles: the kinds a tileset assigns, their outline geometry, and the
//! colliders some tiles add to the physics world.

use vstd::prelude::*;
use crate::math::{Vec2i, SCALE};
use crate::physics::{CollisionGroups, InteractionGroups, Physics, Shape};

verus! {

/// An enumeration over the two screen axes.
#[derive(Clone, Copy, PartialEq, Eq, Structural, Debug)]
pub enum Axis {
    X,
    Y,
}

/// A map tile's kind.
#[derive(Clone, Copy, PartialEq, Eq, Structural, Debug)]
pub enum TileKind {
    /// The empty tile.
    Empty,
    SolidTopLeft,
    SolidTop,
    SolidTopRight,
    SolidRight,
    SolidBottomRight,
    SolidBottom,
    SolidBottomLeft,
    SolidLeft,
    SolidVTop,
    SolidVMiddle,
    SolidVBottom,
    SolidHLeft,
    SolidHCenter,
    SolidHRight,
    SolidTile,
    SolidCornerTopLeft,
    SolidCornerTopRight,
    SolidCornerBottomRight,
    SolidCornerBottomLeft,
    SolidTopFadeLeft,
    SolidTopFadeRight,
    SolidBottomFadeLeft,
    SolidBottomFadeRight,
    SolidLeftFadeTop,
    SolidLeftFadeBottom,
    SolidRightFadeTop,
    SolidRightFadeBottom,
    Barrier,
    SlopeUp,
    SlopeDown,
    SlopeHalfUpLeft,
    SlopeHalfUpRight,
    SlopeHalfDownLeft,
    SlopeHalfDownRight,
    SlopeDoubleUpBottom,
    SlopeDoubleUpTop,
    SlopeDoubleDownBottom,
    SlopeDoubleDownTop,
    SpikesUp,
    SpikesRight,
    SpikesDown,
    SpikesLeft,
}

/// The side of a tile.
#[derive(Clone, Copy, PartialEq, Eq, Structural, Debug)]
pub enum Side {
    Top,
    Bottom,
    Left,
    Right,
}

impl Side {
    /// Mathematical counterpart of [`Side::axis`].
    pub open spec fn spec_axis(self) -> Axis {
        match self {
            Side::Top | Side::Bottom => Axis::X,
            Side::Left | Side::Right => Axis::Y,
        }
    }

    /// The axis along which the side's outline runs.
    pub fn axis(&self) -> (r: Axis)
        ensures
            r == self.spec_axis(),
    {
        match self {
            Side::Top | Side::Bottom => Axis::X,
            Side::Left | Side::Right => Axis::Y,
        }
    }
}

impl TileKind {
    /// Mathematical counterpart of [`TileKind::side`].
    pub open spec fn spec_side(self) -> Option<Side> {
        match self {
            TileKind::SolidTop | TileKind::SolidTopFadeLeft | TileKind::SolidTopFadeRight => Some(
                Side::Top,
            ),
            TileKind::SolidRight | TileKind::SolidRightFadeTop
                | TileKind::SolidRightFadeBottom => Some(Side::Right),
            TileKind::SolidBottom | TileKind::SolidBottomFadeLeft
                | TileKind::SolidBottomFadeRight => Some(Side::Bottom),
            TileKind::SolidLeft | TileKind::SolidLeftFadeTop | TileKind::SolidLeftFadeBottom
                => Some(Side::Left),
            _ => None,
        }
    }

    /// The sole side this tile represents, if it is a single-side tile.
    pub fn side(&self) -> (r: Option<Side>)
        ensures
            r == self.spec_side(),
    {
        match self {
            TileKind::SolidTop | TileKind::SolidTopFadeLeft | TileKind::SolidTopFadeRight => Some(
                Side::Top,
            ),
            TileKind::SolidRight | TileKind::SolidRightFadeTop
                | TileKind::SolidRightFadeBottom => Some(Side::Right),
            TileKind::SolidBottom | TileKind::SolidBottomFadeLeft
                | TileKind::SolidBottomFadeRight => Some(Side::Bottom),
            TileKind::SolidLeft | TileKind::SolidLeftFadeTop | TileKind::SolidLeftFadeBottom
                => Some(Side::Left),
            _ => None,
        }
    }

    /// Mathematical counterpart of [`TileKind::spike_direction`].
    pub open spec fn spec_spike_direction(self) -> Option<Side> {
        match self {
            TileKind::SpikesUp => Some(Side::Top),
            TileKind::SpikesRight => Some(Side::Right),
            TileKind::SpikesDown => Some(Side::Bottom),
            TileKind::SpikesLeft => Some(Side::Left),
            _ => None,
        }
    }

    /// The side spikes point at, for spike tiles.
    pub fn spike_direction(&self) -> (r: Option<Side>)
        ensures
            r == self.spec_spike_direction(),
    {
        match self {
            TileKind::SpikesUp => Some(Side::Top),
            TileKind::SpikesRight => Some(Side::Right),
            TileKind::SpikesDown => Some(Side::Bottom),
            TileKind::SpikesLeft => Some(Side::Left),
            _ => None,
        }
    }

    /// Mathematical counterpart of [`TileKind::corner`].
    pub open spec fn spec_corner(self) -> Option<Corner> {
        match self {
            TileKind::SolidCornerTopLeft => Some(Corner::TopLeft),
            TileKind::SolidCornerTopRight => Some(Corner::TopRight),
            TileKind::SolidCornerBottomRight => Some(Corner::BottomRight),
            TileKind::SolidCornerBottomLeft => Some(Corner::BottomLeft),
            _ => None,
        }
    }

    /// The corner this tile represents, for corner tiles.
    pub fn corner(&self) -> (r: Option<Corner>)
        ensures
            r == self.spec_corner(),
    {
        match self {
            TileKind::SolidCornerTopLeft => Some(Corner::TopLeft),
            TileKind::SolidCornerTopRight => Some(Corner::TopRight),
            TileKind::SolidCornerBottomRight => Some(Corner::BottomRight),
            TileKind::SolidCornerBottomLeft => Some(Corner::BottomLeft),
            _ => None,
        }
    }
}

/// A set of tile sides, packed into the low four bits of a byte.
#[derive(Clone, Copy, PartialEq, Eq, Structural, Debug)]
pub struct Sides {
    /// The packed side bits.
    pub bits: u8,
}

impl Sides {
    /// Bit for the top side.
    pub const TOP: u8 = 0b0001;

    /// Bit for the bottom side.
    pub const BOTTOM: u8 = 0b0010;

    /// Bit for the left side.
    pub const LEFT: u8 = 0b0100;

    /// Bit for the right side.
    pub const RIGHT: u8 = 0b1000;

    /// All four sides.
    pub const ALL: u8 = Self::TOP | Self::BOTTOM | Self::LEFT | Self::RIGHT;

    /// Whether every side in `bits` is present.
    pub fn contains(&self, bits: u8) -> (r: bool)
        ensures
            r == ((self.bits & bits) == bits),
    {
        (self.bits & bits) == bits
    }

    /// Mathematical counterpart of [`Sides::try_from`]: the outlined sides
    /// of an axis-aligned solid tile, or nothing for tiles that are not
    /// axis-aligned solids (slopes, spikes, the empty tile, and the
    /// invisible barrier, which draws no outline).
    pub open spec fn spec_of_kind(kind: TileKind) -> Option<Sides> {
        match kind {
            TileKind::SolidTopLeft => Some(Sides { bits: Sides::TOP | Sides::LEFT }),
            TileKind::SolidTop | TileKind::SolidTopFadeLeft | TileKind::SolidTopFadeRight => Some(
                Sides { bits: Sides::TOP },
            ),
            TileKind::SolidTopRight => Some(Sides { bits: Sides::TOP | Sides::RIGHT }),
            TileKind::SolidRight | TileKind::SolidRightFadeTop
                | TileKind::SolidRightFadeBottom => Some(Sides { bits: Sides::RIGHT }),
            TileKind::SolidBottomRight => Some(Sides { bits: Sides::BOTTOM | Sides::RIGHT }),
            TileKind::SolidBottom | TileKind::SolidBottomFadeLeft
                | TileKind::SolidBottomFadeRight => Some(Sides { bits: Sides::BOTTOM }),
            TileKind::SolidBottomLeft => Some(Sides { bits: Sides::BOTTOM | Sides::LEFT }),
            TileKind::SolidLeft | TileKind::SolidLeftFadeTop | TileKind::SolidLeftFadeBottom
                => Some(Sides { bits: Sides::LEFT }),
            TileKind::SolidVTop => Some(Sides { bits: Sides::LEFT | Sides::TOP | Sides::RIGHT }),
            TileKind::SolidVMiddle => Some(Sides { bits: Sides::LEFT | Sides::RIGHT }),
            TileKind::SolidVBottom => Some(
                Sides { bits: Sides::LEFT | Sides::BOTTOM | Sides::RIGHT },
            ),
            TileKind::SolidHLeft => Some(Sides { bits: Sides::TOP | Sides::LEFT | Sides::BOTTOM }),
            TileKind::SolidHCenter => Some(Sides { bits: Sides::TOP | Sides::BOTTOM }),
            TileKind::SolidHRight => Some(
                Sides { bits: Sides::TOP | Sides::RIGHT | Sides::BOTTOM },
            ),
            TileKind::SolidTile => Some(Sides { bits: Sides::ALL }),
            _ => None,
        }
    }

    /// The outlined sides of an axis-aligned solid tile.
    pub fn try_from(kind: TileKind) -> (r: Result<Sides, NotAxisAligned>)
        ensures
            match Sides::spec_of_kind(kind) {
                Some(s) => r == Result::<Sides, NotAxisAligned>::Ok(s),
                None => r == Result::<Sides, NotAxisAligned>::Err(NotAxisAligned),
            },
    {
        match kind {
            TileKind::SolidTopLeft => Ok(Sides { bits: Sides::TOP | Sides::LEFT }),
            TileKind::SolidTop | TileKind::SolidTopFadeLeft | TileKind::SolidTopFadeRight => Ok(
                Sides { bits: Sides::TOP },
            ),
            TileKind::SolidTopRight => Ok(Sides { bits: Sides::TOP | Sides::RIGHT }),
            TileKind::SolidRight | TileKind::SolidRightFadeTop
                | TileKind::SolidRightFadeBottom => Ok(Sides { bits: Sides::RIGHT }),
            TileKind::SolidBottomRight => Ok(Sides { bits: Sides::BOTTOM | Sides::RIGHT }),
            TileKind::SolidBottom | TileKind::SolidBottomFadeLeft
                | TileKind::SolidBottomFadeRight => Ok(Sides { bits: Sides::BOTTOM }),
            TileKind::SolidBottomLeft => Ok(Sides { bits: Sides::BOTTOM | Sides::LEFT }),
            TileKind::SolidLeft | TileKind::SolidLeftFadeTop | TileKind::SolidLeftFadeBottom
                => Ok(Sides { bits: Sides::LEFT }),
            TileKind::SolidVTop => Ok(Sides { bits: Sides::LEFT | Sides::TOP | Sides::RIGHT }),
            TileKind::SolidVMiddle => Ok(Sides { bits: Sides::LEFT | Sides::RIGHT }),
            TileKind::SolidVBottom => Ok(Sides { bits: Sides::LEFT | Sides::BOTTOM
                | Sides::RIGHT }),
            TileKind::SolidHLeft => Ok(Sides { bits: Sides::TOP | Sides::LEFT | Sides::BOTTOM }),
            TileKind::SolidHCenter => Ok(Sides { bits: Sides::TOP | Sides::BOTTOM }),
            TileKind::SolidHRight => Ok(Sides { bits: Sides::TOP | Sides::RIGHT
                | Sides::BOTTOM }),
            TileKind::SolidTile => Ok(Sides { bits: Sides::ALL }),
            _ => Err(NotAxisAligned),
        }
    }
}

/// Error of [`Sides::try_from`]: the tile is not an axis-aligned solid.
#[derive(Clone, Copy, PartialEq, Eq, Structural, Debug)]
pub struct NotAxisAligned;

/// Tile corners.
#[derive(Clone, Copy, PartialEq, Eq, Structural, Debug)]
pub enum Corner {
    TopLeft,
    TopRight,
    BottomRight,
    BottomLeft,
}

/// Half of the long edge of a spike collider, in subunits (the spikes span
/// three quarters of the tile).
pub const SPIKE_LONG_HALF: i64 = 384;

/// Half of the short edge of a spike collider, in subunits (the spikes
/// reach a quarter of a tile out of their base).
pub const SPIKE_SHORT_HALF: i64 = 128;

/// The center offset and half extents of the deadly collider of spikes
/// pointing at the given side, relative to the tile center: a shallow box
/// hugging the tile edge the spikes grow from.
pub open spec fn spec_spike_box(side: Side) -> (Vec2i, Vec2i) {
    match side {
        Side::Top => (
            Vec2i { x: 0, y: (SCALE / 2 - SPIKE_SHORT_HALF) as i64 },
            Vec2i { x: SPIKE_LONG_HALF, y: SPIKE_SHORT_HALF },
        ),
        Side::Bottom => (
            Vec2i { x: 0, y: (-(SCALE / 2) + SPIKE_SHORT_HALF) as i64 },
            Vec2i { x: SPIKE_LONG_HALF, y: SPIKE_SHORT_HALF },
        ),
        Side::Left => (
            Vec2i { x: (SCALE / 2 - SPIKE_SHORT_HALF) as i64, y: 0 },
            Vec2i { x: SPIKE_SHORT_HALF, y: SPIKE_LONG_HALF },
        ),
        Side::Right => (
            Vec2i { x: (-(SCALE / 2) + SPIKE_SHORT_HALF) as i64, y: 0 },
            Vec2i { x: SPIKE_SHORT_HALF, y: SPIKE_LONG_HALF },
        ),
    }
}

/// Adds the deadly collider of spikes pointing at `side`, for a tile
/// centered at `center`.
pub fn build_spikes_collider(side: Side, physics: &mut Physics, center: Vec2i)
    requires
        old(physics).wf(),
        center.bounded(crate::math::COORD_MAX as int - SCALE as int),
    ensures
        final(physics).wf(),
        final(physics).gravity == old(physics).gravity,
        final(physics).bodies == old(physics).bodies,
        exists|h: crate::physics::ColliderHandle|
            {
                &&& #[trigger] final(physics).collider_live(h)
                &&& !old(physics).collider_live(h)
                &&& final(physics).collider_of(h) == spec_spike_collider(side, center)
            },
        forall|h: crate::physics::ColliderHandle|
            old(physics).collider_live(h) ==> (#[trigger] final(physics).collider_live(h))
                && final(physics).collider_of(h) == old(physics).collider_of(h),
{
    let (offset, half): (Vec2i, Vec2i) = match side {
        Side::Top => (
            Vec2i { x: 0, y: SCALE / 2 - SPIKE_SHORT_HALF },
            Vec2i { x: SPIKE_LONG_HALF, y: SPIKE_SHORT_HALF },
        ),
        Side::Bottom => (
            Vec2i { x: 0, y: -(SCALE / 2) + SPIKE_SHORT_HALF },
            Vec2i { x: SPIKE_LONG_HALF, y: SPIKE_SHORT_HALF },
        ),
        Side::Left => (
            Vec2i { x: SCALE / 2 - SPIKE_SHORT_HALF, y: 0 },
            Vec2i { x: SPIKE_SHORT_HALF, y: SPIKE_LONG_HALF },
        ),
        Side::Right => (
            Vec2i { x: -(SCALE / 2) + SPIKE_SHORT_HALF, y: 0 },
            Vec2i { x: SPIKE_SHORT_HALF, y: SPIKE_LONG_HALF },
        ),
    };
    let collider = crate::physics::Collider {
        parent: None,
        position: Vec2i { x: center.x + offset.x, y: center.y + offset.y },
        shape: Shape::Cuboid { half },
        groups: InteractionGroups {
            memberships: CollisionGroups::DEADLY,
            filter: CollisionGroups::PLAYER,
        },
        sensor: false,
        restitution: 0,
        user_data: 0,
    };
    let _ = physics.insert_collider(collider);
}

/// The deadly collider of spikes pointing at `side` on the tile centered
/// at `center`, as [`build_spikes_collider`] creates it.
pub open spec fn spec_spike_collider(side: Side, center: Vec2i) -> crate::physics::Collider {
    crate::physics::Collider {
        parent: None,
        position: Vec2i {
            x: (center.x + spec_spike_box(side).0.x) as i64,
            y: (center.y + spec_spike_box(side).0.y) as i64,
        },
        shape: Shape::Cuboid { half: spec_spike_box(side).1 },
        groups: InteractionGroups {
            memberships: CollisionGroups::DEADLY,
            filter: CollisionGroups::PLAYER,
        },
        sensor: false,
        restitution: 0,
        user_data: 0,
    }
}

/// Adds whatever extra physics a tile kind carries: spike tiles add their
/// deadly collider, all other kinds add nothing.
pub fn build_tile_extra(kind: TileKind, physics: &mut Physics, center: Vec2i)
    requires
        old(physics).wf(),
        center.bounded(crate::math::COORD_MAX as int - SCALE as int),
    ensures
        final(physics).wf(),
        final(physics).gravity == old(physics).gravity,
        final(physics).bodies == old(physics).bodies,
        kind.spec_spike_direction() is None ==> *final(physics) == *old(physics),
        kind.spec_spike_direction() is Some ==> exists|h: crate::physics::ColliderHandle|
            {
                &&& #[trigger] final(physics).collider_live(h)
                &&& !old(physics).collider_live(h)
                &&& final(physics).collider_of(h) == spec_spike_collider(
                    kind.spec_spike_direction()->Some_0, center)
            },
        forall|h: crate::physics::ColliderHandle|
            old(physics).collider_live(h) ==> (#[trigger] final(physics).collider_live(h))
                && final(physics).collider_of(h) == old(physics).collider_of(h),
{
    match kind.spike_direction() {
        Some(side) => build_spikes_collider(side, physics, center),
        None => {},
    }
}

/// The tileset of a level: what kind each tile id stands for.
pub struct Tileset {
    /// Kind by tile id.
    pub kinds: Vec<TileKind>,
}

impl Tileset {
    /// Mathematical counterpart of [`Tileset::kind`].
    pub open spec fn spec_kind(self, tile_id: u16) -> TileKind {
        if (tile_id as int) < self.kinds@.len() {
            self.kinds@[tile_id as int]
        } else {
            TileKind::Empty
        }
    }

    /// The kind of the given tile; ids past the table read as empty.
    pub fn kind(&self, tile_id: u16) -> (r: TileKind)
        ensures
            r == self.spec_kind(tile_id),
    {
        if (tile_id as usize) < self.kinds.len() {
            self.kinds[tile_id as usize]
        } else {
            TileKind::Empty
        }
    }
}

} // verus!
