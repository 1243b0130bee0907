//! Text entities: static labels placed by the level, drawn by the
//! renderer.

use vstd::prelude::*;
use crate::entities::{Position, Size};
use crate::math::{Rect, Vec2i};
use crate::sim::world_wf;
use crate::world::{spec_no_components, Components, Entity, World};

verus! {

/// The font family a text entity is set in.
#[derive(Clone, Copy, PartialEq, Eq, Structural, Debug)]
pub enum FontFamily {
    Lexend,
}

/// Horizontal alignment of text inside its box.
#[derive(Clone, Copy, PartialEq, Eq, Structural, Debug)]
pub enum TextHAlign {
    Left,
    Center,
    Right,
}

impl Default for TextHAlign {
    fn default() -> (r: TextHAlign)
        ensures
            r == TextHAlign::Left,
    {
        TextHAlign::Left
    }
}

/// Text component: everything the renderer needs to draw a label.
#[derive(Clone, Debug)]
pub struct Text {
    /// The font family.
    pub font_family: FontFamily,
    /// Horizontal alignment within the entity's box.
    pub h_align: TextHAlign,
    /// Pixel size of the type.
    pub size: u32,
    /// The label itself.
    pub text: String,
}

impl Text {
    /// Spawns a text entity over `rect`; the renderer reads it, the
    /// simulation leaves it alone.
    pub fn spawn(
        world: &mut World,
        entity: Entity,
        rect: Rect,
        font_family: FontFamily,
        h_align: TextHAlign,
        size: u32,
        text: String,
    )
        requires
            world_wf(*old(world)),
            old(world).live(entity),
            rect.wf(),
        ensures
            world_wf(*final(world)),
            final(world).live(entity),
            final(world).comps(entity) == (Components {
                text: Some(Text { font_family, h_align, size, text }),
                position: Some(Position(Vec2i { x: rect.x, y: rect.y })),
                size: Some(Size(Vec2i { x: rect.width, y: rect.height })),
                ..spec_no_components()
            }),
            forall|g: Entity|
                (#[trigger] final(world).live(g)) == old(world).live(g),
            forall|g: Entity|
                g.index != entity.index && old(world).live(g) ==> (#[trigger] final(world).comps(
                g)) == old(world).comps(g),
            final(world).slots@.len() == old(world).slots@.len(),
            forall|i: int|
                0 <= i < old(world).slots@.len() && i != entity.index ==> #[trigger] final(
                world).slots@[i] == old(world).slots@[i],
    {
        let mut c = Components::none();
        c.position = Some(Position(rect.position()));
        c.size = Some(Size(rect.size()));
        c.text = Some(Text { font_family, h_align, size, text });
        world.spawn_at(entity, c);
    }
}

} // verus!
