//! The components an entity can carry, and the entity identifier itself.
//! Every piece of per-entity state lives in one of these; an entity is no
//! more than the identifier its components are attached to.
use vstd::prelude::*;
use crate::geometry::Point;

verus! {

/// An entity identifier: an index into the world's entity arena.
#[derive(Clone, Copy, PartialEq, Eq, Structural, Debug, Hash)]
pub struct Entity {
    pub id: usize,
}

/// An RGB color with 8-bit channels.
#[derive(Clone, Copy, PartialEq, Eq, Structural, Debug)]
pub struct Rgb {
    pub r: u8,
    pub g: u8,
    pub b: u8,
}

impl Rgb {
    /// Pure white.
    pub fn white() -> (c: Rgb)
        ensures
            c == (Rgb { r: 255, g: 255, b: 255 }),
    {
        Rgb { r: 255, g: 255, b: 255 }
    }

    /// Pure black.
    pub fn black() -> (c: Rgb)
        ensures
            c == (Rgb { r: 0, g: 0, b: 0 }),
    {
        Rgb { r: 0, g: 0, b: 0 }
    }
}

/// A foreground and background color for one rendered glyph.
#[derive(Clone, Copy, PartialEq, Eq, Structural, Debug)]
pub struct ColorPair {
    pub fg: Rgb,
    pub bg: Rgb,
}

impl ColorPair {
    pub fn new(fg: Rgb, bg: Rgb) -> (c: ColorPair)
        ensures
            c == (ColorPair { fg, bg }),
    {
        ColorPair { fg, bg }
    }
}

/// The character cell index a glyph is drawn with.
pub type FontCharType = u16;

/// How an entity appears on screen: a color pair and a glyph. Presentation
/// hint only; it never affects the simulation.
#[derive(Clone, Copy, PartialEq, Eq, Structural, Debug)]
pub struct Render {
    pub color: ColorPair,
    pub glyph: FontCharType,
}

/// Tag for the player entity; carries the current dungeon level number.
/// At most one entity holds this per game session.
#[derive(Clone, Copy, PartialEq, Eq, Structural, Debug)]
pub struct Player {
    pub map_level: u32,
}

/// Tag for an enemy entity.
#[derive(Clone, Copy, PartialEq, Eq, Structural, Debug)]
pub struct Enemy;

/// Tag for an entity that moves by the random-walk policy.
#[derive(Clone, Copy, PartialEq, Eq, Structural, Debug)]
pub struct MovingRandomly;

/// A one-tick intent message: `entity` wants to step onto `destination`.
/// Created by the input or random-walk system and always removed by the
/// movement system in the same tick it is processed.
#[derive(Clone, Copy, PartialEq, Eq, Structural, Debug)]
pub struct WantsToMove {
    pub entity: Entity,
    pub destination: Point,
}

/// Hit points: `current` may drop to zero or below transiently, until the
/// end-of-turn system reacts.
#[derive(Clone, Copy, PartialEq, Eq, Structural, Debug)]
pub struct Health {
    pub current: i32,
    pub max: i32,
}

/// An owned text label for an entity.
#[derive(Clone, PartialEq, Debug)]
pub struct Name(pub String);

/// A one-tick intent message: `attacker` wants to strike `victim`.
#[derive(Clone, Copy, PartialEq, Eq, Structural, Debug)]
pub struct WantsToAttack {
    pub attacker: Entity,
    pub victim: Entity,
}

/// Tag for an entity that chases the player.
#[derive(Clone, Copy, PartialEq, Eq, Structural, Debug)]
pub struct ChasingPlayer;

/// Tag for an item entity.
#[derive(Clone, Copy, PartialEq, Eq, Structural, Debug)]
pub struct Item;

/// Tag for the amulet, the singleton goal object; exactly one exists per
/// dungeon.
#[derive(Clone, Copy, PartialEq, Eq, Structural, Debug)]
pub struct AmuletOfYala;

/// The set of points an entity currently sees, with its sight radius. The
/// dirty flag is set whenever the owner moves and cleared by the visibility
/// recompute step.
#[derive(Clone, PartialEq, Debug)]
pub struct FieldOfView {
    pub visible_tiles: Vec<Point>,
    pub radius: i32,
    pub is_dirty: bool,
}

impl FieldOfView {
    /// A fresh, dirty field of view with no visible tiles yet.
    pub fn new(radius: i32) -> (fov: FieldOfView)
        ensures
            fov.visible_tiles@ == Seq::<Point>::empty(),
            fov.radius == radius,
            fov.is_dirty,
    {
        FieldOfView { visible_tiles: Vec::new(), radius, is_dirty: true }
    }

    /// A copy with the same radius, marked dirty and with the visible set
    /// cleared, for attaching to a freshly spawned or moved entity.
    pub fn clone_dirty(&self) -> (fov: FieldOfView)
        ensures
            fov.visible_tiles@ == Seq::<Point>::empty(),
            fov.radius == self.radius,
            fov.is_dirty,
    {
        FieldOfView { visible_tiles: Vec::new(), radius: self.radius, is_dirty: true }
    }
}

/// Carried by potions: how many hit points drinking one restores.
#[derive(Clone, Copy, PartialEq, Eq, Structural, Debug)]
pub struct ProvidesHealing {
    pub amount: i32,
}

/// Tag for an item that reveals the dungeon map when used.
#[derive(Clone, Copy, PartialEq, Eq, Structural, Debug)]
pub struct ProvidesDungeonMap;

/// Marks an item as carried by the given entity.
#[derive(Clone, Copy, PartialEq, Eq, Structural, Debug)]
pub struct Carried(pub Entity);

/// A one-tick intent message: `used_by` wants to activate `item`.
#[derive(Clone, Copy, PartialEq, Eq, Structural, Debug)]
pub struct ActivateItem {
    pub used_by: Entity,
    pub item: Entity,
}

} // verus!
