//! The components an entity can carry. Marker components (Player, Monster,
//! BlocksTile) are stored as plain booleans in the world store.

use vstd::prelude::*;

verus! {

/// A tile coordinate on the map grid.
#[derive(PartialEq, Eq, Copy, Clone, Structural, Debug)]
pub struct Position {
    pub x: i32,
    pub y: i32,
}

/// An 8-bit-per-channel colour; presentation converts it to whatever the
/// terminal wants.
#[derive(PartialEq, Eq, Copy, Clone, Structural, Debug)]
pub struct Rgb8 {
    pub r: u8,
    pub g: u8,
    pub b: u8,
}

/// What an entity looks like when drawn.
#[derive(PartialEq, Eq, Copy, Clone, Structural, Debug)]
pub struct Renderable {
    pub glyph: char,
    pub fg: Rgb8,
}

/// A display name, used by combat log entries.
#[derive(Clone, Debug)]
pub struct Name {
    pub name: String,
}

/// Sight: the radius an entity can see, and the set of tile indices it
/// currently sees (recomputed in full by every visibility pass).
#[derive(Clone, Debug)]
pub struct FieldOfView {
    pub visible_tiles: Vec<bool>,
    pub range: i32,
}

/// Hit points and the deterministic combat stats.
#[derive(PartialEq, Eq, Copy, Clone, Structural, Debug)]
pub struct CombatStats {
    pub max_hp: i32,
    pub hp: i32,
    pub defense: i32,
    pub power: i32,
}

/// A decided-but-unresolved attack: attached to the attacker, consumed by
/// the melee combat system in the same pipeline pass.
#[derive(PartialEq, Eq, Copy, Clone, Structural, Debug)]
pub struct WantsToMelee {
    pub target: usize,
}

/// Damage dealt this pass, accumulated before the damage system drains it.
#[derive(Clone, Debug)]
pub struct SufferDamage {
    pub amount: Vec<i32>,
}

} // verus!
