//! Leaf component data: plain values attached to entities, with no
//! behaviour of their own.

use vstd::prelude::*;

verus! {

/// A single drawable glyph.
#[derive(Copy, Clone, Debug, PartialEq, Eq, Structural)]
pub struct Tile {
    pub glyph: char,
}

/// A location on the grid. The row index grows downward, so "up" on the
/// screen is the negative `y` direction.
#[derive(Copy, Clone, Debug, PartialEq, Eq, Structural)]
pub struct Position {
    pub x: i64,
    pub y: i64,
}

/// A per-tick displacement, accumulated across ticks.
#[derive(Copy, Clone, Debug, PartialEq, Eq, Structural)]
pub struct Velocity {
    pub dx: i64,
    pub dy: i64,
}

/// A rectangular extent.
#[derive(Copy, Clone, Debug, PartialEq, Eq, Structural)]
pub struct Size {
    pub w: i64,
    pub h: i64,
}

/// The component kinds the registry stores, named so that a system can
/// declare which kinds it reads and which it writes.
#[derive(Copy, Clone, Debug, PartialEq, Eq, Structural)]
pub enum ComponentKind {
    Tile,
    Position,
    Velocity,
    Size,
    PlayerTag,
    ViewTag,
    ImmovableTag,
    NonPlayerTag,
}

} // verus!
