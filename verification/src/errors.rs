//! The failures the simulation can surface.
//!
//! A malformed command token is never an error (the parser ignores it);
//! what is fatal is a broken population invariant — an entity whose
//! tags promise a component that is missing — or an ill-formed map or
//! schedule handed in at construction.

use vstd::prelude::*;

verus! {

/// Why a tick or a construction was refused.
#[derive(Copy, Clone, Debug, PartialEq, Eq, Structural)]
pub enum SimError {
    /// A player-tagged entity carries no velocity component.
    PlayerWithoutVelocity,
    /// A view-tagged entity carries a size but no position component.
    ViewWithoutPosition,
    /// Two systems in one stage ask for conflicting access to a
    /// component kind.
    ConflictingStage,
    /// The rows of a map text differ in length.
    IrregularMap,
    /// A map dimension does not fit the coordinate range.
    MapTooLarge,
}

impl SimError {
    /// A fixed diagnostic line naming the broken invariant.
    pub fn describe(&self) -> (r: &'static str)
        ensures
            *self is PlayerWithoutVelocity ==> r@ == "player entity lacks a velocity component"@,
            *self is ViewWithoutPosition ==> r@ == "view entity lacks a position component"@,
            *self is ConflictingStage ==> r@ == "stage requests conflicting component access"@,
            *self is IrregularMap ==> r@ == "map rows differ in length"@,
            *self is MapTooLarge ==> r@ == "map dimensions exceed the coordinate range"@,
    {
        match self {
            SimError::PlayerWithoutVelocity => "player entity lacks a velocity component",
            SimError::ViewWithoutPosition => "view entity lacks a position component",
            SimError::ConflictingStage => "stage requests conflicting component access",
            SimError::IrregularMap => "map rows differ in length",
            SimError::MapTooLarge => "map dimensions exceed the coordinate range",
        }
    }
}

} // verus!
