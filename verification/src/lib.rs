//! A small grid-based entity-component simulation: a controllable avatar,
//! static terrain tiles, and a scrollable viewport, advanced one discrete
//! tick per external text command.
//!
//! The crate is organised around an explicit component registry
//! ([`registry::Registry`]), a staged scheduler with declared per-kind
//! access ([`schedule`]), five systems (input capture, command apply,
//! motion, view follow, render), a whitespace-token command parser
//! ([`parser`]), and a layered rendering compositor with viewport
//! clipping ([`render`]). [`world::World`] ties them together and drives
//! one tick at a time; all input and output stays with the caller.

pub mod arith;
pub mod components;
pub mod errors;
pub mod laws;
pub mod maptext;
pub mod parser;
pub mod registry;
pub mod render;
pub mod schedule;
pub mod systems;
pub mod timefmt;
pub mod world;
