//! Core of a grid-based snake simulation: direction resolution, fixed-interval
//! tick stepping, body movement, food placement, and collision/termination
//! detection. Rendering and input sampling are left to a presentation layer,
//! which feeds directional intents in and reads the state back out.

pub mod cell;
pub mod direction;
pub mod engine;
pub mod food;
