//! Decoder for the compact binary model format of a 1990s game engine, the
//! assembly of its polygons into per-material triangle lists, a value-semantics
//! animation player, and the placement and trap rules built on them.
pub mod bytes;
pub mod model;
pub mod geometry;
pub mod animation;
pub mod hand_model;
pub mod tripwire;
