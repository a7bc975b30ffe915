//! Core of an arcade ball-and-brick game: fixed-timestep simulation over an
//! integer coordinate grid, with axis-aligned bounding-box collision
//! detection, velocity reflection, deferred destruction of bricks and a
//! monotone scoreboard. Rendering, input polling, audio playback and asset
//! loading are collaborators outside this crate; they exchange plain values
//! (positions, sizes, key flags, the score) with the simulation.

pub mod arena;
pub mod clock;
pub mod geom;
pub mod body;
pub mod detect;
pub mod resolve;
pub mod world;
