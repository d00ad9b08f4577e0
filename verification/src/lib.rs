//! Core of a 2D top-down arcade game: axis-aligned collision testing with
//! penetration-depth computation, bounded movement resolution with resolved
//! sliding, a round-based game-state machine with a one-shot win/lose latch,
//! and a collision-free procedural level generator.
//!
//! Coordinates are integers (fixed-point world units); elapsed time is given
//! in milliseconds. The host engine that renders sprites, plays audio and
//! polls input sits outside this crate and exchanges plain values with it:
//! per-tick elapsed time and directional intent come in, positions, the score
//! and the outcome go out.

pub mod geometry;
pub mod interaction;
pub mod movement;
pub mod placement;
pub mod state;
