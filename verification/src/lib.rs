//! The decisions of a small real-time game of bouncing discs: a player's disc
//! and a fixed number of others move inside a window and collide with the
//! walls and with each other.
//!
//! This library holds what is decided without arithmetic on real numbers: what
//! each input event asks for, when a run stops, in which order the bodies are
//! advanced and tested against each other within a tick, what a wall does to
//! a body that has moved past it, and which calls draw a frame. The caller
//! owns the bodies, does the arithmetic on them and does the drawing.

pub mod config;
pub mod input;
pub mod ordinal;
pub mod render;
pub mod schedule;
pub mod session;
pub mod walls;
