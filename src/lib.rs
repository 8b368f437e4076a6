//! Simulation and display logic of a tile-based 8-bit console game:
//! a linear-feedback random sequence, procedural level generation,
//! per-axis box collision, agent steering, and the deferred render queue
//! that a deadline-bound display routine drains.
pub mod addr;
pub mod rng;
pub mod vec2;
pub mod level;
pub mod collision;
pub mod capped_vec;
pub mod ppu_buffer;
pub mod ppu;
pub mod directive_buffer;
pub mod sprites;
pub mod io;
pub mod digits;
pub mod apu;
pub mod agent;
pub mod game;
pub mod snake;
