//! Deterministic integer simulation core of a Liero-style artillery game.
//!
//! Everything advances with integer and 16.16 fixed-point arithmetic only, so
//! a simulation is bit-for-bit reproducible; the state hash is the
//! determinism oracle.

pub mod blit;
pub mod bobject;
pub mod bonus;
pub mod control;
pub mod debug;
pub mod draws;
pub mod fixed;
pub mod flash;
pub mod game_over;
pub mod hash;
pub mod levelgen;
pub mod nobject;
pub mod object_types;
pub mod physics;
pub mod pool;
pub mod shadow;
pub mod shake;
pub mod sobject;
pub mod sound;
pub mod state;
pub mod tick;
pub mod weapon;
pub mod worm;
