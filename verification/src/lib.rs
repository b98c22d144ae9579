//! Simulation core of a terminal arcade shooter: a formation of enemy
//! units sweeps across a fixed grid on a shared movement timer, the player
//! fires a bounded number of projectiles, and collisions eliminate units.
//!
//! Every state transition is specified by contracts and verified; terminal
//! rendering and input are left to unverified callers.

pub mod frame;
pub mod game;
pub mod invaders;
pub mod player;
pub mod shot;
pub mod timer;
