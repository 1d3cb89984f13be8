//! Gameplay core of a rolling marble swarm game.
//!
//! A cluster of player-controlled spheres is steered as a group towards goal
//! areas. This crate holds the control logic of the game, free of any engine:
//! the phase machine of the level lifecycle, the scoring rules, the influence
//! point that decides which marbles answer to input, and the orbit camera rig.
//! All quantities are integers in fixed-point units, so that every rule is
//! exact and every contract is proved.

pub mod camera;
pub mod gameplay;
pub mod geometry;
pub mod influence;
pub mod player;
pub mod powerups;
pub mod prelude;
pub mod scoring;
pub mod state;
pub mod swarm;
pub mod time;
