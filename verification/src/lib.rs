//! Deterministic rule core of a two-player arena game with rollback netcode.
//!
//! The crate holds the part of the simulation that decides: which command is
//! accepted, what each player's input does in a tick, when a round ends, who
//! holds the cannon, which projectiles live and die, and what a snapshot
//! restores. Quantities are integers in display units. The rigid-body engine
//! integrates motion elsewhere; the rules read its contact and intersection
//! graphs through the `engine` module and hand back what has to be written
//! into it.

pub mod layout;
pub mod command;
pub mod engine;
pub mod ids;
pub mod rules;
pub mod snapshot;
pub mod display;
pub mod world;
pub mod laws;

pub use command::PlayerId;
pub use world::GameWorld;
