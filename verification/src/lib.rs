//! Wa-Tor: a predator/prey cellular automaton on a fixed grid.
//!
//! Each cell of the grid holds a fish, a shark or nothing. One chronon
//! visits every cell once, in ascending order of its linear index, and lets
//! the occupant age, starve, move, eat and breed.

pub mod census;
pub mod config;
pub mod control;
pub mod entity;
mod random;
pub mod rules;
pub mod world;

pub use config::Config;
pub use control::{handle_event, update, AppState, Event, Key, Message};
pub use entity::Entity;
pub use world::{Wator, WatorView};
