//! Core of a terminal puzzle game in the Sokoban family: a player walks a
//! toroidal (wrap-around) grid and pushes a single crate onto a goal cell.
//!
//! The library holds the verified level state machine: the grid model, the
//! level loader, the movement engine with its push resolution and wrap-around
//! arithmetic, and the level session that strings levels together. Terminal
//! input and output live outside the library.

pub mod engine;
pub mod errors;
pub mod game;
pub mod grid;
pub mod loader;
