//! Simulation engine of a falling-block puzzle game: piece shapes and their
//! rotation system with wall kicks, the playing field with collision tests,
//! locking and line clearing, scoring and levels, and the per-tick step that
//! ties them together.
pub mod position;
pub mod tetromino;
pub mod global;
pub mod score;
pub mod matrix;
pub mod queue;
pub mod timer;
pub mod game;
