//! Stores of notes.

pub mod format;
pub mod laws;
pub mod state;
pub mod yaml;
