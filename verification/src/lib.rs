//! Reconstructs a navigable sequence of execution states from the debug trace
//! of a stream editor.

pub mod cli;
pub mod sed;
pub mod text;
pub mod ui;
