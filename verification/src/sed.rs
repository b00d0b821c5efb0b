//! The trace of the stream editor: jump labels, control flow, frames, session.

pub mod aligner;
pub mod communication;
pub mod debugger;
pub mod labels;
pub mod laws;
pub mod parser;
pub mod resolver;
pub mod segmenter;
pub mod source;
pub mod state;
