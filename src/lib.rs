//! Word-by-word alignment of two parallel texts.
//!
//! The engine holds the working line of each language, the words the
//! operator has selected, a single-level undo snapshot and the log of
//! committed alignment records. Every operation is total.

pub mod corpus;
pub mod engine;
pub mod language;
pub mod laws;
pub mod model;
pub mod text;
