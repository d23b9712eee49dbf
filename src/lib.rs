//! A small interpreter for a restricted C-like language, stepped once per game tick.
//!
//! Source text is parsed into a generic syntax tree, the `while` loops of `main`
//! are extracted into blocks of a restricted statement model, and a sequencer
//! runs one pass of the current block per tick against a host call interface.
pub mod frontend;
pub mod language;
pub mod laws;
pub mod level;
pub mod player;
pub mod syntax;
pub mod sequencer;
mod text;
