//! Compiles a small textual description of a Rubik's-cube face or full cube
//! into a validated in-memory model, and lays the model out as a
//! deterministic list of drawing primitives with a computed viewbox.

pub mod entity;
pub mod laws;
pub mod parser;
