//! Conversions between flat little-endian binary matrices and streams of
//! newline-delimited JSON records whose identifier fields reference matrix
//! rows.
//!
//! The crate provides a typed, bounds-checked view over a borrowed byte
//! buffer interpreted as a fixed-stride row matrix, in-memory identifier
//! indexes built from reference record streams, and the per-record join
//! policies that rewrite one identifier field of a record stream.

pub mod index;
pub mod matrix;
pub mod positional;
pub mod remap;

pub use matrix::MatLEView;
pub use positional::PositionalMatrixBuilder;
