//! Consolidation of independently encoded audio files into one chaptered
//! output stream.
//!
//! Each input file is decoded into a canonical interleaved sample stream,
//! decode faults are isolated per file, and the successfully decoded tracks
//! are concatenated in input order into a single timeline with one chapter
//! per input file.
//!
//! Sample values are carried as the bit patterns of 32-bit floating-point
//! samples; the numeric interpretation is left to the I/O layer.

pub mod errors;
pub mod track;
pub mod batch;
pub mod consolidate;
