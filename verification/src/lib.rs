//! Lossless conversion between the two historical log encodings of a
//! four-player tile-matching game platform: a compact attribute-based
//! encoding (packed integers) and an array-based text encoding (decorated
//! strings).
//!
//! The crate holds the domain-level codecs and the converter; generic
//! document tokenization (XML events, JSON trees) is the caller's concern,
//! and reaches the core as plain tagged records and plain values.

pub mod conv;
pub mod mjlog;
pub mod tenhou;
pub mod text;
