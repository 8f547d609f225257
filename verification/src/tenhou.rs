//! The array-based text encoding: its data model, the score grammar, the
//! point tables, and the decorated-string codec.

pub mod calc;
pub mod exporter;
pub mod model;
pub mod parser;
pub mod score;
