//! The compact attribute-based encoding: its data model and the record
//! interpreter, including the packed call-descriptor codec.

pub mod model;
pub mod parser;
