//! The clip and its fields.

pub mod field;
