//! The generator of code from a schema.

pub mod format;
pub mod grouper;
pub mod metadata;
pub mod namegen;
pub mod writer;
