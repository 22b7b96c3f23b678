//! The objects of the messaging API that the client's logic reads and
//! builds, with the fields that it uses.

pub mod enums;
pub mod types;
