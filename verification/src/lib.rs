//! A client-side implementation of the MTProto 2.0 protocol stack: the
//! binary codec of the Type Language, the cryptographic kit, the key
//! exchange, session framing, envelope handling and update bookkeeping.

pub mod client;
pub mod codegen;
pub mod crc32;
pub mod crypto;
pub mod mtproto;
pub mod parser;
pub mod text;
pub mod tl;
