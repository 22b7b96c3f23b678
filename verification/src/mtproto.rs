//! Sessions, message framing, the transport interface and the key exchange.

pub mod authentication;
pub mod encrypted;
pub mod message;
pub mod session;
pub mod transport;

pub use authentication::{finish, step1, step2, step3, Finished};
pub use encrypted::EncryptedSession;
pub use message::{Message, MessageId};
pub use session::Session;
