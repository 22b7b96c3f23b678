//! The client's side of the protocol above the session: errors, retry
//! policy, update bookkeeping, stored sessions, transport framings, envelope
//! handling and the routing of answers.

pub mod api;
pub mod errors;
pub mod pts;
pub mod retry;
pub mod session;
pub mod router;
pub mod transport_obfuscated;
pub mod envelope;
pub mod inflate;
pub mod framing;
pub mod transport_kind;
pub mod difference;
pub mod pagination;
pub mod parsers;
pub mod participants;
pub mod dialogs;
pub mod startup;
pub mod config;
pub mod two_factor_auth;
pub mod connection;
pub mod session_backend;
pub mod dc_pool;
pub mod input_message;
pub mod media;
pub mod peer_cache;
pub mod update;

pub use errors::{InvocationError, LoginToken, PasswordToken, RpcError, SignInError};
pub use retry::{AutoSleep, NoRetries, RetryContext, RetryPolicy};
