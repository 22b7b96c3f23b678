//! The decisions of a connection: what an incoming frame means for the
//! session, the callers and the update engine; when to ping, when to
//! reconnect and how; where to go when the server sends us away.

use vstd::prelude::*;
use vstd::string::StringSliceAdditionalSpecFns;
use crate::client::envelope::{
    spec_unwrap, unwrap_envelope, unwrapped_is, Envelope, EnvelopeError, EnvelopeErrorView,
    EnvelopeView, MAX_DEPTH,
};
use crate::client::errors::{spec_matches, InvocationError, RpcError, SignInError};
use crate::mtproto::encrypted::{
    carries, spec_body_of, spec_unpack, DecryptError, DecryptedMessage, EncryptedSession,
};
use crate::text::{ends_with, spec_ends_with};
use crate::tl::wire::{as_i64, from_le64};

verus! {

/// Seconds without a frame after which a ping goes out.
pub const IDLE_TIMEOUT_SECS: u64 = 30;

/// Seconds to wait before connecting again.
pub const RECONNECT_BACKOFF_SECS: u64 = 1;

/// Seconds that the key exchange may take.
pub const HANDSHAKE_TIMEOUT_SECS: u64 = 15;

/// Seconds that the answer to a request may take.
pub const RPC_TIMEOUT_SECS: u64 = 10;

/// Seconds after which a chat action is sent again.
pub const CHAT_ACTION_REFRESH_SECS: u64 = 4;

/// Why a frame gave nothing.
#[derive(Debug, PartialEq)]
pub enum FrameError {
    /// The frame could not be decrypted or is not for this session.
    Decrypt(DecryptError),
    /// The message in the frame holds nothing usable.
    Envelope(EnvelopeError),
}

impl FrameError {
    /// The error as the client reports it.
    pub fn into_invocation(self) -> (e: InvocationError)
        ensures
            match self {
                FrameError::Envelope(EnvelopeError::Rpc(rpc)) => e == InvocationError::Rpc(rpc),
                _ => e is Deserialize,
            },
    {
        match self {
            FrameError::Decrypt(d) => InvocationError::Deserialize(d.to_string()),
            FrameError::Envelope(e) => e.into_invocation(),
        }
    }
}

/// What the frame `frame` gives for the session `session`: what its
/// message holds, or the error of decryption, or the error of the envelope.
pub open spec fn spec_handle_frame(session: EncryptedSession, frame: Seq<u8>) -> Result<
    Result<EnvelopeView, EnvelopeErrorView>,
    DecryptError,
> {
    match spec_unpack(session.key(), session.spec_session_id(), frame) {
        Err(e) => Err(e),
        Ok(plain) => Ok(spec_unwrap(spec_body_of(plain), MAX_DEPTH as nat)),
    }
}

/// The salt of the session after the frame `frame`: the salt of the
/// frame's message where that is not zero, else the old one. A frame that
/// is not accepted changes nothing.
pub open spec fn spec_salt_after(session: EncryptedSession, frame: Seq<u8>) -> i64 {
    match spec_unpack(session.key(), session.spec_session_id(), frame) {
        Err(_) => session.spec_salt(),
        Ok(plain) => if as_i64(from_le64(plain)) != 0 {
            as_i64(from_le64(plain))
        } else {
            session.spec_salt()
        },
    }
}

/// Takes a frame in: decrypts it, takes note of the server's salt, and
/// opens the message.
pub fn handle_frame(session: &mut EncryptedSession, frame: &mut Vec<u8>) -> (r: Result<
    Envelope,
    FrameError,
>)
    ensures
        match spec_handle_frame(*old(session), old(frame)@) {
            Err(e) => r is Err && r->Err_0 == FrameError::Decrypt(e),
            Ok(Err(e)) => r is Err && r->Err_0 is Envelope && r->Err_0->Envelope_0@ == e,
            Ok(Ok(v)) => r is Ok && r->Ok_0@ == v,
        },
        final(session).spec_salt() == spec_salt_after(*old(session), old(frame)@),
        final(session).key() == old(session).key(),
        final(session).spec_session_id() == old(session).spec_session_id(),
        final(session).sequence() == old(session).sequence(),
        final(session).last_msg_id() == old(session).last_msg_id(),
        final(session).spec_time_offset() == old(session).spec_time_offset(),
{
    let msg = match session.unpack(frame) {
        Ok(m) => m,
        Err(e) => {
            return Err(FrameError::Decrypt(e));
        },
    };
    session.observe_salt(msg.salt);
    match unwrap_envelope(msg.body.as_slice()) {
        Ok(env) => Ok(env),
        Err(e) => Err(FrameError::Envelope(e)),
    }
}

/// What a caller waits for.
#[derive(Clone, Copy, Debug, PartialEq, Eq, Structural)]
pub enum Waiting {
    /// The result of a request.
    Result,
    /// The result of a request whose result is a boxed `Updates`: the
    /// server may answer such a request with updates in place of a result.
    Acknowledgement,
}

/// Whether what a message holds ends the wait of a caller.
pub open spec fn ends_wait(waiting: Waiting, env: EnvelopeView) -> bool {
    match waiting {
        Waiting::Result => env.reply is Some,
        Waiting::Acknowledgement => env.reply is Some || env.updates.len() > 0,
    }
}

/// Whether `env` ends the wait of a caller that waits for `waiting`.
pub fn completes(waiting: Waiting, env: &Envelope) -> (done: bool)
    ensures
        done == ends_wait(waiting, env@),
{
    match waiting {
        Waiting::Result => env.reply.is_some(),
        Waiting::Acknowledgement => env.reply.is_some() || env.updates.len() > 0,
    }
}

// ─── migration ───────────────────────────────────────────────────────────────
/// The datacenter that the error `e` sends us to: the value of an error
/// with the code 303 whose name ends in `_MIGRATE`.
pub open spec fn spec_migration_target(e: RpcError) -> Option<i32> {
    if e.code == 303 && spec_ends_with(e.name_bytes(), "_MIGRATE".spec_bytes()) && e.value is Some
        && e.value->Some_0 <= i32::MAX {
        Some(e.value->Some_0 as i32)
    } else {
        None
    }
}

/// The datacenter that the error `e` sends us to, if it is a migration.
pub fn migration_target(e: &RpcError) -> (dc: Option<i32>)
    ensures
        dc == spec_migration_target(*e),
{
    if e.code == 303 && ends_with(e.name.as_str().as_bytes(), "_MIGRATE".as_bytes()) {
        match e.value {
            Some(v) => if v <= 0x7fff_ffff {
                Some(v as i32)
            } else {
                None
            },
            None => None,
        }
    } else {
        None
    }
}

/// What a failed request becomes inside the client: a migration where the
/// server sends us to another datacenter, the error itself otherwise.
pub fn classify_failure(e: InvocationError) -> (r: InvocationError)
    ensures
        r == match e {
            InvocationError::Rpc(rpc) => match spec_migration_target(rpc) {
                Some(dc) => InvocationError::Migrate(dc),
                None => e,
            },
            _ => e,
        },
{
    match e {
        InvocationError::Rpc(rpc) => match migration_target(&rpc) {
            Some(dc) => InvocationError::Migrate(dc),
            None => InvocationError::Rpc(rpc),
        },
        other => other,
    }
}

/// What the caller of a request does with a failure: after a first
/// migration it goes to the new datacenter and sends the request once more;
/// everything else, and a second migration, is reported.
#[derive(Debug, PartialEq)]
pub enum AfterFailure {
    /// Connect to this datacenter, make it the home, send again.
    MigrateAndRetry(i32),
    /// Report the error.
    Report(InvocationError),
}

/// Decides what follows the failure `e` of a request that has been sent
/// again after a migration `migrated` times.
pub fn after_failure(e: InvocationError, migrated: u32) -> (r: AfterFailure)
    ensures
        r == match e {
            InvocationError::Rpc(rpc) => match spec_migration_target(rpc) {
                Some(dc) => if migrated == 0 {
                    AfterFailure::MigrateAndRetry(dc)
                } else {
                    AfterFailure::Report(InvocationError::Migrate(dc))
                },
                None => AfterFailure::Report(e),
            },
            _ => AfterFailure::Report(e),
        },
{
    match e {
        InvocationError::Rpc(rpc) => match migration_target(&rpc) {
            Some(dc) => if migrated == 0 {
                AfterFailure::MigrateAndRetry(dc)
            } else {
                AfterFailure::Report(InvocationError::Migrate(dc))
            },
            None => AfterFailure::Report(InvocationError::Rpc(rpc)),
        },
        other => AfterFailure::Report(other),
    }
}

// ─── signing in ──────────────────────────────────────────────────────────────
/// What the failure of `sign_in` means.
#[derive(Debug, PartialEq)]
pub enum SignInStep {
    /// The account has a password: fetch the password challenge.
    FetchPassword,
    /// The code is wrong or has expired.
    InvalidCode,
    /// Report the error.
    Report(InvocationError),
}

/// Decides what follows the failure `e` of `sign_in`: the server's
/// `SESSION_PASSWORD_NEEDED` asks for the password, its `PHONE_CODE_…`
/// errors speak of the code, everything else is reported.
pub fn on_sign_in_failure(e: InvocationError) -> (r: SignInStep)
    ensures
        r == match e {
            InvocationError::Rpc(rpc) => if spec_matches(
                rpc.name_bytes(),
                "SESSION_PASSWORD_NEEDED".spec_bytes(),
            ) {
                SignInStep::FetchPassword
            } else if spec_matches(rpc.name_bytes(), "PHONE_CODE_*".spec_bytes()) {
                SignInStep::InvalidCode
            } else {
                SignInStep::Report(e)
            },
            _ => SignInStep::Report(e),
        },
{
    if e.is("SESSION_PASSWORD_NEEDED") {
        SignInStep::FetchPassword
    } else if e.is("PHONE_CODE_*") {
        SignInStep::InvalidCode
    } else {
        SignInStep::Report(e)
    }
}

// ─── the update loop ─────────────────────────────────────────────────────────
/// Where the update loop stands.
#[derive(Clone, Copy, Debug, PartialEq, Eq, Structural)]
pub enum LoopState {
    /// Waiting for the next frame.
    Receiving,
    /// Waiting before connecting again.
    BackingOff,
    /// Connecting with the stored key.
    ConnectingWithKey,
    /// Connecting with a new key exchange.
    ConnectingFresh,
    /// Announcing ourselves on the new connection.
    Initializing,
    /// Fetching what was missed.
    CatchingUp,
    /// The loop has ended.
    Stopped,
}

/// What happened.
#[derive(Clone, Copy, Debug, PartialEq, Eq, Structural)]
pub enum LoopEvent {
    /// A frame came and was handled.
    FrameHandled,
    /// No frame came within the idle timeout.
    IdleTimeout,
    /// Reading or decrypting failed.
    ReadFailed,
    /// The wait before connecting again is over.
    BackoffOver,
    /// The connection stands.
    Connected,
    /// The connection could not be made.
    ConnectFailed,
    /// `initConnection` has been answered, well or badly.
    Initialized,
    /// The difference has been fetched, or could not be.
    CaughtUp,
}

/// What to do next.
#[derive(Clone, Copy, Debug, PartialEq, Eq, Structural)]
pub enum LoopAction {
    /// Read the next frame, for at most the idle timeout.
    Read,
    /// Send a ping, then read on.
    Ping,
    /// Sleep for the backoff.
    Sleep,
    /// Connect with the stored key.
    ConnectWithKey,
    /// Connect and run the key exchange.
    ConnectFresh,
    /// Send `initConnection`.
    InitConnection,
    /// Fetch the difference.
    GetDifference,
    /// End the loop.
    Stop,
}

/// The transitions of the update loop. A timeout while receiving sends a
/// ping; a failure leads, after the backoff, to a new connection, with the
/// stored key where there is one and with a new key exchange where that
/// fails or there is none; a new connection is announced and then caught up
/// on before frames are received again. Only a failed key exchange ends the
/// loop. An event that a state does not wait for changes nothing.
pub open spec fn spec_step(state: LoopState, event: LoopEvent, has_key: bool) -> (
    LoopState,
    LoopAction,
) {
    match (state, event) {
        (LoopState::Receiving, LoopEvent::FrameHandled) => (LoopState::Receiving, LoopAction::Read),
        (LoopState::Receiving, LoopEvent::IdleTimeout) => (LoopState::Receiving, LoopAction::Ping),
        (LoopState::Receiving, LoopEvent::ReadFailed) => (LoopState::BackingOff, LoopAction::Sleep),
        (LoopState::BackingOff, LoopEvent::BackoffOver) => if has_key {
            (LoopState::ConnectingWithKey, LoopAction::ConnectWithKey)
        } else {
            (LoopState::ConnectingFresh, LoopAction::ConnectFresh)
        },
        (LoopState::ConnectingWithKey, LoopEvent::Connected) => (
            LoopState::Initializing,
            LoopAction::InitConnection,
        ),
        (LoopState::ConnectingWithKey, LoopEvent::ConnectFailed) => (
            LoopState::ConnectingFresh,
            LoopAction::ConnectFresh,
        ),
        (LoopState::ConnectingFresh, LoopEvent::Connected) => (
            LoopState::Initializing,
            LoopAction::InitConnection,
        ),
        (LoopState::ConnectingFresh, LoopEvent::ConnectFailed) => (
            LoopState::Stopped,
            LoopAction::Stop,
        ),
        (LoopState::Initializing, LoopEvent::Initialized) => (
            LoopState::CatchingUp,
            LoopAction::GetDifference,
        ),
        (LoopState::CatchingUp, LoopEvent::CaughtUp) => (LoopState::Receiving, LoopAction::Read),
        (LoopState::Stopped, _) => (LoopState::Stopped, LoopAction::Stop),
        (s, _) => (s, spec_standing_action(s)),
    }
}

/// What a state is busy with.
pub open spec fn spec_standing_action(state: LoopState) -> LoopAction {
    match state {
        LoopState::Receiving => LoopAction::Read,
        LoopState::BackingOff => LoopAction::Sleep,
        LoopState::ConnectingWithKey => LoopAction::ConnectWithKey,
        LoopState::ConnectingFresh => LoopAction::ConnectFresh,
        LoopState::Initializing => LoopAction::InitConnection,
        LoopState::CatchingUp => LoopAction::GetDifference,
        LoopState::Stopped => LoopAction::Stop,
    }
}

/// What a state is busy with.
pub fn standing_action(state: LoopState) -> (a: LoopAction)
    ensures
        a == spec_standing_action(state),
{
    match state {
        LoopState::Receiving => LoopAction::Read,
        LoopState::BackingOff => LoopAction::Sleep,
        LoopState::ConnectingWithKey => LoopAction::ConnectWithKey,
        LoopState::ConnectingFresh => LoopAction::ConnectFresh,
        LoopState::Initializing => LoopAction::InitConnection,
        LoopState::CatchingUp => LoopAction::GetDifference,
        LoopState::Stopped => LoopAction::Stop,
    }
}

/// The next state and what to do, after `event` in `state`.
pub fn step(state: LoopState, event: LoopEvent, has_key: bool) -> (r: (LoopState, LoopAction))
    ensures
        r == spec_step(state, event, has_key),
{
    match (state, event) {
        (LoopState::Receiving, LoopEvent::FrameHandled) => (LoopState::Receiving, LoopAction::Read),
        (LoopState::Receiving, LoopEvent::IdleTimeout) => (LoopState::Receiving, LoopAction::Ping),
        (LoopState::Receiving, LoopEvent::ReadFailed) => (LoopState::BackingOff, LoopAction::Sleep),
        (LoopState::BackingOff, LoopEvent::BackoffOver) => if has_key {
            (LoopState::ConnectingWithKey, LoopAction::ConnectWithKey)
        } else {
            (LoopState::ConnectingFresh, LoopAction::ConnectFresh)
        },
        (LoopState::ConnectingWithKey, LoopEvent::Connected) => (
            LoopState::Initializing,
            LoopAction::InitConnection,
        ),
        (LoopState::ConnectingWithKey, LoopEvent::ConnectFailed) => (
            LoopState::ConnectingFresh,
            LoopAction::ConnectFresh,
        ),
        (LoopState::ConnectingFresh, LoopEvent::Connected) => (
            LoopState::Initializing,
            LoopAction::InitConnection,
        ),
        (LoopState::ConnectingFresh, LoopEvent::ConnectFailed) => (
            LoopState::Stopped,
            LoopAction::Stop,
        ),
        (LoopState::Initializing, LoopEvent::Initialized) => (
            LoopState::CatchingUp,
            LoopAction::GetDifference,
        ),
        (LoopState::CatchingUp, LoopEvent::CaughtUp) => (LoopState::Receiving, LoopAction::Read),
        (LoopState::Stopped, _) => (LoopState::Stopped, LoopAction::Stop),
        (s, _) => (s, standing_action(s)),
    }
}

/// With a stored key, a lost connection is made again without a new key
/// exchange as long as connecting with the key works, and the loop then
/// announces itself, catches up and receives again.
pub proof fn lemma_reconnect_keeps_key()
    ensures
        ({
            let s1 = spec_step(LoopState::Receiving, LoopEvent::ReadFailed, true);
            let s2 = spec_step(s1.0, LoopEvent::BackoffOver, true);
            let s3 = spec_step(s2.0, LoopEvent::Connected, true);
            let s4 = spec_step(s3.0, LoopEvent::Initialized, true);
            let s5 = spec_step(s4.0, LoopEvent::CaughtUp, true);
            &&& s1.1 == LoopAction::Sleep
            &&& s2.1 == LoopAction::ConnectWithKey
            &&& s3.1 == LoopAction::InitConnection
            &&& s4.1 == LoopAction::GetDifference
            &&& s5 == (LoopState::Receiving, LoopAction::Read)
        }),
{
}

/// The key exchange is run again only from the state that connects afresh,
/// which a client with a stored key reaches only after connecting with the
/// key has failed.
pub proof fn lemma_fresh_only_after_key_failed(state: LoopState, event: LoopEvent)
    requires
        spec_step(state, event, true).1 == LoopAction::ConnectFresh,
    ensures
        state == LoopState::ConnectingFresh || (state == LoopState::ConnectingWithKey && event
            == LoopEvent::ConnectFailed),
{
}

} // verus!
