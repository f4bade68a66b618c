//! Run modes and terminal session outcomes.
use vstd::prelude::*;

verus! {

/// Per-session behavior switch: decides which branch of ambiguous
/// triggers fires. Selected once per session and never changed.
#[derive(Debug, PartialEq, Eq, Structural, Clone, Copy)]
pub enum RunMode {
    Daily,
    Handout,
}

/// Which server-side application event closed the session.
#[derive(Debug, PartialEq, Eq, Structural, Clone, Copy)]
pub enum CloseReason {
    IdleTimeout,
    Disconnect,
}

/// Terminal outcome of a session. Every error is terminal: there is no
/// in-session recovery beyond the single stuck-start retry.
#[derive(Debug, PartialEq, Eq, Structural, Clone, Copy)]
pub enum SessionOutcome {
    /// The success terminal: completion was confirmed in the output.
    SessionComplete,
    /// No first frame arrived within the handshake wait bound.
    HandshakeTimeout,
    /// The first frame was not a well-formed open packet with a session id.
    HandshakeFailed,
    /// No heartbeat within the negotiated interval plus tolerance.
    ConnectionTimeout,
    /// No application output for the activity staleness bound.
    ActivityTimeout,
    /// The session's access code was empty.
    MissingCode,
    /// The service reported an internal error or rejected the code.
    ZigzaDetected,
    /// The service reached its limit of restore accounts.
    ServerFull,
    /// The service demands a logged-in user: the cookie is no longer valid.
    LoginRequired,
    /// The service rejected a command and announced it is exiting.
    InvalidCommandRestart,
    /// The service closed the session with the given application event.
    ServerClosed(CloseReason),
    /// The transport failed or the stream closed.
    IoError,
}

} // verus!
