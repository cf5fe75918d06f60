//! Errors surfaced by the RCON client, and the detection of the server's
//! rate-limit reply.
use vstd::prelude::*;
use vstd::string::*;

use crate::text::{has_prefix, str_eq, trim, trim_str};

verus! {

#[verifier::external_type_specification]
#[verifier::external_body]
pub struct ExIoError(std::io::Error);

/// Errors surfaced by the RCON client.
#[derive(Debug)]
pub enum RconError {
    /// Authentication was rejected by the server. Terminal: the password is
    /// wrong, so it is never retried automatically.
    AuthFailed,
    /// The TCP transport failed (connect refused, reset, ...).
    Transport(std::io::Error),
    /// A `send` exceeded its per-call timeout.
    Timeout,
    /// A `send` was made while the connection was not usable.
    NotConnected,
    /// A `send` or `close` named a server the registry does not know.
    UnknownServer,
    /// The server's RCON karma limiter (`RconMaxKarma`) rejected the command.
    RateLimited,
}

impl RconError {
    /// The user-facing text of the error.
    pub fn to_string(&self) -> (s: String)
        ensures
            match self {
                RconError::AuthFailed => s@ == "authentication failed"@,
                RconError::Transport(_) => true,
                RconError::Timeout => s@ == "command timed out"@,
                RconError::NotConnected => s@ == "not connected"@,
                RconError::UnknownServer => s@ == "unknown server"@,
                RconError::RateLimited => s@ == "rate limited"@,
            },
            self is Transport ==> has_prefix(s@, "transport error: "@),
    {
        match self {
            RconError::AuthFailed => String::from_str("authentication failed"),
            RconError::Transport(e) => {
                let mut s = String::from_str("transport error: ");
                let ghost prefix_len: nat = s@.len();
                let detail = io_error_display(e);
                s.append(detail.as_str());
                proof {
                    reveal_strlit("transport error: ");
                    assert(s@.take(prefix_len as int) =~= "transport error: "@);
                }
                s
            },
            RconError::Timeout => String::from_str("command timed out"),
            RconError::NotConnected => String::from_str("not connected"),
            RconError::UnknownServer => String::from_str("unknown server"),
            RconError::RateLimited => String::from_str("rate limited"),
        }
    }
}

#[verifier::external_type_specification]
#[verifier::external_body]
pub struct ExUpstreamError(rcon::Error);

/// The failures the upstream `rcon` client reports.
#[derive(Debug)]
pub enum UpstreamFailure {
    /// The server rejected the password.
    Auth,
    /// The command was longer than the upstream client allows.
    CommandTooLong,
    /// The transport failed.
    Io(std::io::Error),
}

/// Which failure an `rcon::Error` is, one variant for each of its own.
#[verifier::external_body]
pub(crate) fn upstream_failure(e: rcon::Error) -> (f: UpstreamFailure) {
    match e {
        rcon::Error::Auth => UpstreamFailure::Auth,
        rcon::Error::CommandTooLong => UpstreamFailure::CommandTooLong,
        rcon::Error::Io(io) => UpstreamFailure::Io(io),
    }
}

/// An I/O error of kind `InvalidInput` with the given message
/// (`std::io::Error::new`). Nothing is claimed of the value.
#[verifier::external_body]
fn invalid_input_error(message: &str) -> (e: std::io::Error) {
    std::io::Error::new(std::io::ErrorKind::InvalidInput, message.to_owned())
}

impl RconError {
    /// The error for a failure of the upstream client, classified by
    /// [`RconError::from_upstream`]: a rejected password or a transport
    /// failure, never one of the errors this client raises itself (a
    /// timeout, a refused send, an unknown server, the rate limit). Which of
    /// the two is left unsaid: `rcon::Error` is opaque here, so its variant
    /// cannot be named in a contract.
    pub fn from_rcon(e: rcon::Error) -> (r: RconError)
        ensures
            r is AuthFailed || r is Transport,
    {
        RconError::from_upstream(upstream_failure(e))
    }

    /// The error for an upstream failure: a rejected password is
    /// `AuthFailed`, a transport failure is `Transport`, and an over-long
    /// command (which cannot happen with the length cap turned off) is
    /// reported as a transport error too.
    pub fn from_upstream(f: UpstreamFailure) -> (e: RconError)
        ensures
            match f {
                UpstreamFailure::Auth => e is AuthFailed,
                UpstreamFailure::CommandTooLong => e is Transport,
                UpstreamFailure::Io(io) => e == RconError::Transport(io),
            },
    {
        match f {
            UpstreamFailure::Auth => RconError::AuthFailed,
            UpstreamFailure::CommandTooLong => RconError::Transport(
                invalid_input_error("command exceeds upstream length limit"),
            ),
            UpstreamFailure::Io(io) => RconError::Transport(io),
        }
    }
}

/// Formats an I/O error with its `Display` impl (`ToString::to_string`).
/// Nothing is claimed of the text: for an OS error it is the platform's
/// own description of the code.
#[verifier::external_body]
pub(crate) fn io_error_display(e: &std::io::Error) -> (s: String) {
    e.to_string()
}

/// The body with which the server refuses a command once its karma limit
/// is reached.
pub open spec fn is_rate_limit_body(body: Seq<char>) -> bool {
    trim(body) == "Too many commands, try again later."@
}

/// Whether a response body is the server's rate-limit refusal, which comes
/// as the body of a reply rather than as a transport error.
pub fn is_rate_limit_response(body: &str) -> (b: bool)
    ensures
        b == is_rate_limit_body(body@),
{
    str_eq(trim_str(body), "Too many commands, try again later.")
}

} // verus!
