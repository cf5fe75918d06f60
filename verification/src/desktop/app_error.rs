//! The error every panel command reports, in kinds the UI can switch on.
use vstd::prelude::*;
use vstd::string::*;

use crate::error::{io_error_display, RconError};

verus! {

/// What went wrong in a panel command.
#[derive(Debug)]
pub enum AppError {
    ServerNotFound,
    AuthFailed,
    NotConnected,
    Timeout,
    Storage { message: String },
    Keychain { message: String },
    Rcon { message: String },
    Invalid { message: String },
    Internal { message: String },
}

impl AppError {
    /// The error a panel command reports for an RCON client error: the
    /// kinds the UI knows map to themselves, an unknown server is
    /// `ServerNotFound`, and transport failures and rate limiting are RCON
    /// errors with a message.
    pub fn from_rcon(e: RconError) -> (r: AppError)
        ensures
            match e {
                RconError::AuthFailed => r is AuthFailed,
                RconError::NotConnected => r is NotConnected,
                RconError::Timeout => r is Timeout,
                RconError::UnknownServer => r is ServerNotFound,
                RconError::Transport(_) => r is Rcon,
                RconError::RateLimited => r matches AppError::Rcon { message } && message@
                    == "rate limited"@,
            },
    {
        match e {
            RconError::AuthFailed => AppError::AuthFailed,
            RconError::NotConnected => AppError::NotConnected,
            RconError::Timeout => AppError::Timeout,
            RconError::UnknownServer => AppError::ServerNotFound,
            RconError::Transport(io) => AppError::Rcon { message: io_error_display(&io) },
            RconError::RateLimited => AppError::Rcon { message: String::from_str("rate limited") },
        }
    }

    /// An `Invalid` error with the given message.
    pub fn invalid(message: &str) -> (r: AppError)
        ensures
            r matches AppError::Invalid { message: m } && m@ == message@,
    {
        AppError::Invalid { message: message.to_owned() }
    }

    /// The user-facing text of the error.
    pub fn to_string(&self) -> (s: String)
        ensures
            s@ == match self {
                AppError::ServerNotFound => "server not found"@,
                AppError::AuthFailed => "authentication failed"@,
                AppError::NotConnected => "not connected"@,
                AppError::Timeout => "operation timed out"@,
                AppError::Storage { message } => "storage error: "@ + message@,
                AppError::Keychain { message } => "keychain error: "@ + message@,
                AppError::Rcon { message } => "rcon error: "@ + message@,
                AppError::Invalid { message } => "invalid input: "@ + message@,
                AppError::Internal { message } => "internal error: "@ + message@,
            },
    {
        match self {
            AppError::ServerNotFound => String::from_str("server not found"),
            AppError::AuthFailed => String::from_str("authentication failed"),
            AppError::NotConnected => String::from_str("not connected"),
            AppError::Timeout => String::from_str("operation timed out"),
            AppError::Storage { message } => String::from_str("storage error: ").concat(
                message.as_str(),
            ),
            AppError::Keychain { message } => String::from_str("keychain error: ").concat(
                message.as_str(),
            ),
            AppError::Rcon { message } => String::from_str("rcon error: ").concat(message.as_str()),
            AppError::Invalid { message } => String::from_str("invalid input: ").concat(
                message.as_str(),
            ),
            AppError::Internal { message } => String::from_str("internal error: ").concat(
                message.as_str(),
            ),
        }
    }
}

} // verus!
