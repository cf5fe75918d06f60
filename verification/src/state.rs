//! The lifecycle state of one server's connection.
use vstd::prelude::*;

verus! {

/// Lifecycle state of a single server's connection, read by the status
/// indicator.
///
/// - `Connecting`: the initial authentication probe is in flight.
/// - `Open`: the credentials are good; sends will likely succeed.
/// - `Reconnecting`: the last operation hit a transport failure.
/// - `Failed`: terminal, the server rejected the password.
/// - `Disconnected`: the handle was closed.
#[derive(Clone, Copy, Debug, PartialEq, Eq, Structural)]
pub enum ConnectionState {
    Disconnected,
    Connecting,
    Open,
    Reconnecting,
    Failed,
}

} // verus!
