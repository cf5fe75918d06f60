//! The decisions of a connection handle, as functions from its state and
//! the outcome of an operation to its next state and the caller's result.
//!
//! The server closes the TCP connection after every command, so a handle
//! tracks whether the credentials are good rather than whether a socket is
//! alive: every send connects, authenticates, sends one command and reads
//! one reply. The driver that performs those steps asks these functions
//! what to publish and what to return.
use vstd::prelude::*;

use crate::error::{is_rate_limit_body, is_rate_limit_response, RconError};
use crate::state::ConnectionState;

verus! {

/// The state that an authentication probe leads to: `None` when the probe
/// timed out, else what connecting and authenticating gave.
pub open spec fn probe_state(outcome: Option<Result<(), RconError>>) -> ConnectionState {
    match outcome {
        Some(Ok(())) => ConnectionState::Open,
        Some(Err(RconError::AuthFailed)) => ConnectionState::Failed,
        _ => ConnectionState::Reconnecting,
    }
}

/// The state to publish after an authentication probe.
pub fn after_probe(outcome: Option<Result<(), RconError>>) -> (s: ConnectionState)
    ensures
        s == probe_state(outcome),
{
    match outcome {
        Some(Ok(())) => ConnectionState::Open,
        Some(Err(RconError::AuthFailed)) => ConnectionState::Failed,
        _ => ConnectionState::Reconnecting,
    }
}

/// Whether the probe loop tries again after reaching `state`: only a
/// transport failure or a timeout is retried, never a rejected password.
pub fn should_retry_probe(state: ConnectionState) -> (b: bool)
    ensures
        b == (state == ConnectionState::Reconnecting),
{
    state == ConnectionState::Reconnecting
}

/// The longest wait between two probes, in seconds.
pub const MAX_BACKOFF_SECS: u64 = 30;

/// The wait before probe number `attempt + 1` of a reconnect loop: one
/// second, doubling with every attempt, capped at thirty seconds.
pub open spec fn backoff_spec(attempt: nat) -> nat
    decreases attempt,
{
    if attempt == 0 {
        1
    } else {
        let prev = backoff_spec((attempt - 1) as nat);
        if 2 * prev > 30 {
            30
        } else {
            2 * prev
        }
    }
}

/// The wait in seconds before the next probe after `attempt` failed ones.
pub fn backoff_secs(attempt: u32) -> (secs: u64)
    ensures
        secs == backoff_spec(attempt as nat),
        1 <= secs <= MAX_BACKOFF_SECS,
{
    let mut secs: u64 = 1;
    let mut i: u32 = 0;
    while i < attempt
        invariant
            i <= attempt,
            secs == backoff_spec(i as nat),
            1 <= secs <= 30,
        decreases attempt - i,
    {
        secs = if 2 * secs > MAX_BACKOFF_SECS {
            MAX_BACKOFF_SECS
        } else {
            2 * secs
        };
        i = i + 1;
    }
    secs
}

/// Whether a wait for the probe to settle ends at `state`.
pub open spec fn settled(state: ConnectionState) -> bool {
    state == ConnectionState::Open || state == ConnectionState::Failed
}

/// Whether the probe has settled: the credentials were accepted or rejected.
pub fn is_settled(state: ConnectionState) -> (b: bool)
    ensures
        b == settled(state),
{
    state == ConnectionState::Open || state == ConnectionState::Failed
}

/// Whether a send is refused in `state` without touching the network.
pub open spec fn send_refused(state: ConnectionState) -> bool {
    state == ConnectionState::Failed || state == ConnectionState::Disconnected
}

/// The check a send makes before connecting: a handle whose password was
/// rejected, or that was closed, refuses with `NotConnected`.
pub fn send_gate(state: ConnectionState) -> (r: Option<RconError>)
    ensures
        send_refused(state) <==> r is Some,
        r matches Some(e) ==> e is NotConnected,
{
    if state == ConnectionState::Failed || state == ConnectionState::Disconnected {
        Some(RconError::NotConnected)
    } else {
        None
    }
}

/// What a send does once its command ran: the state to publish (if any),
/// whether to start probing again, and what the caller gets.
pub struct SendStep {
    pub publish: Option<ConnectionState>,
    pub reprobe: bool,
    pub result: Result<String, RconError>,
}

/// The state to publish after a send that ran in `state` and came back
/// with `outcome`.
pub open spec fn send_publish(state: ConnectionState, outcome: Result<String, RconError>) -> Option<
    ConnectionState,
> {
    match outcome {
        Ok(_) => if state == ConnectionState::Open {
            None
        } else {
            Some(ConnectionState::Open)
        },
        Err(RconError::AuthFailed) => Some(ConnectionState::Failed),
        Err(_) => Some(ConnectionState::Reconnecting),
    }
}

/// The state of a handle after publishing `publish` in `state`.
pub open spec fn state_after(state: ConnectionState, publish: Option<ConnectionState>) -> ConnectionState {
    match publish {
        Some(s) => s,
        None => state,
    }
}

/// Decide the effect of a send that ran in `state` and came back with
/// `outcome`. A reply proves the credentials good (the handle is `Open`),
/// but a rate-limit reply is still an error for the caller; a rejected
/// password makes the handle `Failed`; any other failure makes it
/// `Reconnecting` and starts a new probe.
pub fn after_send(state: ConnectionState, outcome: Result<String, RconError>) -> (step: SendStep)
    ensures
        step.publish == send_publish(state, outcome),
        step.reprobe == (outcome is Err && !(outcome->Err_0 is AuthFailed)),
        outcome matches Err(e) && !(e is AuthFailed) ==> step.publish == Some(
            ConnectionState::Reconnecting,
        ),
        match outcome {
            Ok(body) => if is_rate_limit_body(body@) {
                step.result matches Err(RconError::RateLimited)
            } else {
                step.result matches Ok(r) && r == body
            },
            Err(e) => step.result matches Err(f) && f == e,
        },
{
    match outcome {
        Ok(body) => {
            let publish = if state == ConnectionState::Open {
                None
            } else {
                Some(ConnectionState::Open)
            };
            if is_rate_limit_response(body.as_str()) {
                SendStep { publish, reprobe: false, result: Err(RconError::RateLimited) }
            } else {
                SendStep { publish, reprobe: false, result: Ok(body) }
            }
        },
        Err(RconError::AuthFailed) => SendStep {
            publish: Some(ConnectionState::Failed),
            reprobe: false,
            result: Err(RconError::AuthFailed),
        },
        Err(e) => SendStep {
            publish: Some(ConnectionState::Reconnecting),
            reprobe: true,
            result: Err(e),
        },
    }
}

/// A rejected password is terminal: whether the probe or a send saw the
/// rejection, the handle is `Failed`, the probe loop stops, and every later
/// send is refused without touching the network.
pub proof fn law_rejection_is_terminal(state: ConnectionState)
    ensures
        probe_state(Some(Err(RconError::AuthFailed))) == ConnectionState::Failed,
        state_after(state, send_publish(state, Err(RconError::AuthFailed)))
            == ConnectionState::Failed,
        settled(ConnectionState::Failed),
        send_refused(ConnectionState::Failed),
{
}

/// `Failed` is entered only when the server rejects the password: no other
/// outcome of a probe or a send leads there.
pub proof fn law_failed_only_on_rejection(
    state: ConnectionState,
    probe: Option<Result<(), RconError>>,
    sent: Result<String, RconError>,
)
    ensures
        probe_state(probe) == ConnectionState::Failed ==> probe matches Some(
            Err(RconError::AuthFailed),
        ),
        send_publish(state, sent) == Some(ConnectionState::Failed) ==> sent matches Err(
            RconError::AuthFailed,
        ),
{
}

/// Every failed send other than a rejected password leaves the handle
/// `Reconnecting`, whatever state the send ran in: a transport failure or a
/// timeout while `Open` is published, not kept quiet.
pub proof fn law_send_failure_reconnects(state: ConnectionState, e: RconError)
    requires
        !(e is AuthFailed),
    ensures
        send_publish(state, Err(e)) == Some(ConnectionState::Reconnecting),
        state_after(state, send_publish(state, Err(e))) == ConnectionState::Reconnecting,
{
}

/// Any reply from the server proves the credentials good: after it the
/// handle is `Open`, whatever state it was in.
pub proof fn law_reply_opens(state: ConnectionState, body: String)
    ensures
        state_after(state, send_publish(state, Ok(body))) == ConnectionState::Open,
{
}

/// Every probe either settles the handle or leaves it `Reconnecting`, and
/// the probe loop retries exactly when it has not settled.
pub proof fn law_probe_retries_until_settled(outcome: Option<Result<(), RconError>>)
    ensures
        settled(probe_state(outcome)) || probe_state(outcome) == ConnectionState::Reconnecting,
        settled(probe_state(outcome)) <==> probe_state(outcome) != ConnectionState::Reconnecting,
{
}

/// The waits of the reconnect loop never shrink, stay between one and
/// thirty seconds, and reach thirty seconds from the sixth attempt on.
pub proof fn law_backoff_grows_to_cap(attempt: nat)
    ensures
        1 <= backoff_spec(attempt) <= 30,
        backoff_spec(attempt) <= backoff_spec(attempt + 1),
        attempt >= 5 ==> backoff_spec(attempt) == 30,
    decreases attempt,
{
    if attempt > 0 {
        law_backoff_grows_to_cap((attempt - 1) as nat);
    }
    assert(backoff_spec(attempt + 1) == if 2 * backoff_spec(attempt) > 30 {
        30
    } else {
        2 * backoff_spec(attempt)
    });
    if attempt == 5 {
        reveal_with_fuel(backoff_spec, 6);
    }
}

} // verus!
