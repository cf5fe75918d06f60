use cesm::config::ServerId;
use cesm::error::{is_rate_limit_response, RconError, UpstreamFailure};
use cesm::lifecycle::{after_probe, after_send, backoff_secs, is_settled, send_gate, should_retry_probe};
use cesm::registry::Registry;
use cesm::state::ConnectionState;

fn io_error() -> std::io::Error {
    std::io::Error::new(std::io::ErrorKind::ConnectionReset, "reset")
}

#[test]
fn probe_outcomes_map_to_states() {
    assert_eq!(after_probe(Some(Ok(()))), ConnectionState::Open);
    assert_eq!(after_probe(Some(Err(RconError::AuthFailed))), ConnectionState::Failed);
    assert_eq!(
        after_probe(Some(Err(RconError::Transport(io_error())))),
        ConnectionState::Reconnecting
    );
    assert_eq!(after_probe(None), ConnectionState::Reconnecting);
    assert!(should_retry_probe(ConnectionState::Reconnecting));
    assert!(!should_retry_probe(ConnectionState::Failed));
    assert!(!should_retry_probe(ConnectionState::Open));
}

#[test]
fn backoff_doubles_up_to_thirty_seconds() {
    let waits: Vec<u64> = (0..8).map(backoff_secs).collect();
    assert_eq!(waits, vec![1, 2, 4, 8, 16, 30, 30, 30]);
    assert_eq!(backoff_secs(u32::MAX), 30);
}

#[test]
fn settled_states() {
    assert!(is_settled(ConnectionState::Open));
    assert!(is_settled(ConnectionState::Failed));
    assert!(!is_settled(ConnectionState::Connecting));
    assert!(!is_settled(ConnectionState::Reconnecting));
    assert!(!is_settled(ConnectionState::Disconnected));
}

#[test]
fn failed_or_closed_handles_refuse_sends() {
    assert!(matches!(send_gate(ConnectionState::Failed), Some(RconError::NotConnected)));
    assert!(matches!(send_gate(ConnectionState::Disconnected), Some(RconError::NotConnected)));
    assert!(send_gate(ConnectionState::Open).is_none());
    assert!(send_gate(ConnectionState::Connecting).is_none());
    assert!(send_gate(ConnectionState::Reconnecting).is_none());
}

#[test]
fn replies_open_the_handle() {
    let step = after_send(ConnectionState::Reconnecting, Ok("pong".to_string()));
    assert_eq!(step.publish, Some(ConnectionState::Open));
    assert!(!step.reprobe);
    assert_eq!(step.result.unwrap(), "pong");

    let step = after_send(ConnectionState::Open, Ok("pong".to_string()));
    assert_eq!(step.publish, None);
}

#[test]
fn rate_limit_reply_is_an_error_but_opens() {
    let step = after_send(
        ConnectionState::Connecting,
        Ok("Too many commands, try again later.\n".to_string()),
    );
    assert_eq!(step.publish, Some(ConnectionState::Open));
    assert!(matches!(step.result, Err(RconError::RateLimited)));
    assert!(is_rate_limit_response("  Too many commands, try again later."));
    assert!(!is_rate_limit_response("Too many commands"));
}

#[test]
fn failures_fail_or_reconnect() {
    let step = after_send(ConnectionState::Open, Err(RconError::AuthFailed));
    assert_eq!(step.publish, Some(ConnectionState::Failed));
    assert!(!step.reprobe);
    assert!(matches!(step.result, Err(RconError::AuthFailed)));
    // A rejected password is terminal: the next send is refused.
    assert!(send_gate(step.publish.unwrap()).is_some());

    let step = after_send(ConnectionState::Open, Err(RconError::Timeout));
    assert_eq!(step.publish, Some(ConnectionState::Reconnecting));
    assert!(step.reprobe);
    assert!(matches!(step.result, Err(RconError::Timeout)));
}

#[test]
fn error_texts() {
    assert_eq!(RconError::AuthFailed.to_string(), "authentication failed");
    assert_eq!(RconError::Timeout.to_string(), "command timed out");
    assert_eq!(RconError::NotConnected.to_string(), "not connected");
    assert_eq!(RconError::UnknownServer.to_string(), "unknown server");
    assert_eq!(RconError::RateLimited.to_string(), "rate limited");
    assert_eq!(RconError::Transport(io_error()).to_string(), "transport error: reset");
}

#[test]
fn upstream_failures_classify() {
    assert!(matches!(RconError::from_upstream(UpstreamFailure::Auth), RconError::AuthFailed));
    match RconError::from_upstream(UpstreamFailure::CommandTooLong) {
        RconError::Transport(e) => {
            assert_eq!(e.kind(), std::io::ErrorKind::InvalidInput);
            assert_eq!(e.to_string(), "command exceeds upstream length limit");
        }
        other => panic!("unexpected {:?}", other),
    }
    match RconError::from_upstream(UpstreamFailure::Io(io_error())) {
        RconError::Transport(e) => assert_eq!(e.kind(), std::io::ErrorKind::ConnectionReset),
        other => panic!("unexpected {:?}", other),
    }
    assert!(matches!(RconError::from_rcon(rcon::Error::Auth), RconError::AuthFailed));
    assert!(matches!(
        RconError::from_rcon(rcon::Error::Io(io_error())),
        RconError::Transport(_)
    ));
}

#[test]
fn registry_routes_by_server_id_and_replaces() {
    let mut reg: Registry<&str> = Registry::new();
    let a = ServerId(1);
    let b = ServerId(2);
    assert!(reg.open(a, "a1").is_none());
    assert!(reg.open(b, "b1").is_none());
    assert_eq!(*reg.route(a).unwrap(), "a1");
    assert_eq!(*reg.route(b).unwrap(), "b1");
    assert!(matches!(reg.route(ServerId(3)), Err(RconError::UnknownServer)));
    // Opening again hands back the replaced handle.
    assert_eq!(reg.open(a, "a2"), Some("a1"));
    assert_eq!(reg.handle(a).copied(), Some("a2"));
    assert_eq!(reg.close(a), Some("a2"));
    assert!(reg.handle(a).is_none());
    assert_eq!(reg.close(a), None);
    let all = reg.close_all();
    assert_eq!(all.len(), 1);
    assert_eq!(all.get(&2).copied(), Some("b1"));
    assert!(reg.handle(b).is_none());
}
