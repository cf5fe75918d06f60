use cesm::config::ServerId;
use cesm::desktop::app_error::AppError;
use cesm::desktop::overview::{overview_keys, overview_players, overview_setting, ServerOverview};
use cesm::desktop::players::{
    ban_command, bans_from_reply, broadcast_command, broadcast_outcome, kick_command,
    players_from_reply, quote_arg, unban_command, BanInput, KickInput, PlayerIdentifierKind,
};
use cesm::desktop::records::{Server, ServerInput};
use cesm::desktop::secrets::{account_for, Slot, SERVICE};
use cesm::desktop::servers::{
    now_secs, parse_server_id, plan_save, timestamp_of, validate, AdminPasswordAction,
};
use cesm::error::RconError;

fn input() -> ServerInput {
    ServerInput {
        id: None,
        name: "  My Server ".into(),
        host: " 1.2.3.4 ".into(),
        rcon_port: 7779,
        rcon_password: "pw".into(),
        admin_password: Some("admin".into()),
    }
}

fn invalid_message(r: Result<(), AppError>) -> String {
    match r {
        Err(AppError::Invalid { message }) => message,
        other => panic!("unexpected {:?}", other),
    }
}

#[test]
fn validate_reports_the_first_problem() {
    assert!(validate(&input()).is_ok());
    let mut i = input();
    i.name = " \t".into();
    i.host = "".into();
    assert_eq!(invalid_message(validate(&i)), "name must not be empty");
    let mut i = input();
    i.host = "   ".into();
    assert_eq!(invalid_message(validate(&i)), "host must not be empty");
    let mut i = input();
    i.rcon_port = 0;
    assert_eq!(invalid_message(validate(&i)), "rcon port must be 1..=65535");
    let mut i = input();
    i.rcon_password = "".into();
    assert_eq!(invalid_message(validate(&i)), "rcon password must not be empty");
}

#[test]
fn save_plan_trims_and_decides_the_admin_entry() {
    let plan = plan_save(input()).unwrap();
    assert_eq!(plan.name, "My Server");
    assert_eq!(plan.host, "1.2.3.4");
    assert!(plan.has_admin_pw);
    assert!(matches!(plan.admin, AdminPasswordAction::Store(ref p) if p == "admin"));
    assert_eq!(plan.rcon_password, "pw");

    let mut i = input();
    i.admin_password = Some("".into());
    i.id = Some("x".into());
    let plan = plan_save(i).unwrap();
    assert!(!plan.has_admin_pw);
    assert!(matches!(plan.admin, AdminPasswordAction::Delete));
    assert_eq!(plan.id.as_deref(), Some("x"));

    let mut i = input();
    i.admin_password = None;
    assert!(matches!(plan_save(i).unwrap().admin, AdminPasswordAction::Delete));

    let mut i = input();
    i.rcon_port = 0;
    assert!(matches!(plan_save(i), Err(AppError::Invalid { .. })));
}

#[test]
fn server_ids_parse_from_uuid_text() {
    let id = parse_server_id("01234567-89ab-cdef-0123-456789abcdef").unwrap();
    assert_eq!(id, ServerId(0x0123_4567_89ab_cdef_0123_4567_89ab_cdef));
    assert_eq!(
        parse_server_id("{01234567-89AB-CDEF-0123-456789ABCDEF}").unwrap(),
        id
    );
    match parse_server_id("not-a-uuid") {
        Err(AppError::Invalid { message }) => assert_eq!(message, "server id must be a uuid"),
        other => panic!("unexpected {:?}", other),
    }
}

#[test]
fn server_id_text_is_hyphenated_lowercase_and_round_trips() {
    let id = ServerId(0x0123_4567_89ab_cdef_0123_4567_89ab_cdef);
    assert_eq!(id.to_string(), "01234567-89ab-cdef-0123-456789abcdef");
    let fresh = ServerId::new();
    let text = fresh.to_string();
    assert_eq!(ServerId::parse_str(&text), Some(fresh));
    // Version 4 and the RFC 4122 variant.
    assert_eq!(text.as_bytes()[14], b'4');
    assert!(matches!(text.as_bytes()[19], b'8' | b'9' | b'a' | b'b'));
    assert_eq!(ServerId::default().to_string().len(), 36);
}

#[test]
fn keychain_account_names() {
    assert_eq!(SERVICE, "dev.brandonbridges.cesm");
    assert_eq!(Slot::Rcon.suffix(), "rcon");
    assert_eq!(account_for("abc", Slot::Rcon), "cesm:abc:rcon");
    assert_eq!(account_for("abc", Slot::Admin), "cesm:abc:admin");
    assert_ne!(account_for("a:rcon", Slot::Admin), account_for("a", Slot::Rcon));
}

#[test]
fn player_commands_quote_their_arguments() {
    let kick = KickInput {
        kind: PlayerIdentifierKind::Name,
        identifier: "Big Bob".into(),
        message: "bye".into(),
    };
    assert_eq!(kick_command(&kick), "KickPlayer name \"Big Bob\" bye");
    let ban = BanInput {
        kind: PlayerIdentifierKind::UserId,
        identifier: "123".into(),
        message: "".into(),
    };
    assert_eq!(ban_command(&ban), "BanPlayer userid 123 \"\"");
    assert_eq!(unban_command("76561198000000000"), "UnbanPlayer 76561198000000000");
    assert_eq!(broadcast_command("hello all"), "broadcast hello all");
    assert_eq!(PlayerIdentifierKind::Index.as_arg(), "index");
    assert_eq!(PlayerIdentifierKind::Name.as_arg(), "name");
    assert_eq!(PlayerIdentifierKind::Player.as_arg(), "player");
}

#[test]
fn quote_arg_edge_cases() {
    assert_eq!(quote_arg("tab\there"), "\"tab\there\"");
    assert_eq!(quote_arg("nbsp\u{a0}x"), "\"nbsp\u{a0}x\"");
    assert_eq!(quote_arg("\""), "\"\\\"\"");
    assert_eq!(quote_arg("back\\slash"), "back\\slash");
}

#[test]
fn broadcast_outcomes() {
    assert!(broadcast_outcome("Message has been broadcast.\n").is_ok());
    match broadcast_outcome("Syntax error, see help for usage.") {
        Err(AppError::Invalid { message }) => {
            assert_eq!(message, "broadcast text was rejected by the server")
        }
        other => panic!("unexpected {:?}", other),
    }
    match broadcast_outcome("huh") {
        Err(AppError::Rcon { message }) => assert_eq!(message, "unexpected broadcast response: huh"),
        other => panic!("unexpected {:?}", other),
    }
}

#[test]
fn replies_that_do_not_parse_become_rcon_errors() {
    match players_from_reply("bogus") {
        Err(AppError::Rcon { message }) => assert_eq!(
            message,
            "could not parse listplayers response: unexpected header: \"bogus\""
        ),
        other => panic!("unexpected {:?}", other),
    }
    match overview_players("") {
        Err(AppError::Rcon { message }) => {
            assert_eq!(message, "could not parse listplayers: response body was empty")
        }
        other => panic!("unexpected {:?}", other),
    }
    assert!(bans_from_reply("Successfully executed: listbans").unwrap().is_empty());
}

#[test]
fn overview_keeps_non_empty_values_only() {
    let keys = overview_keys();
    assert_eq!(keys.len(), 9);
    assert_eq!(keys[0], "PVPEnabled");
    assert_eq!(keys[8], "IsBattlEyeEnabled");
    let s = overview_setting("PVPEnabled", "PVPEnabled=false").unwrap();
    assert_eq!((s.key.as_str(), s.value.as_str()), ("PVPEnabled", "false"));
    assert!(overview_setting("NPCRespawnMultiplier", "NPCRespawnMultiplier=").is_none());
    assert!(overview_setting("ServerName", "Server setting 'ServerName' not found.").is_none());
    assert!(overview_setting("X", "garbage").is_none());

    let players = players_from_reply(
        "Idx | Char name | Player name | User ID | Platform ID | Platform Name\n0 | A | a | 1 | p | Steam\n",
    )
    .unwrap();
    let o = ServerOverview::new(&players, vec![s]);
    assert_eq!(o.player_count, 1);
    assert_eq!(o.settings.len(), 1);
}

#[test]
fn rows_read_back_into_servers() {
    let s = Server::from_columns("id".into(), "n".into(), "h".into(), 65536 + 7779, 2, 5, None);
    assert_eq!(s.rcon_port, 7779);
    assert!(s.has_admin_pw);
    let t = Server::created("id".into(), "n", "h", 25575, false, 1_700_000_000);
    assert_eq!(t.created_at, 1_700_000_000);
    assert!(t.last_used_at.is_none());
    assert!(!t.has_admin_pw);
}

#[test]
fn app_errors_from_client_errors() {
    assert!(matches!(AppError::from_rcon(RconError::AuthFailed), AppError::AuthFailed));
    assert!(matches!(AppError::from_rcon(RconError::NotConnected), AppError::NotConnected));
    assert!(matches!(AppError::from_rcon(RconError::Timeout), AppError::Timeout));
    assert!(matches!(AppError::from_rcon(RconError::UnknownServer), AppError::ServerNotFound));
    match AppError::from_rcon(RconError::Transport(std::io::Error::new(
        std::io::ErrorKind::Other,
        "boom",
    ))) {
        AppError::Rcon { message } => assert_eq!(message, "boom"),
        other => panic!("unexpected {:?}", other),
    }
    match AppError::from_rcon(RconError::RateLimited) {
        AppError::Rcon { message } => assert_eq!(message, "rate limited"),
        other => panic!("unexpected {:?}", other),
    }
    assert_eq!(AppError::ServerNotFound.to_string(), "server not found");
    assert_eq!(
        AppError::Storage { message: "disk".into() }.to_string(),
        "storage error: disk"
    );
    assert_eq!(AppError::Timeout.to_string(), "operation timed out");
}

#[test]
fn timestamps_of_clock_readings() {
    assert_eq!(timestamp_of(Some(1_700_000_000)), 1_700_000_000);
    assert_eq!(timestamp_of(None), 0);
    assert_eq!(timestamp_of(Some(u64::MAX)), -1);
    // The clock of the test machine reads after 2020.
    assert!(now_secs() > 1_577_836_800);
}
