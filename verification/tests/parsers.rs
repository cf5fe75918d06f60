use cesm::parsers::{
    classify_ack, parse_broadcast_ack, parse_get_server_setting, parse_listbans,
    parse_listplayers, GenericAck, ParseError,
};

// ---- listplayers ----

#[test]
fn listplayers_empty_server_returns_no_players() {
    let body = "Idx | Char name | Player name | User ID | Platform ID | Platform Name\n";
    let players = parse_listplayers(body).unwrap();
    assert!(players.is_empty());
}

#[test]
fn listplayers_parses_synthetic_row() {
    let body = "Idx | Char name | Player name | User ID | Platform ID | Platform Name\n\
                0 | Brennorr | brandonrbridges | 12345 | 76561198000000000 | Steam\n\
                1 | Eve | EvePlayer | 67890 | 76561198000000001 | Steam\n";
    let players = parse_listplayers(body).unwrap();
    assert_eq!(players.len(), 2);
    assert_eq!(players[0].idx, 0);
    assert_eq!(players[0].char_name, "Brennorr");
    assert_eq!(players[0].platform_name, "Steam");
    assert_eq!(players[1].user_id, "67890");
}

#[test]
fn listplayers_rejects_unknown_header() {
    let body = "Some | Other | Header\n0 | foo | bar\n";
    let err = parse_listplayers(body).unwrap_err();
    assert!(matches!(err, ParseError::UnexpectedHeader(_)));
}

#[test]
fn listplayers_skips_malformed_rows_but_keeps_good_ones() {
    let body = "Idx | Char name | Player name | User ID | Platform ID | Platform Name\n\
                not-enough-cells\n\
                0 | A | a | 1 | sid1 | Steam\n";
    let players = parse_listplayers(body).unwrap();
    assert_eq!(players.len(), 1);
    assert_eq!(players[0].char_name, "A");
}

// ---- listbans ----

#[test]
fn listbans_empty_returns_empty_vec() {
    let body = "Successfully executed: listbans";
    let bans = parse_listbans(body).unwrap();
    assert!(bans.is_empty());
}

// ---- GetServerSetting ----

#[test]
fn get_server_setting_known_key() {
    assert_eq!(
        parse_get_server_setting("PVPEnabled=false", "PVPEnabled").unwrap(),
        Some("false".into())
    );
    assert_eq!(
        parse_get_server_setting("HarvestAmountMultiplier=1.0", "HarvestAmountMultiplier")
            .unwrap(),
        Some("1.0".into())
    );
    assert_eq!(
        parse_get_server_setting("ServerRegion=EU", "ServerRegion").unwrap(),
        Some("EU".into())
    );
}

#[test]
fn get_server_setting_empty_value() {
    assert_eq!(
        parse_get_server_setting("NPCRespawnMultiplier=", "NPCRespawnMultiplier").unwrap(),
        Some("".into())
    );
}

#[test]
fn get_server_setting_not_found() {
    let body = "Server setting 'XPMultiplier' not found.";
    assert_eq!(parse_get_server_setting(body, "XPMultiplier").unwrap(), None);
}

#[test]
fn get_server_setting_rejects_unrelated_response() {
    let err = parse_get_server_setting("totally garbage", "X").unwrap_err();
    assert!(matches!(err, ParseError::UnexpectedFormat(_)));
}

// ---- broadcast ----

#[test]
fn broadcast_ack_recognises_canonical_ok() {
    assert!(parse_broadcast_ack("Message has been broadcast."));
    assert!(parse_broadcast_ack("Message has been broadcast.\n"));
}

#[test]
fn broadcast_ack_rejects_anything_else() {
    assert!(!parse_broadcast_ack("Something unexpected"));
}

// ---- generic ack ----

#[test]
fn classify_ack_success() {
    assert_eq!(
        classify_ack("Successfully executed: listbans"),
        GenericAck::Success { command: "listbans" },
    );
}

#[test]
fn classify_ack_unknown_command() {
    assert_eq!(
        classify_ack(r#"Couldn't find the command: serverinfo. Try "help""#),
        GenericAck::UnknownCommand { command: "serverinfo" },
    );
}

#[test]
fn classify_ack_syntax_error() {
    assert_eq!(
        classify_ack("Syntax error, see help for usage."),
        GenericAck::SyntaxError
    );
}

#[test]
fn classify_ack_other_pass_through() {
    assert_eq!(classify_ack("PVPEnabled=false"), GenericAck::Other);
}
