use cesm::parsers::{
    classify_ack, parse_get_server_setting, parse_listbans, parse_listplayers, split_pipe_row,
    GenericAck, ParseError,
};

const HEADER: &str = "Idx | Char name | Player name | User ID | Platform ID | Platform Name";

#[test]
fn listplayers_empty_body_is_an_error() {
    assert!(matches!(parse_listplayers(""), Err(ParseError::Empty)));
    assert!(matches!(parse_listplayers(" \n\t\n"), Err(ParseError::Empty)));
}

#[test]
fn listplayers_header_is_case_insensitive_and_blank_lines_are_ignored() {
    let body = "\n  \nidx | CHAR NAME | player name | user id | Platform ID | Platform Name\r\n\n3 | A | a | 1 | p | Steam\r\n";
    let players = parse_listplayers(body).unwrap();
    assert_eq!(players.len(), 1);
    assert_eq!(players[0].idx, 3);
    assert_eq!(players[0].platform_name, "Steam");
}

#[test]
fn listplayers_bad_index_names_the_cell() {
    let body = format!("{HEADER}\nx7 | A | a | 1 | p | Steam\n0 | B | b | 2 | q | Steam\n");
    match parse_listplayers(&body) {
        Err(ParseError::BadIndex(cell)) => assert_eq!(cell, "x7"),
        other => panic!("unexpected {:?}", other),
    }
}

#[test]
fn listplayers_unexpected_header_carries_the_raw_line() {
    match parse_listplayers("  Some | Other \nrow") {
        Err(ParseError::UnexpectedHeader(h)) => assert_eq!(h, "  Some | Other "),
        other => panic!("unexpected {:?}", other),
    }
}

#[test]
fn listbans_reads_optional_columns() {
    let body = "u1 | p1\nu2 | p2 | Name\n\nu3 | p3 | N3 | griefing | extra\nlonely\n";
    let bans = parse_listbans(body).unwrap();
    assert_eq!(bans.len(), 3);
    assert_eq!(bans[0].player_name, None);
    assert_eq!(bans[1].player_name.as_deref(), Some("Name"));
    assert_eq!(bans[1].reason, None);
    assert_eq!(bans[2].reason.as_deref(), Some("griefing"));
}

#[test]
fn get_server_setting_edge_cases() {
    assert_eq!(
        parse_get_server_setting("  pvpenabled=true \n", "PVPEnabled").unwrap(),
        Some("true".into())
    );
    assert_eq!(parse_get_server_setting("a=b=c", "a").unwrap(), Some("b=c".into()));
    assert!(matches!(
        parse_get_server_setting("Other=1", "PVPEnabled"),
        Err(ParseError::UnexpectedFormat(b)) if b == "Other=1"
    ));
    assert!(matches!(
        parse_get_server_setting("Server setting 'A' not found.", "B"),
        Err(ParseError::UnexpectedFormat(_))
    ));
}

#[test]
fn classify_ack_edge_cases() {
    assert_eq!(
        classify_ack("Couldn't find the command: foo"),
        GenericAck::UnknownCommand { command: "foo" }
    );
    assert_eq!(
        classify_ack("  Successfully executed: sql SELECT 1 \n"),
        GenericAck::Success { command: "sql SELECT 1" }
    );
    // With nothing after it the trailing space is trimmed away.
    assert_eq!(classify_ack("Successfully executed: "), GenericAck::Other);
}

#[test]
fn pipe_cells_are_trimmed() {
    assert_eq!(split_pipe_row(" a |b| c "), vec!["a", "b", "c"]);
}

#[test]
fn parse_error_texts_quote_their_payload() {
    assert_eq!(ParseError::Empty.to_string(), "response body was empty");
    assert_eq!(
        ParseError::UnexpectedHeader("a\"b".into()).to_string(),
        "unexpected header: \"a\\\"b\""
    );
    assert_eq!(
        ParseError::BadIndex("x".into()).to_string(),
        "first column was not a numeric index: \"x\""
    );
    assert_eq!(ParseError::NoData.to_string(), "server returned a no-data acknowledgement");
    assert_eq!(
        ParseError::UnexpectedFormat("junk".into()).to_string(),
        "unexpected response format: \"junk\""
    );
}
