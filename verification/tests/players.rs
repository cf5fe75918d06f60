use cesm::desktop::players::{quote_arg, PlayerIdentifierKind};

#[test]
fn quote_arg_passes_simple_values_through() {
    assert_eq!(quote_arg("brandonrbridges"), "brandonrbridges");
    assert_eq!(quote_arg("12345"), "12345");
}

#[test]
fn quote_arg_quotes_whitespace() {
    assert_eq!(quote_arg("a b c"), "\"a b c\"");
}

#[test]
fn quote_arg_escapes_inner_quotes() {
    assert_eq!(quote_arg(r#"say "hi""#), r#""say \"hi\"""#);
}

#[test]
fn quote_arg_handles_empty() {
    assert_eq!(quote_arg(""), "\"\"");
}

#[test]
fn identifier_kind_serialises_to_lowercase() {
    assert_eq!(PlayerIdentifierKind::UserId.as_arg(), "userid");
    assert_eq!(PlayerIdentifierKind::PlatformId.as_arg(), "platformid");
}
