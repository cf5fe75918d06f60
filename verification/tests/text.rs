use cesm::text::{
    lines_of, parse_u32_str, split_char, split_once, str_eq_ignore_ascii_case, strip_prefix,
    trim_str,
};

#[test]
fn trim_removes_unicode_white_space_on_both_ends() {
    assert_eq!(trim_str("  \t x y \n"), "x y");
    assert_eq!(trim_str("\u{3000}\u{85}abc\u{a0}\u{2028}"), "abc");
    assert_eq!(trim_str(" \r\n "), "");
    assert_eq!(trim_str(""), "");
}

#[test]
fn trim_is_idempotent_on_samples() {
    for s in ["  a b  ", "\u{2000}x\u{200a}", "", "   ", "no-space"] {
        let once = trim_str(s);
        assert_eq!(trim_str(once), once);
    }
}

#[test]
fn lines_follow_std_line_endings() {
    assert_eq!(lines_of("a\r\nb\n"), vec!["a", "b"]);
    assert_eq!(lines_of("a\nb"), vec!["a", "b"]);
    assert_eq!(lines_of("a\r"), vec!["a\r"]);
    assert_eq!(lines_of("\n"), vec![""]);
    assert_eq!(lines_of("a\n\nb"), vec!["a", "", "b"]);
    assert!(lines_of("").is_empty());
    let sample = "x\r\ny\n\r\nz\r";
    assert_eq!(lines_of(sample), sample.lines().collect::<Vec<_>>());
}

#[test]
fn split_yields_one_more_piece_than_separators() {
    assert_eq!(split_char("a|b||c", '|'), vec!["a", "b", "", "c"]);
    assert_eq!(split_char("", '|'), vec![""]);
    assert_eq!(split_char("|", '|'), vec!["", ""]);
}

#[test]
fn parse_u32_matches_std() {
    for s in ["0", "007", "+5", "4294967295", "4294967296", "-1", "", "+", "1 ", "12a", "99999999999"] {
        assert_eq!(parse_u32_str(s), s.parse::<u32>().ok(), "input {:?}", s);
    }
}

#[test]
fn ascii_case_comparison() {
    assert!(str_eq_ignore_ascii_case("Char NAME", "char name"));
    assert!(!str_eq_ignore_ascii_case("Idx", "Idy"));
    assert!(!str_eq_ignore_ascii_case("Idx", "Idx "));
    assert!(!str_eq_ignore_ascii_case("É", "é"));
}

#[test]
fn prefixes_and_first_separator() {
    assert_eq!(strip_prefix("Successfully executed: x", "Successfully executed: "), Some("x"));
    assert_eq!(strip_prefix("Succ", "Successfully"), None);
    assert_eq!(split_once("a=b=c", '='), Some(("a", "b=c")));
    assert_eq!(split_once("abc", '='), None);
}

#[test]
fn white_space_class_matches_std() {
    for u in 0u32..0x3100 {
        if let Some(c) = char::from_u32(u) {
            assert_eq!(cesm::text::is_whitespace(c), c.is_whitespace(), "char {:x}", u);
        }
    }
}

#[test]
fn trim_matches_std_on_samples() {
    for s in ["\u{feff}x", "\u{180e}y\u{180e}", " \u{205f}z\u{202f} ", "\u{85}"] {
        assert_eq!(trim_str(s), s.trim(), "input {:?}", s);
    }
}

#[test]
fn ascii_case_comparison_matches_std() {
    let words = ["Idx", "IDX", "idx", "Ïdx", "ïdx", "User ID", "user id", "userid", ""];
    for a in words {
        for b in words {
            assert_eq!(str_eq_ignore_ascii_case(a, b), a.eq_ignore_ascii_case(b), "{:?} {:?}", a, b);
        }
    }
}
