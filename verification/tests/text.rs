use kagi::text::{blank, chars_of, to_ascii_lower, trimmed, trimmed_end, trimmed_line_ends};

#[test]
fn blank_means_only_white_space() {
    assert!(blank(""));
    assert!(blank(" \t\n\r\u{0b}\u{0c}\u{85}\u{a0}\u{2003}\u{3000}"));
    assert!(!blank(" x "));
    assert!(!blank("\u{200b}"));
}

#[test]
fn trimming_matches_std() {
    for s in ["", "  a b  ", "\n\tx\u{3000}", "none", " \u{a0} "] {
        assert_eq!(trimmed(s), s.trim());
        assert_eq!(trimmed_end(s), s.trim_end());
        assert_eq!(trimmed_line_ends(s), s.trim_end_matches(['\r', '\n']));
    }
    assert_eq!(trimmed_line_ends("a \r\n"), "a ");
}

#[test]
fn lower_casing_touches_only_ascii() {
    assert_eq!(to_ascii_lower("Docs.RS-Ä"), "docs.rs-Ä");
    assert_eq!(chars_of("héllo"), vec!['h', 'é', 'l', 'l', 'o']);
}
