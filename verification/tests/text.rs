use pwsh_history_server::text::{
    begins, contains_lowered, decimal_text, ends_with_newline, join_lines, same, split_lines,
    split_pieces, to_chars, to_lower, trim, trim_start, without_ending, without_endings,
};

#[test]
fn trim_takes_unicode_white_space() {
    for text in [
        "",
        " ",
        "a",
        " a b ",
        "\t\n\r a\u{b}\u{c}",
        "\u{85}\u{a0}x\u{1680}\u{2000}\u{200a}",
        "\u{2028}y\u{2029}\u{202f}\u{205f}\u{3000}",
        "\u{200b}z\u{180e}\u{feff}",
    ] {
        assert_eq!(trim(text), text.trim());
        assert_eq!(trim(&trim(text)), trim(text));
        assert_eq!(trim_start(text), text.trim_start());
    }
}

#[test]
fn white_space_is_what_unicode_lists() {
    for c in (0..=0x10ffffu32).filter_map(char::from_u32) {
        let listed = matches!(
            c,
            '\u{9}'..='\u{d}'
                | ' '
                | '\u{85}'
                | '\u{a0}'
                | '\u{1680}'
                | '\u{2000}'..='\u{200a}'
                | '\u{2028}'
                | '\u{2029}'
                | '\u{202f}'
                | '\u{205f}'
                | '\u{3000}'
        );
        assert_eq!(c.is_whitespace(), listed);
    }
}

#[test]
fn lines_end_with_newline_or_cr_newline() {
    for text in [
        "", "\n", "a", "a\n", "a\nb", "\n\n", "a\r\nb\r\n", "a\r\r\nb\r", "\r", "\r\n", "a\rb\n\n",
    ] {
        let pieces = split_pieces(text);
        let whole: Vec<&str> = text.split_inclusive('\n').collect();
        assert_eq!(pieces, whole);
        let bare: Vec<String> = pieces.iter().map(|piece| without_ending(piece)).collect();
        let expected: Vec<&str> = text.lines().collect();
        assert_eq!(bare, expected);
        assert_eq!(without_endings(&pieces), expected);
        assert_eq!(split_lines(text), expected);
        assert_eq!(join_lines(&bare), expected.join("\n"));
    }
}

#[test]
fn parts_are_found_in_any_ascii_case() {
    assert!(contains_lowered("xABCy", "abc"));
    assert!(contains_lowered("abc", "abc"));
    assert!(contains_lowered("aab", "ab"));
    assert!(contains_lowered("", ""));
    assert!(contains_lowered("x", ""));
    assert!(!contains_lowered("ab", "abc"));
    assert!(!contains_lowered("abc", "ABC"));
    assert!(!contains_lowered("ÄB", "äb"));
    assert_eq!(to_lower('Z'), 'z');
    assert_eq!(to_lower('['), '[');
    assert_eq!(to_lower('@'), '@');
    assert_eq!(to_lower('É'), 'É');
}

#[test]
fn small_helpers() {
    assert_eq!(to_chars("aä€"), vec!['a', 'ä', '€']);
    assert!(same("a", "a"));
    assert!(!same("a", "A"));
    assert!(begins("abc", "ab"));
    assert!(begins("abc", ""));
    assert!(!begins("abc", "bc"));
    assert!(!begins("ab", "abc"));
    assert!(ends_with_newline("\n"));
    assert!(!ends_with_newline(""));
    assert!(!ends_with_newline("\n "));
    assert_eq!(decimal_text(0), "0");
    assert_eq!(decimal_text(10), "10");
    assert_eq!(decimal_text(37373), "37373");
    assert_eq!(decimal_text(u16::MAX), "65535");
}
