use ts_endpoint_generator::text::{find, is_whitespace, trim};

#[test]
fn whitespace_is_the_unicode_property() {
    let mut code: u32 = 0;
    while code <= 0x3100 {
        if let Some(c) = char::from_u32(code) {
            assert_eq!(is_whitespace(c), c.is_whitespace(), "U+{:04X}", code);
        }
        code += 1;
    }
    assert!(!is_whitespace('\u{FEFF}'));
    assert!(!is_whitespace('\u{200B}'));
    assert!(!is_whitespace('\u{10FFFF}'));
}

#[test]
fn trim_cuts_both_ends() {
    assert_eq!(trim("  a b \t\n"), "a b");
    assert_eq!(trim("a"), "a");
    assert_eq!(trim(" a"), "a");
    assert_eq!(trim("a "), "a");
    assert_eq!(trim("\u{00A0}x\u{3000}"), "x");
    assert_eq!(trim("\r\n id: string\r\n"), "id: string");
}

#[test]
fn trim_of_white_space_is_empty() {
    assert_eq!(trim(""), "");
    assert_eq!(trim(" "), "");
    assert_eq!(trim(" \t\n\u{2003}"), "");
}

#[test]
fn trim_counts_characters_not_bytes() {
    assert_eq!(trim(" é "), "é");
    assert_eq!(trim("\u{3000}日本語\u{3000}\u{3000}"), "日本語");
}

#[test]
fn trim_agrees_with_the_standard_library() {
    let samples = [
        "", " ", "x", " x", "x ", "  x  y  ", "\t\tx\n", "\u{85}x\u{85}", "x\u{200B} ",
        " \u{1680}a\u{2028}\u{2029} ", "a\u{0}", "\u{0}a",
    ];
    for s in samples {
        assert_eq!(trim(s), s.trim(), "{:?}", s);
    }
}

#[test]
fn find_gives_the_first_position() {
    assert_eq!(find("a,b,c", ','), 1);
    assert_eq!(find(",a", ','), 0);
    assert_eq!(find("ab,", ','), 2);
}

#[test]
fn find_gives_the_length_without_a_hit() {
    assert_eq!(find("abc", ','), 3);
    assert_eq!(find("", ','), 0);
}

#[test]
fn find_counts_characters_not_bytes() {
    assert_eq!(find("é:x", ':'), 1);
    assert_eq!(find("日本語", ':'), 3);
}
