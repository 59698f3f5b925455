use ffmpeg_task::text::{
    chars_of, contains_text, decimal_text, has_text, is_whitespace, join_texts, replace_text,
    text_eq, text_from_option, text_of, trim,
};

#[test]
fn white_space_is_what_the_standard_library_calls_so() {
    let mut code: u32 = 0;
    while code <= 0x10FFFF {
        if let Some(c) = char::from_u32(code) {
            assert_eq!(is_whitespace(c), c.is_whitespace(), "U+{:04X}", code);
        }
        code += 1;
    }
}

#[test]
fn trim_removes_white_space_at_both_ends_only() {
    assert_eq!(trim("  a b \t\n"), "a b");
    assert_eq!(trim("\u{3000}x\u{2003}"), "x");
    assert_eq!(trim("   "), "");
    assert_eq!(trim(""), "");
    assert_eq!(trim("abc"), "abc");
    for sample in ["", " ", " a", "a ", " a b ", "\t\r\n", "é \u{a0}", "\u{1680}q\u{205f}"] {
        assert_eq!(trim(sample), sample.trim());
    }
}

#[test]
fn has_text_wants_a_character_that_is_not_white_space() {
    assert!(has_text("a"));
    assert!(has_text("  a  "));
    assert!(!has_text(""));
    assert!(!has_text(" \t\n\u{a0}"));
}

#[test]
fn text_from_option_trims_and_defaults_to_empty() {
    assert_eq!(text_from_option(&None), "");
    assert_eq!(text_from_option(&Some("  x y ".to_string())), "x y");
    assert_eq!(text_from_option(&Some("   ".to_string())), "");
}

#[test]
fn chars_round_trip() {
    let chars = chars_of("héllo wörld");
    assert_eq!(chars.len(), 11);
    assert_eq!(chars[1], 'é');
    assert_eq!(text_of(&chars), "héllo wörld");
}

#[test]
fn text_eq_compares_characters() {
    assert!(text_eq("raw", "raw"));
    assert!(!text_eq("raw", "raw "));
    assert!(!text_eq("raw", "rae"));
    assert!(text_eq("", ""));
}

#[test]
fn decimal_text_is_the_usual_decimal_form() {
    assert_eq!(decimal_text(0), "0");
    assert_eq!(decimal_text(7), "7");
    assert_eq!(decimal_text(10), "10");
    assert_eq!(decimal_text(480), "480");
    assert_eq!(decimal_text(-1), "-1");
    assert_eq!(decimal_text(-1280), "-1280");
    assert_eq!(decimal_text(i64::MAX), "9223372036854775807");
    assert_eq!(decimal_text(i64::MIN), "-9223372036854775808");
    for n in [1i64, 9, 11, 99, 100, 101, 65535, -65536, 1234567890123] {
        assert_eq!(decimal_text(n), n.to_string());
    }
}

#[test]
fn contains_text_finds_a_pattern_anywhere() {
    assert!(contains_text("a{input}b", "{input}"));
    assert!(contains_text("{input}", "{input}"));
    assert!(!contains_text("{inpu}t", "{input}"));
    assert!(contains_text("abc", ""));
    assert!(!contains_text("", "a"));
}

#[test]
fn replace_text_replaces_every_occurrence_from_the_left() {
    assert_eq!(replace_text("a{x}b{x}", "{x}", "12"), "a12b12");
    assert_eq!(replace_text("aaa", "aa", "b"), "ba");
    assert_eq!(replace_text("abc", "x", "y"), "abc");
    assert_eq!(replace_text("", "x", "y"), "");
    assert_eq!(replace_text("xx", "x", ""), "");
    for (s, p, t) in [("{input}{input}", "{input}", "/a b"), ("ababab", "aba", "-"), ("héé", "é", "e")] {
        assert_eq!(replace_text(s, p, t), s.replace(p, t));
    }
}

#[test]
fn join_texts_puts_the_separator_between() {
    assert_eq!(join_texts(&vec![], ","), "");
    assert_eq!(join_texts(&vec!["a".to_string()], ","), "a");
    assert_eq!(join_texts(&vec!["a".to_string(), "".to_string(), "c".to_string()], ", "), "a, , c");
}
