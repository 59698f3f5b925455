use ffmpeg_task::tokenizer::{split_command_line, ParseError};

fn tokens(text: &str) -> Vec<String> {
    split_command_line(text).expect("parse failed")
}

#[test]
fn split_command_line_handles_quotes() {
    let parsed = split_command_line(r#"-i "{input}" -vf "scale=1280:-1,format=yuv420p" "{output}""#)
        .expect("parse failed");

    assert_eq!(
        parsed,
        vec![
            "-i".to_string(),
            "{input}".to_string(),
            "-vf".to_string(),
            "scale=1280:-1,format=yuv420p".to_string(),
            "{output}".to_string(),
        ]
    );
}

#[test]
fn unterminated_single_quote_is_rejected() {
    assert_eq!(split_command_line("-i 'abc"), Err(ParseError::UnterminatedQuote));
    assert_eq!(split_command_line("'"), Err(ParseError::UnterminatedQuote));
}

#[test]
fn unterminated_double_quote_is_rejected() {
    assert_eq!(split_command_line("-i \"abc def"), Err(ParseError::UnterminatedQuote));
    assert_eq!(split_command_line("a \"b\\\""), Err(ParseError::UnterminatedQuote));
}

#[test]
fn trailing_backslash_is_rejected() {
    assert_eq!(split_command_line("-i abc\\"), Err(ParseError::UnterminatedEscape));
    assert_eq!(split_command_line("\\"), Err(ParseError::UnterminatedEscape));
    assert_eq!(split_command_line("\"abc\\"), Err(ParseError::UnterminatedEscape));
}

#[test]
fn escaped_backslash_at_the_end_is_a_character() {
    assert_eq!(tokens("a\\\\"), vec!["a\\".to_string()]);
}

#[test]
fn backslash_is_inert_inside_single_quotes() {
    assert_eq!(tokens(r"'a\b' c"), vec![r"a\b".to_string(), "c".to_string()]);
    assert_eq!(tokens(r"'a\'"), vec![r"a\".to_string()]);
}

#[test]
fn backslash_escapes_inside_double_quotes_and_outside() {
    assert_eq!(tokens(r#""a\"b""#), vec!["a\"b".to_string()]);
    assert_eq!(tokens(r"a\ b c"), vec!["a b".to_string(), "c".to_string()]);
    assert_eq!(tokens(r"\'x"), vec!["'x".to_string()]);
}

#[test]
fn quotes_of_the_other_kind_are_characters() {
    assert_eq!(tokens(r#"'a"b' "c'd""#), vec!["a\"b".to_string(), "c'd".to_string()]);
}

#[test]
fn quoted_white_space_does_not_split() {
    assert_eq!(tokens("'a b'\t\"c  d\"\n e"), vec!["a b".to_string(), "c  d".to_string(), "e".to_string()]);
}

#[test]
fn adjacent_quoted_stretches_make_one_token() {
    assert_eq!(tokens(r#"a"b c"'d e'f"#), vec!["ab cd ef".to_string()]);
}

#[test]
fn empty_tokens_are_never_given_out() {
    assert_eq!(tokens(""), Vec::<String>::new());
    assert_eq!(tokens("   \t "), Vec::<String>::new());
    assert_eq!(tokens("\"\" a ''"), vec!["a".to_string()]);
    assert_eq!(tokens("  a   b  "), vec!["a".to_string(), "b".to_string()]);
}

#[test]
fn unicode_white_space_splits() {
    assert_eq!(tokens("a\u{3000}b\u{a0}c"), vec!["a".to_string(), "b".to_string(), "c".to_string()]);
}

#[test]
fn parse_error_messages() {
    assert_eq!(ParseError::UnterminatedEscape.message(), "Invalid command line: trailing escape");
    assert_eq!(ParseError::UnterminatedQuote.message(), "Invalid command line: unclosed quote");
}
