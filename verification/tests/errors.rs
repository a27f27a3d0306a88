use uckc::frontend::parser::proper_parser::parse_error::{combine_parse_errors, ParseError};

#[test]
fn end_of_file_error_holds_the_sentinel() {
    let err = ParseError::end_of_file_error(vec!["a", "b"], true);
    assert_eq!(err.expected, vec!["a", "b"]);
    assert_eq!(err.span, usize::MAX..usize::MAX);
    assert_eq!(err.got, None);
    assert!(err.is_eof);
    assert!(err.fatal);
    assert!(!ParseError::end_of_file_error(vec![], false).fatal);
}

#[test]
fn unexpected_token_error_keeps_what_it_is_given() {
    let err = ParseError::unexpected_token_error("tok", 3..6, vec!["`;`"], false);
    assert_eq!(err.expected, vec!["`;`"]);
    assert_eq!(err.span, 3..6);
    assert_eq!(err.got, Some("tok".to_string()));
    assert!(!err.is_eof);
    assert!(!err.fatal);
}

#[test]
fn with_fatality_changes_the_flag_only() {
    let err = ParseError::unexpected_token_error("tok", 3..6, vec!["`;`"], false).with_fatality(true);
    assert_eq!(err.expected, vec!["`;`"]);
    assert_eq!(err.span, 3..6);
    assert_eq!(err.got, Some("tok".to_string()));
    assert!(!err.is_eof);
    assert!(err.fatal);
}

#[test]
fn combining_takes_the_earlier_start_and_the_earlier_end() {
    let first = ParseError::unexpected_token_error("x", 10..20, vec!["a", "b"], false);
    let second = ParseError::unexpected_token_error("y", 5..25, vec!["c"], false);
    let err = combine_parse_errors(first, second);
    assert_eq!(err.expected, vec!["a", "b", "c"]);
    assert_eq!(err.span, 5..20);
    assert_eq!(err.got, Some("x".to_string()));
    assert!(!err.is_eof);
    assert!(!err.fatal);
}

#[test]
fn combining_is_fatal_if_either_side_is() {
    let fatal = |first: bool, second: bool| {
        combine_parse_errors(
            ParseError::unexpected_token_error("x", 0..1, vec![], first),
            ParseError::unexpected_token_error("y", 0..1, vec![], second),
        )
        .fatal
    };
    assert!(!fatal(false, false));
    assert!(fatal(true, false));
    assert!(fatal(false, true));
    assert!(fatal(true, true));
}

#[test]
fn combining_with_the_end_of_the_text_gives_the_sentinel() {
    let token = ParseError::unexpected_token_error("x", 10..20, vec!["a"], false);
    let end = ParseError::end_of_file_error(vec!["b"], true);
    let err = combine_parse_errors(token, end);
    assert_eq!(err.expected, vec!["a", "b"]);
    assert_eq!(err.span, usize::MAX..usize::MAX);
    assert_eq!(err.got, None);
    assert!(err.is_eof);
    assert!(err.fatal);

    let token = ParseError::unexpected_token_error("x", 10..20, vec!["a"], false);
    let end = ParseError::end_of_file_error(vec!["b"], false);
    let err = combine_parse_errors(end, token);
    assert_eq!(err.expected, vec!["b", "a"]);
    assert_eq!(err.span, usize::MAX..usize::MAX);
    assert_eq!(err.got, None);
    assert!(err.is_eof);
    assert!(!err.fatal);
}

#[test]
fn combining_keeps_descriptions_that_both_sides_name() {
    let first = ParseError::unexpected_token_error("x", 1..2, vec!["a", "b"], false);
    let second = ParseError::unexpected_token_error("y", 1..2, vec!["b"], false);
    assert_eq!(combine_parse_errors(first, second).expected, vec!["a", "b", "b"]);
}

#[test]
fn the_message_at_the_end_of_the_text() {
    let err = ParseError::end_of_file_error(vec!["`,`", "`}`", "a method definition"], true);
    assert_eq!(
        err.message(),
        "unexpected end of input, expected `,` or `}` or a method definition"
    );
    let err = ParseError::end_of_file_error(vec!["`;`"], false);
    assert_eq!(err.message(), "unexpected end of input, expected `;`");
    let err = ParseError::end_of_file_error(vec![], false);
    assert_eq!(err.message(), "unexpected end of input, expected ");
}

#[test]
fn the_message_at_a_token() {
    let err = ParseError::unexpected_token_error("fun", 12..15, vec!["Import statement", "Type Alias"], true);
    assert_eq!(
        err.message(),
        "unexpected `fun` at 12..15, expected Import statement or Type Alias"
    );
    let err = ParseError::unexpected_token_error("\u{2192}", 0..1234567890, vec!["`;`"], true);
    assert_eq!(err.message(), "unexpected `\u{2192}` at 0..1234567890, expected `;`");
    let err = ParseError::unexpected_token_error("x", 9..10, vec!["a"], true);
    assert_eq!(err.message(), "unexpected `x` at 9..10, expected a");
    let err = ParseError::unexpected_token_error("x", 100..109, vec!["a"], true);
    assert_eq!(err.message(), "unexpected `x` at 100..109, expected a");
}

#[test]
fn the_message_of_a_merged_failure() {
    let first = ParseError::unexpected_token_error("x", 10..20, vec!["a", "b"], false);
    let second = ParseError::unexpected_token_error("y", 5..25, vec!["c"], true);
    assert_eq!(
        combine_parse_errors(first, second).message(),
        "unexpected `x` at 5..20, expected a or b or c"
    );
}

#[test]
fn a_failure_merged_with_the_end_of_the_text_has_found_nothing() {
    let token = || ParseError::unexpected_token_error("fun", 23..26, vec!["a name"], false);
    let end = || ParseError::end_of_file_error(vec!["an argument"], true);

    let err = combine_parse_errors(token(), end());
    assert!(err.is_eof);
    assert!(err.fatal);
    assert_eq!(err.span, usize::MAX..usize::MAX);
    assert_eq!(err.got, None);
    assert_eq!(err.expected, vec!["a name", "an argument"]);
    assert_eq!(err.message(), "unexpected end of input, expected a name or an argument");

    let err = combine_parse_errors(end(), token());
    assert!(err.is_eof);
    assert!(err.fatal);
    assert_eq!(err.span, usize::MAX..usize::MAX);
    assert_eq!(err.got, None);
    assert_eq!(err.expected, vec!["an argument", "a name"]);

    let err = combine_parse_errors(end(), end());
    assert!(err.is_eof);
    assert_eq!(err.got, None);
}

#[test]
fn merging_in_either_order_differs_in_what_was_found_only() {
    let first = || ParseError::unexpected_token_error("x", 10..20, vec!["a"], false);
    let second = || ParseError::unexpected_token_error("y", 5..25, vec!["b"], true);
    let one = combine_parse_errors(first(), second());
    let other = combine_parse_errors(second(), first());
    assert_eq!(one.fatal, other.fatal);
    assert_eq!(one.is_eof, other.is_eof);
    assert_eq!(one.span, other.span);
    assert_eq!(one.span, 5..20);
    let mut left = one.expected.clone();
    let mut right = other.expected.clone();
    left.sort();
    right.sort();
    assert_eq!(left, right);
    assert_eq!(one.got, Some("x".to_string()));
    assert_eq!(other.got, Some("y".to_string()));
}
