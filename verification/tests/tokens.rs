use uckc::frontend::parser::lexer::custom_lexer_struct::CustomLexerStruct;
use uckc::frontend::parser::lexer::get_custom_lexer_from_string;
use uckc::frontend::parser::lexer::logos_lexer::{lex_token, LexerToken, TokenKind};

fn all_tokens(source: &str) -> Vec<(LexerToken<'_>, std::ops::Range<usize>)> {
    let mut lxr = get_custom_lexer_from_string(source);
    let mut tokens = Vec::new();
    while let Some(token) = lxr.next() {
        tokens.push((token, lxr.span().unwrap()));
    }
    tokens
}

fn kinds(source: &str) -> Vec<TokenKind> {
    all_tokens(source).iter().map(|(token, _)| token.kind()).collect()
}

#[test]
fn reserved_words_are_keywords() {
    let source = "import from default export enum struct class interface type fun as extends \
                  implements if else match for while loop break continue let const mut return \
                  yield this";
    assert_eq!(
        kinds(source),
        vec![
            TokenKind::Import,
            TokenKind::From,
            TokenKind::Default,
            TokenKind::Export,
            TokenKind::Enum,
            TokenKind::Struct,
            TokenKind::Class,
            TokenKind::Interface,
            TokenKind::Type,
            TokenKind::Function,
            TokenKind::As,
            TokenKind::Extends,
            TokenKind::Implements,
            TokenKind::If,
            TokenKind::Else,
            TokenKind::Match,
            TokenKind::For,
            TokenKind::While,
            TokenKind::Loop,
            TokenKind::Break,
            TokenKind::Continue,
            TokenKind::Let,
            TokenKind::Const,
            TokenKind::Mutable,
            TokenKind::Return,
            TokenKind::Yield,
            TokenKind::LittleThis,
        ]
    );
}

#[test]
fn a_longer_word_is_an_identifier() {
    assert_eq!(
        all_tokens("imports import2 _if thisx"),
        vec![
            (LexerToken::Identifier("imports"), 0..7),
            (LexerToken::Identifier("import2"), 8..15),
            (LexerToken::Identifier("_if"), 16..19),
            (LexerToken::Identifier("thisx"), 20..25),
        ]
    );
}

#[test]
fn visibility_markers_are_identifiers() {
    assert_eq!(
        all_tokens("pub priv mpriv prot mprot"),
        vec![
            (LexerToken::Identifier("pub"), 0..3),
            (LexerToken::Identifier("priv"), 4..8),
            (LexerToken::Identifier("mpriv"), 9..14),
            (LexerToken::Identifier("prot"), 15..19),
            (LexerToken::Identifier("mprot"), 20..25),
        ]
    );
}

#[test]
fn punctuation_of_one_character() {
    assert_eq!(
        kinds(", : ; ( ) { } [ ] < > * / + - % & | ^ = . ? ! ~ $ @ #"),
        vec![
            TokenKind::Comma,
            TokenKind::Colon,
            TokenKind::Semicolon,
            TokenKind::LeftParenthesis,
            TokenKind::RightParenthesis,
            TokenKind::LeftCurlyBrace,
            TokenKind::RightCurlyBrace,
            TokenKind::LeftSquareBracket,
            TokenKind::RightSquareBracket,
            TokenKind::LeftAngleBracketOrLessThan,
            TokenKind::RightAngleBracketOrGreaterThan,
            TokenKind::Asterisk,
            TokenKind::ForwardSlash,
            TokenKind::Plus,
            TokenKind::Dash,
            TokenKind::Percent,
            TokenKind::Ampersand,
            TokenKind::VerticalBar,
            TokenKind::Caret,
            TokenKind::Assign,
            TokenKind::MemberAccess,
            TokenKind::Optional,
            TokenKind::Bang,
            TokenKind::Reserved,
            TokenKind::Reserved,
            TokenKind::Reserved,
            TokenKind::Reserved,
        ]
    );
}

#[test]
fn operators_of_two_characters() {
    assert_eq!(
        kinds("** .. && || << >> == != >= <= -> =>"),
        vec![
            TokenKind::DoubleAsterisk,
            TokenKind::DoubleDot,
            TokenKind::DoubleAmpersand,
            TokenKind::DoubleVerticalBar,
            TokenKind::DoubleLeftAngleBracket,
            TokenKind::DoubleRightAngleBracket,
            TokenKind::EqualTo,
            TokenKind::NotEqualTo,
            TokenKind::GreaterThanOrEqualTo,
            TokenKind::LessThanOrEqualTo,
            TokenKind::ThinArrow,
            TokenKind::ThiccArrow,
        ]
    );
}

#[test]
fn the_longest_operator_wins() {
    assert_eq!(
        all_tokens("***<<=->>"),
        vec![
            (LexerToken::DoubleAsterisk, 0..2),
            (LexerToken::Asterisk, 2..3),
            (LexerToken::DoubleLeftAngleBracket, 3..5),
            (LexerToken::Assign, 5..6),
            (LexerToken::ThinArrow, 6..8),
            (LexerToken::RightAngleBracketOrGreaterThan, 8..9),
        ]
    );
}

#[test]
fn identifiers_take_letters_of_every_script() {
    assert_eq!(
        all_tokens("h\u{e9}llo \u{6570}\u{5b57}1 x\u{0663}"),
        vec![
            (LexerToken::Identifier("h\u{e9}llo"), 0..6),
            (LexerToken::Identifier("\u{6570}\u{5b57}1"), 7..14),
            (LexerToken::Identifier("x\u{0663}"), 15..18),
        ]
    );
}

#[test]
fn a_digit_of_another_script_starts_no_identifier() {
    assert_eq!(
        all_tokens("\u{0663}x"),
        vec![(LexerToken::Error, 0..2), (LexerToken::Identifier("x"), 2..3)]
    );
}

#[test]
fn a_letter_number_goes_on_an_identifier_but_starts_none() {
    assert_eq!(
        all_tokens("\u{2167}x x\u{2167}"),
        vec![
            (LexerToken::Error, 0..3),
            (LexerToken::Identifier("x"), 3..4),
            (LexerToken::Identifier("x\u{2167}"), 5..9),
        ]
    );
}

#[test]
fn a_character_that_is_alphabetic_without_being_a_letter_is_of_an_identifier() {
    assert_eq!(
        all_tokens("\u{0345} \u{093e}x a\u{0345}\u{093e}"),
        vec![
            (LexerToken::Identifier("\u{0345}"), 0..2),
            (LexerToken::Identifier("\u{093e}x"), 3..7),
            (LexerToken::Identifier("a\u{0345}\u{093e}"), 8..14),
        ]
    );
}

#[test]
fn a_mark_that_is_not_alphabetic_is_an_error_token() {
    assert_eq!(
        all_tokens("a\u{0301}"),
        vec![(LexerToken::Identifier("a"), 0..1), (LexerToken::Error, 1..3)]
    );
}

#[test]
fn an_unknown_character_is_one_error_token() {
    assert_eq!(
        all_tokens("a \u{2192} b \u{1f600}"),
        vec![
            (LexerToken::Identifier("a"), 0..1),
            (LexerToken::Error, 2..5),
            (LexerToken::Identifier("b"), 6..7),
            (LexerToken::Error, 8..12),
        ]
    );
}

#[test]
fn a_carriage_return_is_no_blank() {
    assert_eq!(
        all_tokens("a\r\n\t\x0c b"),
        vec![
            (LexerToken::Identifier("a"), 0..1),
            (LexerToken::Error, 1..2),
            (LexerToken::Identifier("b"), 6..7),
        ]
    );
}

#[test]
fn integer_literals() {
    assert_eq!(
        all_tokens("0 42 007 9223372036854775807"),
        vec![
            (LexerToken::InteLiteral(0), 0..1),
            (LexerToken::InteLiteral(42), 2..4),
            (LexerToken::InteLiteral(7), 5..8),
            (LexerToken::InteLiteral(i64::MAX), 9..28),
        ]
    );
}

#[test]
fn an_integer_too_large_is_an_error_token() {
    assert_eq!(all_tokens("9223372036854775808"), vec![(LexerToken::Error, 0..19)]);
    assert_eq!(
        all_tokens("99999999999999999999999999 1"),
        vec![(LexerToken::Error, 0..26), (LexerToken::InteLiteral(1), 27..28)]
    );
}

#[test]
fn word_literals() {
    assert_eq!(
        all_tokens("42u 0x1F 0b101 0xFFFFFFFFFFFFFFFF 18446744073709551615u"),
        vec![
            (LexerToken::WordLiteral(42), 0..3),
            (LexerToken::WordLiteral(31), 4..8),
            (LexerToken::WordLiteral(5), 9..14),
            (LexerToken::WordLiteral(u64::MAX), 15..33),
            (LexerToken::WordLiteral(u64::MAX), 34..55),
        ]
    );
}

#[test]
fn a_word_too_large_is_an_error_token() {
    assert_eq!(all_tokens("18446744073709551616u"), vec![(LexerToken::Error, 0..21)]);
    assert_eq!(all_tokens("0x10000000000000000"), vec![(LexerToken::Error, 0..19)]);
    assert_eq!(
        all_tokens(
            "0b11111111111111111111111111111111111111111111111111111111111111111"
        ),
        vec![(LexerToken::Error, 0..67)]
    );
}

#[test]
fn a_prefix_without_digits_is_no_word_literal() {
    assert_eq!(
        all_tokens("0x 0b2 0xg 00x1 0xab"),
        vec![
            (LexerToken::InteLiteral(0), 0..1),
            (LexerToken::Identifier("x"), 1..2),
            (LexerToken::InteLiteral(0), 3..4),
            (LexerToken::Identifier("b2"), 4..6),
            (LexerToken::InteLiteral(0), 7..8),
            (LexerToken::Identifier("xg"), 8..10),
            (LexerToken::InteLiteral(0), 11..13),
            (LexerToken::Identifier("x1"), 13..15),
            (LexerToken::InteLiteral(0), 16..17),
            (LexerToken::Identifier("xab"), 17..20),
        ]
    );
}

#[test]
fn float_literals() {
    assert_eq!(
        all_tokens("1.5 1. 1e5 1E-5 1.5e+10 1.e5"),
        vec![
            (LexerToken::FloatLiteral, 0..3),
            (LexerToken::FloatLiteral, 4..6),
            (LexerToken::FloatLiteral, 7..10),
            (LexerToken::FloatLiteral, 11..15),
            (LexerToken::FloatLiteral, 16..23),
            (LexerToken::FloatLiteral, 24..28),
        ]
    );
}

#[test]
fn an_exponent_without_digits_is_no_part_of_a_float() {
    assert_eq!(
        all_tokens("1e 1e+ 1.5e 1..2"),
        vec![
            (LexerToken::InteLiteral(1), 0..1),
            (LexerToken::Identifier("e"), 1..2),
            (LexerToken::InteLiteral(1), 3..4),
            (LexerToken::Identifier("e"), 4..5),
            (LexerToken::Plus, 5..6),
            (LexerToken::FloatLiteral, 7..10),
            (LexerToken::Identifier("e"), 10..11),
            (LexerToken::FloatLiteral, 12..14),
            (LexerToken::MemberAccess, 14..15),
            (LexerToken::InteLiteral(2), 15..16),
        ]
    );
}

#[test]
fn a_number_ends_where_its_digits_end() {
    assert_eq!(
        all_tokens("12abc 12u5 7up"),
        vec![
            (LexerToken::InteLiteral(12), 0..2),
            (LexerToken::Identifier("abc"), 2..5),
            (LexerToken::WordLiteral(12), 6..9),
            (LexerToken::InteLiteral(5), 9..10),
            (LexerToken::WordLiteral(7), 11..13),
            (LexerToken::Identifier("p"), 13..14),
        ]
    );
}

#[test]
fn boolean_literals() {
    assert_eq!(
        all_tokens("true false truely"),
        vec![
            (LexerToken::BoolLiteral(true), 0..4),
            (LexerToken::BoolLiteral(false), 5..10),
            (LexerToken::Identifier("truely"), 11..17),
        ]
    );
}

#[test]
fn string_literals_keep_their_text() {
    assert_eq!(
        all_tokens(r#""abc" "" "a\"b" "a\\" "multi
line" "h\u{e9}""#),
        vec![
            (LexerToken::StriLiteral(r#""abc""#), 0..5),
            (LexerToken::StriLiteral(r#""""#), 6..8),
            (LexerToken::StriLiteral(r#""a\"b""#), 9..15),
            (LexerToken::StriLiteral(r#""a\\""#), 16..21),
            (LexerToken::StriLiteral("\"multi\nline\""), 22..34),
            (LexerToken::StriLiteral(r#""h\u{e9}""#), 35..44),
        ]
    );
}

#[test]
fn string_literals_of_text_beyond_ascii() {
    assert_eq!(
        all_tokens("\"h\u{e9}\" x"),
        vec![(LexerToken::StriLiteral("\"h\u{e9}\""), 0..5), (LexerToken::Identifier("x"), 6..7)]
    );
}

#[test]
fn an_open_string_is_an_error_token_and_what_follows() {
    assert_eq!(
        all_tokens("\"abc"),
        vec![(LexerToken::Error, 0..1), (LexerToken::Identifier("abc"), 1..4)]
    );
    assert_eq!(
        all_tokens("\"ab\\"),
        vec![
            (LexerToken::Error, 0..1),
            (LexerToken::Identifier("ab"), 1..3),
            (LexerToken::Error, 3..4),
        ]
    );
}

#[test]
fn literal_strings_take_no_escapes() {
    assert_eq!(
        all_tokens(r#"l"a\" l"" l"open"#),
        vec![
            (LexerToken::StriLiteral(r#"l"a\""#), 0..5),
            (LexerToken::StriLiteral(r#"l"""#), 6..9),
            (LexerToken::Identifier("l"), 10..11),
            (LexerToken::Error, 11..12),
            (LexerToken::Identifier("open"), 12..16),
        ]
    );
}

#[test]
fn char_literals() {
    assert_eq!(
        all_tokens(r"'a' '\n' '\'' '\\' l'a' l'\'"),
        vec![
            (LexerToken::CharLiteral('\''), 0..3),
            (LexerToken::CharLiteral('\''), 4..8),
            (LexerToken::CharLiteral('\''), 9..13),
            (LexerToken::CharLiteral('\''), 14..18),
            (LexerToken::CharLiteral('l'), 19..23),
            (LexerToken::CharLiteral('l'), 24..28),
        ]
    );
}

#[test]
fn char_literals_of_characters_beyond_ascii() {
    assert_eq!(
        all_tokens("'\u{e9}' '\\\u{6570}' l'\u{1f600}'"),
        vec![
            (LexerToken::CharLiteral('\''), 0..4),
            (LexerToken::CharLiteral('\''), 5..11),
            (LexerToken::CharLiteral('l'), 12..19),
        ]
    );
}

#[test]
fn what_is_no_char_literal() {
    assert_eq!(all_tokens("''"), vec![(LexerToken::Error, 0..1), (LexerToken::Error, 1..2)]);
    assert_eq!(
        all_tokens("'ab'"),
        vec![
            (LexerToken::Error, 0..1),
            (LexerToken::Identifier("ab"), 1..3),
            (LexerToken::Error, 3..4),
        ]
    );
    assert_eq!(
        all_tokens("l''"),
        vec![
            (LexerToken::Identifier("l"), 0..1),
            (LexerToken::Error, 1..2),
            (LexerToken::Error, 2..3),
        ]
    );
}

#[test]
fn comments_are_tokens() {
    assert_eq!(
        all_tokens("a // to the end\nb /* in\nside */ c /**/ /***/ /*/ x */"),
        vec![
            (LexerToken::Identifier("a"), 0..1),
            (LexerToken::Comment, 2..15),
            (LexerToken::Identifier("b"), 16..17),
            (LexerToken::Comment, 18..31),
            (LexerToken::Identifier("c"), 32..33),
            (LexerToken::Comment, 34..38),
            (LexerToken::Comment, 39..44),
            (LexerToken::Comment, 45..53),
        ]
    );
}

#[test]
fn a_block_comment_ends_at_the_first_closing_mark() {
    assert_eq!(
        all_tokens("/* a */ b */"),
        vec![
            (LexerToken::Comment, 0..7),
            (LexerToken::Identifier("b"), 8..9),
            (LexerToken::Asterisk, 10..11),
            (LexerToken::ForwardSlash, 11..12),
        ]
    );
}

#[test]
fn an_open_block_comment_is_a_slash_and_an_asterisk() {
    assert_eq!(
        all_tokens("/* open"),
        vec![
            (LexerToken::ForwardSlash, 0..1),
            (LexerToken::Asterisk, 1..2),
            (LexerToken::Identifier("open"), 3..7),
        ]
    );
    assert_eq!(
        all_tokens("/*/"),
        vec![
            (LexerToken::ForwardSlash, 0..1),
            (LexerToken::Asterisk, 1..2),
            (LexerToken::ForwardSlash, 2..3),
        ]
    );
}

#[test]
fn a_line_comment_at_the_end_of_the_text() {
    assert_eq!(all_tokens("//"), vec![(LexerToken::Comment, 0..2)]);
    assert_eq!(all_tokens("// h\u{e9}"), vec![(LexerToken::Comment, 0..6)]);
}

#[test]
fn blanks_alone_hold_no_token() {
    assert_eq!(all_tokens(""), vec![]);
    assert_eq!(all_tokens(" \t\n\x0c "), vec![]);
}

#[test]
fn lex_token_starts_at_an_offset() {
    let source = "ab  cd";
    let first = lex_token(source, 0).unwrap();
    assert_eq!(first.token, LexerToken::Identifier("ab"));
    assert_eq!((first.start, first.end, first.text), (0, 2, "ab"));
    let second = lex_token(source, first.end).unwrap();
    assert_eq!(second.token, LexerToken::Identifier("cd"));
    assert_eq!((second.start, second.end, second.text), (4, 6, "cd"));
    assert!(lex_token(source, second.end).is_none());
}

#[test]
fn a_fresh_cursor_has_no_current_token() {
    let lxr = CustomLexerStruct::new("a b");
    assert_eq!(lxr.span(), None);
    assert_eq!(lxr.slice(), None);
    assert_eq!(lxr.source(), "a b");
}

#[test]
fn next_moves_and_peek_does_not() {
    let mut lxr = get_custom_lexer_from_string("a , b");
    assert_eq!(lxr.peek(), Some(LexerToken::Identifier("a")));
    assert_eq!(lxr.peek(), Some(LexerToken::Identifier("a")));
    assert_eq!(lxr.next(), Some(LexerToken::Identifier("a")));
    assert_eq!(lxr.next(), Some(LexerToken::Comma));
    assert_eq!(lxr.peek(), Some(LexerToken::Identifier("b")));
    assert_eq!(lxr.next(), Some(LexerToken::Identifier("b")));
    assert_eq!(lxr.peek(), None);
    assert_eq!(lxr.next(), None);
    assert_eq!(lxr.next(), None);
}

#[test]
fn span_and_slice_are_of_the_token_returned_last() {
    let mut lxr = get_custom_lexer_from_string("ab cde");
    lxr.next();
    assert_eq!(lxr.span(), Some(0..2));
    assert_eq!(lxr.slice(), Some("ab"));
    lxr.peek();
    assert_eq!(lxr.span(), Some(3..6));
    assert_eq!(lxr.slice(), Some("cde"));
    lxr.next();
    assert_eq!(lxr.span(), Some(3..6));
    assert_eq!(lxr.slice(), Some("cde"));
    assert_eq!(lxr.next(), None);
    assert_eq!(lxr.span(), None);
    assert_eq!(lxr.slice(), None);
}

#[test]
fn peek_span_and_peek_slice_look_ahead() {
    let mut lxr = get_custom_lexer_from_string("ab cde");
    assert_eq!(lxr.peek_span(), Some(0..2));
    assert_eq!(lxr.peek_slice(), Some("ab"));
    assert_eq!(lxr.next(), Some(LexerToken::Identifier("ab")));
    assert_eq!(lxr.peek_slice(), Some("cde"));
    assert_eq!(lxr.peek_span(), Some(3..6));
    assert_eq!(lxr.span(), Some(3..6));
    assert_eq!(lxr.next(), Some(LexerToken::Identifier("cde")));
    assert_eq!(lxr.peek_span(), None);
    assert_eq!(lxr.peek_slice(), None);
}

#[test]
fn restoring_a_saved_position_at_once_changes_nothing() {
    let mut lxr = get_custom_lexer_from_string("a b c");
    lxr.next();
    let saved = lxr.save_position();
    lxr.return_to_position(saved);
    assert_eq!(lxr.span(), Some(0..1));
    assert_eq!(lxr.next(), Some(LexerToken::Identifier("b")));
    assert_eq!(lxr.span(), Some(2..3));
}

#[test]
fn tokens_are_the_same_when_read_again() {
    let source = "import a: { b, c: d } from m.s; // done\n\"text\" 0x1F h\u{e9}";
    let mut lxr = get_custom_lexer_from_string(source);
    lxr.next();
    let saved = lxr.save_position();
    let mut first = Vec::new();
    while let Some(token) = lxr.next() {
        first.push((token, lxr.span(), lxr.slice()));
    }
    lxr.return_to_position(saved);
    let mut second = Vec::new();
    while let Some(token) = lxr.next() {
        second.push((token, lxr.span(), lxr.slice()));
    }
    assert_eq!(first.len(), 18);
    assert_eq!(first, second);
    let saved = lxr.save_position();
    lxr.return_to_position(saved);
    assert_eq!(lxr.next(), None);
}

#[test]
fn a_cursor_can_go_back_more_than_once() {
    let mut lxr = get_custom_lexer_from_string("a b c");
    let start = lxr.save_position();
    lxr.next();
    let middle = lxr.save_position();
    lxr.next();
    lxr.next();
    lxr.return_to_position(middle);
    assert_eq!(lxr.next(), Some(LexerToken::Identifier("b")));
    lxr.return_to_position(start);
    assert_eq!(lxr.next(), Some(LexerToken::Identifier("a")));
    assert_eq!(lxr.next(), Some(LexerToken::Identifier("b")));
    assert_eq!(lxr.next(), Some(LexerToken::Identifier("c")));
    assert_eq!(lxr.next(), None);
}
