use uckc::frontend::parser::lexer::logos_lexer::{LexerToken, TokenKind};
use uckc::frontend::parser::lexer::scan::{char_at_offset, parse_radix, scan_run, str_eq, ByteClass};

#[test]
fn str_eq_compares_texts() {
    assert!(str_eq("", ""));
    assert!(str_eq("import", "import"));
    assert!(str_eq("h\u{e9}", "h\u{e9}"));
    assert!(!str_eq("import", "imports"));
    assert!(!str_eq("import", "impart"));
    assert!(!str_eq("a", ""));
}

#[test]
fn char_at_offset_reads_one_character() {
    let text = "a\u{e9}\u{6570}\u{1f600}z";
    assert_eq!(char_at_offset(text, 0), 'a');
    assert_eq!(char_at_offset(text, 1), '\u{e9}');
    assert_eq!(char_at_offset(text, 3), '\u{6570}');
    assert_eq!(char_at_offset(text, 6), '\u{1f600}');
    assert_eq!(char_at_offset(text, 10), 'z');
}

#[test]
fn byte_classes() {
    for b in 0..=255u8 {
        assert_eq!(ByteClass::Blank.contains(b), b == b' ' || b == b'\t' || b == b'\n' || b == 0x0c);
        assert_eq!(ByteClass::Digit.contains(b), b.is_ascii_digit());
        assert_eq!(
            ByteClass::HexDigit.contains(b),
            b.is_ascii_digit() || (b'A'..=b'F').contains(&b)
        );
        assert_eq!(ByteClass::BinDigit.contains(b), b == b'0' || b == b'1');
        assert_eq!(ByteClass::NotLineFeed.contains(b), b != b'\n');
        assert_eq!(ByteClass::NotDoubleQuote.contains(b), b != b'"');
    }
}

#[test]
fn scan_run_finds_the_end_of_a_run() {
    let bytes = b"  \t12ab\n";
    assert_eq!(scan_run(bytes, 0, ByteClass::Blank), 3);
    assert_eq!(scan_run(bytes, 3, ByteClass::Blank), 3);
    assert_eq!(scan_run(bytes, 3, ByteClass::Digit), 5);
    assert_eq!(scan_run(bytes, 0, ByteClass::NotLineFeed), 7);
    assert_eq!(scan_run(bytes, 7, ByteClass::NotLineFeed), 7);
    assert_eq!(scan_run(bytes, 0, ByteClass::NotDoubleQuote), 8);
    assert_eq!(scan_run(bytes, 8, ByteClass::Digit), 8);
}

#[test]
fn parse_radix_reads_numbers() {
    assert_eq!(parse_radix(b"x123y", 1, 4, 10), Some(123));
    assert_eq!(parse_radix(b"x123y", 1, 1, 10), Some(0));
    assert_eq!(parse_radix(b"1F", 0, 2, 16), Some(31));
    assert_eq!(parse_radix(b"ABCDEF", 0, 6, 16), Some(0xABCDEF));
    assert_eq!(parse_radix(b"101", 0, 3, 2), Some(5));
    assert_eq!(parse_radix(b"18446744073709551615", 0, 20, 10), Some(u64::MAX));
    assert_eq!(parse_radix(b"18446744073709551616", 0, 20, 10), None);
    assert_eq!(parse_radix(b"FFFFFFFFFFFFFFFFF", 0, 17, 16), None);
}

#[test]
fn every_token_has_its_class() {
    assert_eq!(LexerToken::Import.kind(), TokenKind::Import);
    assert_eq!(LexerToken::Identifier("x").kind(), TokenKind::Identifier);
    assert_eq!(LexerToken::StriLiteral("\"x\"").kind(), TokenKind::StriLiteral);
    assert_eq!(LexerToken::CharLiteral('\'').kind(), TokenKind::CharLiteral);
    assert_eq!(LexerToken::InteLiteral(1).kind(), TokenKind::InteLiteral);
    assert_eq!(LexerToken::WordLiteral(1).kind(), TokenKind::WordLiteral);
    assert_eq!(LexerToken::FloatLiteral.kind(), TokenKind::FloatLiteral);
    assert_eq!(LexerToken::BoolLiteral(true).kind(), TokenKind::BoolLiteral);
    assert_eq!(LexerToken::Comment.kind(), TokenKind::Comment);
    assert_eq!(LexerToken::Error.kind(), TokenKind::Error);
    assert_eq!(LexerToken::ThiccArrow.kind(), TokenKind::ThiccArrow);
}
