//! The tokens of the language and the rules that cut source text into them.
use super::scan::{
    char_at, char_at_offset, char_width, find_boundary, is_alphabetic, is_numeric,
    lemma_ascii_boundary, lemma_char_step, lemma_run_end, lemma_text_of_bytes, parse_radix,
    radix_value, run_end, scan_run, source_slice, str_eq, unicode_alphabetic, unicode_numeric,
    ByteClass,
};
use logos::Span;
use vstd::prelude::*;
use vstd::string::StringSliceAdditionalSpecFns;
use vstd::utf8::*;

verus! {

/// The class of a lexical token, without the data that some tokens carry.
#[derive(Clone, Copy, Debug, PartialEq, Eq, Structural)]
pub enum TokenKind {
    Import,
    From,
    Default,
    Export,
    Enum,
    Struct,
    Class,
    Interface,
    Type,
    Function,
    As,
    Extends,
    Implements,
    If,
    Else,
    Match,
    For,
    While,
    Loop,
    Break,
    Continue,
    Let,
    Const,
    Mutable,
    Return,
    Yield,
    LittleThis,
    Comma,
    Colon,
    Semicolon,
    LeftParenthesis,
    RightParenthesis,
    LeftCurlyBrace,
    RightCurlyBrace,
    LeftSquareBracket,
    RightSquareBracket,
    LeftAngleBracketOrLessThan,
    RightAngleBracketOrGreaterThan,
    DoubleAsterisk,
    Asterisk,
    ForwardSlash,
    Plus,
    Dash,
    Percent,
    DoubleDot,
    Ampersand,
    DoubleAmpersand,
    VerticalBar,
    DoubleVerticalBar,
    Caret,
    DoubleLeftAngleBracket,
    DoubleRightAngleBracket,
    EqualTo,
    NotEqualTo,
    GreaterThanOrEqualTo,
    LessThanOrEqualTo,
    Assign,
    MemberAccess,
    Optional,
    Bang,
    Reserved,
    ThinArrow,
    ThiccArrow,
    Identifier,
    StriLiteral,
    CharLiteral,
    InteLiteral,
    WordLiteral,
    FloatLiteral,
    BoolLiteral,
    Comment,
    Error,
}

/// One lexical token. An identifier and a string literal borrow their text
/// from the source, quotes included; an integer and a word literal carry their
/// value, a boolean literal which of the two it is, a character literal the
/// first character of its text. A float literal carries nothing: its value is
/// what its text writes.
#[derive(Clone, Copy, Debug, PartialEq)]
pub enum LexerToken<'a> {
    Import,
    From,
    Default,
    Export,
    Enum,
    Struct,
    Class,
    Interface,
    Type,
    Function,
    As,
    Extends,
    Implements,
    If,
    Else,
    Match,
    For,
    While,
    Loop,
    Break,
    Continue,
    Let,
    Const,
    Mutable,
    Return,
    Yield,
    LittleThis,
    Comma,
    Colon,
    Semicolon,
    LeftParenthesis,
    RightParenthesis,
    LeftCurlyBrace,
    RightCurlyBrace,
    LeftSquareBracket,
    RightSquareBracket,
    LeftAngleBracketOrLessThan,
    RightAngleBracketOrGreaterThan,
    DoubleAsterisk,
    Asterisk,
    ForwardSlash,
    Plus,
    Dash,
    Percent,
    DoubleDot,
    Ampersand,
    DoubleAmpersand,
    VerticalBar,
    DoubleVerticalBar,
    Caret,
    DoubleLeftAngleBracket,
    DoubleRightAngleBracket,
    EqualTo,
    NotEqualTo,
    GreaterThanOrEqualTo,
    LessThanOrEqualTo,
    Assign,
    MemberAccess,
    Optional,
    Bang,
    Reserved,
    ThinArrow,
    ThiccArrow,
    Identifier(&'a str),
    StriLiteral(&'a str),
    CharLiteral(char),
    InteLiteral(i64),
    WordLiteral(u64),
    FloatLiteral,
    BoolLiteral(bool),
    Comment,
    Error,
}

impl<'a> LexerToken<'a> {
    /// The class of this token.
    pub open spec fn spec_kind(&self) -> TokenKind {
        match self {
            LexerToken::Import => TokenKind::Import,
            LexerToken::From => TokenKind::From,
            LexerToken::Default => TokenKind::Default,
            LexerToken::Export => TokenKind::Export,
            LexerToken::Enum => TokenKind::Enum,
            LexerToken::Struct => TokenKind::Struct,
            LexerToken::Class => TokenKind::Class,
            LexerToken::Interface => TokenKind::Interface,
            LexerToken::Type => TokenKind::Type,
            LexerToken::Function => TokenKind::Function,
            LexerToken::As => TokenKind::As,
            LexerToken::Extends => TokenKind::Extends,
            LexerToken::Implements => TokenKind::Implements,
            LexerToken::If => TokenKind::If,
            LexerToken::Else => TokenKind::Else,
            LexerToken::Match => TokenKind::Match,
            LexerToken::For => TokenKind::For,
            LexerToken::While => TokenKind::While,
            LexerToken::Loop => TokenKind::Loop,
            LexerToken::Break => TokenKind::Break,
            LexerToken::Continue => TokenKind::Continue,
            LexerToken::Let => TokenKind::Let,
            LexerToken::Const => TokenKind::Const,
            LexerToken::Mutable => TokenKind::Mutable,
            LexerToken::Return => TokenKind::Return,
            LexerToken::Yield => TokenKind::Yield,
            LexerToken::LittleThis => TokenKind::LittleThis,
            LexerToken::Comma => TokenKind::Comma,
            LexerToken::Colon => TokenKind::Colon,
            LexerToken::Semicolon => TokenKind::Semicolon,
            LexerToken::LeftParenthesis => TokenKind::LeftParenthesis,
            LexerToken::RightParenthesis => TokenKind::RightParenthesis,
            LexerToken::LeftCurlyBrace => TokenKind::LeftCurlyBrace,
            LexerToken::RightCurlyBrace => TokenKind::RightCurlyBrace,
            LexerToken::LeftSquareBracket => TokenKind::LeftSquareBracket,
            LexerToken::RightSquareBracket => TokenKind::RightSquareBracket,
            LexerToken::LeftAngleBracketOrLessThan => TokenKind::LeftAngleBracketOrLessThan,
            LexerToken::RightAngleBracketOrGreaterThan => TokenKind::RightAngleBracketOrGreaterThan,
            LexerToken::DoubleAsterisk => TokenKind::DoubleAsterisk,
            LexerToken::Asterisk => TokenKind::Asterisk,
            LexerToken::ForwardSlash => TokenKind::ForwardSlash,
            LexerToken::Plus => TokenKind::Plus,
            LexerToken::Dash => TokenKind::Dash,
            LexerToken::Percent => TokenKind::Percent,
            LexerToken::DoubleDot => TokenKind::DoubleDot,
            LexerToken::Ampersand => TokenKind::Ampersand,
            LexerToken::DoubleAmpersand => TokenKind::DoubleAmpersand,
            LexerToken::VerticalBar => TokenKind::VerticalBar,
            LexerToken::DoubleVerticalBar => TokenKind::DoubleVerticalBar,
            LexerToken::Caret => TokenKind::Caret,
            LexerToken::DoubleLeftAngleBracket => TokenKind::DoubleLeftAngleBracket,
            LexerToken::DoubleRightAngleBracket => TokenKind::DoubleRightAngleBracket,
            LexerToken::EqualTo => TokenKind::EqualTo,
            LexerToken::NotEqualTo => TokenKind::NotEqualTo,
            LexerToken::GreaterThanOrEqualTo => TokenKind::GreaterThanOrEqualTo,
            LexerToken::LessThanOrEqualTo => TokenKind::LessThanOrEqualTo,
            LexerToken::Assign => TokenKind::Assign,
            LexerToken::MemberAccess => TokenKind::MemberAccess,
            LexerToken::Optional => TokenKind::Optional,
            LexerToken::Bang => TokenKind::Bang,
            LexerToken::Reserved => TokenKind::Reserved,
            LexerToken::ThinArrow => TokenKind::ThinArrow,
            LexerToken::ThiccArrow => TokenKind::ThiccArrow,
            LexerToken::Identifier(_) => TokenKind::Identifier,
            LexerToken::StriLiteral(_) => TokenKind::StriLiteral,
            LexerToken::CharLiteral(_) => TokenKind::CharLiteral,
            LexerToken::InteLiteral(_) => TokenKind::InteLiteral,
            LexerToken::WordLiteral(_) => TokenKind::WordLiteral,
            LexerToken::FloatLiteral => TokenKind::FloatLiteral,
            LexerToken::BoolLiteral(_) => TokenKind::BoolLiteral,
            LexerToken::Comment => TokenKind::Comment,
            LexerToken::Error => TokenKind::Error,
        }
    }

    /// The class of this token.
    pub fn kind(&self) -> (k: TokenKind)
        ensures
            k == self.spec_kind(),
    {
        match self {
            LexerToken::Import => TokenKind::Import,
            LexerToken::From => TokenKind::From,
            LexerToken::Default => TokenKind::Default,
            LexerToken::Export => TokenKind::Export,
            LexerToken::Enum => TokenKind::Enum,
            LexerToken::Struct => TokenKind::Struct,
            LexerToken::Class => TokenKind::Class,
            LexerToken::Interface => TokenKind::Interface,
            LexerToken::Type => TokenKind::Type,
            LexerToken::Function => TokenKind::Function,
            LexerToken::As => TokenKind::As,
            LexerToken::Extends => TokenKind::Extends,
            LexerToken::Implements => TokenKind::Implements,
            LexerToken::If => TokenKind::If,
            LexerToken::Else => TokenKind::Else,
            LexerToken::Match => TokenKind::Match,
            LexerToken::For => TokenKind::For,
            LexerToken::While => TokenKind::While,
            LexerToken::Loop => TokenKind::Loop,
            LexerToken::Break => TokenKind::Break,
            LexerToken::Continue => TokenKind::Continue,
            LexerToken::Let => TokenKind::Let,
            LexerToken::Const => TokenKind::Const,
            LexerToken::Mutable => TokenKind::Mutable,
            LexerToken::Return => TokenKind::Return,
            LexerToken::Yield => TokenKind::Yield,
            LexerToken::LittleThis => TokenKind::LittleThis,
            LexerToken::Comma => TokenKind::Comma,
            LexerToken::Colon => TokenKind::Colon,
            LexerToken::Semicolon => TokenKind::Semicolon,
            LexerToken::LeftParenthesis => TokenKind::LeftParenthesis,
            LexerToken::RightParenthesis => TokenKind::RightParenthesis,
            LexerToken::LeftCurlyBrace => TokenKind::LeftCurlyBrace,
            LexerToken::RightCurlyBrace => TokenKind::RightCurlyBrace,
            LexerToken::LeftSquareBracket => TokenKind::LeftSquareBracket,
            LexerToken::RightSquareBracket => TokenKind::RightSquareBracket,
            LexerToken::LeftAngleBracketOrLessThan => TokenKind::LeftAngleBracketOrLessThan,
            LexerToken::RightAngleBracketOrGreaterThan => TokenKind::RightAngleBracketOrGreaterThan,
            LexerToken::DoubleAsterisk => TokenKind::DoubleAsterisk,
            LexerToken::Asterisk => TokenKind::Asterisk,
            LexerToken::ForwardSlash => TokenKind::ForwardSlash,
            LexerToken::Plus => TokenKind::Plus,
            LexerToken::Dash => TokenKind::Dash,
            LexerToken::Percent => TokenKind::Percent,
            LexerToken::DoubleDot => TokenKind::DoubleDot,
            LexerToken::Ampersand => TokenKind::Ampersand,
            LexerToken::DoubleAmpersand => TokenKind::DoubleAmpersand,
            LexerToken::VerticalBar => TokenKind::VerticalBar,
            LexerToken::DoubleVerticalBar => TokenKind::DoubleVerticalBar,
            LexerToken::Caret => TokenKind::Caret,
            LexerToken::DoubleLeftAngleBracket => TokenKind::DoubleLeftAngleBracket,
            LexerToken::DoubleRightAngleBracket => TokenKind::DoubleRightAngleBracket,
            LexerToken::EqualTo => TokenKind::EqualTo,
            LexerToken::NotEqualTo => TokenKind::NotEqualTo,
            LexerToken::GreaterThanOrEqualTo => TokenKind::GreaterThanOrEqualTo,
            LexerToken::LessThanOrEqualTo => TokenKind::LessThanOrEqualTo,
            LexerToken::Assign => TokenKind::Assign,
            LexerToken::MemberAccess => TokenKind::MemberAccess,
            LexerToken::Optional => TokenKind::Optional,
            LexerToken::Bang => TokenKind::Bang,
            LexerToken::Reserved => TokenKind::Reserved,
            LexerToken::ThinArrow => TokenKind::ThinArrow,
            LexerToken::ThiccArrow => TokenKind::ThiccArrow,
            LexerToken::Identifier(_) => TokenKind::Identifier,
            LexerToken::StriLiteral(_) => TokenKind::StriLiteral,
            LexerToken::CharLiteral(_) => TokenKind::CharLiteral,
            LexerToken::InteLiteral(_) => TokenKind::InteLiteral,
            LexerToken::WordLiteral(_) => TokenKind::WordLiteral,
            LexerToken::FloatLiteral => TokenKind::FloatLiteral,
            LexerToken::BoolLiteral(_) => TokenKind::BoolLiteral,
            LexerToken::Comment => TokenKind::Comment,
            LexerToken::Error => TokenKind::Error,
        }
    }

    /// Whether the data that this token carries is what a token with this
    /// text and this number carries: an identifier or a string literal its
    /// text, a character literal the character with the number as its code, an
    /// integer or word literal the number, a boolean literal whether the text
    /// is `true`.
    pub open spec fn carries(&self, text: Seq<char>, number: int) -> bool {
        match self {
            LexerToken::Identifier(t) => t@ == text,
            LexerToken::StriLiteral(t) => t@ == text,
            LexerToken::CharLiteral(c) => *c as int == number,
            LexerToken::InteLiteral(v) => *v as int == number,
            LexerToken::WordLiteral(v) => *v as int == number,
            LexerToken::BoolLiteral(b) => *b == (text == "true"@),
            _ => true,
        }
    }

    /// Whether this token is the one that a place in the token stream holds.
    pub open spec fn models(&self, m: SpannedToken) -> bool {
        self.spec_kind() == m.kind && self.carries(m.text, m.number)
    }
}

/// One place in the token stream of a source text: the class of the token, the
/// bytes it covers, its text, and the number it stands for (the value of an
/// integer or word literal, the code of the first character of a character
/// literal's text, zero otherwise).
pub struct SpannedToken {
    pub kind: TokenKind,
    pub span: Span,
    pub text: Seq<char>,
    pub number: int,
}

/// A token as the tokenizer hands it out: the token, the byte offsets where it
/// starts and ends, and its text.
#[derive(Clone, Copy, Debug)]
pub struct TokenWithExtras<'a> {
    pub token: LexerToken<'a>,
    pub start: usize,
    pub end: usize,
    pub text: &'a str,
}

impl<'a> TokenWithExtras<'a> {
    /// Whether this is the token that a place in the token stream holds.
    pub open spec fn models(&self, m: SpannedToken) -> bool {
        &&& self.token.models(m)
        &&& self.start == m.span.start
        &&& self.end == m.span.end
        &&& self.text@ == m.text
    }
}

/// The class of a word: a reserved word, a boolean literal or an identifier.
pub open spec fn word_kind(text: Seq<char>) -> TokenKind {
    if text == "import"@ {
        TokenKind::Import
    } else if text == "from"@ {
        TokenKind::From
    } else if text == "default"@ {
        TokenKind::Default
    } else if text == "export"@ {
        TokenKind::Export
    } else if text == "enum"@ {
        TokenKind::Enum
    } else if text == "struct"@ {
        TokenKind::Struct
    } else if text == "class"@ {
        TokenKind::Class
    } else if text == "interface"@ {
        TokenKind::Interface
    } else if text == "type"@ {
        TokenKind::Type
    } else if text == "fun"@ {
        TokenKind::Function
    } else if text == "as"@ {
        TokenKind::As
    } else if text == "extends"@ {
        TokenKind::Extends
    } else if text == "implements"@ {
        TokenKind::Implements
    } else if text == "if"@ {
        TokenKind::If
    } else if text == "else"@ {
        TokenKind::Else
    } else if text == "match"@ {
        TokenKind::Match
    } else if text == "for"@ {
        TokenKind::For
    } else if text == "while"@ {
        TokenKind::While
    } else if text == "loop"@ {
        TokenKind::Loop
    } else if text == "break"@ {
        TokenKind::Break
    } else if text == "continue"@ {
        TokenKind::Continue
    } else if text == "let"@ {
        TokenKind::Let
    } else if text == "const"@ {
        TokenKind::Const
    } else if text == "mut"@ {
        TokenKind::Mutable
    } else if text == "return"@ {
        TokenKind::Return
    } else if text == "yield"@ {
        TokenKind::Yield
    } else if text == "this"@ {
        TokenKind::LittleThis
    } else if text == "true"@ || text == "false"@ {
        TokenKind::BoolLiteral
    } else {
        TokenKind::Identifier
    }
}

/// The class of a punctuation mark or operator of one character.
pub open spec fn punct1(b: u8) -> Option<TokenKind> {
    match b {
        0x2c => Some(TokenKind::Comma),  // ,
        0x3a => Some(TokenKind::Colon),  // :
        0x3b => Some(TokenKind::Semicolon),  // ;
        0x28 => Some(TokenKind::LeftParenthesis),  // (
        0x29 => Some(TokenKind::RightParenthesis),  // )
        0x7b => Some(TokenKind::LeftCurlyBrace),  // {
        0x7d => Some(TokenKind::RightCurlyBrace),  // }
        0x5b => Some(TokenKind::LeftSquareBracket),  // [
        0x5d => Some(TokenKind::RightSquareBracket),  // ]
        0x3c => Some(TokenKind::LeftAngleBracketOrLessThan),  // <
        0x3e => Some(TokenKind::RightAngleBracketOrGreaterThan),  // >
        0x2a => Some(TokenKind::Asterisk),  // *
        0x2f => Some(TokenKind::ForwardSlash),  // /
        0x2b => Some(TokenKind::Plus),  // +
        0x2d => Some(TokenKind::Dash),  // -
        0x25 => Some(TokenKind::Percent),  // %
        0x26 => Some(TokenKind::Ampersand),  // &
        0x7c => Some(TokenKind::VerticalBar),  // |
        0x5e => Some(TokenKind::Caret),  // ^
        0x3d => Some(TokenKind::Assign),  // =
        0x2e => Some(TokenKind::MemberAccess),  // .
        0x3f => Some(TokenKind::Optional),  // ?
        0x21 => Some(TokenKind::Bang),  // !
        0x7e => Some(TokenKind::Reserved),  // ~
        0x24 => Some(TokenKind::Reserved),  // $
        0x40 => Some(TokenKind::Reserved),  // @
        0x23 => Some(TokenKind::Reserved),  // #
        _ => None,
    }
}

/// The class of an operator of two characters.
pub open spec fn punct2(a: u8, b: u8) -> Option<TokenKind> {
    match (a, b) {
        (0x2a, 0x2a) => Some(TokenKind::DoubleAsterisk),  // **
        (0x2e, 0x2e) => Some(TokenKind::DoubleDot),  // ..
        (0x26, 0x26) => Some(TokenKind::DoubleAmpersand),  // &&
        (0x7c, 0x7c) => Some(TokenKind::DoubleVerticalBar),  // ||
        (0x3c, 0x3c) => Some(TokenKind::DoubleLeftAngleBracket),  // <<
        (0x3e, 0x3e) => Some(TokenKind::DoubleRightAngleBracket),  // >>
        (0x3d, 0x3d) => Some(TokenKind::EqualTo),  // ==
        (0x21, 0x3d) => Some(TokenKind::NotEqualTo),  // !=
        (0x3e, 0x3d) => Some(TokenKind::GreaterThanOrEqualTo),  // >=
        (0x3c, 0x3d) => Some(TokenKind::LessThanOrEqualTo),  // <=
        (0x2d, 0x3e) => Some(TokenKind::ThinArrow),  // ->
        (0x3d, 0x3e) => Some(TokenKind::ThiccArrow),  // =>
        _ => None,
    }
}

/// What the rules find at an offset: the class of the token, where it ends, and
/// the number it stands for.
pub struct RawToken {
    pub kind: TokenKind,
    pub end: int,
    pub number: int,
}

/// Whether an identifier can start with the character at `p`: an ASCII
/// letter, an underscore, or a character beyond ASCII that is alphabetic and
/// not numeric. Alphabetic is the Unicode property of that name. It holds of
/// every letter, and besides of the characters that are alphabetic without
/// being letters, such as the combining mark U+0345 and the vowel sign
/// U+093E: these start an identifier too.
pub open spec fn ident_start(s: Seq<u8>, p: int) -> bool {
    let b = s[p];
    ||| 0x41 <= b <= 0x5a
    ||| 0x61 <= b <= 0x7a
    ||| b == 0x5f
    ||| (b >= 0x80 && unicode_alphabetic(char_at(s, p)) && !unicode_numeric(char_at(s, p)))
}

/// Whether an identifier can go on with the character at `p`: one that can
/// start it, an ASCII digit, or a character beyond ASCII that is numeric. So
/// beyond ASCII an identifier goes on with every letter and every number, and
/// besides with the characters that are alphabetic without being letters,
/// such as U+0345 and U+093E.
pub open spec fn ident_part(s: Seq<u8>, p: int) -> bool {
    let b = s[p];
    ||| ident_start(s, p)
    ||| 0x30 <= b <= 0x39
    ||| (b >= 0x80 && unicode_numeric(char_at(s, p)))
}

/// Where the longest run of identifier characters that starts at `p` ends.
pub open spec fn ident_end(s: Seq<u8>, p: int) -> int
    decreases s.len() - p,
{
    if 0 <= p < s.len() && ident_part(s, p) && p + char_width(s[p]) <= s.len() {
        ident_end(s, p + char_width(s[p]))
    } else {
        p
    }
}

/// Where a string literal ends whose opening quote stands just before `q`:
/// after the first double quote that no backslash escapes.
pub open spec fn string_end(s: Seq<u8>, q: int) -> Option<int>
    decreases s.len() - q,
{
    if q < 0 || q >= s.len() {
        None
    } else if s[q] == 0x22 {
        Some(q + 1)
    } else if s[q] == 0x5c {
        if q + 1 < s.len() {
            string_end(s, q + 2)
        } else {
            None
        }
    } else {
        string_end(s, q + 1)
    }
}

/// Where a string literal without escapes ends whose opening quote stands just
/// before `q`: after the next double quote.
pub open spec fn raw_string_end(s: Seq<u8>, q: int) -> Option<int> {
    let e = run_end(s, q, ByteClass::NotDoubleQuote);
    if e < s.len() {
        Some(e + 1)
    } else {
        None
    }
}

/// The end of a character literal whose character ends at `e`, if a single
/// quote closes it there.
pub open spec fn closing_quote(s: Seq<u8>, e: int) -> Option<int> {
    if 0 <= e < s.len() && s[e] == 0x27 {
        Some(e + 1)
    } else {
        None
    }
}

/// Where a character literal ends whose opening quote stands just before `q`:
/// one character, or with `escapes` a backslash and one character, then a
/// single quote. The character is not a single quote itself, unless escaped.
pub open spec fn char_literal_end(s: Seq<u8>, q: int, escapes: bool) -> Option<int> {
    if q < 0 || q >= s.len() {
        None
    } else if escapes && s[q] == 0x5c {
        if q + 1 < s.len() {
            closing_quote(s, q + 1 + char_width(s[q + 1]))
        } else {
            None
        }
    } else if s[q] == 0x27 {
        None
    } else {
        closing_quote(s, q + char_width(s[q]))
    }
}

/// Where a block comment ends whose opening `/*` stands just before `q`: after
/// the first `*/` from there on.
pub open spec fn block_comment_end(s: Seq<u8>, q: int) -> Option<int>
    decreases s.len() - q,
{
    if q < 0 || q + 1 >= s.len() {
        None
    } else if s[q] == 0x2a && s[q + 1] == 0x2f {
        Some(q + 2)
    } else {
        block_comment_end(s, q + 1)
    }
}

/// Where an exponent ends that starts at `q`: `e` or `E`, a sign if there is
/// one, and at least one digit.
pub open spec fn exponent_end(s: Seq<u8>, q: int) -> Option<int> {
    if 0 <= q < s.len() && (s[q] == 0x65 || s[q] == 0x45) {
        let r = if q + 1 < s.len() && (s[q + 1] == 0x2b || s[q + 1] == 0x2d) {
            q + 2
        } else {
            q + 1
        };
        let e = run_end(s, r, ByteClass::Digit);
        if e > r {
            Some(e)
        } else {
            None
        }
    } else {
        None
    }
}

/// A word literal that ends at `end` for a number that fits in 64 bits, an
/// error token otherwise.
pub open spec fn word_or_error(value: int, end: int) -> RawToken {
    if value <= u64::MAX {
        RawToken { kind: TokenKind::WordLiteral, end, number: value }
    } else {
        RawToken { kind: TokenKind::Error, end, number: 0 }
    }
}

/// The token that starts with the digit at `p`. The longest of these wins: a
/// word literal in radix 16 (`0x`) or 2 (`0b`), a float (digits, then a
/// fraction, an exponent or both), a decimal word literal (digits and `u`), an
/// integer literal (digits). A number too large for its type is an error token
/// over the same bytes.
pub open spec fn lex_number(s: Seq<u8>, p: int) -> RawToken {
    let d = run_end(s, p, ByteClass::Digit);
    let prefixed = d == p + 1 && s[p] == 0x30 && d < s.len();
    if prefixed && s[d] == 0x78 && run_end(s, d + 1, ByteClass::HexDigit) > d + 1 {
        let h = run_end(s, d + 1, ByteClass::HexDigit);
        word_or_error(radix_value(s, d + 1, h, 16), h)
    } else if prefixed && s[d] == 0x62 && run_end(s, d + 1, ByteClass::BinDigit) > d + 1 {
        let h = run_end(s, d + 1, ByteClass::BinDigit);
        word_or_error(radix_value(s, d + 1, h, 2), h)
    } else if d < s.len() && s[d] == 0x2e {
        let f = run_end(s, d + 1, ByteClass::Digit);
        match exponent_end(s, f) {
            Some(e) => RawToken { kind: TokenKind::FloatLiteral, end: e, number: 0 },
            None => RawToken { kind: TokenKind::FloatLiteral, end: f, number: 0 },
        }
    } else if exponent_end(s, d) is Some {
        RawToken { kind: TokenKind::FloatLiteral, end: exponent_end(s, d).unwrap(), number: 0 }
    } else if d < s.len() && s[d] == 0x75 {
        word_or_error(radix_value(s, p, d, 10), d + 1)
    } else if radix_value(s, p, d, 10) <= i64::MAX {
        RawToken { kind: TokenKind::InteLiteral, end: d, number: radix_value(s, p, d, 10) }
    } else {
        RawToken { kind: TokenKind::Error, end: d, number: 0 }
    }
}

/// The token that starts with the identifier character at `p`: a string or
/// character literal without escapes where `l` stands before a quote and the
/// literal is closed, else the longest run of identifier characters, which is
/// a reserved word, a boolean literal or an identifier.
pub open spec fn lex_word(s: Seq<u8>, p: int) -> RawToken {
    let quoted = s[p] == 0x6c && p + 1 < s.len();
    if quoted && s[p + 1] == 0x22 && raw_string_end(s, p + 2) is Some {
        RawToken { kind: TokenKind::StriLiteral, end: raw_string_end(s, p + 2).unwrap(), number: 0 }
    } else if quoted && s[p + 1] == 0x27 && char_literal_end(s, p + 2, false) is Some {
        RawToken {
            kind: TokenKind::CharLiteral,
            end: char_literal_end(s, p + 2, false).unwrap(),
            number: 0x6c,
        }
    } else {
        let e = ident_end(s, p);
        RawToken { kind: word_kind(decode_utf8(s.subrange(p, e))), end: e, number: 0 }
    }
}

/// The token that starts with the slash at `p`: a comment to the end of the
/// line, a closed block comment, or the slash alone.
pub open spec fn lex_slash(s: Seq<u8>, p: int) -> RawToken {
    if p + 1 < s.len() && s[p + 1] == 0x2f {
        RawToken { kind: TokenKind::Comment, end: run_end(s, p + 2, ByteClass::NotLineFeed), number: 0 }
    } else if p + 1 < s.len() && s[p + 1] == 0x2a && block_comment_end(s, p + 2) is Some {
        RawToken { kind: TokenKind::Comment, end: block_comment_end(s, p + 2).unwrap(), number: 0 }
    } else {
        RawToken { kind: TokenKind::ForwardSlash, end: p + 1, number: 0 }
    }
}

/// The token that starts at `p`, an offset inside the text where no blank
/// stands. Where no rule applies, the one character at `p` is an error token.
pub open spec fn lex_at(s: Seq<u8>, p: int) -> RawToken {
    let b = s[p];
    if ident_start(s, p) {
        lex_word(s, p)
    } else if 0x30 <= b <= 0x39 {
        lex_number(s, p)
    } else if b == 0x22 {
        match string_end(s, p + 1) {
            Some(e) => RawToken { kind: TokenKind::StriLiteral, end: e, number: 0 },
            None => RawToken { kind: TokenKind::Error, end: p + 1, number: 0 },
        }
    } else if b == 0x27 {
        match char_literal_end(s, p + 1, true) {
            Some(e) => RawToken { kind: TokenKind::CharLiteral, end: e, number: 0x27 },
            None => RawToken { kind: TokenKind::Error, end: p + 1, number: 0 },
        }
    } else if b == 0x2f {
        lex_slash(s, p)
    } else if p + 1 < s.len() && punct2(b, s[p + 1]) is Some {
        RawToken { kind: punct2(b, s[p + 1]).unwrap(), end: p + 2, number: 0 }
    } else if punct1(b) is Some {
        RawToken { kind: punct1(b).unwrap(), end: p + 1, number: 0 }
    } else {
        RawToken { kind: TokenKind::Error, end: p + char_width(b), number: 0 }
    }
}

/// The first token at or after `p`, blanks skipped; none where only blanks
/// are left.
pub open spec fn spec_lex(s: Seq<u8>, p: int) -> Option<SpannedToken> {
    let start = run_end(s, p, ByteClass::Blank);
    if start >= s.len() {
        None
    } else {
        let raw = lex_at(s, start);
        Some(
            SpannedToken {
                kind: raw.kind,
                span: (start as usize)..(raw.end as usize),
                text: decode_utf8(s.subrange(start, raw.end)),
                number: raw.number,
            },
        )
    }
}

/// The tokens of a text from offset `p` on.
pub open spec fn tokens_from(s: Seq<u8>, p: int) -> Seq<SpannedToken>
    decreases s.len() - p,
{
    match spec_lex(s, p) {
        Some(t) => if p <= t.span.start < t.span.end <= s.len() {
            seq![t] + tokens_from(s, t.span.end as int)
        } else {
            seq![]
        },
        None => seq![],
    }
}

/// A run of identifier characters that starts on a character boundary of a
/// valid text ends on one, inside the text, and is not empty where an
/// identifier character stands at its start.
pub proof fn lemma_ident_end(s: Seq<u8>, p: int)
    requires
        valid_utf8(s),
        0 <= p <= s.len(),
        is_char_boundary(s, p),
    ensures
        p <= ident_end(s, p) <= s.len(),
        is_char_boundary(s, ident_end(s, p)),
        p < s.len() && ident_part(s, p) ==> p < ident_end(s, p),
    decreases s.len() - p,
{
    if p < s.len() {
        lemma_char_step(s, p);
        if ident_part(s, p) {
            lemma_ident_end(s, p + char_width(s[p]));
        }
    }
}

/// A string literal that is closed ends inside the text, after a double
/// quote.
pub proof fn lemma_string_end(s: Seq<u8>, q: int)
    requires
        0 <= q,
    ensures
        string_end(s, q) is Some ==> q < string_end(s, q).unwrap() <= s.len() && s[string_end(
            s,
            q,
        ).unwrap() - 1] == 0x22,
    decreases s.len() - q,
{
    if q < s.len() && s[q] != 0x22 {
        if s[q] == 0x5c {
            if q + 1 < s.len() {
                lemma_string_end(s, q + 2);
            }
        } else {
            lemma_string_end(s, q + 1);
        }
    }
}

/// A block comment that is closed ends inside the text, after a slash.
pub proof fn lemma_block_comment_end(s: Seq<u8>, q: int)
    requires
        0 <= q,
    ensures
        block_comment_end(s, q) is Some ==> q < block_comment_end(s, q).unwrap() <= s.len()
            && s[block_comment_end(s, q).unwrap() - 1] == 0x2f,
    decreases s.len() - q,
{
    if q + 1 < s.len() && !(s[q] == 0x2a && s[q + 1] == 0x2f) {
        lemma_block_comment_end(s, q + 1);
    }
}

/// The token that starts with a digit ends after an ASCII byte, inside the
/// text.
pub proof fn lemma_lex_number(s: Seq<u8>, p: int)
    requires
        0 <= p < s.len(),
        ByteClass::Digit.has(s[p]),
    ensures
        p < lex_number(s, p).end <= s.len(),
        s[lex_number(s, p).end - 1] <= 0x7f,
{
    let d = run_end(s, p, ByteClass::Digit);
    lemma_run_end(s, p, ByteClass::Digit);
    assert(d > p) by {
        reveal_with_fuel(run_end, 2);
    }
    assert(ByteClass::Digit.has(s[d - 1]));
    if d < s.len() {
        lemma_run_end(s, d + 1, ByteClass::HexDigit);
        lemma_run_end(s, d + 1, ByteClass::BinDigit);
        lemma_run_end(s, d + 1, ByteClass::Digit);
        let h = run_end(s, d + 1, ByteClass::HexDigit);
        if h > d + 1 {
            assert(ByteClass::HexDigit.has(s[h - 1]));
        }
        let b = run_end(s, d + 1, ByteClass::BinDigit);
        if b > d + 1 {
            assert(ByteClass::BinDigit.has(s[b - 1]));
        }
        let f = run_end(s, d + 1, ByteClass::Digit);
        if f > d + 1 {
            assert(ByteClass::Digit.has(s[f - 1]));
        }
        lemma_exponent_end(s, f);
    }
    lemma_exponent_end(s, d);
}

/// An exponent ends after a digit, inside the text.
pub proof fn lemma_exponent_end(s: Seq<u8>, q: int)
    requires
        0 <= q,
    ensures
        exponent_end(s, q) is Some ==> q < exponent_end(s, q).unwrap() <= s.len()
            && ByteClass::Digit.has(s[exponent_end(s, q).unwrap() - 1]),
{
    if q < s.len() && (s[q] == 0x65 || s[q] == 0x45) {
        let r = if q + 1 < s.len() && (s[q + 1] == 0x2b || s[q + 1] == 0x2d) {
            q + 2
        } else {
            q + 1
        };
        lemma_run_end(s, r, ByteClass::Digit);
        let e = run_end(s, r, ByteClass::Digit);
        if e > r {
            assert(ByteClass::Digit.has(s[e - 1]));
        }
    }
}

/// In a valid text the token that starts on a character boundary covers at
/// least one byte and ends on a character boundary inside the text.
pub proof fn lemma_lex_at(s: Seq<u8>, p: int)
    requires
        valid_utf8(s),
        0 <= p < s.len(),
        is_char_boundary(s, p),
    ensures
        p < lex_at(s, p).end <= s.len(),
        is_char_boundary(s, lex_at(s, p).end),
{
    let end = lex_at(s, p).end;
    let b = s[p];
    lemma_char_step(s, p);
    if ident_start(s, p) {
        lemma_ident_end(s, p);
        if p + 1 < s.len() {
            lemma_run_end(s, p + 2, ByteClass::NotDoubleQuote);
        }
        if end != ident_end(s, p) {
            lemma_ascii_boundary(s, end - 1);
        }
    } else if 0x30 <= b <= 0x39 {
        lemma_lex_number(s, p);
        lemma_ascii_boundary(s, end - 1);
    } else if b == 0x22 {
        lemma_string_end(s, p + 1);
        lemma_ascii_boundary(s, end - 1);
    } else if b == 0x27 {
        lemma_ascii_boundary(s, end - 1);
    } else if b == 0x2f {
        lemma_block_comment_end(s, p + 2);
        if p + 1 < s.len() && s[p + 1] == 0x2f {
            lemma_run_end(s, p + 2, ByteClass::NotLineFeed);
            if end < s.len() {
                lemma_ascii_boundary(s, end);
            } else {
                is_char_boundary_start_end_of_seq(s);
            }
        } else {
            lemma_ascii_boundary(s, end - 1);
        }
    } else if p + 1 < s.len() && punct2(b, s[p + 1]) is Some {
        lemma_ascii_boundary(s, p + 1);
    }
}

/// The tokens of a valid text leave out blanks only: from a character
/// boundary on, every byte is a blank or lies in a token.
pub proof fn lemma_tokens_from_cover(s: Seq<u8>, p: int)
    requires
        valid_utf8(s),
        s.len() <= usize::MAX,
        0 <= p <= s.len(),
        is_char_boundary(s, p),
    ensures
        forall|b: int|
            p <= b < s.len() ==> ByteClass::Blank.has(#[trigger] s[b]) || in_a_token(
                tokens_from(s, p),
                b,
            ),
    decreases s.len() - p,
{
    let start = run_end(s, p, ByteClass::Blank);
    lemma_run_end(s, p, ByteClass::Blank);
    if start < s.len() {
        if start > p {
            assert(ByteClass::Blank.has(s[start - 1]));
            lemma_ascii_boundary(s, start - 1);
        }
        lemma_lex_at(s, start);
        let t = spec_lex(s, p).unwrap();
        let rest = tokens_from(s, t.span.end as int);
        lemma_tokens_from_cover(s, t.span.end as int);
        let all = tokens_from(s, p);
        assert(all == seq![t] + rest);
        assert forall|b: int| p <= b < s.len() implies ByteClass::Blank.has(#[trigger] s[b])
            || in_a_token(all, b) by {
            if b < start {
            } else if b < t.span.end {
                assert(all[0] == t);
            } else if !ByteClass::Blank.has(s[b]) {
                let k = choose|k: int| 0 <= k < rest.len() && covers(rest[k], b);
                assert(all[k + 1] == rest[k]);
            }
        }
    }
}

/// Whether the token covers the byte at offset `b`.
pub open spec fn covers(token: SpannedToken, b: int) -> bool {
    token.span.start <= b < token.span.end
}

/// Whether one of the tokens covers the byte at offset `b`.
pub open spec fn in_a_token(tokens: Seq<SpannedToken>, b: int) -> bool {
    exists|k: int| 0 <= k < tokens.len() && covers(#[trigger] tokens[k], b)
}

/// The tokenizer passes over nothing but blanks: every byte of a valid text
/// is a blank or lies in one of its tokens.
pub proof fn lemma_token_stream_covers(s: Seq<u8>)
    requires
        valid_utf8(s),
        s.len() <= usize::MAX,
    ensures
        forall|b: int|
            0 <= b < s.len() ==> ByteClass::Blank.has(#[trigger] s[b]) || in_a_token(
                token_stream(s),
                b,
            ),
{
    is_char_boundary_start_end_of_seq(s);
    lemma_tokens_from_cover(s, 0);
}

/// The tokens from an offset on stand in the order of the text: each covers
/// at least one byte, lies inside the text at or after the offset, and ends
/// before the next one starts.
pub proof fn lemma_tokens_from_in_order(s: Seq<u8>, p: int)
    requires
        0 <= p,
    ensures
        forall|k: int|
            0 <= k < tokens_from(s, p).len() ==> p <= (#[trigger] tokens_from(s, p)[k]).span.start
                < tokens_from(s, p)[k].span.end <= s.len(),
        forall|j: int, k: int|
            0 <= j < k < tokens_from(s, p).len() ==> (#[trigger] tokens_from(s, p)[j]).span.end <= (
            #[trigger] tokens_from(s, p)[k]).span.start,
    decreases s.len() - p,
{
    match spec_lex(s, p) {
        Some(t) => {
            if p <= t.span.start < t.span.end <= s.len() {
                let rest = tokens_from(s, t.span.end as int);
                lemma_tokens_from_in_order(s, t.span.end as int);
                let all = tokens_from(s, p);
                assert(all == seq![t] + rest);
                assert forall|k: int| 0 <= k < all.len() implies p <= (#[trigger] all[k]).span.start
                    < all[k].span.end <= s.len() by {
                    if k > 0 {
                        assert(all[k] == rest[k - 1]);
                    }
                }
                assert forall|j: int, k: int| 0 <= j < k < all.len() implies (
                #[trigger] all[j]).span.end <= (#[trigger] all[k]).span.start by {
                    assert(all[k] == rest[k - 1]);
                    if j > 0 {
                        assert(all[j] == rest[j - 1]);
                    }
                }
            }
        },
        None => {},
    }
}

/// The tokens of a text stand in the order of the text: each covers at
/// least one byte inside the text and ends before the next one starts.
pub proof fn lemma_token_stream_in_order(s: Seq<u8>)
    ensures
        forall|k: int|
            0 <= k < token_stream(s).len() ==> (#[trigger] token_stream(s)[k]).span.start
                < token_stream(s)[k].span.end <= s.len(),
        forall|j: int, k: int|
            0 <= j < k < token_stream(s).len() ==> (#[trigger] token_stream(s)[j]).span.end <= (
            #[trigger] token_stream(s)[k]).span.start,
{
    lemma_tokens_from_in_order(s, 0);
}

/// The token stream of a source text.
pub open spec fn token_stream(s: Seq<u8>) -> Seq<SpannedToken> {
    tokens_from(s, 0)
}

fn classify_word<'a>(word: &'a str) -> (t: LexerToken<'a>)
    ensures
        t.spec_kind() == word_kind(word@),
        t.carries(word@, 0),
{
    if str_eq(word, "import") {
        LexerToken::Import
    } else if str_eq(word, "from") {
        LexerToken::From
    } else if str_eq(word, "default") {
        LexerToken::Default
    } else if str_eq(word, "export") {
        LexerToken::Export
    } else if str_eq(word, "enum") {
        LexerToken::Enum
    } else if str_eq(word, "struct") {
        LexerToken::Struct
    } else if str_eq(word, "class") {
        LexerToken::Class
    } else if str_eq(word, "interface") {
        LexerToken::Interface
    } else if str_eq(word, "type") {
        LexerToken::Type
    } else if str_eq(word, "fun") {
        LexerToken::Function
    } else if str_eq(word, "as") {
        LexerToken::As
    } else if str_eq(word, "extends") {
        LexerToken::Extends
    } else if str_eq(word, "implements") {
        LexerToken::Implements
    } else if str_eq(word, "if") {
        LexerToken::If
    } else if str_eq(word, "else") {
        LexerToken::Else
    } else if str_eq(word, "match") {
        LexerToken::Match
    } else if str_eq(word, "for") {
        LexerToken::For
    } else if str_eq(word, "while") {
        LexerToken::While
    } else if str_eq(word, "loop") {
        LexerToken::Loop
    } else if str_eq(word, "break") {
        LexerToken::Break
    } else if str_eq(word, "continue") {
        LexerToken::Continue
    } else if str_eq(word, "let") {
        LexerToken::Let
    } else if str_eq(word, "const") {
        LexerToken::Const
    } else if str_eq(word, "mut") {
        LexerToken::Mutable
    } else if str_eq(word, "return") {
        LexerToken::Return
    } else if str_eq(word, "yield") {
        LexerToken::Yield
    } else if str_eq(word, "this") {
        LexerToken::LittleThis
    } else if str_eq(word, "true") {
        LexerToken::BoolLiteral(true)
    } else if str_eq(word, "false") {
        LexerToken::BoolLiteral(false)
    } else {
        LexerToken::Identifier(word)
    }
}

fn punct1_of(b: u8) -> (k: Option<TokenKind>)
    ensures
        k == punct1(b),
{
    match b {
        0x2c => Some(TokenKind::Comma),  // ,
        0x3a => Some(TokenKind::Colon),  // :
        0x3b => Some(TokenKind::Semicolon),  // ;
        0x28 => Some(TokenKind::LeftParenthesis),  // (
        0x29 => Some(TokenKind::RightParenthesis),  // )
        0x7b => Some(TokenKind::LeftCurlyBrace),  // {
        0x7d => Some(TokenKind::RightCurlyBrace),  // }
        0x5b => Some(TokenKind::LeftSquareBracket),  // [
        0x5d => Some(TokenKind::RightSquareBracket),  // ]
        0x3c => Some(TokenKind::LeftAngleBracketOrLessThan),  // <
        0x3e => Some(TokenKind::RightAngleBracketOrGreaterThan),  // >
        0x2a => Some(TokenKind::Asterisk),  // *
        0x2f => Some(TokenKind::ForwardSlash),  // /
        0x2b => Some(TokenKind::Plus),  // +
        0x2d => Some(TokenKind::Dash),  // -
        0x25 => Some(TokenKind::Percent),  // %
        0x26 => Some(TokenKind::Ampersand),  // &
        0x7c => Some(TokenKind::VerticalBar),  // |
        0x5e => Some(TokenKind::Caret),  // ^
        0x3d => Some(TokenKind::Assign),  // =
        0x2e => Some(TokenKind::MemberAccess),  // .
        0x3f => Some(TokenKind::Optional),  // ?
        0x21 => Some(TokenKind::Bang),  // !
        0x7e => Some(TokenKind::Reserved),  // ~
        0x24 => Some(TokenKind::Reserved),  // $
        0x40 => Some(TokenKind::Reserved),  // @
        0x23 => Some(TokenKind::Reserved),  // #
        _ => None,
    }
}

fn punct2_of(a: u8, b: u8) -> (k: Option<TokenKind>)
    ensures
        k == punct2(a, b),
{
    match (a, b) {
        (0x2a, 0x2a) => Some(TokenKind::DoubleAsterisk),  // **
        (0x2e, 0x2e) => Some(TokenKind::DoubleDot),  // ..
        (0x26, 0x26) => Some(TokenKind::DoubleAmpersand),  // &&
        (0x7c, 0x7c) => Some(TokenKind::DoubleVerticalBar),  // ||
        (0x3c, 0x3c) => Some(TokenKind::DoubleLeftAngleBracket),  // <<
        (0x3e, 0x3e) => Some(TokenKind::DoubleRightAngleBracket),  // >>
        (0x3d, 0x3d) => Some(TokenKind::EqualTo),  // ==
        (0x21, 0x3d) => Some(TokenKind::NotEqualTo),  // !=
        (0x3e, 0x3d) => Some(TokenKind::GreaterThanOrEqualTo),  // >=
        (0x3c, 0x3d) => Some(TokenKind::LessThanOrEqualTo),  // <=
        (0x2d, 0x3e) => Some(TokenKind::ThinArrow),  // ->
        (0x3d, 0x3e) => Some(TokenKind::ThiccArrow),  // =>
        _ => None,
    }
}

/// The token of a class that carries no data.
fn plain_token<'a>(kind: TokenKind) -> (t: LexerToken<'a>)
    requires
        kind != TokenKind::Identifier,
        kind != TokenKind::StriLiteral,
        kind != TokenKind::CharLiteral,
        kind != TokenKind::InteLiteral,
        kind != TokenKind::WordLiteral,
        kind != TokenKind::BoolLiteral,
    ensures
        t.spec_kind() == kind,
        forall|text: Seq<char>, number: int| t.carries(text, number),
{
    match kind {
        TokenKind::Import => LexerToken::Import,
        TokenKind::From => LexerToken::From,
        TokenKind::Default => LexerToken::Default,
        TokenKind::Export => LexerToken::Export,
        TokenKind::Enum => LexerToken::Enum,
        TokenKind::Struct => LexerToken::Struct,
        TokenKind::Class => LexerToken::Class,
        TokenKind::Interface => LexerToken::Interface,
        TokenKind::Type => LexerToken::Type,
        TokenKind::Function => LexerToken::Function,
        TokenKind::As => LexerToken::As,
        TokenKind::Extends => LexerToken::Extends,
        TokenKind::Implements => LexerToken::Implements,
        TokenKind::If => LexerToken::If,
        TokenKind::Else => LexerToken::Else,
        TokenKind::Match => LexerToken::Match,
        TokenKind::For => LexerToken::For,
        TokenKind::While => LexerToken::While,
        TokenKind::Loop => LexerToken::Loop,
        TokenKind::Break => LexerToken::Break,
        TokenKind::Continue => LexerToken::Continue,
        TokenKind::Let => LexerToken::Let,
        TokenKind::Const => LexerToken::Const,
        TokenKind::Mutable => LexerToken::Mutable,
        TokenKind::Return => LexerToken::Return,
        TokenKind::Yield => LexerToken::Yield,
        TokenKind::LittleThis => LexerToken::LittleThis,
        TokenKind::Comma => LexerToken::Comma,
        TokenKind::Colon => LexerToken::Colon,
        TokenKind::Semicolon => LexerToken::Semicolon,
        TokenKind::LeftParenthesis => LexerToken::LeftParenthesis,
        TokenKind::RightParenthesis => LexerToken::RightParenthesis,
        TokenKind::LeftCurlyBrace => LexerToken::LeftCurlyBrace,
        TokenKind::RightCurlyBrace => LexerToken::RightCurlyBrace,
        TokenKind::LeftSquareBracket => LexerToken::LeftSquareBracket,
        TokenKind::RightSquareBracket => LexerToken::RightSquareBracket,
        TokenKind::LeftAngleBracketOrLessThan => LexerToken::LeftAngleBracketOrLessThan,
        TokenKind::RightAngleBracketOrGreaterThan => LexerToken::RightAngleBracketOrGreaterThan,
        TokenKind::DoubleAsterisk => LexerToken::DoubleAsterisk,
        TokenKind::Asterisk => LexerToken::Asterisk,
        TokenKind::ForwardSlash => LexerToken::ForwardSlash,
        TokenKind::Plus => LexerToken::Plus,
        TokenKind::Dash => LexerToken::Dash,
        TokenKind::Percent => LexerToken::Percent,
        TokenKind::DoubleDot => LexerToken::DoubleDot,
        TokenKind::Ampersand => LexerToken::Ampersand,
        TokenKind::DoubleAmpersand => LexerToken::DoubleAmpersand,
        TokenKind::VerticalBar => LexerToken::VerticalBar,
        TokenKind::DoubleVerticalBar => LexerToken::DoubleVerticalBar,
        TokenKind::Caret => LexerToken::Caret,
        TokenKind::DoubleLeftAngleBracket => LexerToken::DoubleLeftAngleBracket,
        TokenKind::DoubleRightAngleBracket => LexerToken::DoubleRightAngleBracket,
        TokenKind::EqualTo => LexerToken::EqualTo,
        TokenKind::NotEqualTo => LexerToken::NotEqualTo,
        TokenKind::GreaterThanOrEqualTo => LexerToken::GreaterThanOrEqualTo,
        TokenKind::LessThanOrEqualTo => LexerToken::LessThanOrEqualTo,
        TokenKind::Assign => LexerToken::Assign,
        TokenKind::MemberAccess => LexerToken::MemberAccess,
        TokenKind::Optional => LexerToken::Optional,
        TokenKind::Bang => LexerToken::Bang,
        TokenKind::Reserved => LexerToken::Reserved,
        TokenKind::ThinArrow => LexerToken::ThinArrow,
        TokenKind::ThiccArrow => LexerToken::ThiccArrow,
        TokenKind::FloatLiteral => LexerToken::FloatLiteral,
        TokenKind::Comment => LexerToken::Comment,
        TokenKind::Error => LexerToken::Error,
        _ => LexerToken::Error,
    }
}

/// The number of bytes of the character that starts with the byte `b`.
fn width_of(b: u8) -> (w: usize)
    ensures
        w == char_width(b),
{
    if b <= 0x7f {
        1
    } else if 0xc0 <= b && b <= 0xdf {
        2
    } else if 0xe0 <= b && b <= 0xef {
        3
    } else {
        4
    }
}

/// Whether an identifier can start with the character at `p`.
fn ident_start_at(src: &str, bytes: &[u8], p: usize) -> (r: bool)
    requires
        bytes@ == src.spec_bytes(),
        p < bytes@.len(),
        is_char_boundary(bytes@, p as int),
    ensures
        r == ident_start(bytes@, p as int),
{
    let b = bytes[p];
    if b >= 0x80 {
        let c = char_at_offset(src, p);
        is_alphabetic(c) && !is_numeric(c)
    } else {
        (0x41 <= b && b <= 0x5a) || (0x61 <= b && b <= 0x7a) || b == 0x5f
    }
}

/// Whether an identifier can go on with the character at `p`.
fn ident_part_at(src: &str, bytes: &[u8], p: usize) -> (r: bool)
    requires
        bytes@ == src.spec_bytes(),
        p < bytes@.len(),
        is_char_boundary(bytes@, p as int),
    ensures
        r == ident_part(bytes@, p as int),
{
    let b = bytes[p];
    if b >= 0x80 {
        let c = char_at_offset(src, p);
        is_alphabetic(c) || is_numeric(c)
    } else {
        (0x41 <= b && b <= 0x5a) || (0x61 <= b && b <= 0x7a) || b == 0x5f || (0x30 <= b && b
            <= 0x39)
    }
}

/// Finds where the longest run of identifier characters that starts at `p` ends.
fn scan_ident(src: &str, bytes: &[u8], p: usize) -> (e: usize)
    requires
        bytes@ == src.spec_bytes(),
        p <= bytes@.len(),
        is_char_boundary(bytes@, p as int),
    ensures
        e == ident_end(bytes@, p as int),
        p <= e <= bytes@.len(),
        is_char_boundary(bytes@, e as int),
        p < bytes@.len() && ident_part(bytes@, p as int) ==> p < e,
{
    proof {
        lemma_text_of_bytes(src);
    }
    let mut q = p;
    let mut more = q < bytes.len() && ident_part_at(src, bytes, q);
    while more
        invariant
            bytes@ == src.spec_bytes(),
            valid_utf8(bytes@),
            p <= q <= bytes@.len(),
            is_char_boundary(bytes@, q as int),
            ident_end(bytes@, p as int) == ident_end(bytes@, q as int),
            more == (q < bytes@.len() && ident_part(bytes@, q as int)),
            p < bytes@.len() && ident_part(bytes@, p as int) ==> p < q || more,
        decreases bytes@.len() - q,
    {
        proof {
            lemma_char_step(bytes@, q as int);
        }
        q = q + width_of(bytes[q]);
        more = q < bytes.len() && ident_part_at(src, bytes, q);
    }
    q
}

/// Finds where a string literal ends whose text goes on at `from`.
fn scan_string(bytes: &[u8], from: usize) -> (r: Option<usize>)
    requires
        from <= bytes@.len(),
    ensures
        match r {
            Some(e) => string_end(bytes@, from as int) == Some(e as int) && from < e
                <= bytes@.len() && bytes@[e - 1] == 0x22,
            None => string_end(bytes@, from as int) is None,
        },
{
    let mut q = from;
    while q < bytes.len()
        invariant
            from <= q <= bytes@.len(),
            string_end(bytes@, from as int) == string_end(bytes@, q as int),
        decreases bytes@.len() - q,
    {
        let b = bytes[q];
        if b == 0x22 {
            return Some(q + 1);
        } else if b == 0x5c {
            if q + 1 < bytes.len() {
                q += 2;
            } else {
                return None;
            }
        } else {
            q += 1;
        }
    }
    None
}

/// Finds where a string literal without escapes ends whose text goes on at
/// `from`.
fn scan_raw_string(bytes: &[u8], from: usize) -> (r: Option<usize>)
    requires
        from <= bytes@.len(),
    ensures
        match r {
            Some(e) => raw_string_end(bytes@, from as int) == Some(e as int) && from < e
                <= bytes@.len() && bytes@[e - 1] == 0x22,
            None => raw_string_end(bytes@, from as int) is None,
        },
{
    let e = scan_run(bytes, from, ByteClass::NotDoubleQuote);
    if e < bytes.len() {
        Some(e + 1)
    } else {
        None
    }
}

/// Finds where a character literal ends whose character starts at `q`.
fn scan_char_literal(bytes: &[u8], q: usize, escapes: bool) -> (r: Option<usize>)
    requires
        q <= bytes@.len(),
    ensures
        match r {
            Some(e) => char_literal_end(bytes@, q as int, escapes) == Some(e as int) && q < e
                <= bytes@.len() && bytes@[e - 1] == 0x27,
            None => char_literal_end(bytes@, q as int, escapes) is None,
        },
{
    if q >= bytes.len() {
        return None;
    }
    let first = if escapes && bytes[q] == 0x5c {
        if q + 1 < bytes.len() {
            q + 1
        } else {
            return None;
        }
    } else if bytes[q] == 0x27 {
        return None;
    } else {
        q
    };
    let w = width_of(bytes[first]);
    if w < bytes.len() - first && bytes[first + w] == 0x27 {
        Some(first + w + 1)
    } else {
        None
    }
}

/// Finds where a block comment ends whose text goes on at `from`.
fn scan_block_comment(bytes: &[u8], from: usize) -> (r: Option<usize>)
    requires
        from <= bytes@.len(),
    ensures
        match r {
            Some(e) => block_comment_end(bytes@, from as int) == Some(e as int) && from < e
                <= bytes@.len() && bytes@[e - 1] == 0x2f,
            None => block_comment_end(bytes@, from as int) is None,
        },
{
    let mut q = from;
    while q < bytes.len() && q + 1 < bytes.len()
        invariant
            from <= q <= bytes@.len(),
            block_comment_end(bytes@, from as int) == block_comment_end(bytes@, q as int),
        decreases bytes@.len() - q,
    {
        if bytes[q] == 0x2a && bytes[q + 1] == 0x2f {
            return Some(q + 2);
        }
        q += 1;
    }
    None
}

/// Finds where an exponent ends that starts at `q`.
fn scan_exponent(bytes: &[u8], q: usize) -> (r: Option<usize>)
    requires
        q <= bytes@.len(),
    ensures
        match r {
            Some(e) => exponent_end(bytes@, q as int) == Some(e as int) && q < e <= bytes@.len()
                && ByteClass::Digit.has(bytes@[e - 1]),
            None => exponent_end(bytes@, q as int) is None,
        },
{
    if q < bytes.len() && (bytes[q] == 0x65 || bytes[q] == 0x45) {
        let r = if q + 1 < bytes.len() && (bytes[q + 1] == 0x2b || bytes[q + 1] == 0x2d) {
            q + 2
        } else {
            q + 1
        };
        let e = scan_run(bytes, r, ByteClass::Digit);
        if e > r {
            Some(e)
        } else {
            None
        }
    } else {
        None
    }
}

/// What the tokenizer finds at an offset: the class of the token (none for a
/// word, whose class its text decides), where it ends, and its number.
struct Found {
    kind: Option<TokenKind>,
    end: usize,
    number: u64,
}

impl Found {
    /// Whether this is what the rules find: the same end and number, and the
    /// same class, which for a word is the class of the text before that end.
    spec fn agrees(self, s: Seq<u8>, p: int, raw: RawToken) -> bool {
        &&& self.end == raw.end
        &&& self.number == raw.number
        &&& match self.kind {
            Some(k) => k == raw.kind && k != TokenKind::Identifier && k != TokenKind::BoolLiteral,
            None => raw.kind == word_kind(decode_utf8(s.subrange(p, raw.end))),
        }
        &&& self.kind == Some(TokenKind::CharLiteral) ==> self.number == 0x27 || self.number == 0x6c
        &&& self.kind == Some(TokenKind::InteLiteral) ==> self.number <= i64::MAX
    }

    /// Whether the token is longer than nothing, ends inside the text and
    /// ends on a character boundary.
    spec fn well_cut(self, s: Seq<u8>, p: int) -> bool {
        p < self.end <= s.len() && is_char_boundary(s, self.end as int)
    }
}

/// A word literal for a number that fits in 64 bits, an error token otherwise.
fn word_or_error_at(value: Option<u64>, end: usize) -> (f: Found)
    ensures
        f.end == end,
        match value {
            Some(v) => f.kind == Some(TokenKind::WordLiteral) && f.number == v,
            None => f.kind == Some(TokenKind::Error) && f.number == 0,
        },
{
    match value {
        Some(v) => Found { kind: Some(TokenKind::WordLiteral), end, number: v },
        None => Found { kind: Some(TokenKind::Error), end, number: 0 },
    }
}

/// Finds the token that starts with the digit at `p`.
fn lex_number_at(bytes: &[u8], p: usize) -> (f: Found)
    requires
        valid_utf8(bytes@),
        p < bytes@.len(),
        ByteClass::Digit.has(bytes@[p as int]),
    ensures
        f.agrees(bytes@, p as int, lex_number(bytes@, p as int)),
        f.well_cut(bytes@, p as int),
{
    let d = scan_run(bytes, p, ByteClass::Digit);
    assert(d > p) by {
        reveal_with_fuel(run_end, 2);
    }
    let prefixed = d == p + 1 && bytes[p] == 0x30 && d < bytes.len();
    if prefixed && bytes[d] == 0x78 {
        let h = scan_run(bytes, d + 1, ByteClass::HexDigit);
        if h > d + 1 {
            proof {
                lemma_ascii_boundary(bytes@, h - 1);
            }
            return word_or_error_at(parse_radix(bytes, d + 1, h, 16), h);
        }
    }
    if prefixed && bytes[d] == 0x62 {
        let h = scan_run(bytes, d + 1, ByteClass::BinDigit);
        if h > d + 1 {
            proof {
                lemma_ascii_boundary(bytes@, h - 1);
                assert forall|j: int| d + 1 <= j < h implies ByteClass::HexDigit.has(
                    #[trigger] bytes@[j],
                ) by {
                    assert(ByteClass::BinDigit.has(bytes@[j]));
                }
            }
            return word_or_error_at(parse_radix(bytes, d + 1, h, 2), h);
        }
    }
    if d < bytes.len() && bytes[d] == 0x2e {
        let f = scan_run(bytes, d + 1, ByteClass::Digit);
        let end = match scan_exponent(bytes, f) {
            Some(e) => e,
            None => f,
        };
        proof {
            lemma_ascii_boundary(bytes@, end - 1);
        }
        return Found { kind: Some(TokenKind::FloatLiteral), end, number: 0 };
    }
    match scan_exponent(bytes, d) {
        Some(e) => {
            proof {
                lemma_ascii_boundary(bytes@, e - 1);
            }
            return Found { kind: Some(TokenKind::FloatLiteral), end: e, number: 0 };
        },
        None => {},
    }
    proof {
        assert forall|j: int| p <= j < d implies ByteClass::HexDigit.has(#[trigger] bytes@[j]) by {
            assert(ByteClass::Digit.has(bytes@[j]));
        }
    }
    let value = parse_radix(bytes, p, d, 10);
    if d < bytes.len() && bytes[d] == 0x75 {
        proof {
            lemma_ascii_boundary(bytes@, d as int);
        }
        return word_or_error_at(value, d + 1);
    }
    proof {
        lemma_ascii_boundary(bytes@, d - 1);
    }
    match value {
        Some(v) => if v <= 0x7fff_ffff_ffff_ffff {
            Found { kind: Some(TokenKind::InteLiteral), end: d, number: v }
        } else {
            Found { kind: Some(TokenKind::Error), end: d, number: 0 }
        },
        None => Found { kind: Some(TokenKind::Error), end: d, number: 0 },
    }
}

/// Finds the token that starts with the identifier character at `p`.
fn lex_word_at(src: &str, bytes: &[u8], p: usize) -> (f: Found)
    requires
        bytes@ == src.spec_bytes(),
        p < bytes@.len(),
        is_char_boundary(bytes@, p as int),
        ident_start(bytes@, p as int),
    ensures
        f.agrees(bytes@, p as int, lex_word(bytes@, p as int)),
        f.well_cut(bytes@, p as int),
{
    proof {
        lemma_text_of_bytes(src);
    }
    let quoted = bytes[p] == 0x6c && p + 1 < bytes.len();
    if quoted && bytes[p + 1] == 0x22 {
        match scan_raw_string(bytes, p + 2) {
            Some(e) => {
                proof {
                    lemma_ascii_boundary(bytes@, e - 1);
                }
                return Found { kind: Some(TokenKind::StriLiteral), end: e, number: 0 };
            },
            None => {},
        }
    }
    if quoted && bytes[p + 1] == 0x27 {
        match scan_char_literal(bytes, p + 2, false) {
            Some(e) => {
                proof {
                    lemma_ascii_boundary(bytes@, e - 1);
                }
                return Found { kind: Some(TokenKind::CharLiteral), end: e, number: 0x6c };
            },
            None => {},
        }
    }
    let e = scan_ident(src, bytes, p);
    Found { kind: None, end: e, number: 0 }
}

/// Finds the token that starts with the slash at `p`.
fn lex_slash_at(bytes: &[u8], p: usize) -> (f: Found)
    requires
        valid_utf8(bytes@),
        p < bytes@.len(),
        bytes@[p as int] == 0x2f,
    ensures
        f.agrees(bytes@, p as int, lex_slash(bytes@, p as int)),
        f.well_cut(bytes@, p as int),
{
    let len = bytes.len();
    if p + 1 < len && bytes[p + 1] == 0x2f {
        let e = scan_run(bytes, p + 2, ByteClass::NotLineFeed);
        proof {
            if e < bytes@.len() {
                lemma_ascii_boundary(bytes@, e as int);
            } else {
                is_char_boundary_start_end_of_seq(bytes@);
            }
        }
        return Found { kind: Some(TokenKind::Comment), end: e, number: 0 };
    }
    if p + 1 < bytes.len() && bytes[p + 1] == 0x2a {
        match scan_block_comment(bytes, p + 2) {
            Some(e) => {
                proof {
                    lemma_ascii_boundary(bytes@, e - 1);
                }
                return Found { kind: Some(TokenKind::Comment), end: e, number: 0 };
            },
            None => {},
        }
    }
    proof {
        lemma_ascii_boundary(bytes@, p as int);
    }
    Found { kind: Some(TokenKind::ForwardSlash), end: p + 1, number: 0 }
}

/// Finds the token that starts at `p`.
fn lex_at_offset(src: &str, bytes: &[u8], p: usize) -> (f: Found)
    requires
        bytes@ == src.spec_bytes(),
        p < bytes@.len(),
        is_char_boundary(bytes@, p as int),
    ensures
        f.agrees(bytes@, p as int, lex_at(bytes@, p as int)),
        f.well_cut(bytes@, p as int),
{
    proof {
        lemma_text_of_bytes(src);
        lemma_char_step(bytes@, p as int);
    }
    let b = bytes[p];
    if ident_start_at(src, bytes, p) {
        return lex_word_at(src, bytes, p);
    }
    if 0x30 <= b && b <= 0x39 {
        return lex_number_at(bytes, p);
    }
    if b == 0x22 {
        return match scan_string(bytes, p + 1) {
            Some(e) => {
                proof {
                    lemma_ascii_boundary(bytes@, e - 1);
                }
                Found { kind: Some(TokenKind::StriLiteral), end: e, number: 0 }
            },
            None => Found { kind: Some(TokenKind::Error), end: p + 1, number: 0 },
        };
    }
    if b == 0x27 {
        return match scan_char_literal(bytes, p + 1, true) {
            Some(e) => {
                proof {
                    lemma_ascii_boundary(bytes@, e - 1);
                }
                Found { kind: Some(TokenKind::CharLiteral), end: e, number: 0x27 }
            },
            None => Found { kind: Some(TokenKind::Error), end: p + 1, number: 0 },
        };
    }
    if b == 0x2f {
        return lex_slash_at(bytes, p);
    }
    if p + 1 < bytes.len() {
        match punct2_of(b, bytes[p + 1]) {
            Some(k) => {
                proof {
                    lemma_ascii_boundary(bytes@, p + 1);
                }
                return Found { kind: Some(k), end: p + 2, number: 0 };
            },
            None => {},
        }
    }
    match punct1_of(b) {
        Some(k) => Found { kind: Some(k), end: p + 1, number: 0 },
        None => {
            let end = find_boundary(src, p + 1);
            Found { kind: Some(TokenKind::Error), end, number: 0 }
        },
    }
}

/// Produces the next token at or after the byte offset `from`, or nothing
/// where only blanks are left. The offset is a character boundary of the text.
pub fn lex_token<'a>(src: &'a str, from: usize) -> (r: Option<TokenWithExtras<'a>>)
    requires
        from <= src.spec_bytes().len(),
        is_char_boundary(src.spec_bytes(), from as int),
    ensures
        match spec_lex(src.spec_bytes(), from as int) {
            Some(m) => r is Some && r.unwrap().models(m) && from <= m.span.start < m.span.end
                <= src.spec_bytes().len() && is_char_boundary(src.spec_bytes(), m.span.end as int),
            None => r is None,
        },
{
    let bytes = src.as_bytes();
    proof {
        lemma_text_of_bytes(src);
    }
    let start = scan_run(bytes, from, ByteClass::Blank);
    if start >= bytes.len() {
        return None;
    }
    proof {
        if start > from {
            assert(ByteClass::Blank.has(bytes@[start - 1]));
            lemma_ascii_boundary(bytes@, start - 1);
        }
    }
    let found = lex_at_offset(src, bytes, start);
    let text = match source_slice(src, start, found.end) {
        Some(t) => t,
        None => {
            proof {
                assert(false);
            }
            src
        },
    };
    proof {
        lemma_text_of_bytes(text);
    }
    let token = match found.kind {
        None => classify_word(text),
        Some(TokenKind::StriLiteral) => LexerToken::StriLiteral(text),
        Some(TokenKind::CharLiteral) => LexerToken::CharLiteral(
            if found.number == 0x27 {
                '\''
            } else {
                'l'
            },
        ),
        Some(TokenKind::InteLiteral) => LexerToken::InteLiteral(found.number as i64),
        Some(TokenKind::WordLiteral) => LexerToken::WordLiteral(found.number),
        Some(k) => plain_token(k),
    };
    Some(TokenWithExtras { token, start, end: found.end, text })
}

} // verus!
