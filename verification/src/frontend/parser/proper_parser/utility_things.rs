//! What every production of the grammar is built from: skipping comments,
//! demanding a token, and reporting the token that stands in the way.
use super::super::lexer::custom_lexer_struct::CustomLexerStruct;
use super::super::lexer::logos_lexer::{
    lemma_token_stream_in_order, token_stream, LexerToken, SpannedToken, TokenKind,
};
use super::ast::top_level::TopLevelAstNode;
use super::parse_error::{
    spec_end_of_file_error, spec_unexpected_token_error, ParseError, ParseErrorModel,
};
use logos::Span;
use vstd::prelude::*;

verus! {

/// What parsing a top-level statement gives.
pub type TopLevelAstResult<'a> = Result<TopLevelAstNode<'a>, ParseError>;

/// The cursor that the parser reads.
pub type LexerStruct<'a> = CustomLexerStruct<'a>;

/// What a production makes of a token stream from some place on: a tree or
/// a failure, and the place where it leaves the cursor.
pub struct Step<T> {
    pub result: Result<T, ParseErrorModel>,
    pub index: nat,
}

/// What a run of a production came to, as a plain value: the model of its
/// tree or of its failure, and the place where it left the cursor.
pub open spec fn step_of<T: View>(r: Result<T, ParseError>, index: nat) -> Step<T::V> {
    Step {
        result: match r {
            Ok(node) => Ok(node@),
            Err(err) => Err(err@),
        },
        index,
    }
}

/// A step that ends in a tree.
pub open spec fn done<T>(node: T, index: nat) -> Step<T> {
    Step { result: Ok(node), index }
}

/// A step that ends in a failure.
pub open spec fn failed<T>(err: ParseErrorModel, index: nat) -> Step<T> {
    Step { result: Err(err), index }
}

/// The token at a place of the stream.
pub open spec fn tok(s: Seq<SpannedToken>, i: nat) -> SpannedToken {
    s[i as int]
}

/// The class of the token at a place of the stream, if one stands there.
pub open spec fn kind_at(s: Seq<SpannedToken>, i: nat) -> Option<TokenKind> {
    if i < s.len() {
        Some(s[i as int].kind)
    } else {
        None
    }
}

/// The place after the token at `i`; `i` itself where the stream has ended.
pub open spec fn past(s: Seq<SpannedToken>, i: nat) -> nat {
    if i < s.len() {
        i + 1
    } else {
        i
    }
}

/// The first place from `i` on where no comment stands.
pub open spec fn skip_comments(s: Seq<SpannedToken>, i: nat) -> nat
    decreases s.len() - i,
{
    if i < s.len() && s[i as int].kind == TokenKind::Comment {
        skip_comments(s, i + 1)
    } else {
        i
    }
}

/// Skipping comments moves forward, stays inside the stream, and stops
/// where no comment stands.
pub proof fn lemma_skip_comments(s: Seq<SpannedToken>, i: nat)
    ensures
        i <= skip_comments(s, i),
        i <= s.len() ==> skip_comments(s, i) <= s.len(),
        kind_at(s, skip_comments(s, i)) != Some(TokenKind::Comment),
    decreases s.len() - i,
{
    if i < s.len() && s[i as int].kind == TokenKind::Comment {
        lemma_skip_comments(s, i + 1);
    }
}

/// Every place that skipping comments passes holds a comment.
pub proof fn lemma_skipped_are_comments(s: Seq<SpannedToken>, i: nat)
    ensures
        forall|m: nat|
            i <= m < skip_comments(s, i) ==> #[trigger] kind_at(s, m) == Some(TokenKind::Comment),
    decreases s.len() - i,
{
    if i < s.len() && s[i as int].kind == TokenKind::Comment {
        lemma_skipped_are_comments(s, i + 1);
    }
}

/// The place of the last token before place `i` that is no comment; the
/// start of the stream where there is none.
pub open spec fn last_before(s: Seq<SpannedToken>, i: nat) -> nat
    decreases i,
{
    if i == 0 {
        0
    } else if kind_at(s, (i - 1) as nat) == Some(TokenKind::Comment) {
        last_before(s, (i - 1) as nat)
    } else {
        (i - 1) as nat
    }
}

/// Behind places that hold comments only, the last token that is no comment
/// is the one before them.
pub proof fn lemma_last_before_comments(s: Seq<SpannedToken>, at: nat, i: nat)
    requires
        at < i,
        kind_at(s, at) != Some(TokenKind::Comment),
        forall|m: nat| at < m < i ==> #[trigger] kind_at(s, m) == Some(TokenKind::Comment),
    ensures
        last_before(s, i) == at,
    decreases i,
{
    if i > at + 1 {
        assert(kind_at(s, (i - 1) as nat) == Some(TokenKind::Comment));
        lemma_last_before_comments(s, at, (i - 1) as nat);
    }
}

/// After a token that is no comment and the comments behind it, that token
/// is the last one that is no comment.
pub proof fn lemma_last_before_skip(s: Seq<SpannedToken>, at: nat)
    requires
        kind_at(s, at) != Some(TokenKind::Comment),
    ensures
        last_before(s, skip_comments(s, at + 1)) == at,
{
    lemma_skip_comments(s, at + 1);
    lemma_skipped_are_comments(s, at + 1);
    lemma_last_before_comments(s, at, skip_comments(s, at + 1));
}

/// Bytes from the start of a token to the end of the same or a later token
/// are at least one byte, in order.
pub proof fn lemma_span_of_tokens(text: Seq<u8>, first: int, last: int)
    requires
        0 <= first <= last < token_stream(text).len(),
    ensures
        token_stream(text)[first].span.start < token_stream(text)[last].span.end,
{
    lemma_token_stream_in_order(text);
}

/// Whether a stretch of bytes reaches from the start of the token at place
/// `first` to the end of the token at place `last`, the same or a later one,
/// and so holds at least one byte.
pub open spec fn is_token_range(s: Seq<SpannedToken>, span: Span, first: nat, last: nat) -> bool {
    &&& first <= last < s.len()
    &&& span.start == tok(s, first).span.start
    &&& span.end == tok(s, last).span.end
    &&& span.start < span.end
}

/// Whether a stretch of bytes is that of tokens of the stream: it reaches
/// from the start of a token to the end of the same or a later token.
pub open spec fn spans_tokens(s: Seq<SpannedToken>, span: Span) -> bool {
    exists|first: nat, last: nat| #[trigger] is_token_range(s, span, first, last)
}

/// A stretch of bytes that starts where a stretch of tokens starts and ends
/// at or after its end, at the end of a token, is a stretch of tokens too.
pub proof fn lemma_spans_tokens_extend(text: Seq<u8>, inner: Span, outer: Span, last: nat)
    requires
        spans_tokens(token_stream(text), inner),
        last < token_stream(text).len(),
        outer.start == inner.start,
        inner.end <= outer.end,
        outer.end == tok(token_stream(text), last).span.end,
    ensures
        spans_tokens(token_stream(text), outer),
{
    let s = token_stream(text);
    let (first, l) = choose|first: nat, l: nat| #[trigger] is_token_range(s, inner, first, l);
    lemma_token_stream_in_order(text);
    if l > last {
        assert(s[last as int].span.end <= s[l as int].span.start);
    }
    assert(is_token_range(s, outer, first, last));
}

/// The bytes of one token are a stretch of tokens.
pub proof fn lemma_spans_tokens_single(text: Seq<u8>, at: nat)
    requires
        at < token_stream(text).len(),
    ensures
        spans_tokens(token_stream(text), tok(token_stream(text), at).span),
{
    lemma_token_stream_in_order(text);
    assert(is_token_range(token_stream(text), tok(token_stream(text), at).span, at, at));
}

/// In the tokens of a text, a later token starts at or after the end of an
/// earlier one.
pub proof fn lemma_later_token(text: Seq<u8>, earlier: int, later: int)
    requires
        0 <= earlier < later < token_stream(text).len(),
    ensures
        token_stream(text)[earlier].span.end <= token_stream(text)[later].span.start,
{
    lemma_token_stream_in_order(text);
}

/// The failure that reports what stands at a place of the stream: the token
/// there with its text and its bytes, or the end of the text.
pub open spec fn spec_error_here(
    s: Seq<SpannedToken>,
    i: nat,
    expected: Seq<&'static str>,
    fatal: bool,
) -> ParseErrorModel {
    if i < s.len() {
        spec_unexpected_token_error(s[i as int].text, s[i as int].span, expected, fatal)
    } else {
        spec_end_of_file_error(expected, fatal)
    }
}

/// What demanding a token of one class at a place comes to: the token and the
/// place after it; or a fatal failure, which reports the token found there, at
/// `report` if that is given and at the token's own bytes otherwise, and leaves
/// the cursor after the token; or, at the end of the text, a fatal failure that
/// leaves the cursor where it is.
pub open spec fn spec_expect_token(
    s: Seq<SpannedToken>,
    i: nat,
    kind: TokenKind,
    expected: Seq<&'static str>,
    report: Option<Span>,
) -> Step<SpannedToken> {
    if i >= s.len() {
        failed(spec_end_of_file_error(expected, true), i)
    } else if s[i as int].kind == kind {
        done(s[i as int], i + 1)
    } else {
        failed(
            spec_unexpected_token_error(
                s[i as int].text,
                match report {
                    Some(span) => span,
                    None => s[i as int].span,
                },
                expected,
                true,
            ),
            i + 1,
        )
    }
}

/// Whether a token or failure that was handed out, and the place where the
/// cursor was left, are what a step says.
pub open spec fn token_step_is<'a>(
    r: Result<LexerToken<'a>, ParseError>,
    index: nat,
    step: Step<SpannedToken>,
) -> bool {
    &&& index == step.index
    &&& match step.result {
        Ok(m) => r is Ok && r->Ok_0.models(m),
        Err(e) => r is Err && r->Err_0@ == e,
    }
}

/// The model of a tree that may be missing.
pub open spec fn option_model<T: View>(o: Option<T>) -> Option<T::V> {
    match o {
        Some(node) => Some(node@),
        None => None,
    }
}

/// A list of one description.
pub fn list1(a: &'static str) -> (v: Vec<&'static str>)
    ensures
        v@ == seq![a],
{
    let v = vec![a];
    assert(v@ =~= seq![a]);
    v
}

/// A list of two descriptions.
pub fn list2(a: &'static str, b: &'static str) -> (v: Vec<&'static str>)
    ensures
        v@ == seq![a, b],
{
    let v = vec![a, b];
    assert(v@ =~= seq![a, b]);
    v
}

/// A list of three descriptions.
pub fn list3(a: &'static str, b: &'static str, c: &'static str) -> (v: Vec<&'static str>)
    ensures
        v@ == seq![a, b, c],
{
    let v = vec![a, b, c];
    assert(v@ =~= seq![a, b, c]);
    v
}

/// Moves the cursor past the comments that stand before the next token.
pub fn flush_comments(lxr: &mut LexerStruct)
    requires
        old(lxr).wf(),
    ensures
        final(lxr).extends(*old(lxr)),
        final(lxr).index() == skip_comments(old(lxr).stream(), old(lxr).index()),
        final(lxr).current() == final(lxr).ahead(),
{
    let mut at_comment = match lxr.peek() {
        Some(LexerToken::Comment) => true,
        _ => false,
    };
    while at_comment
        invariant
            lxr.extends(*old(lxr)),
            skip_comments(old(lxr).stream(), old(lxr).index()) == skip_comments(
                lxr.stream(),
                lxr.index(),
            ),
            at_comment == (kind_at(lxr.stream(), lxr.index()) == Some(TokenKind::Comment)),
            lxr.current() == lxr.ahead(),
        decreases lxr.stream().len() - lxr.index(),
    {
        lxr.next();
        at_comment = match lxr.peek() {
            Some(LexerToken::Comment) => true,
            _ => false,
        };
    }
}

/// Takes the next token, which has to be of the class of `expected_token`. A
/// failure is fatal and names `expected_arr`.
pub fn expect_token<'a>(
    lxr: &mut LexerStruct<'a>,
    expected_token: LexerToken,
    expected_arr: Vec<&'static str>,
) -> (r: Result<LexerToken<'a>, ParseError>)
    requires
        old(lxr).wf(),
    ensures
        final(lxr).extends(*old(lxr)),
        final(lxr).current() == old(lxr).ahead(),
        token_step_is(
            r,
            final(lxr).index(),
            spec_expect_token(
                old(lxr).stream(),
                old(lxr).index(),
                expected_token.spec_kind(),
                expected_arr@,
                None,
            ),
        ),
        r is Err ==> r->Err_0.fatal,
{
    expect_token_with_optional_span(lxr, expected_token, expected_arr, None)
}

/// Takes the next token, which has to be a semicolon. A failure is fatal and
/// is reported at the current token, where there is one.
pub fn expect_semicolon<'a>(lxr: &mut LexerStruct<'a>) -> (r: Result<LexerToken<'a>, ParseError>)
    requires
        old(lxr).wf(),
    ensures
        final(lxr).extends(*old(lxr)),
        final(lxr).current() == old(lxr).ahead(),
        token_step_is(
            r,
            final(lxr).index(),
            spec_expect_token(
                old(lxr).stream(),
                old(lxr).index(),
                TokenKind::Semicolon,
                seq!["`;`"],
                match old(lxr).current() {
                    Some(c) => Some(old(lxr).stream()[c as int].span),
                    None => None,
                },
            ),
        ),
        r is Err ==> r->Err_0.fatal,
{
    let report = lxr.span();
    let expected = vec!["`;`"];
    assert(expected@ =~= seq!["`;`"]);
    expect_token_with_optional_span(lxr, LexerToken::Semicolon, expected, report)
}

/// Takes the next token, which has to be of the class of `expected_token`. A
/// failure is fatal, names `expected_arr`, and is reported at `optional_span`
/// if that is given, else at the token found.
pub fn expect_token_with_optional_span<'a>(
    lxr: &mut LexerStruct<'a>,
    expected_token: LexerToken,
    expected_arr: Vec<&'static str>,
    optional_span: Option<Span>,
) -> (r: Result<LexerToken<'a>, ParseError>)
    requires
        old(lxr).wf(),
    ensures
        final(lxr).extends(*old(lxr)),
        final(lxr).current() == old(lxr).ahead(),
        token_step_is(
            r,
            final(lxr).index(),
            spec_expect_token(
                old(lxr).stream(),
                old(lxr).index(),
                expected_token.spec_kind(),
                expected_arr@,
                optional_span,
            ),
        ),
        r is Err ==> r->Err_0.fatal,
{
    match lxr.next() {
        Some(token) => {
            if token.kind() == expected_token.kind() {
                Ok(token)
            } else {
                let found = lxr.span().unwrap();
                let span = match optional_span {
                    Some(span) => span,
                    None => found,
                };
                Err(
                    ParseError::unexpected_token_error(
                        lxr.slice().unwrap(),
                        span,
                        expected_arr,
                        true,
                    ),
                )
            }
        },
        None => Err(ParseError::end_of_file_error(expected_arr, true)),
    }
}

/// The failure that reports the current token, where `token` is one, and the
/// end of the text where it is none.
pub fn call_error<'a>(
    lxr: &LexerStruct<'a>,
    token: Option<LexerToken<'a>>,
    expected_arr: Vec<&'static str>,
    fatality: bool,
) -> (err: ParseError)
    requires
        lxr.wf(),
        token is Some ==> lxr.current() is Some,
    ensures
        err@ == match token {
            Some(_) => spec_unexpected_token_error(
                lxr.stream()[lxr.current().unwrap() as int].text,
                lxr.stream()[lxr.current().unwrap() as int].span,
                expected_arr@,
                fatality,
            ),
            None => spec_end_of_file_error(expected_arr@, fatality),
        },
{
    match token {
        Some(_) => ParseError::unexpected_token_error(
            lxr.slice().unwrap(),
            lxr.span().unwrap(),
            expected_arr,
            fatality,
        ),
        None => ParseError::end_of_file_error(expected_arr, fatality),
    }
}

} // verus!
