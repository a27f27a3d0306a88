//! Destructuring patterns.
use super::super::lexer::logos_lexer::{LexerToken, SpannedToken, TokenKind};
use super::ast::patterns::{lemma_destructured_model, AstDestructuringPattern, PatternModel};
use super::ast::{lemma_models_of_empty, lemma_models_of_push, models_of};
use super::parse_error::{spec_with_fatality, ParseError};
use super::utility_things::{
    call_error, done, expect_token, failed, flush_comments, is_token_range, kind_at, last_before,
    lemma_last_before_skip, lemma_skip_comments, lemma_span_of_tokens, lemma_spans_tokens_single,
    list1, past, spans_tokens, skip_comments, spec_error_here, spec_expect_token, step_of, tok, LexerStruct, Step,
};
use vstd::prelude::*;
use vstd::string::StringSliceAdditionalSpecFns;

verus! {

/// What is expected where a pattern has to start.
pub open spec fn expected_pattern_name() -> Seq<&'static str> {
    seq!["identifier (as part of a destructuring pattern)"]
}

/// What is expected after the colon of a pattern.
pub open spec fn expected_pattern_inner() -> Seq<&'static str> {
    seq!["identifier or `{` (as part of a destructuring pattern)"]
}

/// What is expected where a nested pattern has to start.
pub open spec fn expected_pattern_child() -> Seq<&'static str> {
    seq!["identifier or `}` (as part of a destructuring pattern)"]
}

/// What is expected after a nested pattern.
pub open spec fn expected_pattern_separator() -> Seq<&'static str> {
    seq!["`,` or `}` (as part of a destructuring pattern)"]
}

/// A destructuring pattern from place `i` on: a name; or a name, a colon and
/// another name, under which the first is bound; or a name, a colon and nested
/// patterns in braces. Comments may stand between the tokens. Where no name
/// stands at the start, the pattern has not started and the failure is not
/// fatal; every failure after the name is fatal.
pub open spec fn spec_parse_destructuring_pattern(s: Seq<SpannedToken>, i: nat) -> Step<
    PatternModel,
>
    decreases s.len() - i, 0nat,
{
    let at = skip_comments(s, i);
    let head = spec_expect_token(s, at, TokenKind::Identifier, expected_pattern_name(), None);
    match head.result {
        Err(e) => failed(spec_with_fatality(e, false), head.index),
        Ok(name) => {
            let after = skip_comments(s, at + 1);
            if kind_at(s, after) == Some(TokenKind::Colon) {
                let inner = skip_comments(s, after + 1);
                proof {
                    lemma_skip_comments(s, i);
                    lemma_skip_comments(s, at + 1);
                    lemma_skip_comments(s, after + 1);
                }
                match kind_at(s, inner) {
                    Some(TokenKind::Identifier) => done(
                        PatternModel::AliasedName(
                            name.span.start..tok(s, inner).span.end,
                            name.text,
                            tok(s, inner).text,
                        ),
                        inner + 1,
                    ),
                    Some(TokenKind::LeftCurlyBrace) => spec_pattern_children(
                        s,
                        inner + 1,
                        name,
                        seq![],
                    ),
                    _ => failed(
                        spec_error_here(s, inner, expected_pattern_inner(), true),
                        past(s, inner),
                    ),
                }
            } else {
                done(PatternModel::Name(name.span, name.text), after)
            }
        },
    }
}

/// The rest of the nested patterns of the pattern `name` from place `i` on,
/// after the patterns `acc`: patterns parted by commas, up to the closing
/// brace, which may stand after a comma.
pub open spec fn spec_pattern_children(
    s: Seq<SpannedToken>,
    i: nat,
    name: SpannedToken,
    acc: Seq<PatternModel>,
) -> Step<PatternModel>
    decreases s.len() - i, 1nat,
{
    let at = skip_comments(s, i);
    proof {
        lemma_skip_comments(s, i);
    }
    match kind_at(s, at) {
        Some(TokenKind::Identifier) => {
            let child = spec_parse_destructuring_pattern(s, at);
            match child.result {
                Err(e) => failed(e, child.index),
                Ok(pattern) => {
                    let after = skip_comments(s, child.index);
                    proof {
                        lemma_skip_comments(s, child.index);
                    }
                    match kind_at(s, after) {
                        Some(TokenKind::Comma) if child.index > at => spec_pattern_children(
                            s,
                            after + 1,
                            name,
                            acc.push(pattern),
                        ),
                        Some(TokenKind::RightCurlyBrace) => done(
                            PatternModel::Destructured(
                                name.span.start..tok(s, after).span.end,
                                name.text,
                                acc.push(pattern),
                            ),
                            after + 1,
                        ),
                        _ => failed(
                            spec_error_here(s, after, expected_pattern_separator(), true),
                            past(s, after),
                        ),
                    }
                },
            }
        },
        Some(TokenKind::RightCurlyBrace) => done(
            PatternModel::Destructured(name.span.start..tok(s, at).span.end, name.text, acc),
            at + 1,
        ),
        _ => failed(spec_error_here(s, at, expected_pattern_child(), true), past(s, at)),
    }
}

/// Whether a pattern and every pattern nested in it cover tokens of their
/// own: each reaches from the start of a token to the end of the same or a
/// later token.
pub open spec fn pattern_well_spanned(s: Seq<SpannedToken>, pattern: PatternModel) -> bool
    decreases pattern, 0nat,
{
    &&& spans_tokens(s, pattern.span())
    &&& match pattern {
        PatternModel::Destructured(_, _, children) => patterns_well_spanned(
            s,
            children,
            children.len(),
        ),
        _ => true,
    }
}

/// Whether the first `n` patterns of a list, and every pattern nested in
/// them, cover tokens of their own.
pub open spec fn patterns_well_spanned(s: Seq<SpannedToken>, patterns: Seq<PatternModel>, n: nat) -> bool
    decreases patterns, n,
{
    if n == 0 || n > patterns.len() {
        true
    } else {
        &&& patterns_well_spanned(s, patterns, (n - 1) as nat)
        &&& pattern_well_spanned(s, patterns[n - 1])
    }
}

/// What holds of the first patterns of a list holds of them in the list
/// with one more pattern.
pub proof fn lemma_patterns_well_spanned_prefix(
    s: Seq<SpannedToken>,
    patterns: Seq<PatternModel>,
    pattern: PatternModel,
    n: nat,
)
    requires
        n <= patterns.len(),
    ensures
        patterns_well_spanned(s, patterns.push(pattern), n) == patterns_well_spanned(
            s,
            patterns,
            n,
        ),
    decreases n,
{
    if n > 0 {
        lemma_patterns_well_spanned_prefix(s, patterns, pattern, (n - 1) as nat);
        assert(patterns.push(pattern)[n - 1] == patterns[n - 1]);
    }
}

/// Patterns that cover tokens of their own stay so when one more such
/// pattern is added.
pub proof fn lemma_patterns_well_spanned_push(
    s: Seq<SpannedToken>,
    patterns: Seq<PatternModel>,
    pattern: PatternModel,
)
    requires
        patterns_well_spanned(s, patterns, patterns.len()),
        pattern_well_spanned(s, pattern),
    ensures
        patterns_well_spanned(s, patterns.push(pattern), patterns.push(pattern).len()),
{
    lemma_patterns_well_spanned_prefix(s, patterns, pattern, patterns.len());
    assert(patterns.push(pattern)[patterns.len() as int] == pattern);
}

/// Parses the nested patterns of a pattern, after the opening brace.
fn parse_pattern_children<'a>(
    lxr: &mut LexerStruct<'a>,
    name: &'a str,
    start: usize,
    Ghost(name_token): Ghost<SpannedToken>,
    Ghost(name_at): Ghost<nat>,
) -> (r: Result<AstDestructuringPattern<'a>, ParseError>)
    requires
        old(lxr).wf(),
        name@ == name_token.text,
        start == name_token.span.start,
        name_at < old(lxr).index(),
        name_token == tok(old(lxr).stream(), name_at),
    ensures
        final(lxr).extends(*old(lxr)),
        old(lxr).index() <= final(lxr).index(),
        step_of(r, final(lxr).index()) == spec_pattern_children(
            old(lxr).stream(),
            old(lxr).index(),
            name_token,
            seq![],
        ),
        r is Ok ==> {
            &&& old(lxr).index() < final(lxr).index()
            &&& final(lxr).current() == Some((final(lxr).index() - 1) as nat)
            &&& r.unwrap()@.span().start == start
            &&& r.unwrap()@.span().end == tok(
                old(lxr).stream(),
                (final(lxr).index() - 1) as nat,
            ).span.end
            &&& tok(old(lxr).stream(), (final(lxr).index() - 1) as nat).kind
                == TokenKind::RightCurlyBrace
            &&& pattern_well_spanned(old(lxr).stream(), r.unwrap()@)
        },
        r is Err ==> r->Err_0.fatal,
    decreases old(lxr).stream().len() - old(lxr).index(), 1nat,
{
    let ghost s = lxr.stream();
    let ghost i0 = lxr.index();
    let ghost text = lxr.spec_source().spec_bytes();
    let mut children: Vec<AstDestructuringPattern<'a>> = Vec::new();
    proof {
        lemma_models_of_empty::<AstDestructuringPattern<'a>>();
    }
    loop
        invariant
            lxr.extends(*old(lxr)),
            s == old(lxr).stream(),
            i0 == old(lxr).index(),
            i0 <= lxr.index(),
            name@ == name_token.text,
            start == name_token.span.start,
            name_at < i0,
            name_token == tok(s, name_at),
            text == lxr.spec_source().spec_bytes(),
            patterns_well_spanned(s, models_of(children@), children@.len() as nat),
            spec_pattern_children(s, i0, name_token, seq![]) == spec_pattern_children(
                s,
                lxr.index(),
                name_token,
                models_of(children@),
            ),
        decreases s.len() - lxr.index(),
    {
        let ghost i = lxr.index();
        proof {
            lxr.lemma_bounds();
            lemma_skip_comments(s, i);
        }
        flush_comments(lxr);
        match lxr.peek() {
            Some(LexerToken::Identifier(_)) => {
                let child = match parse_destructuring_pattern(lxr) {
                    Ok(child) => child,
                    Err(e) => {
                        return Err(e);
                    },
                };
                proof {
                    lemma_models_of_push(children@, child);
                    lemma_patterns_well_spanned_push(s, models_of(children@), child@);
                }
                children.push(child);
            },
            Some(LexerToken::RightCurlyBrace) => {
                lxr.next();
                let end = lxr.span().unwrap().end;
                let pattern = AstDestructuringPattern::Destructured(start..end, name, children);
                proof {
                    lemma_destructured_model(pattern);
                    lxr.lemma_bounds();
                    let last = (lxr.index() - 1) as nat;
                    lemma_span_of_tokens(text, name_at as int, last as int);
                    assert(is_token_range(s, pattern@.span(), name_at, last));
                }
                return Ok(pattern);
            },
            invalid_value => {
                lxr.next();
                return Err(
                    call_error(
                        lxr,
                        invalid_value,
                        list1("identifier or `}` (as part of a destructuring pattern)"),
                        true,
                    ),
                );
            },
        }
        let ghost parsed = lxr.index();
        proof {
            lxr.lemma_bounds();
            lemma_skip_comments(s, parsed);
        }
        flush_comments(lxr);
        match lxr.next() {
            Some(LexerToken::Comma) => {},
            Some(LexerToken::RightCurlyBrace) => {
                let end = lxr.span().unwrap().end;
                let pattern = AstDestructuringPattern::Destructured(start..end, name, children);
                proof {
                    lemma_destructured_model(pattern);
                    lxr.lemma_bounds();
                    let last = (lxr.index() - 1) as nat;
                    lemma_span_of_tokens(text, name_at as int, last as int);
                    assert(is_token_range(s, pattern@.span(), name_at, last));
                }
                return Ok(pattern);
            },
            invalid_value => {
                return Err(
                    call_error(
                        lxr,
                        invalid_value,
                        list1("`,` or `}` (as part of a destructuring pattern)"),
                        true,
                    ),
                );
            },
        }
        proof {
            lxr.lemma_bounds();
        }
    }
}

/// Parses a destructuring pattern. The pattern starts where its name
/// starts, and it and every pattern nested in it cover tokens of their own. A
/// failure is fatal once the pattern has started, and not fatal where no name
/// stands at its start.
pub fn parse_destructuring_pattern<'a>(lxr: &mut LexerStruct<'a>) -> (r: Result<
    AstDestructuringPattern<'a>,
    ParseError,
>)
    requires
        old(lxr).wf(),
    ensures
        final(lxr).extends(*old(lxr)),
        old(lxr).index() <= final(lxr).index(),
        step_of(r, final(lxr).index()) == spec_parse_destructuring_pattern(
            old(lxr).stream(),
            old(lxr).index(),
        ),
        r is Ok ==> {
            &&& old(lxr).index() < final(lxr).index()
            &&& r.unwrap()@.span().start == tok(
                old(lxr).stream(),
                skip_comments(old(lxr).stream(), old(lxr).index()),
            ).span.start
            &&& r.unwrap()@.span().end == tok(
                old(lxr).stream(),
                last_before(old(lxr).stream(), final(lxr).index()),
            ).span.end
            &&& skip_comments(old(lxr).stream(), old(lxr).index()) < final(lxr).index()
            &&& pattern_well_spanned(old(lxr).stream(), r.unwrap()@)
        },
        r is Err ==> (r->Err_0.fatal <==> kind_at(
            old(lxr).stream(),
            skip_comments(old(lxr).stream(), old(lxr).index()),
        ) == Some(TokenKind::Identifier)),
    decreases old(lxr).stream().len() - old(lxr).index(), 0nat,
{
    let ghost s = lxr.stream();
    let ghost i = lxr.index();
    let ghost text = lxr.spec_source().spec_bytes();
    proof {
        lxr.lemma_bounds();
        lemma_skip_comments(s, i);
    }
    flush_comments(lxr);
    let ghost at = lxr.index();
    proof {
        if kind_at(s, at) == Some(TokenKind::Identifier) {
            lemma_last_before_skip(s, at);
            lemma_spans_tokens_single(text, at);
        }
    }
    match expect_token(
        lxr,
        LexerToken::Identifier(""),
        list1("identifier (as part of a destructuring pattern)"),
    ) {
        Ok(_) => {},
        Err(e) => {
            return Err(e.with_fatality(false));
        },
    }
    let base_span = lxr.span().unwrap();
    let name = lxr.slice().unwrap();
    proof {
        lemma_skip_comments(s, at + 1);
    }
    flush_comments(lxr);
    let ghost after = lxr.index();
    let at_colon = match lxr.peek() {
        Some(LexerToken::Colon) => true,
        _ => false,
    };
    if !at_colon {
        return Ok(AstDestructuringPattern::Name(base_span, name));
    }
    lxr.next();
    proof {
        lxr.lemma_bounds();
        lemma_skip_comments(s, after + 1);
    }
    flush_comments(lxr);
    match lxr.next() {
        Some(LexerToken::Identifier(aliased_name)) => {
            let end = lxr.span().unwrap().end;
            let pattern = AstDestructuringPattern::AliasedName(
                base_span.start..end,
                name,
                aliased_name,
            );
            proof {
                lxr.lemma_bounds();
                let last = (lxr.index() - 1) as nat;
                lemma_span_of_tokens(text, at as int, last as int);
                assert(is_token_range(s, pattern@.span(), at, last));
            }
            Ok(pattern)
        },
        Some(LexerToken::LeftCurlyBrace) => parse_pattern_children(
            lxr,
            name,
            base_span.start,
            Ghost(tok(s, at)),
            Ghost(at),
        ),
        invalid_value => Err(
            call_error(
                lxr,
                invalid_value,
                list1("identifier or `{` (as part of a destructuring pattern)"),
                true,
            ),
        ),
    }
}

} // verus!
