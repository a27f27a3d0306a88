//! Enum declarations and their cases.
use super::super::lexer::logos_lexer::{LexerToken, SpannedToken, TokenKind};
use super::ast::enums::{EnumCaseAstNode, EnumCaseModel, EnumDecAstNode, EnumDecModel};
use super::ast::publicity::AstPublicity;
use super::ast::types::{AstType, TypeModel};
use super::ast::{lemma_models_of_empty, lemma_models_of_push, models_of};
use super::methods::{parse_methods_until_none_are_found, spec_parse_methods};
use super::parse_error::{combine_parse_errors, spec_combine_parse_errors, ParseError};
use super::extends_implements::clause_step_of;
use super::publicity::{marker_at, ParsePublicity};
use super::types::{
    parse_name_and_generics, parse_type, spec_parse_name_and_generics, spec_parse_type,
};
use super::utility_things::{
    call_error, done, expect_token, failed, flush_comments, kind_at, last_before,
    lemma_last_before_skip, lemma_skip_comments, list1, list2, list3, option_model, past, skip_comments, spec_error_here, spec_expect_token, step_of,
    tok, LexerStruct, Step,
};
use vstd::prelude::*;

verus! {

/// What is expected where the name of an enum case has to stand.
pub open spec fn expected_case_name() -> Seq<&'static str> {
    seq!["identifier (to name the enum case)"]
}

/// What is expected where a type of an enum case has to start.
pub open spec fn expected_case_type() -> Seq<&'static str> {
    seq![
        "identifier (to start a type)",
        "`)` (to end the description of the fields of the enum case)",
    ]
}

/// What is expected after a type of an enum case.
pub open spec fn expected_after_case_type() -> Seq<&'static str> {
    seq![
        "`,` (to signal the next type)",
        "`)` (to end the description of the fields of the enum case)",
    ]
}

/// What is expected after the name of an enum.
pub open spec fn expected_enum_header() -> Seq<&'static str> {
    seq![
        "`implements` (to signal which traits the enum implements)",
        "`{` (to begin the body of the enum)",
    ]
}

/// What is expected where the body of an enum has to open.
pub open spec fn expected_enum_open() -> Seq<&'static str> {
    seq!["`{` (to begin the body of the enum)"]
}

/// What is expected where an enum case has to start.
pub open spec fn expected_case_start() -> Seq<&'static str> {
    seq![
        "identifier (to define a new enum case)",
        "`pub` or `priv` (to define a new method and its publicity)",
        "`<` (to start a new constraint block)",
    ]
}

/// What is expected after an enum case.
pub open spec fn expected_after_case() -> Seq<&'static str> {
    seq![
        "`,` (to signal the next case or first method of the enum)",
        "`}` (to close the struct)",
    ]
}

/// What is expected where the body of an enum has to close.
pub open spec fn expected_enum_close() -> Seq<&'static str> {
    seq!["`}` (to close the body of the enum)"]
}

/// The rest of the types of an enum case from place `i` on, after the types
/// `acc`: types parted by commas, up to the closing parenthesis, which may
/// stand after a comma.
pub open spec fn spec_enum_case_args(s: Seq<SpannedToken>, i: nat, acc: Seq<TypeModel>) -> Step<
    Seq<TypeModel>,
>
    decreases s.len() - i,
{
    match kind_at(s, i) {
        Some(TokenKind::Identifier) => {
            let arg = spec_parse_type(s, i, None);
            match arg.result {
                Err(e) => failed(e, arg.index),
                Ok(t) => match kind_at(s, arg.index) {
                    Some(TokenKind::Comma) if arg.index > i => spec_enum_case_args(
                        s,
                        arg.index + 1,
                        acc.push(t),
                    ),
                    Some(TokenKind::RightParenthesis) => done(acc.push(t), arg.index + 1),
                    _ => failed(
                        spec_error_here(s, arg.index, expected_after_case_type(), true),
                        past(s, arg.index),
                    ),
                },
            }
        },
        Some(TokenKind::RightParenthesis) => done(acc, i + 1),
        _ => failed(spec_error_here(s, i, expected_case_type(), true), past(s, i)),
    }
}

/// An enum case from place `i` on: a name and, if `(` follows, the types of
/// what the case holds, in parentheses. Comments may stand before the name and
/// after it. Every failure is fatal.
pub open spec fn spec_parse_enum_case(s: Seq<SpannedToken>, i: nat) -> Step<EnumCaseModel> {
    let at = skip_comments(s, i);
    let name = spec_expect_token(s, at, TokenKind::Identifier, expected_case_name(), None);
    match name.result {
        Err(e) => failed(e, name.index),
        Ok(name_token) => {
            let after = skip_comments(s, at + 1);
            if kind_at(s, after) == Some(TokenKind::LeftParenthesis) {
                let args = spec_enum_case_args(s, after + 1, seq![]);
                match args.result {
                    Err(e) => failed(e, args.index),
                    Ok(case_args) => done(
                        EnumCaseModel {
                            span: name_token.span.start..tok(s, (args.index - 1) as nat).span.end,
                            case_name: name_token.text,
                            case_args,
                        },
                        args.index,
                    ),
                }
            } else {
                done(
                    EnumCaseModel {
                        span: name_token.span,
                        case_name: name_token.text,
                        case_args: seq![],
                    },
                    after,
                )
            }
        },
    }
}

/// Whether the cases of an enum end at place `i`: there stands a visibility
/// marker, `<` or the closing brace.
pub open spec fn cases_end_at(s: Seq<SpannedToken>, i: nat) -> bool {
    ||| marker_at::<AstPublicity>(s, i)
    ||| kind_at(s, i) == Some(TokenKind::LeftAngleBracketOrLessThan)
    ||| kind_at(s, i) == Some(TokenKind::RightCurlyBrace)
}

/// The rest of the cases of an enum from place `i` on, after the cases `acc`:
/// cases parted by commas, up to the first method or the closing brace, neither
/// of which is taken. Comments may stand between them. Every failure is fatal.
pub open spec fn spec_enum_cases(s: Seq<SpannedToken>, i: nat, acc: Seq<EnumCaseModel>) -> Step<
    Seq<EnumCaseModel>,
>
    decreases s.len() - i,
{
    let at = skip_comments(s, i);
    proof {
        lemma_skip_comments(s, i);
    }
    if cases_end_at(s, at) {
        done(acc, at)
    } else if kind_at(s, at) == Some(TokenKind::Identifier) {
        let case = spec_parse_enum_case(s, at);
        match case.result {
            Err(e) => failed(e, case.index),
            Ok(c) => {
                let after = skip_comments(s, case.index);
                proof {
                    lemma_skip_comments(s, case.index);
                }
                match kind_at(s, after) {
                    Some(TokenKind::Comma) if case.index > at => spec_enum_cases(
                        s,
                        after + 1,
                        acc.push(c),
                    ),
                    Some(TokenKind::RightCurlyBrace) => done(acc.push(c), after),
                    _ => failed(spec_error_here(s, after, expected_after_case(), true), after),
                }
            },
        }
    } else {
        failed(spec_error_here(s, at, expected_case_start(), true), at)
    }
}

/// The body of an enum from place `i` on, after its opening brace: the
/// cases, the methods and the closing brace. Where the closing brace is
/// missing, the failure is merged with the one that ended the methods.
pub open spec fn spec_enum_body(
    s: Seq<SpannedToken>,
    i: nat,
    start: usize,
    enum_type: TypeModel,
    implements: Option<TypeModel>,
) -> Step<EnumDecModel> {
    let cases = spec_enum_cases(s, i, seq![]);
    match cases.result {
        Err(e) => failed(e, cases.index),
        Ok(case_list) => {
            let methods = spec_parse_methods::<AstPublicity>(s, cases.index, seq![]);
            match methods.result {
                Err(e) => failed(e, methods.index),
                Ok((method_list, ended_by)) => {
                    let close = spec_expect_token(
                        s,
                        methods.index,
                        TokenKind::RightCurlyBrace,
                        expected_enum_close(),
                        None,
                    );
                    match close.result {
                        Err(e) => failed(spec_combine_parse_errors(ended_by, e), close.index),
                        Ok(last) => done(
                            EnumDecModel {
                                span: start..last.span.end,
                                enum_type,
                                implements,
                                cases: case_list,
                                methods: method_list,
                            },
                            close.index,
                        ),
                    }
                },
            }
        },
    }
}

/// What stands between the name of an enum and its cases, from place `i`
/// on: `implements` with a type if the enum implements one, and the opening
/// brace. Comments may stand before it.
pub open spec fn spec_enum_opening(s: Seq<SpannedToken>, i: nat) -> Step<Option<TypeModel>> {
    let at = skip_comments(s, i);
    match kind_at(s, at) {
        Some(TokenKind::Implements) => {
            let implemented = spec_parse_type(s, at + 1, None);
            match implemented.result {
                Err(e) => failed(e, implemented.index),
                Ok(t) => {
                    let open = spec_expect_token(
                        s,
                        implemented.index,
                        TokenKind::LeftCurlyBrace,
                        expected_enum_open(),
                        None,
                    );
                    match open.result {
                        Err(e) => failed(e, open.index),
                        Ok(_) => done(Some(t), open.index),
                    }
                },
            }
        },
        Some(TokenKind::LeftCurlyBrace) => done(None, at + 1),
        _ => failed(spec_error_here(s, at, expected_enum_header(), true), past(s, at)),
    }
}

/// An enum declaration from place `i` on, after its keyword, which started at
/// byte `start`: a name with generics, `implements` with a type if the enum
/// implements one, and the body in braces. Every failure is fatal.
pub open spec fn spec_parse_enum_dec(s: Seq<SpannedToken>, i: nat, start: usize) -> Step<
    EnumDecModel,
> {
    let name = spec_parse_name_and_generics(s, i);
    match name.result {
        Err(e) => failed(e, name.index),
        Ok(enum_type) => {
            let opening = spec_enum_opening(s, name.index);
            match opening.result {
                Err(e) => failed(e, opening.index),
                Ok(implements) => spec_enum_body(s, opening.index, start, enum_type, implements),
            }
        },
    }
}

/// What a run through a list of trees came to, as a plain value.
pub open spec fn trees_step_of<T: View>(r: Result<Vec<T>, ParseError>, index: nat) -> Step<
    Seq<T::V>,
> {
    Step {
        result: match r {
            Ok(list) => Ok(models_of(list@)),
            Err(err) => Err(err@),
        },
        index,
    }
}

/// Parses the types of an enum case, after the opening parenthesis.
fn parse_enum_case_args<'a>(lxr: &mut LexerStruct<'a>) -> (r: Result<Vec<AstType<'a>>, ParseError>)
    requires
        old(lxr).wf(),
    ensures
        final(lxr).extends(*old(lxr)),
        old(lxr).index() <= final(lxr).index(),
        trees_step_of(r, final(lxr).index()) == spec_enum_case_args(
            old(lxr).stream(),
            old(lxr).index(),
            seq![],
        ),
        r is Ok ==> old(lxr).index() < final(lxr).index() && final(lxr).current() == Some(
            (final(lxr).index() - 1) as nat,
        ) && tok(old(lxr).stream(), (final(lxr).index() - 1) as nat).kind
            == TokenKind::RightParenthesis,
        r is Err ==> r->Err_0.fatal,
{
    let ghost s = lxr.stream();
    let ghost i0 = lxr.index();
    let mut case_args: Vec<AstType<'a>> = Vec::new();
    proof {
        lemma_models_of_empty::<AstType<'a>>();
    }
    loop
        invariant
            lxr.extends(*old(lxr)),
            s == old(lxr).stream(),
            i0 == old(lxr).index(),
            i0 <= lxr.index(),
            spec_enum_case_args(s, i0, seq![]) == spec_enum_case_args(
                s,
                lxr.index(),
                models_of(case_args@),
            ),
        decreases s.len() - lxr.index(),
    {
        proof {
            lxr.lemma_bounds();
        }
        match lxr.peek() {
            Some(LexerToken::Identifier(_)) => {
                let arg = match parse_type(lxr, None) {
                    Ok(t) => t,
                    Err(e) => {
                        return Err(e);
                    },
                };
                proof {
                    lemma_models_of_push(case_args@, arg);
                }
                case_args.push(arg);
            },
            Some(LexerToken::RightParenthesis) => {
                lxr.next();
                return Ok(case_args);
            },
            invalid_value => {
                lxr.next();
                return Err(
                    call_error(
                        lxr,
                        invalid_value,
                        list2(
                            "identifier (to start a type)",
                            "`)` (to end the description of the fields of the enum case)",
                        ),
                        true,
                    ),
                );
            },
        }
        proof {
            lxr.lemma_bounds();
        }
        match lxr.next() {
            Some(LexerToken::Comma) => {},
            Some(LexerToken::RightParenthesis) => {
                return Ok(case_args);
            },
            invalid_value => {
                return Err(
                    call_error(
                        lxr,
                        invalid_value,
                        list2(
                            "`,` (to signal the next type)",
                            "`)` (to end the description of the fields of the enum case)",
                        ),
                        true,
                    ),
                );
            },
        }
        proof {
            lxr.lemma_bounds();
        }
    }
}

/// Parses an enum case. The case covers the bytes from its name to its
/// closing parenthesis or, where it holds nothing, to the end of its name.
/// Every failure is fatal.
pub fn parse_enum_case<'a>(lxr: &mut LexerStruct<'a>) -> (r: Result<EnumCaseAstNode<'a>, ParseError>)
    requires
        old(lxr).wf(),
    ensures
        final(lxr).extends(*old(lxr)),
        old(lxr).index() <= final(lxr).index(),
        step_of(r, final(lxr).index()) == spec_parse_enum_case(old(lxr).stream(), old(lxr).index()),
        r is Ok ==> {
            &&& old(lxr).index() < final(lxr).index()
            &&& r.unwrap()@.span.start == tok(
                old(lxr).stream(),
                skip_comments(old(lxr).stream(), old(lxr).index()),
            ).span.start
            &&& r.unwrap()@.span.end == tok(
                old(lxr).stream(),
                last_before(old(lxr).stream(), final(lxr).index()),
            ).span.end
        },
        r is Err ==> r->Err_0.fatal,
{
    let ghost s = lxr.stream();
    let ghost i = lxr.index();
    proof {
        lxr.lemma_bounds();
        lemma_skip_comments(s, i);
    }
    flush_comments(lxr);
    let ghost at = lxr.index();
    proof {
        if kind_at(s, at) == Some(TokenKind::Identifier) {
            lemma_last_before_skip(s, at);
        }
    }
    match expect_token(lxr, LexerToken::Identifier(""), list1("identifier (to name the enum case)")) {
        Ok(_) => {},
        Err(e) => {
            return Err(e);
        },
    }
    let case_name = lxr.slice().unwrap();
    let name_span = lxr.span().unwrap();
    proof {
        lemma_skip_comments(s, at + 1);
    }
    flush_comments(lxr);
    let has_args = match lxr.peek() {
        Some(LexerToken::LeftParenthesis) => true,
        _ => false,
    };
    if !has_args {
        proof {
            lemma_models_of_empty::<AstType<'a>>();
        }
        return Ok(EnumCaseAstNode { span: name_span, case_name, case_args: Vec::new() });
    }
    lxr.next();
    let case_args = match parse_enum_case_args(lxr) {
        Ok(args) => args,
        Err(e) => {
            return Err(e);
        },
    };
    proof {
        lxr.lemma_bounds();
    }
    let end = lxr.span().unwrap().end;
    Ok(EnumCaseAstNode { span: name_span.start..end, case_name, case_args })
}

/// Parses the cases of an enum, up to the first method or the closing brace.
fn parse_enum_cases<'a>(lxr: &mut LexerStruct<'a>) -> (r: Result<
    Vec<EnumCaseAstNode<'a>>,
    ParseError,
>)
    requires
        old(lxr).wf(),
    ensures
        final(lxr).extends(*old(lxr)),
        old(lxr).index() <= final(lxr).index(),
        trees_step_of(r, final(lxr).index()) == spec_enum_cases(
            old(lxr).stream(),
            old(lxr).index(),
            seq![],
        ),
        r is Err ==> r->Err_0.fatal,
{
    let ghost s = lxr.stream();
    let ghost i0 = lxr.index();
    let mut cases: Vec<EnumCaseAstNode<'a>> = Vec::new();
    proof {
        lemma_models_of_empty::<EnumCaseAstNode<'a>>();
    }
    loop
        invariant
            lxr.extends(*old(lxr)),
            s == old(lxr).stream(),
            i0 == old(lxr).index(),
            i0 <= lxr.index(),
            spec_enum_cases(s, i0, seq![]) == spec_enum_cases(s, lxr.index(), models_of(cases@)),
        decreases s.len() - lxr.index(),
    {
        let ghost i = lxr.index();
        proof {
            lxr.lemma_bounds();
            lemma_skip_comments(s, i);
        }
        flush_comments(lxr);
        let marked = AstPublicity::parse_publicity(lxr).is_ok();
        let token = lxr.peek();
        let ended = marked || match token {
            Some(LexerToken::LeftAngleBracketOrLessThan) => true,
            Some(LexerToken::RightCurlyBrace) => true,
            _ => false,
        };
        if ended {
            return Ok(cases);
        }
        match token {
            Some(LexerToken::Identifier(_)) => {},
            invalid_value => {
                return Err(
                    call_error(
                        lxr,
                        invalid_value,
                        list3(
                            "identifier (to define a new enum case)",
                            "`pub` or `priv` (to define a new method and its publicity)",
                            "`<` (to start a new constraint block)",
                        ),
                        true,
                    ),
                );
            },
        }
        let case = match parse_enum_case(lxr) {
            Ok(case) => case,
            Err(e) => {
                return Err(e);
            },
        };
        proof {
            lemma_models_of_push(cases@, case);
        }
        cases.push(case);
        let ghost parsed = lxr.index();
        proof {
            lxr.lemma_bounds();
            lemma_skip_comments(s, parsed);
        }
        flush_comments(lxr);
        match lxr.peek() {
            Some(LexerToken::Comma) => {
                lxr.next();
            },
            Some(LexerToken::RightCurlyBrace) => {
                return Ok(cases);
            },
            invalid_value => {
                return Err(
                    call_error(
                        lxr,
                        invalid_value,
                        list2(
                            "`,` (to signal the next case or first method of the enum)",
                            "`}` (to close the struct)",
                        ),
                        true,
                    ),
                );
            },
        }
        proof {
            lxr.lemma_bounds();
        }
    }
}

/// Parses the body of an enum, after its opening brace.
fn parse_enum_body<'a>(
    lxr: &mut LexerStruct<'a>,
    start_idx: usize,
    enum_type: AstType<'a>,
    implements: Option<AstType<'a>>,
) -> (r: Result<EnumDecAstNode<'a>, ParseError>)
    requires
        old(lxr).wf(),
    ensures
        final(lxr).extends(*old(lxr)),
        old(lxr).index() <= final(lxr).index(),
        step_of(r, final(lxr).index()) == spec_enum_body(
            old(lxr).stream(),
            old(lxr).index(),
            start_idx,
            enum_type@,
            option_model(implements),
        ),
        r is Ok ==> {
            &&& old(lxr).index() < final(lxr).index()
            &&& final(lxr).current() == Some((final(lxr).index() - 1) as nat)
            &&& r.unwrap()@.span.start == start_idx
            &&& r.unwrap()@.span.end == tok(
                old(lxr).stream(),
                (final(lxr).index() - 1) as nat,
            ).span.end
        },
        r is Err ==> r->Err_0.fatal,
{
    let cases = match parse_enum_cases(lxr) {
        Ok(cases) => cases,
        Err(e) => {
            return Err(e);
        },
    };
    let (methods, ended_by) = match parse_methods_until_none_are_found(lxr) {
        Ok(found) => found,
        Err(e) => {
            return Err(e);
        },
    };
    proof {
        lxr.lemma_bounds();
    }
    match expect_token(
        lxr,
        LexerToken::RightCurlyBrace,
        list1("`}` (to close the body of the enum)"),
    ) {
        Ok(_) => {},
        Err(e) => {
            return Err(combine_parse_errors(ended_by, e));
        },
    }
    let end = lxr.span().unwrap().end;
    Ok(EnumDecAstNode { span: start_idx..end, enum_type, implements, cases, methods })
}

/// Parses what stands between the name of an enum and its cases.
fn parse_enum_opening<'a>(lxr: &mut LexerStruct<'a>) -> (r: Result<Option<AstType<'a>>, ParseError>)
    requires
        old(lxr).wf(),
    ensures
        final(lxr).extends(*old(lxr)),
        old(lxr).index() <= final(lxr).index(),
        clause_step_of(r, final(lxr).index()) == spec_enum_opening(
            old(lxr).stream(),
            old(lxr).index(),
        ),
        r is Err ==> r->Err_0.fatal,
{
    let ghost s = lxr.stream();
    let ghost i = lxr.index();
    proof {
        lxr.lemma_bounds();
        lemma_skip_comments(s, i);
    }
    flush_comments(lxr);
    match lxr.next() {
        Some(LexerToken::Implements) => {
            let implemented = match parse_type(lxr, None) {
                Ok(t) => t,
                Err(e) => {
                    return Err(e);
                },
            };
            match expect_token(
                lxr,
                LexerToken::LeftCurlyBrace,
                list1("`{` (to begin the body of the enum)"),
            ) {
                Ok(_) => {},
                Err(e) => {
                    return Err(e);
                },
            }
            Ok(Some(implemented))
        },
        Some(LexerToken::LeftCurlyBrace) => Ok(None),
        invalid_value => Err(
            call_error(
                lxr,
                invalid_value,
                list2(
                    "`implements` (to signal which traits the enum implements)",
                    "`{` (to begin the body of the enum)",
                ),
                true,
            ),
        ),
    }
}

/// Parses an enum declaration, after its keyword, which is the current token.
/// The declaration covers the bytes from the keyword to the closing brace.
/// Every failure is fatal.
pub fn parse_enum_dec<'a>(lxr: &mut LexerStruct<'a>) -> (r: Result<EnumDecAstNode<'a>, ParseError>)
    requires
        old(lxr).wf(),
        old(lxr).current() is Some,
    ensures
        final(lxr).extends(*old(lxr)),
        old(lxr).index() <= final(lxr).index(),
        step_of(r, final(lxr).index()) == spec_parse_enum_dec(
            old(lxr).stream(),
            old(lxr).index(),
            tok(old(lxr).stream(), old(lxr).current().unwrap()).span.start,
        ),
        r is Ok ==> {
            &&& old(lxr).index() < final(lxr).index()
            &&& final(lxr).current() == Some((final(lxr).index() - 1) as nat)
            &&& r.unwrap()@.span.start == tok(
                old(lxr).stream(),
                old(lxr).current().unwrap(),
            ).span.start
            &&& r.unwrap()@.span.end == tok(
                old(lxr).stream(),
                (final(lxr).index() - 1) as nat,
            ).span.end
        },
        r is Err ==> r->Err_0.fatal,
{
    proof {
        lxr.lemma_bounds();
    }
    let start_idx = lxr.span().unwrap().start;
    let enum_type = match parse_name_and_generics(lxr) {
        Ok(t) => t,
        Err(e) => {
            return Err(e);
        },
    };
    let implements = match parse_enum_opening(lxr) {
        Ok(clause) => clause,
        Err(e) => {
            return Err(e);
        },
    };
    parse_enum_body(lxr, start_idx, enum_type, implements)
}

} // verus!
