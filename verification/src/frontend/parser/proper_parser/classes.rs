//! Class declarations, and the body in braces that classes and structs share.
use super::super::lexer::logos_lexer::{LexerToken, SpannedToken, TokenKind};
use super::ast::classes::{ClassDecAstNode, ClassDecModel};
use super::ast::fields::{FieldList, FieldModel};
use super::ast::methods::{MethodList, MethodOrConstraintModel};
use super::ast::models_of;
use super::ast::publicity::AstClassItemPublicity;
use super::extends_implements::{parse_extends, parse_implements, spec_parse_clause};
use super::fields::{parse_fields_until_none_are_left, spec_parse_fields};
use super::methods::{parse_methods_until_none_are_found, spec_parse_methods};
use super::parse_error::{
    combine_parse_errors, spec_combine_parse_errors, spec_with_fatality, ParseError,
};
use super::publicity::ParsePublicity;
use super::types::{parse_name_and_generics, spec_parse_name_and_generics};
use super::utility_things::{
    done, expect_token, failed, list1, spec_expect_token, step_of, tok, LexerStruct, Step,
};
use vstd::prelude::*;

verus! {

/// What the body of a declaration holds: its fields, its methods, and the
/// byte where its closing brace ends.
pub struct BodyModel<P> {
    pub fields: Seq<FieldModel<P>>,
    pub methods: Seq<MethodOrConstraintModel<P>>,
    pub end: usize,
}

/// The body of a declaration from place `i` on: an opening brace, the
/// fields, the methods and the closing brace. Every failure is fatal. Where the
/// methods fail, the failure is merged with the one that ended the fields;
/// where the closing brace is missing, with the one that ended the methods.
pub open spec fn spec_parse_body<P: ParsePublicity>(
    s: Seq<SpannedToken>,
    i: nat,
    expected_open: Seq<&'static str>,
    expected_close: Seq<&'static str>,
) -> Step<BodyModel<P>> {
    let open = spec_expect_token(s, i, TokenKind::LeftCurlyBrace, expected_open, None);
    match open.result {
        Err(e) => failed(e, open.index),
        Ok(_) => {
            let fields = spec_parse_fields::<P>(s, open.index, seq![]);
            match fields.result {
                Err(e) => failed(e, fields.index),
                Ok((field_list, fields_ended_by)) => {
                    let methods = spec_parse_methods::<P>(s, fields.index, seq![]);
                    match methods.result {
                        Err(e) => failed(
                            spec_with_fatality(spec_combine_parse_errors(fields_ended_by, e), true),
                            methods.index,
                        ),
                        Ok((method_list, methods_ended_by)) => {
                            let close = spec_expect_token(
                                s,
                                methods.index,
                                TokenKind::RightCurlyBrace,
                                expected_close,
                                None,
                            );
                            match close.result {
                                Err(e) => failed(
                                    spec_combine_parse_errors(methods_ended_by, e),
                                    close.index,
                                ),
                                Ok(last) => done(
                                    BodyModel {
                                        fields: field_list,
                                        methods: method_list,
                                        end: last.span.end,
                                    },
                                    close.index,
                                ),
                            }
                        },
                    }
                },
            }
        },
    }
}

/// What a run through a body came to, as a plain value.
pub open spec fn body_step_of<P>(
    r: Result<(FieldList<P>, MethodList<P>, usize), ParseError>,
    index: nat,
) -> Step<BodyModel<P>> {
    Step {
        result: match r {
            Ok((fields, methods, end)) => Ok(
                BodyModel { fields: models_of(fields@), methods: models_of(methods@), end },
            ),
            Err(err) => Err(err@),
        },
        index,
    }
}

/// Parses the body of a declaration, from its opening brace to its closing
/// brace, which is the current token on success.
pub fn parse_body<'a, PublicityEnum: ParsePublicity>(
    lxr: &mut LexerStruct<'a>,
    expected_open: &'static str,
    expected_close: &'static str,
) -> (r: Result<(FieldList<'a, PublicityEnum>, MethodList<'a, PublicityEnum>, usize), ParseError>)
    requires
        old(lxr).wf(),
    ensures
        final(lxr).extends(*old(lxr)),
        old(lxr).index() <= final(lxr).index(),
        body_step_of(r, final(lxr).index()) == spec_parse_body::<PublicityEnum>(
            old(lxr).stream(),
            old(lxr).index(),
            seq![expected_open],
            seq![expected_close],
        ),
        r is Ok ==> {
            &&& old(lxr).index() < final(lxr).index()
            &&& final(lxr).current() == Some((final(lxr).index() - 1) as nat)
            &&& r.unwrap().2 == tok(old(lxr).stream(), (final(lxr).index() - 1) as nat).span.end
        },
        r is Err ==> r->Err_0.fatal,
{
    match expect_token(lxr, LexerToken::LeftCurlyBrace, list1(expected_open)) {
        Ok(_) => {},
        Err(e) => {
            return Err(e);
        },
    }
    let (fields, fields_ended_by) = match parse_fields_until_none_are_left(lxr) {
        Ok(found) => found,
        Err(e) => {
            return Err(e);
        },
    };
    let (methods, methods_ended_by) = match parse_methods_until_none_are_found(lxr) {
        Ok(found) => found,
        Err(e) => {
            return Err(combine_parse_errors(fields_ended_by, e).with_fatality(true));
        },
    };
    proof {
        lxr.lemma_bounds();
    }
    match expect_token(lxr, LexerToken::RightCurlyBrace, list1(expected_close)) {
        Ok(_) => {},
        Err(e) => {
            return Err(combine_parse_errors(methods_ended_by, e));
        },
    }
    let end = lxr.span().unwrap().end;
    Ok((fields, methods, end))
}

/// What is expected where the body of a class has to open.
pub open spec fn expected_class_open() -> Seq<&'static str> {
    seq!["`{` (to open the body of the class)"]
}

/// What is expected where the body of a class has to close.
pub open spec fn expected_class_close() -> Seq<&'static str> {
    seq!["`}` (to close the body of the class)"]
}

/// A class declaration from place `i` on, after its keyword, which started
/// at byte `start`: a name with generics, what the class extends, what it
/// implements, and its body.
pub open spec fn spec_parse_class(s: Seq<SpannedToken>, i: nat, start: usize) -> Step<
    ClassDecModel,
> {
    let name = spec_parse_name_and_generics(s, i);
    match name.result {
        Err(e) => failed(e, name.index),
        Ok(class_type) => {
            let extended = spec_parse_clause(s, name.index, TokenKind::Extends);
            match extended.result {
                Err(e) => failed(e, extended.index),
                Ok(extends) => {
                    let implemented = spec_parse_clause(
                        s,
                        extended.index,
                        TokenKind::Implements,
                    );
                    match implemented.result {
                        Err(e) => failed(e, implemented.index),
                        Ok(implements) => {
                            let body = spec_parse_body::<AstClassItemPublicity>(
                                s,
                                implemented.index,
                                expected_class_open(),
                                expected_class_close(),
                            );
                            match body.result {
                                Err(e) => failed(e, body.index),
                                Ok(b) => done(
                                    ClassDecModel {
                                        span: start..b.end,
                                        class_type,
                                        extends,
                                        implements,
                                        fields: b.fields,
                                        methods: b.methods,
                                    },
                                    body.index,
                                ),
                            }
                        },
                    }
                },
            }
        },
    }
}

/// Parses a class declaration, after its keyword, which is the current token.
/// The declaration covers the bytes from the keyword to the closing brace.
/// Every failure is fatal.
pub fn parse_class<'a>(lxr: &mut LexerStruct<'a>) -> (r: Result<ClassDecAstNode<'a>, ParseError>)
    requires
        old(lxr).wf(),
        old(lxr).current() is Some,
    ensures
        final(lxr).extends(*old(lxr)),
        old(lxr).index() <= final(lxr).index(),
        step_of(r, final(lxr).index()) == spec_parse_class(
            old(lxr).stream(),
            old(lxr).index(),
            tok(old(lxr).stream(), old(lxr).current().unwrap()).span.start,
        ),
        r is Ok ==> {
            &&& old(lxr).index() < final(lxr).index()
            &&& final(lxr).current() == Some((final(lxr).index() - 1) as nat)
            &&& r.unwrap()@.span.start == tok(
                old(lxr).stream(),
                old(lxr).current().unwrap(),
            ).span.start
            &&& r.unwrap()@.span.end == tok(
                old(lxr).stream(),
                (final(lxr).index() - 1) as nat,
            ).span.end
        },
        r is Err ==> r->Err_0.fatal,
{
    proof {
        lxr.lemma_bounds();
    }
    let start_span = lxr.span().unwrap().start;
    let class_type = match parse_name_and_generics(lxr) {
        Ok(t) => t,
        Err(e) => {
            return Err(e);
        },
    };
    let extends = match parse_extends(lxr) {
        Ok(clause) => clause,
        Err(e) => {
            return Err(e);
        },
    };
    let implements = match parse_implements(lxr) {
        Ok(clause) => clause,
        Err(e) => {
            return Err(e);
        },
    };
    let (fields, methods, end) = match parse_body(
        lxr,
        "`{` (to open the body of the class)",
        "`}` (to close the body of the class)",
    ) {
        Ok(body) => body,
        Err(e) => {
            return Err(e);
        },
    };
    Ok(ClassDecAstNode { span: start_span..end, class_type, extends, implements, fields, methods })
}

} // verus!
