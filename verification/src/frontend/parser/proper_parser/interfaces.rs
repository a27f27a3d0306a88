//! Interface declarations.
use super::super::lexer::logos_lexer::{LexerToken, SpannedToken, TokenKind};
use super::ast::interfaces::{InterfaceDecAstNode, InterfaceDecModel};
use super::ast::publicity::InterfaceMethodPublicity;
use super::extends_implements::{parse_extends, spec_parse_clause};
use super::methods::{parse_methods_until_none_are_found, spec_parse_methods};
use super::parse_error::{combine_parse_errors, spec_combine_parse_errors, ParseError};
use super::types::{parse_name_and_generics, spec_parse_name_and_generics};
use super::utility_things::{
    done, expect_token, failed, list1, spec_expect_token, step_of, tok, LexerStruct, Step,
};
use vstd::prelude::*;

verus! {

/// What is expected where the body of an interface has to open.
pub open spec fn expected_interface_open() -> Seq<&'static str> {
    seq!["`{` (to open the body of the interface)"]
}

/// What is expected where the body of an interface has to close.
pub open spec fn expected_interface_close() -> Seq<&'static str> {
    seq!["`}` (to close the body of the interface)"]
}

/// An interface declaration from place `i` on, after its keyword, which
/// started at byte `start`: a name with generics, what the interface extends,
/// and its methods in braces. Every failure is fatal; where the closing brace
/// is missing, the failure is merged with the one that ended the methods.
pub open spec fn spec_parse_interface(s: Seq<SpannedToken>, i: nat, start: usize) -> Step<
    InterfaceDecModel,
> {
    let name = spec_parse_name_and_generics(s, i);
    match name.result {
        Err(e) => failed(e, name.index),
        Ok(interface_type) => {
            let extended = spec_parse_clause(s, name.index, TokenKind::Extends);
            match extended.result {
                Err(e) => failed(e, extended.index),
                Ok(extends) => {
                    let open = spec_expect_token(
                        s,
                        extended.index,
                        TokenKind::LeftCurlyBrace,
                        expected_interface_open(),
                        None,
                    );
                    match open.result {
                        Err(e) => failed(e, open.index),
                        Ok(_) => {
                            let methods = spec_parse_methods::<InterfaceMethodPublicity>(
                                s,
                                open.index,
                                seq![],
                            );
                            match methods.result {
                                Err(e) => failed(e, methods.index),
                                Ok((method_list, ended_by)) => {
                                    let close = spec_expect_token(
                                        s,
                                        methods.index,
                                        TokenKind::RightCurlyBrace,
                                        expected_interface_close(),
                                        None,
                                    );
                                    match close.result {
                                        Err(e) => failed(
                                            spec_combine_parse_errors(ended_by, e),
                                            close.index,
                                        ),
                                        Ok(last) => done(
                                            InterfaceDecModel {
                                                span: start..last.span.end,
                                                interface_type,
                                                extends,
                                                methods: method_list,
                                            },
                                            close.index,
                                        ),
                                    }
                                },
                            }
                        },
                    }
                },
            }
        },
    }
}

/// Parses an interface declaration, after its keyword, which is the current
/// token. The declaration covers the bytes from the keyword to the closing
/// brace. Every failure is fatal.
pub fn parse_interface<'a>(lxr: &mut LexerStruct<'a>) -> (r: Result<
    InterfaceDecAstNode<'a>,
    ParseError,
>)
    requires
        old(lxr).wf(),
        old(lxr).current() is Some,
    ensures
        final(lxr).extends(*old(lxr)),
        old(lxr).index() <= final(lxr).index(),
        step_of(r, final(lxr).index()) == spec_parse_interface(
            old(lxr).stream(),
            old(lxr).index(),
            tok(old(lxr).stream(), old(lxr).current().unwrap()).span.start,
        ),
        r is Ok ==> {
            &&& old(lxr).index() < final(lxr).index()
            &&& final(lxr).current() == Some((final(lxr).index() - 1) as nat)
            &&& r.unwrap()@.span.start == tok(
                old(lxr).stream(),
                old(lxr).current().unwrap(),
            ).span.start
            &&& r.unwrap()@.span.end == tok(
                old(lxr).stream(),
                (final(lxr).index() - 1) as nat,
            ).span.end
        },
        r is Err ==> r->Err_0.fatal,
{
    proof {
        lxr.lemma_bounds();
    }
    let start_span = lxr.span().unwrap().start;
    let interface_type = match parse_name_and_generics(lxr) {
        Ok(t) => t,
        Err(e) => {
            return Err(e);
        },
    };
    let extends = match parse_extends(lxr) {
        Ok(clause) => clause,
        Err(e) => {
            return Err(e);
        },
    };
    match expect_token(
        lxr,
        LexerToken::LeftCurlyBrace,
        list1("`{` (to open the body of the interface)"),
    ) {
        Ok(_) => {},
        Err(e) => {
            return Err(e);
        },
    }
    let (methods, ended_by) = match parse_methods_until_none_are_found(lxr) {
        Ok(found) => found,
        Err(e) => {
            return Err(e);
        },
    };
    proof {
        lxr.lemma_bounds();
    }
    match expect_token(
        lxr,
        LexerToken::RightCurlyBrace,
        list1("`}` (to close the body of the interface)"),
    ) {
        Ok(_) => {},
        Err(e) => {
            return Err(combine_parse_errors(ended_by, e));
        },
    }
    let end = lxr.span().unwrap().end;
    Ok(InterfaceDecAstNode { span: start_span..end, interface_type, extends, methods })
}

} // verus!
