//! Struct declarations.
use super::super::lexer::logos_lexer::{SpannedToken, TokenKind};
use super::ast::publicity::AstPublicity;
use super::ast::structs::{StructDecAstNode, StructDecModel};
use super::classes::{parse_body, spec_parse_body};
use super::extends_implements::{parse_implements, spec_parse_clause};
use super::parse_error::ParseError;
use super::types::{parse_name_and_generics, spec_parse_name_and_generics};
use super::utility_things::{done, failed, step_of, tok, LexerStruct, Step};
use vstd::prelude::*;

verus! {

/// What is expected where the body of a struct has to open.
pub open spec fn expected_struct_open() -> Seq<&'static str> {
    seq!["`{` (to open the body of the struct)"]
}

/// What is expected where the body of a struct has to close.
pub open spec fn expected_struct_close() -> Seq<&'static str> {
    seq!["`}` (to close the body of the struct)"]
}

/// A struct declaration from place `i` on, after its keyword, which started
/// at byte `start`: a name with generics, what the struct implements, and its
/// body.
pub open spec fn spec_parse_struct(s: Seq<SpannedToken>, i: nat, start: usize) -> Step<
    StructDecModel,
> {
    let name = spec_parse_name_and_generics(s, i);
    match name.result {
        Err(e) => failed(e, name.index),
        Ok(struct_type) => {
            let implemented = spec_parse_clause(s, name.index, TokenKind::Implements);
            match implemented.result {
                Err(e) => failed(e, implemented.index),
                Ok(implements) => {
                    let body = spec_parse_body::<AstPublicity>(
                        s,
                        implemented.index,
                        expected_struct_open(),
                        expected_struct_close(),
                    );
                    match body.result {
                        Err(e) => failed(e, body.index),
                        Ok(b) => done(
                            StructDecModel {
                                span: start..b.end,
                                struct_type,
                                implements,
                                fields: b.fields,
                                methods: b.methods,
                            },
                            body.index,
                        ),
                    }
                },
            }
        },
    }
}

/// Parses a struct declaration, after its keyword, which is the current
/// token. The declaration covers the bytes from the keyword to the closing
/// brace. Every failure is fatal.
pub fn parse_struct<'a>(lxr: &mut LexerStruct<'a>) -> (r: Result<StructDecAstNode<'a>, ParseError>)
    requires
        old(lxr).wf(),
        old(lxr).current() is Some,
    ensures
        final(lxr).extends(*old(lxr)),
        old(lxr).index() <= final(lxr).index(),
        step_of(r, final(lxr).index()) == spec_parse_struct(
            old(lxr).stream(),
            old(lxr).index(),
            tok(old(lxr).stream(), old(lxr).current().unwrap()).span.start,
        ),
        r is Ok ==> {
            &&& old(lxr).index() < final(lxr).index()
            &&& final(lxr).current() == Some((final(lxr).index() - 1) as nat)
            &&& r.unwrap()@.span.start == tok(
                old(lxr).stream(),
                old(lxr).current().unwrap(),
            ).span.start
            &&& r.unwrap()@.span.end == tok(
                old(lxr).stream(),
                (final(lxr).index() - 1) as nat,
            ).span.end
        },
        r is Err ==> r->Err_0.fatal,
{
    proof {
        lxr.lemma_bounds();
    }
    let start_span = lxr.span().unwrap().start;
    let struct_type = match parse_name_and_generics(lxr) {
        Ok(t) => t,
        Err(e) => {
            return Err(e);
        },
    };
    let implements = match parse_implements(lxr) {
        Ok(clause) => clause,
        Err(e) => {
            return Err(e);
        },
    };
    let (fields, methods, end) = match parse_body(
        lxr,
        "`{` (to open the body of the struct)",
        "`}` (to close the body of the struct)",
    ) {
        Ok(body) => body,
        Err(e) => {
            return Err(e);
        },
    };
    Ok(StructDecAstNode { span: start_span..end, struct_type, implements, fields, methods })
}

} // verus!
