//! The clauses that say what a declaration extends and what it implements.
use super::super::lexer::logos_lexer::{LexerToken, SpannedToken, TokenKind};
use super::ast::types::{AstType, TypeModel};
use super::parse_error::ParseError;
use super::types::{parse_type, spec_parse_type, type_well_spanned};
use super::utility_things::{
    done, expect_token, failed, kind_at, option_model, LexerStruct, Step,
};
use vstd::prelude::*;

verus! {

/// A clause from place `i` on that a keyword of class `keyword` opens: the
/// keyword and a type, or nothing where another token stands.
pub open spec fn spec_parse_clause(s: Seq<SpannedToken>, i: nat, keyword: TokenKind) -> Step<
    Option<TypeModel>,
> {
    if kind_at(s, i) == Some(keyword) {
        let clause = spec_parse_type(s, i + 1, None);
        match clause.result {
            Err(e) => failed(e, clause.index),
            Ok(t) => done(Some(t), clause.index),
        }
    } else {
        done(None, i)
    }
}

/// What a run of a clause came to, as a plain value.
pub open spec fn clause_step_of(r: Result<Option<AstType>, ParseError>, index: nat) -> Step<
    Option<TypeModel>,
> {
    Step {
        result: match r {
            Ok(clause) => Ok(option_model(clause)),
            Err(err) => Err(err@),
        },
        index,
    }
}

/// Parses a clause that the keyword `keyword` opens.
fn parse_clause<'a>(lxr: &mut LexerStruct<'a>, keyword: LexerToken) -> (r: Result<
    Option<AstType<'a>>,
    ParseError,
>)
    requires
        old(lxr).wf(),
    ensures
        final(lxr).extends(*old(lxr)),
        old(lxr).index() <= final(lxr).index(),
        clause_step_of(r, final(lxr).index()) == spec_parse_clause(
            old(lxr).stream(),
            old(lxr).index(),
            keyword.spec_kind(),
        ),
        r is Err ==> r->Err_0.fatal,
        r is Ok && r.unwrap() is Some ==> type_well_spanned(
            old(lxr).stream(),
            r.unwrap().unwrap()@,
        ),
{
    proof {
        lxr.lemma_bounds();
    }
    let position = lxr.save_position();
    if expect_token(lxr, keyword, Vec::new()).is_err() {
        lxr.return_to_position(position);
        return Ok(None);
    }
    match parse_type(lxr, None) {
        Ok(t) => Ok(Some(t)),
        Err(e) => Err(e),
    }
}

/// Parses what a declaration implements: `implements` and a type, or nothing
/// where another token stands. A failure after the keyword is fatal.
pub fn parse_implements<'a>(lxr: &mut LexerStruct<'a>) -> (r: Result<
    Option<AstType<'a>>,
    ParseError,
>)
    requires
        old(lxr).wf(),
    ensures
        final(lxr).extends(*old(lxr)),
        old(lxr).index() <= final(lxr).index(),
        clause_step_of(r, final(lxr).index()) == spec_parse_clause(
            old(lxr).stream(),
            old(lxr).index(),
            TokenKind::Implements,
        ),
        r is Err ==> r->Err_0.fatal,
        r is Ok && r.unwrap() is Some ==> type_well_spanned(
            old(lxr).stream(),
            r.unwrap().unwrap()@,
        ),
{
    parse_clause(lxr, LexerToken::Implements)
}

/// Parses what a declaration extends: `extends` and a type, or nothing where
/// another token stands. A failure after the keyword is fatal.
pub fn parse_extends<'a>(lxr: &mut LexerStruct<'a>) -> (r: Result<Option<AstType<'a>>, ParseError>)
    requires
        old(lxr).wf(),
    ensures
        final(lxr).extends(*old(lxr)),
        old(lxr).index() <= final(lxr).index(),
        clause_step_of(r, final(lxr).index()) == spec_parse_clause(
            old(lxr).stream(),
            old(lxr).index(),
            TokenKind::Extends,
        ),
        r is Err ==> r->Err_0.fatal,
        r is Ok && r.unwrap() is Some ==> type_well_spanned(
            old(lxr).stream(),
            r.unwrap().unwrap()@,
        ),
{
    parse_clause(lxr, LexerToken::Extends)
}

} // verus!
