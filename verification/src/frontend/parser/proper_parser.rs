//! The parser proper: one routine for each production of the grammar, and the
//! driver that parses a whole program.
//!
//! What a production makes of the tokens is laid down twice. A rule, a
//! function `spec_...` of the token stream and a place in it, says which tree
//! or which failure the production comes to and where it leaves the cursor. The
//! routine that runs is proved to come to just that, for every text and every
//! place.
//!
//! A failure is fatal or not. One that is not fatal means that an alternative
//! does not apply, or that a list has ended: the caller goes back to where it
//! stood and goes on. A fatal one ends the parse. A production that has taken
//! the token that makes it what it is fails fatally from then on.
//!
//! A production that comes to a tree always leaves the cursor further on.
//! Where a rule goes round again after an inner production, it asks for that
//! (`i < ...`); this bounds the rounds and never ends a list early.
pub mod ast;
pub mod classes;
pub mod enums;
pub mod expressions;
pub mod extends_implements;
pub mod fields;
pub mod imports_exports;
pub mod interfaces;
pub mod methods;
pub mod parse_error;
pub mod patterns;
pub mod publicity;
pub mod structs;
pub mod top_level;
pub mod types;
pub mod utility_things;

use self::ast::top_level::{TopLevelAstNode, TopLevelModel};
use self::ast::{lemma_models_of_empty, lemma_models_of_push, models_of};
use self::enums::trees_step_of;
use self::parse_error::ParseError;
use self::top_level::{lemma_statement_start, parse_top_level, spec_parse_top_level};
use self::utility_things::{done, failed, tok, LexerStruct, Step};
use super::lexer::logos_lexer::{lemma_token_stream_in_order, SpannedToken};
use vstd::prelude::*;
use vstd::string::StringSliceAdditionalSpecFns;

verus! {

/// What parsing a program gives: its top-level statements, or the fatal
/// failure that stopped it.
pub type TopLevelAstNodeListResult<'a> = Result<Vec<TopLevelAstNode<'a>>, ParseError>;

/// The rest of a program from place `i` on, after the statements `acc`:
/// top-level statements up to the end of the text. A fatal failure is the
/// failure of the program, and nothing is kept of the statements before it.
/// The failure that is not fatal, nothing left to parse, ends the program.
pub open spec fn spec_parse_program(s: Seq<SpannedToken>, i: nat, acc: Seq<TopLevelModel>) -> Step<
    Seq<TopLevelModel>,
>
    decreases s.len() - i,
{
    let statement = spec_parse_top_level(s, i);
    match statement.result {
        Ok(node) if i < statement.index <= s.len() => spec_parse_program(
            s,
            statement.index,
            acc.push(node),
        ),
        Ok(node) => done(acc.push(node), statement.index),
        Err(e) => if e.fatal {
            failed(e, statement.index)
        } else {
            done(acc, statement.index)
        },
    }
}

/// Whether statements stand in the order of the text: each covers at least
/// one byte and ends before the next one starts.
pub open spec fn in_text_order(statements: Seq<TopLevelModel>) -> bool {
    &&& forall|k: int|
        0 <= k < statements.len() ==> (#[trigger] statements[k]).span().start
            < statements[k].span().end
    &&& forall|j: int, k: int|
        0 <= j < k < statements.len() ==> (#[trigger] statements[j]).span().end <= (
        #[trigger] statements[k]).span().start
}

/// Statements in the order of the text that all end by some byte stay in
/// order when one more is added that starts at or after that byte.
pub proof fn lemma_in_text_order_push(statements: Seq<TopLevelModel>, node: TopLevelModel, end: int)
    requires
        in_text_order(statements),
        forall|k: int| 0 <= k < statements.len() ==> (#[trigger] statements[k]).span().end <= end,
        end <= node.span().start < node.span().end,
    ensures
        in_text_order(statements.push(node)),
        forall|k: int|
            0 <= k < statements.push(node).len() ==> (#[trigger] statements.push(node)[k]).span().end
                <= node.span().end,
{
    let after = statements.push(node);
    assert forall|k: int| 0 <= k < after.len() implies (#[trigger] after[k]).span().start
        < after[k].span().end && after[k].span().end <= node.span().end by {
        if k < statements.len() {
            assert(after[k] == statements[k]);
        }
    }
    assert forall|j: int, k: int| 0 <= j < k < after.len() implies (#[trigger] after[j]).span().end
        <= (#[trigger] after[k]).span().start by {
        assert(after[j] == statements[j]);
        if k < statements.len() {
            assert(after[k] == statements[k]);
        }
    }
}

/// Parses top-level statements until nothing is left to parse. A failure is
/// fatal; with it no statement is handed out. The statements that come out
/// stand in the order of the text and do not overlap.
pub fn get_ast_from_custom_lexer<'a>(lxr: &mut LexerStruct<'a>) -> (r: TopLevelAstNodeListResult<
    'a,
>)
    requires
        old(lxr).wf(),
    ensures
        final(lxr).extends(*old(lxr)),
        old(lxr).index() <= final(lxr).index(),
        trees_step_of(r, final(lxr).index()) == spec_parse_program(
            old(lxr).stream(),
            old(lxr).index(),
            seq![],
        ),
        r is Ok ==> in_text_order(models_of(r.unwrap()@)),
        r is Err ==> r->Err_0.fatal,
{
    let ghost s = lxr.stream();
    let ghost i0 = lxr.index();
    let mut statements: Vec<TopLevelAstNode<'a>> = Vec::new();
    proof {
        lemma_models_of_empty::<TopLevelAstNode<'a>>();
    }
    loop
        invariant
            lxr.extends(*old(lxr)),
            s == old(lxr).stream(),
            i0 == old(lxr).index(),
            i0 <= lxr.index(),
            spec_parse_program(s, i0, seq![]) == spec_parse_program(
                s,
                lxr.index(),
                models_of(statements@),
            ),
            in_text_order(models_of(statements@)),
            statements@.len() > 0 ==> lxr.index() > 0,
            forall|k: int|
                0 <= k < statements@.len() ==> (#[trigger] models_of(statements@)[k]).span().end
                    <= tok(s, (lxr.index() - 1) as nat).span.end,
        decreases s.len() - lxr.index(),
    {
        let ghost i = lxr.index();
        let ghost before = models_of(statements@);
        proof {
            lxr.lemma_bounds();
        }
        match parse_top_level(lxr) {
            Ok(node) => {
                proof {
                    lemma_models_of_push(statements@, node);
                    lemma_statement_start(s, i);
                    lxr.lemma_bounds();
                    lemma_token_stream_in_order(lxr.spec_source().spec_bytes());
                    let end = if before.len() > 0 {
                        tok(s, (i - 1) as nat).span.end as int
                    } else {
                        0
                    };
                    lemma_in_text_order_push(before, node@, end);
                }
                statements.push(node);
            },
            Err(err) => {
                if err.fatal {
                    return Err(err);
                }
                return Ok(statements);
            },
        }
        proof {
            lxr.lemma_bounds();
        }
    }
}

} // verus!
