//! Fields and lists of fields.
use super::super::lexer::logos_lexer::{LexerToken, SpannedToken, TokenKind};
use super::ast::fields::{FieldAstNode, FieldList, FieldModel};
use super::ast::{lemma_models_of_empty, lemma_models_of_push, models_of};
use super::parse_error::{spec_with_fatality, ParseError, ParseErrorModel};
use super::publicity::{spec_parse_publicity, ParsePublicity};
use super::types::{parse_type, spec_parse_type, type_well_spanned};
use super::utility_things::{
    done, expect_token, failed, flush_comments, kind_at, lemma_skip_comments, list1,
    skip_comments, spec_error_here, spec_expect_token, step_of, tok, LexerStruct, Step,
};
use vstd::prelude::*;

verus! {

/// What is expected where the name of a field has to stand.
pub open spec fn expected_field_name() -> Seq<&'static str> {
    seq!["identifier (to set the name of the field)"]
}

/// What is expected between the name of a field and its type.
pub open spec fn expected_field_arrow() -> Seq<&'static str> {
    seq!["`->` (to denote the type of the field)"]
}

/// What is expected between two fields.
pub open spec fn expected_field_comma() -> Seq<&'static str> {
    seq!["`,` (to begin to declare the next field)"]
}

/// A field from place `i` on: a visibility marker, a name, `->` and a type.
/// Comments may stand before each of them. Up to the arrow a failure is not
/// fatal; in the type it is.
pub open spec fn spec_parse_field<P: ParsePublicity>(s: Seq<SpannedToken>, i: nat) -> Step<
    FieldModel<P>,
> {
    let at = skip_comments(s, i);
    match spec_parse_publicity::<P>(s, at) {
        Err(e) => failed(e, at),
        Ok(publicity) => {
            let name = spec_expect_token(
                s,
                skip_comments(s, at + 1),
                TokenKind::Identifier,
                expected_field_name(),
                None,
            );
            match name.result {
                Err(e) => failed(spec_with_fatality(e, false), name.index),
                Ok(name_token) => {
                    let arrow = spec_expect_token(
                        s,
                        skip_comments(s, name.index),
                        TokenKind::ThinArrow,
                        expected_field_arrow(),
                        None,
                    );
                    match arrow.result {
                        Err(e) => failed(spec_with_fatality(e, false), arrow.index),
                        Ok(_) => {
                            let field_type = spec_parse_type(
                                s,
                                skip_comments(s, arrow.index),
                                None,
                            );
                            match field_type.result {
                                Err(e) => failed(e, field_type.index),
                                Ok(t) => done(
                                    FieldModel {
                                        span: tok(s, at).span.start..t.span().end,
                                        publicity,
                                        name: name_token.text,
                                        field_type: t,
                                    },
                                    field_type.index,
                                ),
                            }
                        },
                    }
                },
            }
        },
    }
}

/// The rest of a list of fields from place `i` on, after the fields `acc`:
/// fields parted by commas. The list ends before the first thing that is no
/// field, or after a field that no comma follows, and comes with the failure
/// that ended it, which is not fatal. A fatal failure inside a field is the
/// failure of the list.
pub open spec fn spec_parse_fields<P: ParsePublicity>(
    s: Seq<SpannedToken>,
    i: nat,
    acc: Seq<FieldModel<P>>,
) -> Step<(Seq<FieldModel<P>>, ParseErrorModel)>
    decreases s.len() - i,
{
    let field = spec_parse_field::<P>(s, i);
    match field.result {
        Err(e) => if e.fatal {
            failed(e, field.index)
        } else {
            done((acc, e), i)
        },
        Ok(f) => {
            let at = skip_comments(s, field.index);
            proof {
                lemma_skip_comments(s, field.index);
            }
            if kind_at(s, at) == Some(TokenKind::Comma) && i < field.index {
                spec_parse_fields(s, at + 1, acc.push(f))
            } else {
                done(
                    (acc.push(f), spec_error_here(s, at, expected_field_comma(), false)),
                    field.index,
                )
            }
        },
    }
}

/// What a run through a list came to, as a plain value: the models of the
/// trees with the failure that ended the list, or the failure of the list, and
/// the place where the cursor was left.
pub open spec fn list_step_of<T: View>(
    r: Result<(Vec<T>, ParseError), ParseError>,
    index: nat,
) -> Step<(Seq<T::V>, ParseErrorModel)> {
    Step {
        result: match r {
            Ok((list, err)) => Ok((models_of(list@), err@)),
            Err(err) => Err(err@),
        },
        index,
    }
}

/// Parses a field. The field covers the bytes from its visibility marker to
/// the end of its type.
pub fn parse_field<'a, PublicityEnum: ParsePublicity>(lxr: &mut LexerStruct<'a>) -> (r: Result<
    FieldAstNode<'a, PublicityEnum>,
    ParseError,
>)
    requires
        old(lxr).wf(),
    ensures
        final(lxr).extends(*old(lxr)),
        old(lxr).index() <= final(lxr).index(),
        step_of(r, final(lxr).index()) == spec_parse_field::<PublicityEnum>(
            old(lxr).stream(),
            old(lxr).index(),
        ),
        r is Ok ==> {
            &&& old(lxr).index() < final(lxr).index()
            &&& final(lxr).current() == final(lxr).ahead()
            &&& r.unwrap()@.span.start == tok(
                old(lxr).stream(),
                skip_comments(old(lxr).stream(), old(lxr).index()),
            ).span.start
            &&& r.unwrap()@.span.end == tok(
                old(lxr).stream(),
                (final(lxr).index() - 1) as nat,
            ).span.end
            &&& type_well_spanned(old(lxr).stream(), r.unwrap()@.field_type)
        },
{
    let ghost s = lxr.stream();
    let ghost i = lxr.index();
    proof {
        lxr.lemma_bounds();
        lemma_skip_comments(s, i);
    }
    flush_comments(lxr);
    let ghost at = lxr.index();
    let publicity = match PublicityEnum::parse_publicity(lxr) {
        Ok(publicity) => publicity,
        Err(e) => {
            return Err(e);
        },
    };
    lxr.next();
    let start_idx = lxr.span().unwrap().start;
    proof {
        lxr.lemma_bounds();
        lemma_skip_comments(s, at + 1);
    }
    flush_comments(lxr);
    match expect_token(
        lxr,
        LexerToken::Identifier(""),
        list1("identifier (to set the name of the field)"),
    ) {
        Ok(_) => {},
        Err(e) => {
            return Err(e.with_fatality(false));
        },
    }
    let name = lxr.slice().unwrap();
    let ghost named = lxr.index();
    proof {
        lxr.lemma_bounds();
        lemma_skip_comments(s, named);
    }
    flush_comments(lxr);
    match expect_token(lxr, LexerToken::ThinArrow, list1("`->` (to denote the type of the field)")) {
        Ok(_) => {},
        Err(e) => {
            return Err(e.with_fatality(false));
        },
    }
    let ghost arrowed = lxr.index();
    proof {
        lxr.lemma_bounds();
        lemma_skip_comments(s, arrowed);
    }
    flush_comments(lxr);
    let field_type = match parse_type(lxr, None) {
        Ok(t) => t,
        Err(e) => {
            return Err(e);
        },
    };
    let end = field_type.get_span().end;
    Ok(FieldAstNode { span: start_idx..end, publicity, name, field_type })
}

/// Parses fields until none is left. It hands out the fields with the
/// failure that ended the list, which is not fatal, and leaves the cursor
/// before what ended it. A fatal failure inside a field is handed on.
pub fn parse_fields_until_none_are_left<'a, PublicityEnum: ParsePublicity>(
    lxr: &mut LexerStruct<'a>,
) -> (r: Result<(FieldList<'a, PublicityEnum>, ParseError), ParseError>)
    requires
        old(lxr).wf(),
    ensures
        final(lxr).extends(*old(lxr)),
        old(lxr).index() <= final(lxr).index(),
        list_step_of(r, final(lxr).index()) == spec_parse_fields::<PublicityEnum>(
            old(lxr).stream(),
            old(lxr).index(),
            seq![],
        ),
        r is Ok ==> !r.unwrap().1.fatal,
        r is Err ==> r->Err_0.fatal,
{
    let ghost s = lxr.stream();
    let ghost i0 = lxr.index();
    let mut fields: Vec<FieldAstNode<'a, PublicityEnum>> = Vec::new();
    proof {
        lemma_models_of_empty::<FieldAstNode<'a, PublicityEnum>>();
    }
    loop
        invariant
            lxr.extends(*old(lxr)),
            s == old(lxr).stream(),
            i0 == old(lxr).index(),
            i0 <= lxr.index(),
            spec_parse_fields::<PublicityEnum>(s, i0, seq![]) == spec_parse_fields::<PublicityEnum>(
                s,
                lxr.index(),
                models_of(fields@),
            ),
        decreases s.len() - lxr.index(),
    {
        let ghost i = lxr.index();
        proof {
            lxr.lemma_bounds();
            lemma_skip_comments(s, i);
        }
        let saved_position = lxr.save_position();
        flush_comments(lxr);
        proof {
            lemma_skip_comments(s, skip_comments(s, i));
            assert(skip_comments(s, skip_comments(s, i)) == skip_comments(s, i)) by {
                lemma_skip_idempotent(s, i);
            }
        }
        match parse_field(lxr) {
            Ok(field) => {
                proof {
                    lemma_models_of_push(fields@, field);
                }
                fields.push(field);
            },
            Err(err) => {
                if !err.fatal {
                    proof {
                        lxr.lemma_bounds();
                    }
                    lxr.return_to_position(saved_position);
                    return Ok((fields, err));
                }
                return Err(err);
            },
        }
        let ghost parsed = lxr.index();
        proof {
            lxr.lemma_bounds();
            lemma_skip_comments(s, parsed);
        }
        let saved_position = lxr.save_position();
        flush_comments(lxr);
        match expect_token(
            lxr,
            LexerToken::Comma,
            list1("`,` (to begin to declare the next field)"),
        ) {
            Ok(_) => {},
            Err(e) => {
                proof {
                    lxr.lemma_bounds();
                }
                lxr.return_to_position(saved_position);
                return Ok((fields, e.with_fatality(false)));
            },
        }
        proof {
            lxr.lemma_bounds();
        }
    }
}

/// Skipping comments twice is skipping them once.
pub proof fn lemma_skip_idempotent(s: Seq<SpannedToken>, i: nat)
    ensures
        skip_comments(s, skip_comments(s, i)) == skip_comments(s, i),
    decreases s.len() - i,
{
    if i < s.len() && tok(s, i).kind == TokenKind::Comment {
        lemma_skip_idempotent(s, i + 1);
    }
}

} // verus!
