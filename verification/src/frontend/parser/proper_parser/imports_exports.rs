//! Import statements and export statements.
use super::super::lexer::logos_lexer::{LexerToken, SpannedToken, TokenKind};
use super::ast::imports_exports::{
    AstModuleLocation, ImportStatementAstNode, ImportStatementModel, ModuleLocationModel,
};
use super::ast::top_level::{TopLevelAstNode, TopLevelModel};
use super::parse_error::{spec_with_fatality, ParseError};
use super::patterns::{
    parse_destructuring_pattern, pattern_well_spanned, spec_parse_destructuring_pattern,
};
use super::top_level::{parse_top_level, spec_parse_top_level};
use super::utility_things::{
    done, expect_semicolon, expect_token, failed, flush_comments, kind_at, lemma_later_token,
    lemma_skip_comments, lemma_spans_tokens_extend, lemma_spans_tokens_single, list1,
    spans_tokens, skip_comments, spec_expect_token, step_of, tok, LexerStruct, Step, TopLevelAstResult,
};
use vstd::prelude::*;
use vstd::string::StringSliceAdditionalSpecFns;

verus! {

/// What is expected where a name of a module path has to stand.
pub open spec fn expected_module_name() -> Seq<&'static str> {
    seq!["identifier (as part of module path)"]
}

/// The rest of a module path from place `i` on, after the path `acc`: while
/// a dot follows, a dot and a name. Comments may stand between the tokens.
pub open spec fn spec_module_path(s: Seq<SpannedToken>, i: nat, acc: ModuleLocationModel) -> Step<
    ModuleLocationModel,
>
    decreases s.len() - i,
{
    let at = skip_comments(s, i);
    proof {
        lemma_skip_comments(s, i);
    }
    if kind_at(s, at) == Some(TokenKind::MemberAccess) {
        let name_at = skip_comments(s, at + 1);
        proof {
            lemma_skip_comments(s, at + 1);
        }
        let name = spec_expect_token(
            s,
            name_at,
            TokenKind::Identifier,
            expected_module_name(),
            None,
        );
        match name.result {
            Err(e) => failed(e, name.index),
            Ok(token) => spec_module_path(
                s,
                name_at + 1,
                ModuleLocationModel::MemberOf(
                    acc.span().start..token.span.end,
                    Box::new(acc),
                    token.text,
                ),
            ),
        }
    } else {
        done(acc, at)
    }
}

/// An import statement from place `i` on, after its keyword: a destructuring
/// pattern, `from`, a module path and a semicolon. Comments may stand between
/// them. Every failure is fatal, that of a pattern that does not start too.
pub open spec fn spec_parse_import_statement(s: Seq<SpannedToken>, i: nat) -> Step<
    ImportStatementModel,
> {
    let pattern = spec_parse_destructuring_pattern(s, i);
    match pattern.result {
        Err(e) => failed(spec_with_fatality(e, true), pattern.index),
        Ok(destructuring_pattern) => {
            let from = spec_expect_token(
                s,
                skip_comments(s, pattern.index),
                TokenKind::From,
                seq!["`from`"],
                None,
            );
            match from.result {
                Err(e) => failed(e, from.index),
                Ok(_) => {
                    let root = spec_expect_token(
                        s,
                        skip_comments(s, from.index),
                        TokenKind::Identifier,
                        expected_module_name(),
                        None,
                    );
                    match root.result {
                        Err(e) => failed(e, root.index),
                        Ok(root_token) => {
                            let path = spec_module_path(
                                s,
                                root.index,
                                ModuleLocationModel::Root(root_token.span, root_token.text),
                            );
                            match path.result {
                                Err(e) => failed(e, path.index),
                                Ok(module_location) => {
                                    let semicolon = spec_expect_token(
                                        s,
                                        path.index,
                                        TokenKind::Semicolon,
                                        seq!["`;`"],
                                        None,
                                    );
                                    match semicolon.result {
                                        Err(e) => failed(e, semicolon.index),
                                        Ok(last) => done(
                                            ImportStatementModel {
                                                span: destructuring_pattern.span().start..last.span.end,
                                                destructuring_pattern,
                                                module_location,
                                            },
                                            semicolon.index,
                                        ),
                                    }
                                },
                            }
                        },
                    }
                },
            }
        },
    }
}

/// An export statement from place `i` on, after its keyword, which started
/// at byte `start`: `default` if the export is the default one, and the
/// statement that is exported. Comments may stand before them. Every failure is
/// fatal, the one of a text that ends after the keyword too.
pub open spec fn spec_parse_export(s: Seq<SpannedToken>, i: nat, start: usize) -> Step<
    TopLevelModel,
>
    decreases s.len() - i, 1nat,
{
    let at = skip_comments(s, i);
    proof {
        lemma_skip_comments(s, i);
    }
    if kind_at(s, at) == Some(TokenKind::Default) {
        let inner = spec_parse_top_level(s, at + 1);
        match inner.result {
            Err(e) => failed(spec_with_fatality(e, true), inner.index),
            Ok(node) => done(
                TopLevelModel::ExportDefault(start..node.span().end, Box::new(node)),
                inner.index,
            ),
        }
    } else {
        let inner = spec_parse_top_level(s, at);
        match inner.result {
            Err(e) => failed(spec_with_fatality(e, true), inner.index),
            Ok(node) => done(
                TopLevelModel::Export(start..node.span().end, Box::new(node)),
                inner.index,
            ),
        }
    }
}

/// Whether a module path and every path that it is a member of cover tokens
/// of their own: each reaches from the start of a token to the end of the same
/// or a later token. The path that a member is of starts where the whole
/// starts and ends before the name of the member.
pub open spec fn location_well_spanned(s: Seq<SpannedToken>, location: ModuleLocationModel) -> bool
    decreases location,
{
    &&& spans_tokens(s, location.span())
    &&& match location {
        ModuleLocationModel::Root(_, _) => true,
        ModuleLocationModel::MemberOf(_, of, _) => {
            &&& location_well_spanned(s, *of)
            &&& of.span().start == location.span().start
            &&& of.span().end < location.span().end
        },
    }
}

/// Parses the rest of a module path, after its first name.
fn parse_module_path<'a>(lxr: &mut LexerStruct<'a>, root: AstModuleLocation<'a>) -> (r: Result<
    AstModuleLocation<'a>,
    ParseError,
>)
    requires
        old(lxr).wf(),
        old(lxr).index() > 0,
        root@.span().end == tok(old(lxr).stream(), (old(lxr).index() - 1) as nat).span.end,
    ensures
        final(lxr).extends(*old(lxr)),
        old(lxr).index() <= final(lxr).index(),
        step_of(r, final(lxr).index()) == spec_module_path(
            old(lxr).stream(),
            old(lxr).index(),
            root@,
        ),
        r is Ok ==> final(lxr).current() == final(lxr).ahead(),
        r is Ok && location_well_spanned(old(lxr).stream(), root@) ==> location_well_spanned(
            old(lxr).stream(),
            r.unwrap()@,
        ),
        r is Err ==> r->Err_0.fatal,
{
    let ghost s = lxr.stream();
    let ghost i0 = lxr.index();
    let ghost text = lxr.spec_source().spec_bytes();
    let ghost last_name = (lxr.index() - 1) as nat;
    let mut location = root;
    loop
        invariant
            lxr.extends(*old(lxr)),
            s == old(lxr).stream(),
            i0 == old(lxr).index(),
            i0 <= lxr.index(),
            text == lxr.spec_source().spec_bytes(),
            last_name < lxr.index(),
            location@.span().end == tok(s, last_name).span.end,
            location_well_spanned(s, root@) ==> location_well_spanned(s, location@),
            spec_module_path(s, i0, root@) == spec_module_path(s, lxr.index(), location@),
        decreases s.len() - lxr.index(),
    {
        let ghost i = lxr.index();
        proof {
            lxr.lemma_bounds();
            lemma_skip_comments(s, i);
        }
        flush_comments(lxr);
        let ghost at = lxr.index();
        let at_dot = match lxr.peek() {
            Some(LexerToken::MemberAccess) => true,
            _ => false,
        };
        if !at_dot {
            return Ok(location);
        }
        lxr.next();
        proof {
            lxr.lemma_bounds();
            lemma_skip_comments(s, at + 1);
        }
        flush_comments(lxr);
        match expect_token(
            lxr,
            LexerToken::Identifier(""),
            list1("identifier (as part of module path)"),
        ) {
            Ok(_) => {},
            Err(e) => {
                return Err(e);
            },
        }
        let start = location.get_span().start;
        let end = lxr.span().unwrap().end;
        let ghost of = location@;
        location = AstModuleLocation::MemberOf(
            start..end,
            Box::new(location),
            lxr.slice().unwrap(),
        );
        proof {
            lxr.lemma_bounds();
            let named = (lxr.index() - 1) as nat;
            lemma_later_token(text, last_name as int, named as int);
            lemma_spans_tokens_single(text, named);
            if location_well_spanned(s, root@) {
                lemma_spans_tokens_extend(text, of.span(), location@.span(), named);
                assert(location_well_spanned(s, location@));
            }
            last_name = named;
        }
    }
}

/// Parses an import statement, after its keyword. The statement covers the
/// bytes from the start of its pattern to the end of its semicolon; its
/// pattern and its module path, with all that is nested in them, cover tokens
/// of their own. Every failure is fatal.
pub fn parse_import_statement<'a>(lxr: &mut LexerStruct<'a>) -> (r: Result<
    ImportStatementAstNode<'a>,
    ParseError,
>)
    requires
        old(lxr).wf(),
    ensures
        final(lxr).extends(*old(lxr)),
        old(lxr).index() <= final(lxr).index(),
        step_of(r, final(lxr).index()) == spec_parse_import_statement(
            old(lxr).stream(),
            old(lxr).index(),
        ),
        r is Ok ==> {
            &&& old(lxr).index() < final(lxr).index()
            &&& final(lxr).current() == Some((final(lxr).index() - 1) as nat)
            &&& r.unwrap()@.span.start == tok(
                old(lxr).stream(),
                skip_comments(old(lxr).stream(), old(lxr).index()),
            ).span.start
            &&& r.unwrap()@.span.end == tok(
                old(lxr).stream(),
                (final(lxr).index() - 1) as nat,
            ).span.end
            &&& skip_comments(old(lxr).stream(), old(lxr).index()) < final(lxr).index()
            &&& pattern_well_spanned(old(lxr).stream(), r.unwrap()@.destructuring_pattern)
            &&& location_well_spanned(old(lxr).stream(), r.unwrap()@.module_location)
        },
        r is Err ==> r->Err_0.fatal,
{
    let ghost s = lxr.stream();
    let destructuring_pattern = match parse_destructuring_pattern(lxr) {
        Ok(pattern) => pattern,
        Err(e) => {
            return Err(e.with_fatality(true));
        },
    };
    let ghost matched = lxr.index();
    proof {
        lxr.lemma_bounds();
        lemma_skip_comments(s, matched);
    }
    flush_comments(lxr);
    match expect_token(lxr, LexerToken::From, list1("`from`")) {
        Ok(_) => {},
        Err(e) => {
            return Err(e);
        },
    }
    let ghost from = lxr.index();
    proof {
        lxr.lemma_bounds();
        lemma_skip_comments(s, from);
    }
    flush_comments(lxr);
    match expect_token(
        lxr,
        LexerToken::Identifier(""),
        list1("identifier (as part of module path)"),
    ) {
        Ok(_) => {},
        Err(e) => {
            return Err(e);
        },
    }
    let root = AstModuleLocation::Root(lxr.span().unwrap(), lxr.slice().unwrap());
    proof {
        lxr.lemma_bounds();
        lemma_spans_tokens_single(lxr.spec_source().spec_bytes(), (lxr.index() - 1) as nat);
        assert(location_well_spanned(s, root@));
    }
    let module_location = match parse_module_path(lxr, root) {
        Ok(path) => path,
        Err(e) => {
            return Err(e);
        },
    };
    proof {
        lxr.lemma_bounds();
    }
    match expect_semicolon(lxr) {
        Ok(_) => {},
        Err(e) => {
            return Err(e);
        },
    }
    let start = destructuring_pattern.get_span().start;
    let end = lxr.span().unwrap().end;
    Ok(ImportStatementAstNode { span: start..end, destructuring_pattern, module_location })
}

/// Parses an export statement, after its keyword, which is the current token.
/// The statement covers the bytes from the keyword to the end of what it
/// exports. Every failure is fatal.
pub fn parse_export_statement<'a>(lxr: &mut LexerStruct<'a>) -> (r: TopLevelAstResult<'a>)
    requires
        old(lxr).wf(),
        old(lxr).current() is Some,
    ensures
        final(lxr).extends(*old(lxr)),
        old(lxr).index() <= final(lxr).index(),
        step_of(r, final(lxr).index()) == spec_parse_export(
            old(lxr).stream(),
            old(lxr).index(),
            tok(old(lxr).stream(), old(lxr).current().unwrap()).span.start,
        ),
        r is Ok ==> {
            &&& old(lxr).index() < final(lxr).index()
            &&& !(r.unwrap() is Empty)
            &&& r.unwrap()@.span().start == tok(
                old(lxr).stream(),
                old(lxr).current().unwrap(),
            ).span.start
            &&& r.unwrap()@.span().end == tok(
                old(lxr).stream(),
                (final(lxr).index() - 1) as nat,
            ).span.end
        },
        r is Err ==> r->Err_0.fatal,
    decreases old(lxr).stream().len() - old(lxr).index(), 1nat,
{
    let ghost s = lxr.stream();
    let ghost i = lxr.index();
    proof {
        lxr.lemma_bounds();
        lemma_skip_comments(s, i);
    }
    let start = lxr.span().unwrap().start;
    flush_comments(lxr);
    let is_default = match lxr.peek() {
        Some(LexerToken::Default) => true,
        _ => false,
    };
    if is_default {
        lxr.next();
    }
    match parse_top_level(lxr) {
        Ok(top_level_statement) => {
            let end = top_level_statement.get_span().end;
            if is_default {
                Ok(TopLevelAstNode::ExportDefault(start..end, Box::new(top_level_statement)))
            } else {
                Ok(TopLevelAstNode::Export(start..end, Box::new(top_level_statement)))
            }
        },
        Err(error) => Err(error.with_fatality(true)),
    }
}

} // verus!
