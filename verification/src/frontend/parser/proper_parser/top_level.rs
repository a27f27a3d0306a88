//! Top-level statements: what a program is a list of.
use super::super::lexer::logos_lexer::{SpannedToken, TokenKind};
use super::ast::top_level::{TopLevelAstNode, TopLevelModel};
use super::classes::{parse_class, spec_parse_class};
use super::enums::{parse_enum_dec, spec_parse_enum_dec};
use super::imports_exports::{
    parse_export_statement, parse_import_statement, spec_parse_export,
    spec_parse_import_statement,
};
use super::interfaces::{parse_interface, spec_parse_interface};
use super::parse_error::{spec_end_of_file_error, ParseError};
use super::structs::{parse_struct, spec_parse_struct};
use super::types::{parse_type_alias, spec_parse_type_alias};
use super::utility_things::{
    done, failed, kind_at, lemma_skip_comments, lemma_span_of_tokens, skip_comments,
    spec_error_here, step_of, tok, LexerStruct, Step, TopLevelAstResult,
};
use vstd::prelude::*;
use vstd::string::StringSliceAdditionalSpecFns;

verus! {

/// What is expected where a top-level statement has to start.
pub open spec fn expected_top_level() -> Seq<&'static str> {
    seq![
        "Import statement",
        "Enum Declaration",
        "Struct Declaration",
        "Class Declaration",
        "Type Alias",
    ]
}

/// What is expected where a top-level statement has to start.
fn top_level_expectations() -> (v: Vec<&'static str>)
    ensures
        v@ == expected_top_level(),
{
    let v = vec![
        "Import statement",
        "Enum Declaration",
        "Struct Declaration",
        "Class Declaration",
        "Type Alias",
    ];
    assert(v@ =~= expected_top_level());
    v
}

/// The first place from `i` on where no semicolon stands.
pub open spec fn skip_semicolons(s: Seq<SpannedToken>, i: nat) -> nat
    decreases s.len() - i,
{
    if kind_at(s, i) == Some(TokenKind::Semicolon) {
        skip_semicolons(s, i + 1)
    } else {
        i
    }
}

/// A statement starts at or after the place from which it is parsed.
pub proof fn lemma_statement_start(s: Seq<SpannedToken>, i: nat)
    ensures
        i <= skip_semicolons(s, i) <= statement_start(s, i),
    decreases s.len() - i,
{
    if kind_at(s, i) == Some(TokenKind::Semicolon) {
        lemma_statement_start(s, i + 1);
    }
    lemma_skip_comments(s, skip_semicolons(s, i) + 1);
}

/// The place of the first token that a top-level statement parsed from
/// place `i` on covers: the first token after the semicolons, or, where that is
/// `import`, the first token of the pattern after it.
pub open spec fn statement_start(s: Seq<SpannedToken>, i: nat) -> nat {
    declaration_start(s, skip_semicolons(s, i))
}

/// The place of the first token that the declaration covers which the
/// keyword at place `i` opens: the keyword, or for `import` the first token of
/// the pattern.
pub open spec fn declaration_start(s: Seq<SpannedToken>, i: nat) -> nat {
    if kind_at(s, i) == Some(TokenKind::Import) {
        skip_comments(s, i + 1)
    } else {
        i
    }
}

/// The top-level statement that an import statement after the keyword at place `i`
/// makes.
pub open spec fn spec_import_statement(s: Seq<SpannedToken>, i: nat) -> Step<TopLevelModel> {
    let step = spec_parse_import_statement(s, i + 1);
    match step.result {
        Ok(node) => done(TopLevelModel::ImportFrom(node.span, node), step.index),
        Err(e) => failed(e, step.index),
    }
}

/// The top-level statement that a type alias after the keyword at place `i`
/// makes.
pub open spec fn spec_type_alias_statement(s: Seq<SpannedToken>, i: nat) -> Step<TopLevelModel> {
    let step = spec_parse_type_alias(s, i + 1, tok(s, i).span.start);
    match step.result {
        Ok(node) => done(TopLevelModel::TypeAlias(node.span, node), step.index),
        Err(e) => failed(e, step.index),
    }
}

/// The top-level statement that an enum declaration after the keyword at place `i`
/// makes.
pub open spec fn spec_enum_statement(s: Seq<SpannedToken>, i: nat) -> Step<TopLevelModel> {
    let step = spec_parse_enum_dec(s, i + 1, tok(s, i).span.start);
    match step.result {
        Ok(node) => done(TopLevelModel::EnumDec(node.span, node), step.index),
        Err(e) => failed(e, step.index),
    }
}

/// The top-level statement that a struct declaration after the keyword at place `i`
/// makes.
pub open spec fn spec_struct_statement(s: Seq<SpannedToken>, i: nat) -> Step<TopLevelModel> {
    let step = spec_parse_struct(s, i + 1, tok(s, i).span.start);
    match step.result {
        Ok(node) => done(TopLevelModel::StructDec(node.span, node), step.index),
        Err(e) => failed(e, step.index),
    }
}

/// The top-level statement that a class declaration after the keyword at place `i`
/// makes.
pub open spec fn spec_class_statement(s: Seq<SpannedToken>, i: nat) -> Step<TopLevelModel> {
    let step = spec_parse_class(s, i + 1, tok(s, i).span.start);
    match step.result {
        Ok(node) => done(TopLevelModel::ClassDec(node.span, node), step.index),
        Err(e) => failed(e, step.index),
    }
}

/// The top-level statement that an interface declaration after the keyword at place `i`
/// makes.
pub open spec fn spec_interface_statement(s: Seq<SpannedToken>, i: nat) -> Step<TopLevelModel> {
    let step = spec_parse_interface(s, i + 1, tok(s, i).span.start);
    match step.result {
        Ok(node) => done(TopLevelModel::InterfaceDec(node.span, node), step.index),
        Err(e) => failed(e, step.index),
    }
}

/// The declaration that the keyword at place `i` opens: an import statement,
/// a type alias, or the declaration of an enum, a struct, a class or an
/// interface. Every failure is fatal. Where no such keyword stands at `i`, the
/// failure names what stands there.
pub open spec fn spec_parse_declaration(s: Seq<SpannedToken>, i: nat) -> Step<TopLevelModel> {
    match kind_at(s, i) {
        Some(TokenKind::Import) => spec_import_statement(s, i),
        Some(TokenKind::Type) => spec_type_alias_statement(s, i),
        Some(TokenKind::Enum) => spec_enum_statement(s, i),
        Some(TokenKind::Struct) => spec_struct_statement(s, i),
        Some(TokenKind::Class) => spec_class_statement(s, i),
        Some(TokenKind::Interface) => spec_interface_statement(s, i),
        Some(_) => failed(spec_error_here(s, i, expected_top_level(), true), i + 1),
        None => failed(spec_end_of_file_error(expected_top_level(), false), i),
    }
}

/// A top-level statement from place `i` on. Semicolons before it are
/// skipped. A comment is kept with the statement it stands before; `export`
/// opens an export statement; another keyword opens a declaration. Every
/// failure is fatal but one: where the text has ended, nothing is left to
/// parse, and the failure is not fatal.
pub open spec fn spec_parse_top_level(s: Seq<SpannedToken>, i: nat) -> Step<TopLevelModel>
    decreases s.len() - i, 0nat,
{
    match kind_at(s, i) {
        Some(TokenKind::Semicolon) => spec_parse_top_level(s, i + 1),
        Some(TokenKind::Comment) => spec_parse_commented(s, i + 1, tok(s, i)),
        Some(TokenKind::Export) => spec_parse_export(s, i + 1, tok(s, i).span.start),
        _ => spec_parse_declaration(s, i),
    }
}

/// The statement from place `i` on that the comment `comment` stands before.
/// It covers the bytes from the start of the comment to the end of the
/// statement.
pub open spec fn spec_parse_commented(s: Seq<SpannedToken>, i: nat, comment: SpannedToken) -> Step<
    TopLevelModel,
>
    decreases s.len() - i, 1nat,
{
    let inner = spec_parse_top_level(s, i);
    match inner.result {
        Err(e) => failed(e, inner.index),
        Ok(node) => done(
            TopLevelModel::CommentedNode(
                comment.span.start..node.span().end,
                comment.text,
                Box::new(node),
            ),
            inner.index,
        ),
    }
}

/// Parses an import statement as a top-level statement, after its keyword, which is
/// the current token.
fn parse_import_statement_at<'a>(lxr: &mut LexerStruct<'a>) -> (r: TopLevelAstResult<'a>)
    requires
        old(lxr).wf(),
        old(lxr).index() > 0,
        old(lxr).current() == Some((old(lxr).index() - 1) as nat),
        tok(old(lxr).stream(), (old(lxr).index() - 1) as nat).kind == TokenKind::Import,
    ensures
        final(lxr).extends(*old(lxr)),
        old(lxr).index() <= final(lxr).index(),
        step_of(r, final(lxr).index()) == spec_import_statement(
            old(lxr).stream(),
            (old(lxr).index() - 1) as nat,
        ),
        r is Ok ==> {
            &&& old(lxr).index() < final(lxr).index()
            &&& !(r.unwrap() is Empty)
            &&& declaration_start(old(lxr).stream(), (old(lxr).index() - 1) as nat)
                < final(lxr).index()
            &&& r.unwrap()@.span().start == tok(
                old(lxr).stream(),
                declaration_start(old(lxr).stream(), (old(lxr).index() - 1) as nat),
            ).span.start
            &&& r.unwrap()@.span().end == tok(
                old(lxr).stream(),
                (final(lxr).index() - 1) as nat,
            ).span.end
        },
        r is Err ==> r->Err_0.fatal,
{
    match parse_import_statement(lxr) {
        Ok(node) => Ok(TopLevelAstNode::ImportFrom(node.span.start..node.span.end, node)),
        Err(e) => Err(e),
    }
}

/// Parses a type alias as a top-level statement, after its keyword, which is
/// the current token.
fn parse_type_alias_statement<'a>(lxr: &mut LexerStruct<'a>) -> (r: TopLevelAstResult<'a>)
    requires
        old(lxr).wf(),
        old(lxr).index() > 0,
        old(lxr).current() == Some((old(lxr).index() - 1) as nat),
        tok(old(lxr).stream(), (old(lxr).index() - 1) as nat).kind == TokenKind::Type,
    ensures
        final(lxr).extends(*old(lxr)),
        old(lxr).index() <= final(lxr).index(),
        step_of(r, final(lxr).index()) == spec_type_alias_statement(
            old(lxr).stream(),
            (old(lxr).index() - 1) as nat,
        ),
        r is Ok ==> {
            &&& old(lxr).index() < final(lxr).index()
            &&& !(r.unwrap() is Empty)
            &&& declaration_start(old(lxr).stream(), (old(lxr).index() - 1) as nat)
                < final(lxr).index()
            &&& r.unwrap()@.span().start == tok(
                old(lxr).stream(),
                declaration_start(old(lxr).stream(), (old(lxr).index() - 1) as nat),
            ).span.start
            &&& r.unwrap()@.span().end == tok(
                old(lxr).stream(),
                (final(lxr).index() - 1) as nat,
            ).span.end
        },
        r is Err ==> r->Err_0.fatal,
{
    match parse_type_alias(lxr) {
        Ok(node) => Ok(TopLevelAstNode::TypeAlias(node.span.start..node.span.end, node)),
        Err(e) => Err(e),
    }
}

/// Parses an enum declaration as a top-level statement, after its keyword, which is
/// the current token.
fn parse_enum_statement<'a>(lxr: &mut LexerStruct<'a>) -> (r: TopLevelAstResult<'a>)
    requires
        old(lxr).wf(),
        old(lxr).index() > 0,
        old(lxr).current() == Some((old(lxr).index() - 1) as nat),
        tok(old(lxr).stream(), (old(lxr).index() - 1) as nat).kind == TokenKind::Enum,
    ensures
        final(lxr).extends(*old(lxr)),
        old(lxr).index() <= final(lxr).index(),
        step_of(r, final(lxr).index()) == spec_enum_statement(
            old(lxr).stream(),
            (old(lxr).index() - 1) as nat,
        ),
        r is Ok ==> {
            &&& old(lxr).index() < final(lxr).index()
            &&& !(r.unwrap() is Empty)
            &&& declaration_start(old(lxr).stream(), (old(lxr).index() - 1) as nat)
                < final(lxr).index()
            &&& r.unwrap()@.span().start == tok(
                old(lxr).stream(),
                declaration_start(old(lxr).stream(), (old(lxr).index() - 1) as nat),
            ).span.start
            &&& r.unwrap()@.span().end == tok(
                old(lxr).stream(),
                (final(lxr).index() - 1) as nat,
            ).span.end
        },
        r is Err ==> r->Err_0.fatal,
{
    match parse_enum_dec(lxr) {
        Ok(node) => Ok(TopLevelAstNode::EnumDec(node.span.start..node.span.end, node)),
        Err(e) => Err(e),
    }
}

/// Parses a struct declaration as a top-level statement, after its keyword, which is
/// the current token.
fn parse_struct_statement<'a>(lxr: &mut LexerStruct<'a>) -> (r: TopLevelAstResult<'a>)
    requires
        old(lxr).wf(),
        old(lxr).index() > 0,
        old(lxr).current() == Some((old(lxr).index() - 1) as nat),
        tok(old(lxr).stream(), (old(lxr).index() - 1) as nat).kind == TokenKind::Struct,
    ensures
        final(lxr).extends(*old(lxr)),
        old(lxr).index() <= final(lxr).index(),
        step_of(r, final(lxr).index()) == spec_struct_statement(
            old(lxr).stream(),
            (old(lxr).index() - 1) as nat,
        ),
        r is Ok ==> {
            &&& old(lxr).index() < final(lxr).index()
            &&& !(r.unwrap() is Empty)
            &&& declaration_start(old(lxr).stream(), (old(lxr).index() - 1) as nat)
                < final(lxr).index()
            &&& r.unwrap()@.span().start == tok(
                old(lxr).stream(),
                declaration_start(old(lxr).stream(), (old(lxr).index() - 1) as nat),
            ).span.start
            &&& r.unwrap()@.span().end == tok(
                old(lxr).stream(),
                (final(lxr).index() - 1) as nat,
            ).span.end
        },
        r is Err ==> r->Err_0.fatal,
{
    match parse_struct(lxr) {
        Ok(node) => Ok(TopLevelAstNode::StructDec(node.span.start..node.span.end, node)),
        Err(e) => Err(e),
    }
}

/// Parses a class declaration as a top-level statement, after its keyword, which is
/// the current token.
fn parse_class_statement<'a>(lxr: &mut LexerStruct<'a>) -> (r: TopLevelAstResult<'a>)
    requires
        old(lxr).wf(),
        old(lxr).index() > 0,
        old(lxr).current() == Some((old(lxr).index() - 1) as nat),
        tok(old(lxr).stream(), (old(lxr).index() - 1) as nat).kind == TokenKind::Class,
    ensures
        final(lxr).extends(*old(lxr)),
        old(lxr).index() <= final(lxr).index(),
        step_of(r, final(lxr).index()) == spec_class_statement(
            old(lxr).stream(),
            (old(lxr).index() - 1) as nat,
        ),
        r is Ok ==> {
            &&& old(lxr).index() < final(lxr).index()
            &&& !(r.unwrap() is Empty)
            &&& declaration_start(old(lxr).stream(), (old(lxr).index() - 1) as nat)
                < final(lxr).index()
            &&& r.unwrap()@.span().start == tok(
                old(lxr).stream(),
                declaration_start(old(lxr).stream(), (old(lxr).index() - 1) as nat),
            ).span.start
            &&& r.unwrap()@.span().end == tok(
                old(lxr).stream(),
                (final(lxr).index() - 1) as nat,
            ).span.end
        },
        r is Err ==> r->Err_0.fatal,
{
    match parse_class(lxr) {
        Ok(node) => Ok(TopLevelAstNode::ClassDec(node.span.start..node.span.end, node)),
        Err(e) => Err(e),
    }
}

/// Parses an interface declaration as a top-level statement, after its keyword, which is
/// the current token.
fn parse_interface_statement<'a>(lxr: &mut LexerStruct<'a>) -> (r: TopLevelAstResult<'a>)
    requires
        old(lxr).wf(),
        old(lxr).index() > 0,
        old(lxr).current() == Some((old(lxr).index() - 1) as nat),
        tok(old(lxr).stream(), (old(lxr).index() - 1) as nat).kind == TokenKind::Interface,
    ensures
        final(lxr).extends(*old(lxr)),
        old(lxr).index() <= final(lxr).index(),
        step_of(r, final(lxr).index()) == spec_interface_statement(
            old(lxr).stream(),
            (old(lxr).index() - 1) as nat,
        ),
        r is Ok ==> {
            &&& old(lxr).index() < final(lxr).index()
            &&& !(r.unwrap() is Empty)
            &&& declaration_start(old(lxr).stream(), (old(lxr).index() - 1) as nat)
                < final(lxr).index()
            &&& r.unwrap()@.span().start == tok(
                old(lxr).stream(),
                declaration_start(old(lxr).stream(), (old(lxr).index() - 1) as nat),
            ).span.start
            &&& r.unwrap()@.span().end == tok(
                old(lxr).stream(),
                (final(lxr).index() - 1) as nat,
            ).span.end
        },
        r is Err ==> r->Err_0.fatal,
{
    match parse_interface(lxr) {
        Ok(node) => Ok(TopLevelAstNode::InterfaceDec(node.span.start..node.span.end, node)),
        Err(e) => Err(e),
    }
}

/// Parses the declaration that a keyword opens, after the keyword, which
/// is the current token and of class `kind`; with no class, the text has ended.
fn parse_declaration<'a>(lxr: &mut LexerStruct<'a>, kind: Option<TokenKind>) -> (r:
    TopLevelAstResult<'a>)
    requires
        old(lxr).wf(),
        match kind {
            Some(k) => old(lxr).index() > 0 && old(lxr).current() == Some(
                (old(lxr).index() - 1) as nat,
            ) && k == tok(old(lxr).stream(), (old(lxr).index() - 1) as nat).kind,
            None => old(lxr).index() == old(lxr).stream().len(),
        },
    ensures
        final(lxr).extends(*old(lxr)),
        old(lxr).index() <= final(lxr).index(),
        step_of(r, final(lxr).index()) == spec_parse_declaration(
            old(lxr).stream(),
            if kind is Some {
                (old(lxr).index() - 1) as nat
            } else {
                old(lxr).index()
            },
        ),
        r is Ok ==> {
            &&& old(lxr).index() < final(lxr).index()
            &&& !(r.unwrap() is Empty)
            &&& declaration_start(old(lxr).stream(), (old(lxr).index() - 1) as nat)
                < final(lxr).index()
            &&& r.unwrap()@.span().start == tok(
                old(lxr).stream(),
                declaration_start(old(lxr).stream(), (old(lxr).index() - 1) as nat),
            ).span.start
            &&& r.unwrap()@.span().end == tok(
                old(lxr).stream(),
                (final(lxr).index() - 1) as nat,
            ).span.end
        },
        r is Err && !r->Err_0.fatal ==> final(lxr).index() == old(lxr).stream().len() && r->Err_0@
            == spec_end_of_file_error(expected_top_level(), false),
{
    proof {
        lxr.lemma_bounds();
    }
    match kind {
        Some(TokenKind::Import) => parse_import_statement_at(lxr),
        Some(TokenKind::Type) => parse_type_alias_statement(lxr),
        Some(TokenKind::Enum) => parse_enum_statement(lxr),
        Some(TokenKind::Struct) => parse_struct_statement(lxr),
        Some(TokenKind::Class) => parse_class_statement(lxr),
        Some(TokenKind::Interface) => parse_interface_statement(lxr),
        Some(_) => Err(
            ParseError::unexpected_token_error(
                lxr.slice().unwrap(),
                lxr.span().unwrap(),
                top_level_expectations(),
                true,
            ),
        ),
        None => Err(ParseError::end_of_file_error(top_level_expectations(), false)),
    }
}

/// Parses a top-level statement. The one failure that is not fatal is that
/// of a text that has ended: nothing is left to parse. The statement that comes
/// out is never `Empty`, and ends where the last token taken ends.
pub fn parse_top_level<'a>(lxr: &mut LexerStruct<'a>) -> (r: TopLevelAstResult<'a>)
    requires
        old(lxr).wf(),
    ensures
        final(lxr).extends(*old(lxr)),
        old(lxr).index() <= final(lxr).index(),
        step_of(r, final(lxr).index()) == spec_parse_top_level(old(lxr).stream(), old(lxr).index()),
        r is Ok ==> {
            &&& old(lxr).index() < final(lxr).index()
            &&& !(r.unwrap() is Empty)
            &&& statement_start(old(lxr).stream(), old(lxr).index()) < final(lxr).index()
            &&& r.unwrap()@.span().start == tok(
                old(lxr).stream(),
                statement_start(old(lxr).stream(), old(lxr).index()),
            ).span.start
            &&& r.unwrap()@.span().start < r.unwrap()@.span().end
            &&& r.unwrap()@.span().end == tok(
                old(lxr).stream(),
                (final(lxr).index() - 1) as nat,
            ).span.end
        },
        r is Err && !r->Err_0.fatal ==> final(lxr).index() == old(lxr).stream().len() && r->Err_0@
            == spec_end_of_file_error(expected_top_level(), false),
    decreases old(lxr).stream().len() - old(lxr).index(), 0nat,
{
    proof {
        lxr.lemma_bounds();
    }
    let kind = match lxr.next() {
        Some(token) => Some(token.kind()),
        None => None,
    };
    let r = match kind {
        Some(TokenKind::Semicolon) => parse_top_level(lxr),
        Some(TokenKind::Comment) => parse_top_level_documentation_comment(lxr),
        Some(TokenKind::Export) => parse_export_statement(lxr),
        _ => parse_declaration(lxr, kind),
    };
    proof {
        if r is Ok {
            lxr.lemma_bounds();
            lemma_span_of_tokens(
                lxr.spec_source().spec_bytes(),
                statement_start(old(lxr).stream(), old(lxr).index()) as int,
                lxr.index() - 1,
            );
        }
    }
    r
}

/// Parses the statement that a comment stands before, after the comment,
/// which is the current token.
pub fn parse_top_level_documentation_comment<'a>(lxr: &mut LexerStruct<'a>) -> (r:
    TopLevelAstResult<'a>)
    requires
        old(lxr).wf(),
        old(lxr).current() is Some,
    ensures
        final(lxr).extends(*old(lxr)),
        old(lxr).index() <= final(lxr).index(),
        step_of(r, final(lxr).index()) == spec_parse_commented(
            old(lxr).stream(),
            old(lxr).index(),
            tok(old(lxr).stream(), old(lxr).current().unwrap()),
        ),
        r is Ok ==> {
            &&& old(lxr).index() < final(lxr).index()
            &&& !(r.unwrap() is Empty)
            &&& r.unwrap()@.span().start == tok(
                old(lxr).stream(),
                old(lxr).current().unwrap(),
            ).span.start
            &&& r.unwrap()@.span().end == tok(
                old(lxr).stream(),
                (final(lxr).index() - 1) as nat,
            ).span.end
        },
        r is Err && !r->Err_0.fatal ==> final(lxr).index() == old(lxr).stream().len() && r->Err_0@
            == spec_end_of_file_error(expected_top_level(), false),
    decreases old(lxr).stream().len() - old(lxr).index(), 1nat,
{
    proof {
        lxr.lemma_bounds();
    }
    let span = lxr.span().unwrap();
    let slice = lxr.slice().unwrap();
    match parse_top_level(lxr) {
        Ok(top_level_statement) => {
            let end = top_level_statement.get_span().end;
            Ok(TopLevelAstNode::CommentedNode(span.start..end, slice, Box::new(top_level_statement)))
        },
        Err(e) => Err(e),
    }
}

} // verus!
