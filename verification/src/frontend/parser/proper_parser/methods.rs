//! Methods, their arguments, constraint blocks, and lists of methods.
use super::super::lexer::logos_lexer::{LexerToken, SpannedToken, TokenKind};
use super::ast::expressions::ExpressionBlockAstNode;
use super::ast::methods::{
    lemma_constraint_model, AstMethodArgument, DocumentedMethodModel, MethodArgumentModel,
    MethodAstNode, MethodList, MethodModel, MethodOrConstraintAstNode, MethodOrConstraintModel,
    PossiblyDocumentedMethodAstNode,
};
use super::ast::{lemma_models_of_empty, lemma_models_of_push, models_of};
use super::expressions::parse_block_expr;
use super::fields::list_step_of;
use super::parse_error::{
    combine_parse_errors, spec_combine_parse_errors, ParseError, ParseErrorModel,
};
use super::publicity::{spec_parse_publicity, ParsePublicity};
use super::types::{
    parse_generics, parse_name_and_generics, parse_type, spec_parse_generics,
    spec_parse_name_and_generics, spec_parse_type,
};
use super::utility_things::{
    call_error, done, expect_token, failed, flush_comments, kind_at, lemma_skip_comments, list1,
    list2, list3, past, skip_comments, spec_error_here, spec_expect_token, step_of, tok,
    LexerStruct, Step,
};
use vstd::prelude::*;

verus! {

/// What is expected where the arguments of a method have to start.
pub open spec fn expected_args_open() -> Seq<&'static str> {
    seq!["`(` (to begin a definition of args)"]
}

/// What is expected between the name of an argument and its type.
pub open spec fn expected_arg_arrow() -> Seq<&'static str> {
    seq!["`->` (to supply the type of the argument)"]
}

/// What is expected where an argument has to start.
pub open spec fn expected_arg_start() -> Seq<&'static str> {
    seq![
        "identifier (to define a new arg)",
        "`this` (to denote that the function takes an instance)",
        "`mut` (to begin the phrase `mut this` that denotes that the function takes a mutable instance)",
    ]
}

/// What is expected after an argument.
pub open spec fn expected_arg_separator() -> Seq<&'static str> {
    seq!["`,` (to signal the next argument)", "`)` (to end the argument declarations)"]
}

/// What is expected where an entry of a method list has to start.
pub open spec fn expected_method_start() -> Seq<&'static str> {
    seq![
        "privacy specifier (to create a method with the specified visibility)",
        "`<` (to create a new constraint block)",
    ]
}

/// What is expected after the generics of a constraint block.
pub open spec fn expected_constraint_open() -> Seq<&'static str> {
    seq!["`{` (to start the constraint block)"]
}

/// What is expected after the methods of a constraint block.
pub open spec fn expected_constraint_close() -> Seq<&'static str> {
    seq!["`}` (to end the constraint block)"]
}

/// One argument of a method at place `i`: `this`; `mut this`; or a name, `->`
/// and a type. Every failure is fatal.
pub open spec fn spec_parse_method_arg(s: Seq<SpannedToken>, i: nat) -> Step<MethodArgumentModel> {
    match kind_at(s, i) {
        Some(TokenKind::Identifier) => {
            let arrow = spec_expect_token(s, i + 1, TokenKind::ThinArrow, expected_arg_arrow(), None);
            match arrow.result {
                Err(e) => failed(e, arrow.index),
                Ok(_) => {
                    let arg_type = spec_parse_type(s, i + 2, None);
                    match arg_type.result {
                        Err(e) => failed(e, arg_type.index),
                        Ok(t) => done(
                            MethodArgumentModel::Regular(
                                tok(s, i).span.start..t.span().end,
                                tok(s, i).text,
                                t,
                            ),
                            arg_type.index,
                        ),
                    }
                },
            }
        },
        Some(TokenKind::LittleThis) => done(MethodArgumentModel::This(tok(s, i).span), i + 1),
        Some(TokenKind::Mutable) => {
            let this = spec_expect_token(s, i + 1, TokenKind::LittleThis, seq!["`this`"], None);
            match this.result {
                Err(e) => failed(e, this.index),
                Ok(last) => done(
                    MethodArgumentModel::ThisMut(tok(s, i).span.start..last.span.end),
                    i + 2,
                ),
            }
        },
        _ => failed(spec_error_here(s, i, expected_arg_start(), true), past(s, i)),
    }
}

/// The rest of the arguments of a method from place `i` on, after the
/// arguments `acc`: arguments parted by commas, up to the closing parenthesis,
/// which may stand after a comma.
pub open spec fn spec_method_args(
    s: Seq<SpannedToken>,
    i: nat,
    acc: Seq<MethodArgumentModel>,
) -> Step<Seq<MethodArgumentModel>>
    decreases s.len() - i,
{
    if kind_at(s, i) == Some(TokenKind::RightParenthesis) {
        done(acc, i + 1)
    } else {
        let arg = spec_parse_method_arg(s, i);
        match arg.result {
            Err(e) => failed(e, arg.index),
            Ok(a) => match kind_at(s, arg.index) {
                Some(TokenKind::Comma) if arg.index > i => spec_method_args(
                    s,
                    arg.index + 1,
                    acc.push(a),
                ),
                Some(TokenKind::RightParenthesis) => done(acc.push(a), arg.index + 1),
                _ => failed(
                    spec_error_here(s, arg.index, expected_arg_separator(), true),
                    past(s, arg.index),
                ),
            },
        }
    }
}

/// The arguments of a method from place `i` on: `(`, before which comments
/// may stand, the arguments, and `)`.
pub open spec fn spec_parse_method_args(s: Seq<SpannedToken>, i: nat) -> Step<
    Seq<MethodArgumentModel>,
> {
    let open = spec_expect_token(
        s,
        skip_comments(s, i),
        TokenKind::LeftParenthesis,
        expected_args_open(),
        None,
    );
    match open.result {
        Err(e) => failed(e, open.index),
        Ok(_) => spec_method_args(s, open.index, seq![]),
    }
}

/// A method from place `i` on, after its visibility marker, which started at
/// byte `start`: `fun`, a name with generics, the arguments, and `->` with a
/// type where the method names what it returns. The body takes no token.
pub open spec fn spec_parse_method<P>(
    s: Seq<SpannedToken>,
    i: nat,
    start: usize,
    publicity: P,
) -> Step<MethodModel<P>> {
    let keyword = spec_expect_token(s, i, TokenKind::Function, seq!["`fun`"], None);
    match keyword.result {
        Err(e) => failed(e, keyword.index),
        Ok(_) => {
            let name = spec_parse_name_and_generics(s, keyword.index);
            match name.result {
                Err(e) => failed(e, name.index),
                Ok(new_type) => {
                    let arguments = spec_parse_method_args(s, name.index);
                    match arguments.result {
                        Err(e) => failed(e, arguments.index),
                        Ok(args) => if kind_at(s, arguments.index) == Some(TokenKind::ThinArrow) {
                            let returned = spec_parse_type(s, arguments.index + 1, None);
                            match returned.result {
                                Err(e) => failed(e, returned.index),
                                Ok(t) => done(
                                    MethodModel {
                                        span: start..t.span().end,
                                        publicity,
                                        new_type,
                                        args,
                                        return_type: Some(t),
                                        body: ExpressionBlockAstNode {  },
                                    },
                                    returned.index,
                                ),
                            }
                        } else {
                            done(
                                MethodModel {
                                    span: start..tok(s, (arguments.index - 1) as nat).span.end,
                                    publicity,
                                    new_type,
                                    args,
                                    return_type: None,
                                    body: ExpressionBlockAstNode {  },
                                },
                                arguments.index,
                            )
                        },
                    }
                },
            }
        },
    }
}

/// An entry of a method list at place `i`: a visibility marker and a method;
/// a comment and the entry it stands before; or a constraint block. Where none
/// of these starts, the failure is not fatal and takes no token. After the
/// first token of a method or a block every failure is fatal.
pub open spec fn spec_parse_method_entry<P: ParsePublicity>(s: Seq<SpannedToken>, i: nat) -> Step<
    MethodOrConstraintModel<P>,
>
    decreases s.len() - i, 2nat,
{
    match spec_parse_publicity::<P>(s, i) {
        Ok(publicity) => spec_marked_method::<P>(s, i, publicity),
        Err(_) => match kind_at(s, i) {
            Some(TokenKind::Comment) => spec_documented_entry::<P>(s, i),
            Some(TokenKind::LeftAngleBracketOrLessThan) => spec_constraint_block::<P>(s, i),
            _ => failed(spec_error_here(s, i, expected_method_start(), false), i),
        },
    }
}

/// The entry of a method list that the comment at place `i` stands before. A
/// method takes the comment as its documentation and starts where the comment
/// starts; a constraint block drops the comment.
pub open spec fn spec_documented_entry<P: ParsePublicity>(s: Seq<SpannedToken>, i: nat) -> Step<
    MethodOrConstraintModel<P>,
>
    decreases s.len() - i, 1nat,
{
    if i >= s.len() {
        failed(spec_error_here(s, i, expected_method_start(), false), i)
    } else {
        let inner = spec_parse_method_entry::<P>(s, i + 1);
        match inner.result {
            Err(e) => failed(e, inner.index),
            Ok(MethodOrConstraintModel::Method(span, m)) => done(
                MethodOrConstraintModel::Method(
                    tok(s, i).span.start..span.end,
                    DocumentedMethodModel::DocumentedMethod(
                        tok(s, i).span.start..span.end,
                        tok(s, i).text,
                        Box::new(m),
                    ),
                ),
                inner.index,
            ),
            Ok(block) => done(block, inner.index),
        }
    }
}

/// The constraint block that the `<` at place `i` opens: a block of declared
/// generics and a method list in braces. Where the closing brace is missing,
/// the failure is merged with the one that ended the list.
pub open spec fn spec_constraint_block<P: ParsePublicity>(s: Seq<SpannedToken>, i: nat) -> Step<
    MethodOrConstraintModel<P>,
>
    decreases s.len() - i, 1nat,
{
    let block = spec_parse_generics(s, i + 1, true, tok(s, i).span.start);
    match block.result {
        Err(e) => failed(e, block.index),
        Ok(generics) => if kind_at(s, block.index) == Some(TokenKind::LeftCurlyBrace) && i
            < block.index {
            let methods = spec_parse_methods::<P>(s, block.index + 1, seq![]);
            match methods.result {
                Err(e) => failed(e, methods.index),
                Ok((list, ended_by)) => {
                    let close = spec_expect_token(
                        s,
                        methods.index,
                        TokenKind::RightCurlyBrace,
                        expected_constraint_close(),
                        None,
                    );
                    match close.result {
                        Err(e) => failed(spec_combine_parse_errors(ended_by, e), close.index),
                        Ok(last) => done(
                            MethodOrConstraintModel::Constraint(
                                tok(s, i).span.start..last.span.end,
                                generics,
                                list,
                            ),
                            close.index,
                        ),
                    }
                },
            }
        } else {
            failed(
                spec_error_here(s, block.index, expected_constraint_open(), true),
                past(s, block.index),
            )
        },
    }
}

/// The rest of a method list from place `i` on, after the entries `acc`:
/// entries, each with a comma after it or without. The list ends before the
/// first thing that starts no entry and comes with the failure that ended it,
/// which is not fatal. A fatal failure inside an entry is the failure of the
/// list.
pub open spec fn spec_parse_methods<P: ParsePublicity>(
    s: Seq<SpannedToken>,
    i: nat,
    acc: Seq<MethodOrConstraintModel<P>>,
) -> Step<(Seq<MethodOrConstraintModel<P>>, ParseErrorModel)>
    decreases s.len() - i, 3nat,
{
    let entry = spec_parse_method_entry::<P>(s, i);
    match entry.result {
        Err(e) => if e.fatal {
            failed(e, entry.index)
        } else {
            done((acc, e), i)
        },
        Ok(m) => if i < entry.index <= s.len() {
            spec_parse_methods::<P>(
                s,
                if kind_at(s, entry.index) == Some(TokenKind::Comma) {
                    entry.index + 1
                } else {
                    entry.index
                },
                acc.push(m),
            )
        } else {
            done(
                (acc.push(m), spec_error_here(s, entry.index, expected_method_start(), false)),
                entry.index,
            )
        },
    }
}

/// Parses one argument of a method.
fn parse_method_arg<'a>(lxr: &mut LexerStruct<'a>) -> (r: Result<AstMethodArgument<'a>, ParseError>)
    requires
        old(lxr).wf(),
    ensures
        final(lxr).extends(*old(lxr)),
        old(lxr).index() <= final(lxr).index(),
        step_of(r, final(lxr).index()) == spec_parse_method_arg(
            old(lxr).stream(),
            old(lxr).index(),
        ),
        r is Ok ==> old(lxr).index() < final(lxr).index(),
        r is Err ==> r->Err_0.fatal,
{
    proof {
        lxr.lemma_bounds();
    }
    match lxr.next() {
        Some(LexerToken::Identifier(arg_name)) => {
            let start_idx = lxr.span().unwrap().start;
            match expect_token(
                lxr,
                LexerToken::ThinArrow,
                list1("`->` (to supply the type of the argument)"),
            ) {
                Ok(_) => {},
                Err(e) => {
                    return Err(e);
                },
            }
            let arg_type = match parse_type(lxr, None) {
                Ok(t) => t,
                Err(e) => {
                    return Err(e);
                },
            };
            let end = arg_type.get_span().end;
            Ok(AstMethodArgument::Regular(start_idx..end, arg_name, arg_type))
        },
        Some(LexerToken::LittleThis) => Ok(AstMethodArgument::This(lxr.span().unwrap())),
        Some(LexerToken::Mutable) => {
            let start_idx = lxr.span().unwrap().start;
            match expect_token(lxr, LexerToken::LittleThis, list1("`this`")) {
                Ok(_) => {},
                Err(e) => {
                    return Err(e);
                },
            }
            let end = lxr.span().unwrap().end;
            Ok(AstMethodArgument::ThisMut(start_idx..end))
        },
        invalid_value => Err(
            call_error(
                lxr,
                invalid_value,
                list3(
                    "identifier (to define a new arg)",
                    "`this` (to denote that the function takes an instance)",
                    "`mut` (to begin the phrase `mut this` that denotes that the function takes a mutable instance)",
                ),
                true,
            ),
        ),
    }
}

/// Parses the arguments of a method, from `(` to `)`. Every failure is fatal.
/// On success the closing parenthesis is the current token.
pub fn parse_method_args<'a>(lxr: &mut LexerStruct<'a>) -> (r: Result<
    Vec<AstMethodArgument<'a>>,
    ParseError,
>)
    requires
        old(lxr).wf(),
    ensures
        final(lxr).extends(*old(lxr)),
        old(lxr).index() <= final(lxr).index(),
        args_step_of(r, final(lxr).index()) == spec_parse_method_args(
            old(lxr).stream(),
            old(lxr).index(),
        ),
        r is Ok ==> old(lxr).index() < final(lxr).index() && final(lxr).current() == Some(
            (final(lxr).index() - 1) as nat,
        ),
        r is Err ==> r->Err_0.fatal,
{
    let ghost s = lxr.stream();
    let ghost i0 = lxr.index();
    proof {
        lxr.lemma_bounds();
        lemma_skip_comments(s, i0);
    }
    flush_comments(lxr);
    match expect_token(
        lxr,
        LexerToken::LeftParenthesis,
        list1("`(` (to begin a definition of args)"),
    ) {
        Ok(_) => {},
        Err(e) => {
            return Err(e);
        },
    }
    let ghost opened = lxr.index();
    let mut args: Vec<AstMethodArgument<'a>> = Vec::new();
    proof {
        lemma_models_of_empty::<AstMethodArgument<'a>>();
    }
    loop
        invariant
            lxr.extends(*old(lxr)),
            s == old(lxr).stream(),
            i0 == old(lxr).index(),
            i0 < opened <= lxr.index(),
            spec_parse_method_args(s, i0) == spec_method_args(
                s,
                lxr.index(),
                models_of(args@),
            ),
        decreases s.len() - lxr.index(),
    {
        proof {
            lxr.lemma_bounds();
        }
        let closed = match lxr.peek() {
            Some(LexerToken::RightParenthesis) => true,
            _ => false,
        };
        if closed {
            lxr.next();
            return Ok(args);
        }
        let arg = match parse_method_arg(lxr) {
            Ok(arg) => arg,
            Err(e) => {
                return Err(e);
            },
        };
        proof {
            lemma_models_of_push(args@, arg);
            lxr.lemma_bounds();
        }
        args.push(arg);
        match lxr.next() {
            Some(LexerToken::Comma) => {},
            Some(LexerToken::RightParenthesis) => {
                return Ok(args);
            },
            invalid_token => {
                return Err(
                    call_error(
                        lxr,
                        invalid_token,
                        list2(
                            "`,` (to signal the next argument)",
                            "`)` (to end the argument declarations)",
                        ),
                        true,
                    ),
                );
            },
        }
        proof {
            lxr.lemma_bounds();
        }
    }
}

/// What a run through the arguments of a method came to, as a plain value.
pub open spec fn args_step_of(r: Result<Vec<AstMethodArgument>, ParseError>, index: nat) -> Step<
    Seq<MethodArgumentModel>,
> {
    Step {
        result: match r {
            Ok(args) => Ok(models_of(args@)),
            Err(err) => Err(err@),
        },
        index,
    }
}

/// Parses a method, after its visibility marker, which is the current token.
/// The method covers the bytes from the marker to the end of the type it
/// returns or, where it names none, of its closing parenthesis. Every failure
/// is fatal.
pub fn parse_method<'a, PublicityEnum>(lxr: &mut LexerStruct<'a>, publicity: PublicityEnum) -> (r:
    Result<MethodAstNode<'a, PublicityEnum>, ParseError>)
    requires
        old(lxr).wf(),
        old(lxr).current() is Some,
    ensures
        final(lxr).extends(*old(lxr)),
        old(lxr).index() <= final(lxr).index(),
        step_of(r, final(lxr).index()) == spec_parse_method::<PublicityEnum>(
            old(lxr).stream(),
            old(lxr).index(),
            tok(old(lxr).stream(), old(lxr).current().unwrap()).span.start,
            publicity,
        ),
        r is Ok ==> {
            &&& old(lxr).index() < final(lxr).index()
            &&& r.unwrap()@.span.start == tok(
                old(lxr).stream(),
                old(lxr).current().unwrap(),
            ).span.start
            &&& r.unwrap()@.span.end == tok(
                old(lxr).stream(),
                (final(lxr).index() - 1) as nat,
            ).span.end
        },
        r is Err ==> r->Err_0.fatal,
{
    proof {
        lxr.lemma_bounds();
    }
    let start_idx = lxr.span().unwrap().start;
    match expect_token(lxr, LexerToken::Function, list1("`fun`")) {
        Ok(_) => {},
        Err(e) => {
            return Err(e);
        },
    }
    let new_type = match parse_name_and_generics(lxr) {
        Ok(t) => t,
        Err(e) => {
            return Err(e);
        },
    };
    let args = match parse_method_args(lxr) {
        Ok(args) => args,
        Err(e) => {
            return Err(e);
        },
    };
    proof {
        lxr.lemma_bounds();
    }
    let args_end = lxr.span().unwrap().end;
    let has_return = match lxr.peek() {
        Some(LexerToken::ThinArrow) => true,
        _ => false,
    };
    let (return_type, end) = if has_return {
        lxr.next();
        match parse_type(lxr, None) {
            Ok(t) => {
                let end = t.get_span().end;
                (Some(t), end)
            },
            Err(e) => {
                return Err(e);
            },
        }
    } else {
        (None, args_end)
    };
    let body = match parse_block_expr(lxr) {
        Ok(body) => body,
        Err(e) => {
            return Err(e);
        },
    };
    Ok(MethodAstNode { span: start_idx..end, publicity, new_type, args, return_type, body })
}

/// Parses methods and constraint blocks until none is left. It hands out the
/// entries with the failure that ended the list, which is not fatal, and leaves
/// the cursor before what ended it. A fatal failure inside an entry is handed
/// on.
pub fn parse_methods_until_none_are_found<'a, PublicityEnum: ParsePublicity>(
    lxr: &mut LexerStruct<'a>,
) -> (r: Result<(MethodList<'a, PublicityEnum>, ParseError), ParseError>)
    requires
        old(lxr).wf(),
    ensures
        final(lxr).extends(*old(lxr)),
        old(lxr).index() <= final(lxr).index(),
        list_step_of(r, final(lxr).index()) == spec_parse_methods::<PublicityEnum>(
            old(lxr).stream(),
            old(lxr).index(),
            seq![],
        ),
        r is Ok ==> !r.unwrap().1.fatal,
        r is Err ==> r->Err_0.fatal,
    decreases old(lxr).stream().len() - old(lxr).index(), 3nat,
{
    let ghost s = lxr.stream();
    let ghost i0 = lxr.index();
    let mut methods: Vec<MethodOrConstraintAstNode<'a, PublicityEnum>> = Vec::new();
    proof {
        lemma_models_of_empty::<MethodOrConstraintAstNode<'a, PublicityEnum>>();
    }
    loop
        invariant
            lxr.extends(*old(lxr)),
            s == old(lxr).stream(),
            i0 == old(lxr).index(),
            i0 <= lxr.index(),
            spec_parse_methods::<PublicityEnum>(s, i0, seq![]) == spec_parse_methods::<
                PublicityEnum,
            >(s, lxr.index(), models_of(methods@)),
        decreases s.len() - lxr.index(),
    {
        proof {
            lxr.lemma_bounds();
        }
        let curr_spot = lxr.save_position();
        match parse_possibly_documented_method_or_constraint_block(lxr) {
            Ok(method) => {
                proof {
                    lemma_models_of_push(methods@, method);
                }
                methods.push(method);
            },
            Err(err) => {
                if !err.fatal {
                    proof {
                        lxr.lemma_bounds();
                    }
                    lxr.return_to_position(curr_spot);
                    return Ok((methods, err));
                }
                return Err(err);
            },
        }
        proof {
            lxr.lemma_bounds();
        }
        let at_comma = match lxr.peek() {
            Some(LexerToken::Comma) => true,
            _ => false,
        };
        if at_comma {
            lxr.next();
        }
        proof {
            lxr.lemma_bounds();
        }
    }
}

/// The place of the first token of an entry of a method list that was
/// parsed from place `i` on: `i` for a method, which starts at its marker or at
/// the first of its comments; the first place that holds no comment for a
/// constraint block, which drops the comments before it.
pub open spec fn entry_start<P>(s: Seq<SpannedToken>, i: nat, entry: MethodOrConstraintModel<P>) -> nat {
    match entry {
        MethodOrConstraintModel::Method(_, _) => i,
        MethodOrConstraintModel::Constraint(_, _, _) => skip_comments(s, i),
    }
}

/// The entry that a method with its visibility marker at place `i` makes.
pub open spec fn spec_marked_method<P>(s: Seq<SpannedToken>, i: nat, publicity: P) -> Step<
    MethodOrConstraintModel<P>,
> {
    let method = spec_parse_method::<P>(s, i + 1, tok(s, i).span.start, publicity);
    match method.result {
        Err(e) => failed(e, method.index),
        Ok(m) => done(
            MethodOrConstraintModel::Method(m.span, DocumentedMethodModel::BaseMethod(m.span, m)),
            method.index,
        ),
    }
}

/// Parses a method, from its visibility marker on, as an entry of a method
/// list.
fn parse_marked_method<'a, PublicityEnum>(lxr: &mut LexerStruct<'a>, publicity: PublicityEnum) -> (r:
    Result<MethodOrConstraintAstNode<'a, PublicityEnum>, ParseError>)
    requires
        old(lxr).wf(),
        old(lxr).index() < old(lxr).stream().len(),
    ensures
        final(lxr).extends(*old(lxr)),
        old(lxr).index() <= final(lxr).index(),
        step_of(r, final(lxr).index()) == spec_marked_method::<PublicityEnum>(
            old(lxr).stream(),
            old(lxr).index(),
            publicity,
        ),
        r is Ok ==> {
            &&& old(lxr).index() < final(lxr).index()
            &&& r.unwrap()@.span().start == tok(
                old(lxr).stream(),
                entry_start(old(lxr).stream(), old(lxr).index(), r.unwrap()@),
            ).span.start
            &&& r.unwrap()@.span().end == tok(
                old(lxr).stream(),
                (final(lxr).index() - 1) as nat,
            ).span.end
        },
        r is Err ==> r->Err_0.fatal,
{
    lxr.next();
    let method = match parse_method(lxr, publicity) {
        Ok(method) => method,
        Err(e) => {
            return Err(e);
        },
    };
    let start = method.span.start;
    let end = method.span.end;
    let ghost m = method@;
    let documented = PossiblyDocumentedMethodAstNode::BaseMethod(start..end, method);
    assert(documented@ == DocumentedMethodModel::BaseMethod(m.span, m));
    Ok(MethodOrConstraintAstNode::Method(start..end, documented))
}

/// Parses the entry of a method list that a comment stands before, from
/// the comment on.
fn parse_documented_entry<'a, PublicityEnum: ParsePublicity>(lxr: &mut LexerStruct<'a>) -> (r:
    Result<MethodOrConstraintAstNode<'a, PublicityEnum>, ParseError>)
    requires
        old(lxr).wf(),
        kind_at(old(lxr).stream(), old(lxr).index()) == Some(TokenKind::Comment),
    ensures
        final(lxr).extends(*old(lxr)),
        old(lxr).index() <= final(lxr).index(),
        step_of(r, final(lxr).index()) == spec_documented_entry::<PublicityEnum>(
            old(lxr).stream(),
            old(lxr).index(),
        ),
        r is Ok ==> {
            &&& old(lxr).index() < final(lxr).index()
            &&& r.unwrap()@.span().start == tok(
                old(lxr).stream(),
                entry_start(old(lxr).stream(), old(lxr).index(), r.unwrap()@),
            ).span.start
            &&& r.unwrap()@.span().end == tok(
                old(lxr).stream(),
                (final(lxr).index() - 1) as nat,
            ).span.end
        },
    decreases old(lxr).stream().len() - old(lxr).index(), 1nat,
{
    lxr.next();
    let comment_start_idx = lxr.span().unwrap().start;
    let comment_contents = lxr.slice().unwrap();
    match parse_possibly_documented_method_or_constraint_block(lxr) {
        Ok(MethodOrConstraintAstNode::Method(span, method)) => Ok(
            MethodOrConstraintAstNode::Method(
                comment_start_idx..span.end,
                PossiblyDocumentedMethodAstNode::DocumentedMethod(
                    comment_start_idx..span.end,
                    comment_contents,
                    Box::new(method),
                ),
            ),
        ),
        Ok(MethodOrConstraintAstNode::Constraint(span, generics, method_list)) => Ok(
            MethodOrConstraintAstNode::Constraint(span, generics, method_list),
        ),
        Err(err) => Err(err),
    }
}

/// Parses a constraint block, from its `<` on.
fn parse_constraint_block<'a, PublicityEnum: ParsePublicity>(lxr: &mut LexerStruct<'a>) -> (r:
    Result<MethodOrConstraintAstNode<'a, PublicityEnum>, ParseError>)
    requires
        old(lxr).wf(),
        kind_at(old(lxr).stream(), old(lxr).index()) == Some(
            TokenKind::LeftAngleBracketOrLessThan,
        ),
    ensures
        final(lxr).extends(*old(lxr)),
        old(lxr).index() <= final(lxr).index(),
        step_of(r, final(lxr).index()) == spec_constraint_block::<PublicityEnum>(
            old(lxr).stream(),
            old(lxr).index(),
        ),
        r is Ok ==> {
            &&& old(lxr).index() < final(lxr).index()
            &&& r.unwrap()@.span().start == tok(
                old(lxr).stream(),
                entry_start(old(lxr).stream(), old(lxr).index(), r.unwrap()@),
            ).span.start
            &&& r.unwrap()@.span().end == tok(
                old(lxr).stream(),
                (final(lxr).index() - 1) as nat,
            ).span.end
        },
        r is Err ==> r->Err_0.fatal,
    decreases old(lxr).stream().len() - old(lxr).index(), 1nat,
{
    lxr.next();
    let start_idx = lxr.span().unwrap().start;
    let constraint_generics = match parse_generics(lxr, true) {
        Ok(g) => g,
        Err(e) => {
            return Err(e);
        },
    };
    proof {
        lxr.lemma_bounds();
    }
    match expect_token(
        lxr,
        LexerToken::LeftCurlyBrace,
        list1("`{` (to start the constraint block)"),
    ) {
        Ok(_) => {},
        Err(e) => {
            return Err(e);
        },
    }
    let (constrained_methods, ended_by) = match parse_methods_until_none_are_found(lxr) {
        Ok(found) => found,
        Err(e) => {
            return Err(e);
        },
    };
    match expect_token(
        lxr,
        LexerToken::RightCurlyBrace,
        list1("`}` (to end the constraint block)"),
    ) {
        Ok(_) => {},
        Err(e) => {
            return Err(combine_parse_errors(ended_by, e));
        },
    }
    let end = lxr.span().unwrap().end;
    let block = MethodOrConstraintAstNode::Constraint(
        start_idx..end,
        constraint_generics,
        constrained_methods,
    );
    proof {
        lemma_constraint_model(block);
    }
    Ok(block)
}

/// Parses an entry of a method list: a method with the comments before it,
/// or a constraint block. Where no entry starts, the failure is not fatal.
pub fn parse_possibly_documented_method_or_constraint_block<'a, PublicityEnum: ParsePublicity>(
    lxr: &mut LexerStruct<'a>,
) -> (r: Result<MethodOrConstraintAstNode<'a, PublicityEnum>, ParseError>)
    requires
        old(lxr).wf(),
    ensures
        final(lxr).extends(*old(lxr)),
        old(lxr).index() <= final(lxr).index(),
        step_of(r, final(lxr).index()) == spec_parse_method_entry::<PublicityEnum>(
            old(lxr).stream(),
            old(lxr).index(),
        ),
        r is Ok ==> {
            &&& old(lxr).index() < final(lxr).index()
            &&& r.unwrap()@.span().start == tok(
                old(lxr).stream(),
                entry_start(old(lxr).stream(), old(lxr).index(), r.unwrap()@),
            ).span.start
            &&& r.unwrap()@.span().end == tok(
                old(lxr).stream(),
                (final(lxr).index() - 1) as nat,
            ).span.end
        },
    decreases old(lxr).stream().len() - old(lxr).index(), 2nat,
{
    proof {
        lxr.lemma_bounds();
    }
    match PublicityEnum::parse_publicity(lxr) {
        Ok(publicity) => parse_marked_method(lxr, publicity),
        Err(_) => match lxr.peek() {
            Some(LexerToken::Comment) => parse_documented_entry(lxr),
            Some(LexerToken::LeftAngleBracketOrLessThan) => parse_constraint_block(lxr),
            invalid_value => Err(
                call_error(
                    lxr,
                    invalid_value,
                    list2(
                        "privacy specifier (to create a method with the specified visibility)",
                        "`<` (to create a new constraint block)",
                    ),
                    false,
                ),
            ),
        },
    }
}

} // verus!
