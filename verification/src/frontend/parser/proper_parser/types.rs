//! Type expressions, generics blocks, names with generics, and type aliases.
use super::super::lexer::logos_lexer::{LexerToken, SpannedToken, TokenKind};
use super::super::lexer::scan::str_eq;
use super::ast::{lemma_models_of_empty, lemma_models_of_push, models_of};
use super::ast::types::{
    has_name, lemma_generics_model, names_unique, AstType, GenericEntry, GenericEntryModel,
    GenericName, GenericNameModel, Generics, GenericsModel, TypeAliasAstNode, TypeAliasModel,
    TypeModel,
};
use super::parse_error::{spec_unexpected_token_error, spec_with_fatality, ParseError};
use super::utility_things::{
    call_error, done, expect_semicolon, expect_token, failed, flush_comments, kind_at,
    is_token_range, last_before, lemma_last_before_skip, lemma_later_token,
    lemma_skip_comments, lemma_spans_tokens_extend, lemma_spans_tokens_single, list1, list2, list3, option_model,
    past, skip_comments, spans_tokens, spec_error_here, tok,
    spec_expect_token, step_of, LexerStruct, Step,
};
use vstd::prelude::*;
use vstd::string::StringSliceAdditionalSpecFns;

verus! {

/// What is expected where a type has to start.
pub open spec fn expected_type_start() -> Seq<&'static str> {
    seq!["identifier (as part of a type)"]
}

/// What is expected where a declared generic repeats a name of its block.
pub open spec fn expected_unique_generic() -> Seq<&'static str> {
    seq!["a unique generic name"]
}

/// What is expected after a type with generics where a second `<` stands.
pub open spec fn expected_after_generics() -> Seq<&'static str> {
    seq!["`.` (to continue type)", "end of type"]
}

/// What is expected where a declared generic has to start.
pub open spec fn expected_generic_start() -> Seq<&'static str> {
    seq!["`>` (to close the generics)", "identifier (to create a new generic)"]
}

/// What is expected after the name of a declared generic.
pub open spec fn expected_after_generic_name() -> Seq<&'static str> {
    seq![
        "`>` (to close the generics)",
        "`,` (to signal the next generic)",
        "`:` (to define a constraint on the current generic)",
    ]
}

/// What is expected after the type of an entry of a generics block.
pub open spec fn expected_after_generic_type() -> Seq<&'static str> {
    seq!["`>` (to close the generics)", "`,` (to signal the next generic)"]
}

/// The entry that a type makes in a generics block: under the declared name,
/// from the name to the end of the type, or under its position, over the type.
pub open spec fn bound_entry(name: Option<SpannedToken>, position: nat, bound: TypeModel) -> GenericEntryModel {
    match name {
        Some(token) => GenericEntryModel {
            name: GenericNameModel::Named(token.text),
            span: token.span.start..bound.span().end,
            bound: Some(bound),
        },
        None => GenericEntryModel {
            name: GenericNameModel::Positional(position),
            span: bound.span(),
            bound: Some(bound),
        },
    }
}

/// Whether a type expression and every type expression inside it cover
/// tokens of their own: each reaches from the start of a token to the end of
/// the same or a later token. The type that a member or a generics block is of
/// starts where the whole starts and ends inside it, before the name of the
/// member.
pub open spec fn type_well_spanned(s: Seq<SpannedToken>, t: TypeModel) -> bool
    decreases t, 0nat,
{
    &&& spans_tokens(s, t.span())
    &&& match t {
        TypeModel::RootName(_, _) => true,
        TypeModel::MemberOf(_, of, _) => {
            &&& type_well_spanned(s, *of)
            &&& of.span().start == t.span().start
            &&& of.span().end < t.span().end
        },
        TypeModel::GenericOf(_, of, generics) => {
            &&& type_well_spanned(s, *of)
            &&& of.span().start == t.span().start
            &&& of.span().end <= t.span().end
            &&& entries_well_spanned(s, generics.entries, generics.entries.len())
        },
    }
}

/// Whether the types of the first `n` entries of a generics block, and every
/// type expression inside them, cover tokens of their own.
pub open spec fn entries_well_spanned(
    s: Seq<SpannedToken>,
    entries: Seq<GenericEntryModel>,
    n: nat,
) -> bool
    decreases entries, n,
{
    if n == 0 || n > entries.len() {
        true
    } else {
        &&& entries_well_spanned(s, entries, (n - 1) as nat)
        &&& match entries[n - 1].bound {
            Some(bound) => type_well_spanned(s, bound),
            None => true,
        }
    }
}

/// Whether the types of all the entries of a generics block, and every type
/// expression inside them, cover tokens of their own.
pub open spec fn all_well_spanned(s: Seq<SpannedToken>, entries: Seq<GenericEntryModel>) -> bool {
    entries_well_spanned(s, entries, entries.len())
}

/// Whether the type that a type expression goes on from at place `i`, if
/// there is one, covers tokens of its own and ends before the token at `i`.
pub open spec fn type_goes_on(s: Seq<SpannedToken>, curr: Option<TypeModel>, i: nat) -> bool {
    match curr {
        None => true,
        Some(of) => type_well_spanned(s, of) && of.span().end <= tok(s, i).span.start,
    }
}

/// A type expression that covers tokens of its own covers at least one
/// byte, and so does the type that it is a member of or has generics over,
/// which starts at the same byte and does not end later.
pub proof fn lemma_well_spanned_in_order(s: Seq<SpannedToken>, t: TypeModel)
    requires
        type_well_spanned(s, t),
    ensures
        t.span().start < t.span().end,
        t is MemberOf ==> {
            let of = *t->MemberOf_1;
            &&& type_well_spanned(s, of)
            &&& t.span().start == of.span().start
            &&& of.span().start < of.span().end
            &&& of.span().end < t.span().end
        },
        t is GenericOf ==> {
            let of = *t->GenericOf_1;
            &&& type_well_spanned(s, of)
            &&& all_well_spanned(s, t->GenericOf_2.entries)
            &&& t.span().start == of.span().start
            &&& of.span().start < of.span().end
            &&& of.span().end <= t.span().end
        },
{
    reveal_with_fuel(type_well_spanned, 2);
    let (first, last) = choose|first: nat, last: nat| #[trigger]
        is_token_range(s, t.span(), first, last);
    if t is MemberOf {
        let of = *t->MemberOf_1;
        let (a, b) = choose|a: nat, b: nat| #[trigger] is_token_range(s, of.span(), a, b);
    }
    if t is GenericOf {
        let of = *t->GenericOf_1;
        let (a, b) = choose|a: nat, b: nat| #[trigger] is_token_range(s, of.span(), a, b);
    }
}

/// What holds of the first entries of a list holds of them in the list
/// with one more entry.
pub proof fn lemma_entries_well_spanned_prefix(
    s: Seq<SpannedToken>,
    entries: Seq<GenericEntryModel>,
    entry: GenericEntryModel,
    n: nat,
)
    requires
        n <= entries.len(),
    ensures
        entries_well_spanned(s, entries.push(entry), n) == entries_well_spanned(s, entries, n),
    decreases n,
{
    if n > 0 {
        lemma_entries_well_spanned_prefix(s, entries, entry, (n - 1) as nat);
        assert(entries.push(entry)[n - 1] == entries[n - 1]);
    }
}

/// Entries whose types cover tokens stay so when one more such entry is
/// added.
pub proof fn lemma_entries_well_spanned_push(
    s: Seq<SpannedToken>,
    entries: Seq<GenericEntryModel>,
    entry: GenericEntryModel,
)
    requires
        entries_well_spanned(s, entries, entries.len()),
        entry.bound is Some ==> type_well_spanned(s, entry.bound.unwrap()),
    ensures
        entries_well_spanned(s, entries.push(entry), entries.push(entry).len()),
{
    lemma_entries_well_spanned_prefix(s, entries, entry, entries.len());
    assert(entries.push(entry)[entries.len() as int] == entry);
}

/// A type expression from place `i` on: an identifier, which names a type or,
/// after `curr`, a member of it; then a dot and the rest of the type, or a
/// generics block of type arguments, after which only a dot can go on.
pub open spec fn spec_parse_type(s: Seq<SpannedToken>, i: nat, curr: Option<TypeModel>) -> Step<
    TypeModel,
>
    decreases s.len() - i, 0nat,
{
    let head = spec_expect_token(s, i, TokenKind::Identifier, expected_type_start(), None);
    match head.result {
        Err(e) => failed(e, head.index),
        Ok(token) => {
            let named = match curr {
                Some(of) => TypeModel::MemberOf(
                    of.span().start..token.span.end,
                    Box::new(of),
                    token.text,
                ),
                None => TypeModel::RootName(token.span, token.text),
            };
            match kind_at(s, i + 1) {
                Some(TokenKind::MemberAccess) => spec_parse_type(s, i + 2, Some(named)),
                Some(TokenKind::LeftAngleBracketOrLessThan) => {
                    let block = spec_generics_entries(
                        s,
                        i + 2,
                        false,
                        tok(s, i + 1).span.start,
                        seq![],
                    );
                    match block.result {
                        Err(e) => failed(e, block.index),
                        Ok(generics) => if i < block.index <= s.len() {
                            spec_type_after_generics(
                                s,
                                block.index,
                                TypeModel::GenericOf(
                                    named.span().start..generics.span.end,
                                    Box::new(named),
                                    generics,
                                ),
                            )
                        } else {
                            failed(
                                spec_error_here(s, block.index, expected_after_generics(), true),
                                block.index,
                            )
                        },
                    }
                },
                _ => done(named, i + 1),
            }
        },
    }
}

/// What follows a type with generics, `applied`, at place `i`: a dot and the
/// rest of the type; nothing, then the type ends; but no second `<`, which is a
/// fatal failure that takes no token.
pub open spec fn spec_type_after_generics(s: Seq<SpannedToken>, i: nat, applied: TypeModel) -> Step<
    TypeModel,
>
    decreases s.len() - i, 1nat,
{
    match kind_at(s, i) {
        Some(TokenKind::MemberAccess) => spec_parse_type(s, i + 1, Some(applied)),
        Some(TokenKind::LeftAngleBracketOrLessThan) => failed(
            spec_error_here(s, i, expected_after_generics(), true),
            i,
        ),
        _ => done(applied, i),
    }
}

/// The rest of a generics block from place `i` on, after the entries `acc`.
/// The block started at byte `start`. A declared generic is an identifier,
/// with a colon and a bound if it has one; a type argument is a type. Commas
/// part the entries and `>` ends the block. Comments may stand between the
/// tokens. Every failure is fatal; a declared name that an earlier entry has is
/// one, reported at the name.
pub open spec fn spec_generics_entries(
    s: Seq<SpannedToken>,
    i: nat,
    declared: bool,
    start: usize,
    acc: Seq<GenericEntryModel>,
) -> Step<GenericsModel>
    decreases s.len() - i, 3nat,
{
    let at = skip_comments(s, i);
    proof {
        lemma_skip_comments(s, i);
    }
    if !declared {
        spec_generics_bound(s, at, declared, start, acc, None)
    } else {
        match kind_at(s, at) {
            Some(TokenKind::RightAngleBracketOrGreaterThan) => done(
                GenericsModel { span: start..tok(s, at).span.end, entries: acc },
                at + 1,
            ),
            Some(TokenKind::Identifier) => {
                let name = tok(s, at);
                let after = skip_comments(s, at + 1);
                proof {
                    lemma_skip_comments(s, at + 1);
                }
                let unbound = acc.push(
                    GenericEntryModel {
                        name: GenericNameModel::Named(name.text),
                        span: name.span,
                        bound: None,
                    },
                );
                let repeated = has_name(acc, GenericNameModel::Named(name.text));
                let duplicate = failed(
                    spec_unexpected_token_error(
                        name.text,
                        name.span,
                        expected_unique_generic(),
                        true,
                    ),
                    after + 1,
                );
                match kind_at(s, after) {
                    Some(TokenKind::Comma) => if repeated {
                        duplicate
                    } else {
                        spec_generics_entries(s, after + 1, declared, start, unbound)
                    },
                    Some(TokenKind::RightAngleBracketOrGreaterThan) => if repeated {
                        duplicate
                    } else {
                        done(
                            GenericsModel { span: start..tok(s, after).span.end, entries: unbound },
                            after + 1,
                        )
                    },
                    Some(TokenKind::Colon) => spec_generics_bound(
                        s,
                        after + 1,
                        declared,
                        start,
                        acc,
                        Some(name),
                    ),
                    _ => failed(
                        spec_error_here(s, after, expected_after_generic_name(), true),
                        past(s, after),
                    ),
                }
            },
            _ => failed(spec_error_here(s, at, expected_generic_start(), true), past(s, at)),
        }
    }
}

/// The rest of a generics block from place `i` on, where the type of an entry
/// has to stand: the bound of the declared generic `name`, or a type argument.
pub open spec fn spec_generics_bound(
    s: Seq<SpannedToken>,
    i: nat,
    declared: bool,
    start: usize,
    acc: Seq<GenericEntryModel>,
    name: Option<SpannedToken>,
) -> Step<GenericsModel>
    decreases s.len() - i, 2nat,
{
    let at = skip_comments(s, i);
    proof {
        lemma_skip_comments(s, i);
    }
    let bound = spec_parse_type(s, at, None);
    match bound.result {
        Err(e) => failed(spec_with_fatality(e, true), bound.index),
        Ok(bound_type) => {
            let entries = acc.push(bound_entry(name, acc.len(), bound_type));
            if name is Some && has_name(acc, GenericNameModel::Named(name.unwrap().text)) {
                failed(
                    spec_unexpected_token_error(
                        name.unwrap().text,
                        name.unwrap().span,
                        expected_unique_generic(),
                        true,
                    ),
                    bound.index,
                )
            } else {
                let after = skip_comments(s, bound.index);
                proof {
                    lemma_skip_comments(s, bound.index);
                }
                match kind_at(s, after) {
                    Some(TokenKind::Comma) if bound.index > i => spec_generics_entries(
                        s,
                        after + 1,
                        declared,
                        start,
                        entries,
                    ),
                    Some(TokenKind::RightAngleBracketOrGreaterThan) => done(
                        GenericsModel { span: start..tok(s, after).span.end, entries },
                        after + 1,
                    ),
                    _ => failed(
                        spec_error_here(s, after, expected_after_generic_type(), true),
                        past(s, after),
                    ),
                }
            }
        },
    }
}

/// A generics block from place `i` on, whose `<` started at byte `start`.
pub open spec fn spec_parse_generics(
    s: Seq<SpannedToken>,
    i: nat,
    declared: bool,
    start: usize,
) -> Step<GenericsModel> {
    spec_generics_entries(s, i, declared, start, seq![])
}

/// What is expected between the new name of a type alias and its type.
pub open spec fn expected_alias_assign() -> Seq<&'static str> {
    seq!["`=` (to seperate the type alias and the type it refers to)"]
}

/// A name with the generics it declares, from place `i` on: an identifier
/// and, if `<` follows, a block of declared generics. Comments may stand before
/// the name and after it. The tree is a type with generics over the name; with
/// no block its generics are empty and cover nothing, at the start of the name.
pub open spec fn spec_parse_name_and_generics(s: Seq<SpannedToken>, i: nat) -> Step<TypeModel> {
    let at = skip_comments(s, i);
    let head = spec_expect_token(s, at, TokenKind::Identifier, expected_type_start(), None);
    match head.result {
        Err(e) => failed(e, head.index),
        Ok(name) => {
            let base = TypeModel::RootName(name.span, name.text);
            let after = skip_comments(s, at + 1);
            if kind_at(s, after) == Some(TokenKind::LeftAngleBracketOrLessThan) {
                let block = spec_parse_generics(s, after + 1, true, tok(s, after).span.start);
                match block.result {
                    Err(e) => failed(e, block.index),
                    Ok(generics) => done(
                        TypeModel::GenericOf(
                            name.span.start..generics.span.end,
                            Box::new(base),
                            generics,
                        ),
                        block.index,
                    ),
                }
            } else {
                done(
                    TypeModel::GenericOf(
                        name.span.start..name.span.end,
                        Box::new(base),
                        GenericsModel { span: name.span.start..name.span.start, entries: seq![] },
                    ),
                    after,
                )
            }
        },
    }
}

/// A type alias from place `i` on, after its keyword, which started at byte
/// `start`: a name with generics, `=`, a type and a semicolon. Every failure is
/// fatal.
pub open spec fn spec_parse_type_alias(s: Seq<SpannedToken>, i: nat, start: usize) -> Step<
    TypeAliasModel,
> {
    let name = spec_parse_name_and_generics(s, i);
    match name.result {
        Err(e) => failed(e, name.index),
        Ok(aliased_type) => {
            let assign = spec_expect_token(
                s,
                name.index,
                TokenKind::Assign,
                expected_alias_assign(),
                None,
            );
            match assign.result {
                Err(e) => failed(e, assign.index),
                Ok(_) => {
                    let orig = spec_parse_type(s, assign.index, None);
                    match orig.result {
                        Err(e) => failed(spec_with_fatality(e, true), orig.index),
                        Ok(orig_type) => {
                            let semicolon = spec_expect_token(
                                s,
                                orig.index,
                                TokenKind::Semicolon,
                                seq!["`;`"],
                                None,
                            );
                            match semicolon.result {
                                Err(e) => failed(e, semicolon.index),
                                Ok(last) => done(
                                    TypeAliasModel {
                                        span: start..last.span.end,
                                        aliased_type,
                                        orig_type,
                                    },
                                    semicolon.index,
                                ),
                            }
                        },
                    }
                },
            }
        },
    }
}

/// Whether one of the entries goes by the name.
fn contains_name<'a>(entries: &Vec<GenericEntry<'a>>, name: &str) -> (r: bool)
    ensures
        r == has_name(models_of(entries@), GenericNameModel::Named(name@)),
{
    let mut k: usize = 0;
    while k < entries.len()
        invariant
            k <= entries@.len(),
            forall|j: int|
                0 <= j < k ==> (#[trigger] models_of(entries@)[j]).name != GenericNameModel::Named(
                    name@,
                ),
        decreases entries@.len() - k,
    {
        let found = match &entries[k].name {
            GenericName::Named(n) => str_eq(n, name),
            GenericName::Positional(_) => false,
        };
        if found {
            assert(models_of(entries@)[k as int].name == GenericNameModel::Named(name@));
            return true;
        }
        k += 1;
    }
    false
}

/// How one entry of a generics block ended: with the `>` that closes the
/// block, which ends at the byte given, or with a comma.
pub enum EntryEnd {
    Closed(usize),
    Open,
}

/// Whether a step through one entry of a generics block came to what the
/// rules say of the rest of the block: to the block's end, to a failure, or on
/// to the entries after the comma.
pub open spec fn entry_step_is(
    r: Result<EntryEnd, ParseError>,
    s: Seq<SpannedToken>,
    before: Step<GenericsModel>,
    index: nat,
    declared: bool,
    start: usize,
    entries: Seq<GenericEntryModel>,
) -> bool {
    match r {
        Ok(EntryEnd::Closed(end)) => {
            &&& before == done(GenericsModel { span: start..end, entries }, index)
            &&& 0 < index <= s.len()
            &&& end == tok(s, (index - 1) as nat).span.end
            &&& tok(s, (index - 1) as nat).kind == TokenKind::RightAngleBracketOrGreaterThan
        },
        Ok(EntryEnd::Open) => before == spec_generics_entries(s, index, declared, start, entries),
        Err(e) => before == failed::<GenericsModel>(e@, index),
    }
}

/// Whether the entries go by the names that entries of their block can go
/// by: no name twice, and each type argument by its position.
pub open spec fn names_in_order(entries: Seq<GenericEntryModel>, declared: bool) -> bool {
    &&& names_unique(entries)
    &&& !declared ==> forall|k: int|
        0 <= k < entries.len() ==> (#[trigger] entries[k]).name == GenericNameModel::Positional(
            k as nat,
        )
}

/// Entries stay named in order when one more is added under a new name: a
/// declared name that none of them has, or the next position.
pub proof fn lemma_names_in_order_push(
    entries: Seq<GenericEntryModel>,
    entry: GenericEntryModel,
    declared: bool,
)
    requires
        names_in_order(entries, declared),
        !has_name(entries, entry.name),
        !declared ==> entry.name == GenericNameModel::Positional(entries.len()),
    ensures
        names_in_order(entries.push(entry), declared),
{
    let after = entries.push(entry);
    assert forall|j: int, k: int| 0 <= j < k < after.len() implies (#[trigger] after[j]).name != (
    #[trigger] after[k]).name by {
        if k == entries.len() {
            assert(after[j] == entries[j]);
        } else {
            assert(after[j] == entries[j]);
            assert(after[k] == entries[k]);
        }
    }
    if !declared {
        assert forall|k: int| 0 <= k < after.len() implies (#[trigger] after[k]).name
            == GenericNameModel::Positional(k as nat) by {
            if k < entries.len() {
                assert(after[k] == entries[k]);
            }
        }
    }
}

/// Parses the type of an entry of a generics block, the bound of the
/// declared generic `named` or a type argument, adds the entry to `entries`,
/// and takes the comma or `>` after it.
fn parse_generic_bound<'a>(
    lxr: &mut LexerStruct<'a>,
    entries: &mut Vec<GenericEntry<'a>>,
    allow_constraints: bool,
    named: Option<(&'a str, usize, usize)>,
    Ghost(start): Ghost<usize>,
    Ghost(name): Ghost<Option<SpannedToken>>,
) -> (r: Result<EntryEnd, ParseError>)
    requires
        old(lxr).wf(),
        names_in_order(models_of(old(entries)@), allow_constraints),
        all_well_spanned(old(lxr).stream(), models_of(old(entries)@)),
        match named {
            Some((text, from, to)) => allow_constraints && name is Some && text@
                == name.unwrap().text && from == name.unwrap().span.start && to
                == name.unwrap().span.end,
            None => name is None && !allow_constraints,
        },
    ensures
        final(lxr).extends(*old(lxr)),
        old(lxr).index() <= final(lxr).index(),
        r is Ok ==> old(lxr).index() < final(lxr).index() && final(lxr).current() == Some(
            (final(lxr).index() - 1) as nat,
        ),
        names_in_order(models_of(final(entries)@), allow_constraints),
        all_well_spanned(old(lxr).stream(), models_of(final(entries)@)),
        entry_step_is(
            r,
            old(lxr).stream(),
            spec_generics_bound(
                old(lxr).stream(),
                old(lxr).index(),
                allow_constraints,
                start,
                models_of(old(entries)@),
                name,
            ),
            final(lxr).index(),
            allow_constraints,
            start,
            models_of(final(entries)@),
        ),
        r is Err ==> r->Err_0.fatal,
    decreases old(lxr).stream().len() - old(lxr).index(), 2nat,
{
    let ghost s = lxr.stream();
    let ghost i = lxr.index();
    let ghost acc = models_of(entries@);
    proof {
        lxr.lemma_bounds();
        lemma_skip_comments(s, i);
    }
    flush_comments(lxr);
    let generic_type = match parse_type(lxr, None) {
        Ok(t) => t,
        Err(e) => {
            return Err(e.with_fatality(true));
        },
    };
    let type_span = generic_type.get_span();
    let entry = match named {
        Some((text, name_start, name_end)) => {
            if contains_name(entries, text) {
                return Err(
                    ParseError::unexpected_token_error(
                        text,
                        name_start..name_end,
                        list1("a unique generic name"),
                        true,
                    ),
                );
            }
            GenericEntry {
                name: GenericName::Named(text),
                span: name_start..type_span.end,
                bound: Some(generic_type),
            }
        },
        None => GenericEntry {
            name: GenericName::Positional(entries.len()),
            span: type_span,
            bound: Some(generic_type),
        },
    };
    proof {
        lemma_models_of_push(entries@, entry);
        assert(entry@ == bound_entry(name, acc.len(), generic_type@));
        if !allow_constraints {
            assert forall|k: int| 0 <= k < acc.len() implies (#[trigger] acc[k]).name
                != entry@.name by {}
        }
        lemma_names_in_order_push(acc, entry@, allow_constraints);
        lemma_entries_well_spanned_push(s, acc, entry@);
    }
    entries.push(entry);
    let ghost typed = lxr.index();
    proof {
        lxr.lemma_bounds();
        lemma_skip_comments(s, typed);
    }
    flush_comments(lxr);
    match lxr.next() {
        Some(LexerToken::Comma) => Ok(EntryEnd::Open),
        Some(LexerToken::RightAngleBracketOrGreaterThan) => Ok(
            EntryEnd::Closed(lxr.span().unwrap().end),
        ),
        other => Err(
            call_error(
                lxr,
                other,
                list2("`>` (to close the generics)", "`,` (to signal the next generic)"),
                true,
            ),
        ),
    }
}

/// Parses one entry of a generics block with what follows it, a comma or
/// the `>` that closes the block, and adds the entry to `entries`. In a block
/// of declared generics the `>` may stand in place of an entry.
fn parse_generic_entry<'a>(
    lxr: &mut LexerStruct<'a>,
    entries: &mut Vec<GenericEntry<'a>>,
    allow_constraints: bool,
    Ghost(start): Ghost<usize>,
) -> (r: Result<EntryEnd, ParseError>)
    requires
        old(lxr).wf(),
        names_in_order(models_of(old(entries)@), allow_constraints),
        all_well_spanned(old(lxr).stream(), models_of(old(entries)@)),
    ensures
        final(lxr).extends(*old(lxr)),
        old(lxr).index() <= final(lxr).index(),
        r is Ok ==> old(lxr).index() < final(lxr).index() && final(lxr).current() == Some(
            (final(lxr).index() - 1) as nat,
        ),
        names_in_order(models_of(final(entries)@), allow_constraints),
        all_well_spanned(old(lxr).stream(), models_of(final(entries)@)),
        entry_step_is(
            r,
            old(lxr).stream(),
            spec_generics_entries(
                old(lxr).stream(),
                old(lxr).index(),
                allow_constraints,
                start,
                models_of(old(entries)@),
            ),
            final(lxr).index(),
            allow_constraints,
            start,
            models_of(final(entries)@),
        ),
        r is Err ==> r->Err_0.fatal,
    decreases old(lxr).stream().len() - old(lxr).index(), 3nat,
{
    let ghost s = lxr.stream();
    let ghost i = lxr.index();
    proof {
        lxr.lemma_bounds();
        lemma_skip_comments(s, i);
    }
    flush_comments(lxr);
    let ghost at = lxr.index();
    if !allow_constraints {
        return parse_generic_bound(lxr, entries, allow_constraints, None, Ghost(start), Ghost(None));
    }
    match lxr.next() {
        Some(LexerToken::RightAngleBracketOrGreaterThan) => {
            return Ok(EntryEnd::Closed(lxr.span().unwrap().end));
        },
        Some(LexerToken::Identifier(_)) => {},
        other => {
            return Err(
                call_error(
                    lxr,
                    other,
                    list2("`>` (to close the generics)", "identifier (to create a new generic)"),
                    true,
                ),
            );
        },
    }
    let name = lxr.slice().unwrap();
    let name_span = lxr.span().unwrap();
    let name_start = name_span.start;
    let name_end = name_span.end;
    proof {
        lxr.lemma_bounds();
        lemma_skip_comments(s, at + 1);
    }
    flush_comments(lxr);
    let repeated = contains_name(entries, name);
    let closed = match lxr.next() {
        Some(LexerToken::Comma) => false,
        Some(LexerToken::RightAngleBracketOrGreaterThan) => true,
        Some(LexerToken::Colon) => {
            return parse_generic_bound(
                lxr,
                entries,
                allow_constraints,
                Some((name, name_start, name_end)),
                Ghost(start),
                Ghost(Some(tok(s, at))),
            );
        },
        other => {
            return Err(
                call_error(
                    lxr,
                    other,
                    list3(
                        "`>` (to close the generics)",
                        "`,` (to signal the next generic)",
                        "`:` (to define a constraint on the current generic)",
                    ),
                    true,
                ),
            );
        },
    };
    if repeated {
        return Err(
            ParseError::unexpected_token_error(
                name,
                name_span,
                list1("a unique generic name"),
                true,
            ),
        );
    }
    let entry = GenericEntry { name: GenericName::Named(name), span: name_span, bound: None };
    proof {
        lemma_models_of_push(entries@, entry);
        lemma_names_in_order_push(models_of(entries@), entry@, allow_constraints);
        lemma_entries_well_spanned_push(s, models_of(entries@), entry@);
    }
    entries.push(entry);
    if closed {
        Ok(EntryEnd::Closed(lxr.span().unwrap().end))
    } else {
        Ok(EntryEnd::Open)
    }
}

/// Parses a generics block, after its `<`, which is the current token. With
/// `allow_constraints` the block declares generics, each an identifier with a
/// colon and a bound if it has one; without, it holds type arguments, which go
/// by their positions. Every failure is fatal. No two entries of the block
/// that comes out have the same name, and the types in it, with every type
/// expression inside them, cover tokens of their own.
pub fn parse_generics<'a>(lxr: &mut LexerStruct<'a>, allow_constraints: bool) -> (r: Result<
    Generics<'a>,
    ParseError,
>)
    requires
        old(lxr).wf(),
        old(lxr).current() is Some,
    ensures
        final(lxr).extends(*old(lxr)),
        old(lxr).index() <= final(lxr).index(),
        step_of(r, final(lxr).index()) == spec_parse_generics(
            old(lxr).stream(),
            old(lxr).index(),
            allow_constraints,
            tok(old(lxr).stream(), old(lxr).current().unwrap()).span.start,
        ),
        r is Ok ==> {
            &&& old(lxr).index() < final(lxr).index()
            &&& final(lxr).current() == Some((final(lxr).index() - 1) as nat)
            &&& names_unique(r.unwrap()@.entries)
            &&& r.unwrap()@.span.start == tok(
                old(lxr).stream(),
                old(lxr).current().unwrap(),
            ).span.start
            &&& r.unwrap()@.span.end == tok(
                old(lxr).stream(),
                (final(lxr).index() - 1) as nat,
            ).span.end
            &&& tok(old(lxr).stream(), (final(lxr).index() - 1) as nat).kind
                == TokenKind::RightAngleBracketOrGreaterThan
            &&& all_well_spanned(old(lxr).stream(), r.unwrap()@.entries)
        },
        r is Err ==> r->Err_0.fatal,
    decreases old(lxr).stream().len() - old(lxr).index(), 4nat,
{
    let ghost s = lxr.stream();
    let ghost i0 = lxr.index();
    proof {
        lxr.lemma_bounds();
    }
    let start = lxr.span().unwrap().start;
    let mut entries: Vec<GenericEntry<'a>> = Vec::new();
    proof {
        lemma_models_of_empty::<GenericEntry<'a>>();
    }
    loop
        invariant
            lxr.extends(*old(lxr)),
            s == old(lxr).stream(),
            i0 == old(lxr).index(),
            start == tok(s, old(lxr).current().unwrap()).span.start,
            i0 <= lxr.index(),
            spec_parse_generics(s, i0, allow_constraints, start) == spec_generics_entries(
                s,
                lxr.index(),
                allow_constraints,
                start,
                models_of(entries@),
            ),
            names_in_order(models_of(entries@), allow_constraints),
            all_well_spanned(s, models_of(entries@)),
        decreases s.len() - lxr.index(),
    {
        proof {
            lxr.lemma_bounds();
        }
        match parse_generic_entry(lxr, &mut entries, allow_constraints, Ghost(start)) {
            Ok(EntryEnd::Closed(end)) => {
                let generics = Generics { span: start..end, entries };
                proof {
                    lemma_generics_model(generics);
                }
                return Ok(generics);
            },
            Ok(EntryEnd::Open) => {},
            Err(e) => {
                return Err(e);
            },
        }
        proof {
            lxr.lemma_bounds();
        }
    }
}

/// Parses a type expression. With `curr_type` the expression goes on after
/// a dot, and its first identifier names a member of that type. Every failure
/// is fatal. The tree covers the bytes from the start of `curr_type`, or else
/// of the first token, to the end of the last token taken. Every type
/// expression inside it covers tokens of its own too, if `curr_type` does and
/// ends before the first token.
pub fn parse_type<'a>(lxr: &mut LexerStruct<'a>, curr_type: Option<AstType<'a>>) -> (r: Result<
    AstType<'a>,
    ParseError,
>)
    requires
        old(lxr).wf(),
    ensures
        final(lxr).extends(*old(lxr)),
        old(lxr).index() <= final(lxr).index(),
        step_of(r, final(lxr).index()) == spec_parse_type(
            old(lxr).stream(),
            old(lxr).index(),
            option_model(curr_type),
        ),
        r is Ok ==> {
            &&& old(lxr).index() < final(lxr).index()
            &&& final(lxr).current() == final(lxr).ahead()
            &&& r.unwrap()@.span().start == match curr_type {
                Some(of) => of@.span().start,
                None => tok(old(lxr).stream(), old(lxr).index()).span.start,
            }
            &&& r.unwrap()@.span().end == tok(
                old(lxr).stream(),
                (final(lxr).index() - 1) as nat,
            ).span.end
            &&& type_goes_on(old(lxr).stream(), option_model(curr_type), old(lxr).index())
                ==> type_well_spanned(old(lxr).stream(), r.unwrap()@)
        },
        r is Err ==> r->Err_0.fatal,
    decreases old(lxr).stream().len() - old(lxr).index(), 0nat,
{
    let ghost s = lxr.stream();
    let ghost i = lxr.index();
    let ghost curr = option_model(curr_type);
    let ghost text = lxr.spec_source().spec_bytes();
    proof {
        lxr.lemma_bounds();
    }
    match expect_token(lxr, LexerToken::Identifier(""), list1("identifier (as part of a type)")) {
        Ok(_) => {},
        Err(e) => {
            return Err(e);
        },
    }
    let name = lxr.slice().unwrap();
    let name_span = lxr.span().unwrap();
    let named = match curr_type {
        Some(of) => {
            let start = of.get_span().start;
            AstType::MemberOf(start..name_span.end, Box::new(of), name)
        },
        None => AstType::RootName(name_span, name),
    };
    let ghost named_model = named@;
    proof {
        if type_goes_on(s, curr, i) {
            lemma_spans_tokens_single(text, i);
            match curr {
                None => {},
                Some(of) => {
                    lemma_spans_tokens_extend(text, of.span(), named_model.span(), i);
                },
            }
            assert(type_well_spanned(s, named_model));
        }
    }
    match lxr.peek() {
        Some(LexerToken::MemberAccess) => {
            lxr.next();
            proof {
                lxr.lemma_bounds();
                if i + 2 < s.len() {
                    lemma_later_token(text, i as int, (i + 2) as int);
                }
            }
            parse_type(lxr, Some(named))
        },
        Some(LexerToken::LeftAngleBracketOrLessThan) => {
            lxr.next();
            let generics = match parse_generics(lxr, false) {
                Ok(g) => g,
                Err(e) => {
                    return Err(e);
                },
            };
            let start = named.get_span().start;
            let applied = AstType::GenericOf(start..generics.span.end, Box::new(named), generics);
            proof {
                lxr.lemma_bounds();
                if type_goes_on(s, curr, i) {
                    let closed = (lxr.index() - 1) as nat;
                    lemma_later_token(text, i as int, closed as int);
                    lemma_spans_tokens_single(text, closed);
                    lemma_spans_tokens_extend(text, named_model.span(), applied@.span(), closed);
                    assert(type_well_spanned(s, applied@));
                }
            }
            parse_type_after_generics(lxr, applied)
        },
        _ => Ok(named),
    }
}

/// Parses what follows a type with generics: a dot and the rest of the
/// type, or nothing.
fn parse_type_after_generics<'a>(lxr: &mut LexerStruct<'a>, applied: AstType<'a>) -> (r: Result<
    AstType<'a>,
    ParseError,
>)
    requires
        old(lxr).wf(),
        old(lxr).index() > 0,
        applied@.span().end == tok(old(lxr).stream(), (old(lxr).index() - 1) as nat).span.end,
    ensures
        final(lxr).extends(*old(lxr)),
        old(lxr).index() <= final(lxr).index(),
        step_of(r, final(lxr).index()) == spec_type_after_generics(
            old(lxr).stream(),
            old(lxr).index(),
            applied@,
        ),
        r is Ok ==> {
            &&& final(lxr).current() == final(lxr).ahead()
            &&& r.unwrap()@.span().start == applied@.span().start
            &&& r.unwrap()@.span().end == tok(
                old(lxr).stream(),
                (final(lxr).index() - 1) as nat,
            ).span.end
            &&& type_well_spanned(old(lxr).stream(), applied@) ==> type_well_spanned(
                old(lxr).stream(),
                r.unwrap()@,
            )
        },
        r is Err ==> r->Err_0.fatal,
    decreases old(lxr).stream().len() - old(lxr).index(), 1nat,
{
    let ghost i = lxr.index();
    let ghost text = lxr.spec_source().spec_bytes();
    proof {
        lxr.lemma_bounds();
    }
    match lxr.peek() {
        Some(LexerToken::MemberAccess) => {
            lxr.next();
            proof {
                lxr.lemma_bounds();
                if i + 1 < lxr.stream().len() {
                    lemma_later_token(text, i - 1, (i + 1) as int);
                }
            }
            parse_type(lxr, Some(applied))
        },
        Some(LexerToken::LeftAngleBracketOrLessThan) => Err(
            ParseError::unexpected_token_error(
                lxr.slice().unwrap(),
                lxr.span().unwrap(),
                list2("`.` (to continue type)", "end of type"),
                true,
            ),
        ),
        _ => Ok(applied),
    }
}

/// Parses a name with the generics it declares. A failure is fatal. The tree
/// starts where the name starts, and it and every type expression inside it
/// cover tokens of their own.
pub fn parse_name_and_generics<'a>(lxr: &mut LexerStruct<'a>) -> (r: Result<
    AstType<'a>,
    ParseError,
>)
    requires
        old(lxr).wf(),
    ensures
        final(lxr).extends(*old(lxr)),
        old(lxr).index() <= final(lxr).index(),
        step_of(r, final(lxr).index()) == spec_parse_name_and_generics(
            old(lxr).stream(),
            old(lxr).index(),
        ),
        r is Ok ==> {
            &&& old(lxr).index() < final(lxr).index()
            &&& r.unwrap()@.span().start == tok(
                old(lxr).stream(),
                skip_comments(old(lxr).stream(), old(lxr).index()),
            ).span.start
            &&& r.unwrap()@.span().end == tok(
                old(lxr).stream(),
                last_before(old(lxr).stream(), final(lxr).index()),
            ).span.end
            &&& type_well_spanned(old(lxr).stream(), r.unwrap()@)
        },
        r is Err ==> r->Err_0.fatal,
{
    let ghost s = lxr.stream();
    let ghost i = lxr.index();
    let ghost text = lxr.spec_source().spec_bytes();
    proof {
        lxr.lemma_bounds();
        lemma_skip_comments(s, i);
    }
    flush_comments(lxr);
    let ghost at = lxr.index();
    proof {
        if kind_at(s, at) == Some(TokenKind::Identifier) {
            lemma_last_before_skip(s, at);
            lemma_spans_tokens_single(text, at);
        }
    }
    match expect_token(lxr, LexerToken::Identifier(""), list1("identifier (as part of a type)")) {
        Ok(_) => {},
        Err(e) => {
            return Err(e);
        },
    }
    let name = lxr.slice().unwrap();
    let base_span = lxr.span().unwrap();
    let start = base_span.start;
    let name_end = base_span.end;
    let base_name = AstType::RootName(base_span, name);
    assert(base_name@ == TypeModel::RootName(base_span, name@));
    let ghost base_model = base_name@;
    proof {
        lemma_skip_comments(s, at + 1);
    }
    flush_comments(lxr);
    let at_block = match lxr.peek() {
        Some(LexerToken::LeftAngleBracketOrLessThan) => true,
        _ => false,
    };
    if at_block {
        lxr.next();
        let generics = match parse_generics(lxr, true) {
            Ok(g) => g,
            Err(e) => {
                return Err(e);
            },
        };
        let named = AstType::GenericOf(start..generics.span.end, Box::new(base_name), generics);
        proof {
            lxr.lemma_bounds();
            let closed = (lxr.index() - 1) as nat;
            lemma_later_token(text, at as int, closed as int);
            lemma_spans_tokens_single(text, closed);
            lemma_spans_tokens_extend(text, base_span, named@.span(), closed);
            assert(type_well_spanned(s, base_model));
        }
        Ok(named)
    } else {
        let generics = Generics { span: start..start, entries: Vec::new() };
        proof {
            lemma_generics_model(generics);
            lemma_models_of_empty::<GenericEntry<'a>>();
        }
        let ghost none = generics@;
        let named = AstType::GenericOf(start..name_end, Box::new(base_name), generics);
        proof {
            assert(named@->GenericOf_2 == none);
            assert(all_well_spanned(s, none.entries));
            assert(type_well_spanned(s, base_model));
        }
        Ok(named)
    }
}

/// Parses a type alias, after its keyword. The alias covers the bytes from
/// the start of the current token, the keyword, to the end of its semicolon;
/// where there is no current token, it starts at the largest offset. Every
/// failure is fatal.
pub fn parse_type_alias<'a>(lxr: &mut LexerStruct<'a>) -> (r: Result<
    TypeAliasAstNode<'a>,
    ParseError,
>)
    requires
        old(lxr).wf(),
    ensures
        final(lxr).extends(*old(lxr)),
        old(lxr).index() <= final(lxr).index(),
        step_of(r, final(lxr).index()) == spec_parse_type_alias(
            old(lxr).stream(),
            old(lxr).index(),
            match old(lxr).current() {
                Some(c) => tok(old(lxr).stream(), c).span.start,
                None => usize::MAX,
            },
        ),
        r is Ok ==> {
            &&& old(lxr).index() < final(lxr).index()
            &&& final(lxr).current() == Some((final(lxr).index() - 1) as nat)
            &&& old(lxr).current() is Some ==> r.unwrap()@.span.start == tok(
                old(lxr).stream(),
                old(lxr).current().unwrap(),
            ).span.start
            &&& type_well_spanned(old(lxr).stream(), r.unwrap()@.aliased_type)
            &&& type_well_spanned(old(lxr).stream(), r.unwrap()@.orig_type)
            &&& r.unwrap()@.span.end == tok(
                old(lxr).stream(),
                (final(lxr).index() - 1) as nat,
            ).span.end
        },
        r is Err ==> r->Err_0.fatal,
{
    let start_idx = match lxr.span() {
        Some(span) => span.start,
        None => usize::MAX,
    };
    let aliased_type = match parse_name_and_generics(lxr) {
        Ok(t) => t,
        Err(e) => {
            return Err(e);
        },
    };
    match expect_token(
        lxr,
        LexerToken::Assign,
        list1("`=` (to seperate the type alias and the type it refers to)"),
    ) {
        Ok(_) => {},
        Err(e) => {
            return Err(e);
        },
    }
    let orig_type = match parse_type(lxr, None) {
        Ok(t) => t,
        Err(e) => {
            return Err(e.with_fatality(true));
        },
    };
    proof {
        lxr.lemma_bounds();
    }
    match expect_semicolon(lxr) {
        Ok(_) => {},
        Err(e) => {
            return Err(e);
        },
    }
    let end = lxr.span().unwrap().end;
    Ok(TypeAliasAstNode { span: start_idx..end, aliased_type, orig_type })
}

} // verus!
