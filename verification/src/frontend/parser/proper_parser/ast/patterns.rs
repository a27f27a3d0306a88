//! Destructuring patterns, which say what an import binds.
use super::models_of;
use logos::Span;
use vstd::prelude::*;

verus! {

/// A destructuring pattern: a name, a name bound under another name, or a
/// name with the patterns that are taken out of it.
#[derive(Debug)]
pub enum AstDestructuringPattern<'a> {
    Name(Span, &'a str),
    AliasedName(Span, &'a str, &'a str),
    Destructured(Span, &'a str, Vec<AstDestructuringPattern<'a>>),
}

/// What an `AstDestructuringPattern` holds.
pub enum PatternModel {
    Name(Span, Seq<char>),
    AliasedName(Span, Seq<char>, Seq<char>),
    Destructured(Span, Seq<char>, Seq<PatternModel>),
}

/// What a pattern holds.
pub open spec fn pattern_model(pattern: AstDestructuringPattern) -> PatternModel
    decreases pattern, 0nat,
{
    match pattern {
        AstDestructuringPattern::Name(span, name) => PatternModel::Name(span, name@),
        AstDestructuringPattern::AliasedName(span, name, alias) => PatternModel::AliasedName(
            span,
            name@,
            alias@,
        ),
        AstDestructuringPattern::Destructured(span, name, children) => PatternModel::Destructured(
            span,
            name@,
            patterns_model(children@, children@.len()),
        ),
    }
}

/// What the first `n` patterns of a list hold.
pub open spec fn patterns_model(patterns: Seq<AstDestructuringPattern>, n: nat) -> Seq<
    PatternModel,
>
    decreases patterns, n,
{
    if n == 0 || n > patterns.len() {
        seq![]
    } else {
        patterns_model(patterns, (n - 1) as nat).push(pattern_model(patterns[n - 1]))
    }
}

impl<'a> View for AstDestructuringPattern<'a> {
    type V = PatternModel;

    open spec fn view(&self) -> PatternModel {
        pattern_model(*self)
    }
}

/// The first `n` patterns hold what each of them holds, in order.
pub proof fn lemma_patterns_model(patterns: Seq<AstDestructuringPattern>, n: nat)
    requires
        n <= patterns.len(),
    ensures
        patterns_model(patterns, n).len() == n,
        forall|i: int| 0 <= i < n ==> patterns_model(patterns, n)[i] == patterns[i]@,
    decreases n,
{
    if n > 0 {
        lemma_patterns_model(patterns, (n - 1) as nat);
    }
}

/// A pattern with nested patterns has the models of those patterns.
pub proof fn lemma_destructured_model(pattern: AstDestructuringPattern)
    ensures
        pattern matches AstDestructuringPattern::Destructured(span, name, children)
            ==> pattern@ == PatternModel::Destructured(span, name@, models_of(children@)),
{
    if let AstDestructuringPattern::Destructured(span, name, children) = pattern {
        lemma_patterns_model(children@, children@.len());
        assert(pattern@->Destructured_2 =~= models_of(children@));
    }
}

impl PatternModel {
    /// The bytes that the pattern covers.
    pub open spec fn span(self) -> Span {
        match self {
            PatternModel::Name(span, _) => span,
            PatternModel::AliasedName(span, _, _) => span,
            PatternModel::Destructured(span, _, _) => span,
        }
    }
}

impl<'a> AstDestructuringPattern<'a> {
    /// The bytes that the pattern covers.
    pub fn get_span(&self) -> (span: Span)
        ensures
            span == self@.span(),
    {
        match self {
            AstDestructuringPattern::Name(span, _) => span.start..span.end,
            AstDestructuringPattern::AliasedName(span, _, _) => span.start..span.end,
            AstDestructuringPattern::Destructured(span, _, _) => span.start..span.end,
        }
    }
}

} // verus!
