//! Type expressions, generics blocks and type aliases.
use super::models_of;
use logos::Span;
use vstd::prelude::*;

verus! {

/// The name that an entry of a generics block goes by: the identifier of a
/// declared generic, or the position of a type argument.
#[derive(Debug)]
pub enum GenericName<'a> {
    Named(&'a str),
    Positional(usize),
}

/// What a `GenericName` holds.
pub enum GenericNameModel {
    Named(Seq<char>),
    Positional(nat),
}

impl<'a> View for GenericName<'a> {
    type V = GenericNameModel;

    open spec fn view(&self) -> GenericNameModel {
        match self {
            GenericName::Named(name) => GenericNameModel::Named(name@),
            GenericName::Positional(at) => GenericNameModel::Positional(*at as nat),
        }
    }
}

/// One entry of a generics block: its name, the bytes it covers, and its
/// bound (for a type argument, the argument).
#[derive(Debug)]
pub struct GenericEntry<'a> {
    pub name: GenericName<'a>,
    pub span: Span,
    pub bound: Option<AstType<'a>>,
}

/// What a `GenericEntry` holds.
pub struct GenericEntryModel {
    pub name: GenericNameModel,
    pub span: Span,
    pub bound: Option<TypeModel>,
}

/// A generics block: the bytes from `<` to `>`, and its entries in the order
/// in which they stand. No two entries have the same name.
#[derive(Debug)]
pub struct Generics<'a> {
    pub span: Span,
    pub entries: Vec<GenericEntry<'a>>,
}

/// What a `Generics` holds.
pub struct GenericsModel {
    pub span: Span,
    pub entries: Seq<GenericEntryModel>,
}

/// A type expression: a name, a member of a type, or a type with generics.
#[derive(Debug)]
pub enum AstType<'a> {
    RootName(Span, &'a str),
    MemberOf(Span, Box<AstType<'a>>, &'a str),
    GenericOf(Span, Box<AstType<'a>>, Generics<'a>),
}

/// What an `AstType` holds.
pub enum TypeModel {
    RootName(Span, Seq<char>),
    MemberOf(Span, Box<TypeModel>, Seq<char>),
    GenericOf(Span, Box<TypeModel>, GenericsModel),
}

/// What a type expression holds.
pub open spec fn type_model(t: AstType) -> TypeModel
    decreases t, 0nat,
{
    match t {
        AstType::RootName(span, name) => TypeModel::RootName(span, name@),
        AstType::MemberOf(span, of, name) => TypeModel::MemberOf(
            span,
            Box::new(type_model(*of)),
            name@,
        ),
        AstType::GenericOf(span, of, generics) => TypeModel::GenericOf(
            span,
            Box::new(type_model(*of)),
            generics_model(generics),
        ),
    }
}

/// What a generics block holds.
pub open spec fn generics_model(generics: Generics) -> GenericsModel
    decreases generics, 0nat,
{
    GenericsModel {
        span: generics.span,
        entries: entries_model(generics.entries@, generics.entries@.len()),
    }
}

/// What the first `n` entries of a generics block hold.
pub open spec fn entries_model(entries: Seq<GenericEntry>, n: nat) -> Seq<GenericEntryModel>
    decreases entries, n,
{
    if n == 0 || n > entries.len() {
        seq![]
    } else {
        entries_model(entries, (n - 1) as nat).push(entry_model(entries[n - 1]))
    }
}

/// What an entry of a generics block holds.
pub open spec fn entry_model(entry: GenericEntry) -> GenericEntryModel
    decreases entry, 0nat,
{
    GenericEntryModel {
        name: entry.name@,
        span: entry.span,
        bound: match entry.bound {
            Some(t) => Some(type_model(t)),
            None => None,
        },
    }
}

impl<'a> View for GenericEntry<'a> {
    type V = GenericEntryModel;

    open spec fn view(&self) -> GenericEntryModel {
        entry_model(*self)
    }
}

impl<'a> View for Generics<'a> {
    type V = GenericsModel;

    open spec fn view(&self) -> GenericsModel {
        generics_model(*self)
    }
}

impl<'a> View for AstType<'a> {
    type V = TypeModel;

    open spec fn view(&self) -> TypeModel {
        type_model(*self)
    }
}

/// The first `n` entries hold what each of them holds, in order.
pub proof fn lemma_entries_model(entries: Seq<GenericEntry>, n: nat)
    requires
        n <= entries.len(),
    ensures
        entries_model(entries, n).len() == n,
        forall|i: int| 0 <= i < n ==> entries_model(entries, n)[i] == entries[i]@,
    decreases n,
{
    if n > 0 {
        lemma_entries_model(entries, (n - 1) as nat);
    }
}

/// The entries of a generics block have the models of its entries.
pub proof fn lemma_generics_model(generics: Generics)
    ensures
        generics@ == (GenericsModel { span: generics.span, entries: models_of(generics.entries@) }),
{
    lemma_entries_model(generics.entries@, generics.entries@.len());
    assert(generics@.entries =~= models_of(generics.entries@));
}

/// Whether one of the entries goes by the name.
pub open spec fn has_name(entries: Seq<GenericEntryModel>, name: GenericNameModel) -> bool {
    exists|k: int| 0 <= k < entries.len() && (#[trigger] entries[k]).name == name
}

/// Whether no two of the entries go by the same name.
pub open spec fn names_unique(entries: Seq<GenericEntryModel>) -> bool {
    forall|j: int, k: int|
        0 <= j < k < entries.len() ==> (#[trigger] entries[j]).name != (#[trigger] entries[k]).name
}

impl TypeModel {
    /// The bytes that the type expression covers.
    pub open spec fn span(self) -> Span {
        match self {
            TypeModel::RootName(span, _) => span,
            TypeModel::MemberOf(span, _, _) => span,
            TypeModel::GenericOf(span, _, _) => span,
        }
    }
}

impl<'a> AstType<'a> {
    /// The bytes that the type expression covers.
    pub fn get_span(&self) -> (span: Span)
        ensures
            span == self@.span(),
    {
        match self {
            AstType::RootName(span, _) => span.start..span.end,
            AstType::MemberOf(span, _, _) => span.start..span.end,
            AstType::GenericOf(span, _, _) => span.start..span.end,
        }
    }
}

/// A type alias: the new name with its generics, and the type it stands for.
#[derive(Debug)]
pub struct TypeAliasAstNode<'a> {
    pub span: Span,
    pub aliased_type: AstType<'a>,
    pub orig_type: AstType<'a>,
}

/// What a `TypeAliasAstNode` holds.
pub struct TypeAliasModel {
    pub span: Span,
    pub aliased_type: TypeModel,
    pub orig_type: TypeModel,
}

impl<'a> View for TypeAliasAstNode<'a> {
    type V = TypeAliasModel;

    open spec fn view(&self) -> TypeAliasModel {
        TypeAliasModel {
            span: self.span,
            aliased_type: self.aliased_type@,
            orig_type: self.orig_type@,
        }
    }
}

} // verus!
