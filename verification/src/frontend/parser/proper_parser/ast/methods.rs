//! Methods, their arguments, and constraint blocks.
use super::expressions::ExpressionBlockAstNode;
use super::models_of;
use super::types::{AstType, Generics, GenericsModel, TypeModel};
use logos::Span;
use vstd::prelude::*;

verus! {

/// An argument of a method: the instance, the instance to be changed, or a
/// name with its type.
#[derive(Debug)]
pub enum AstMethodArgument<'a> {
    This(Span),
    ThisMut(Span),
    Regular(Span, &'a str, AstType<'a>),
}

/// What an `AstMethodArgument` holds.
pub enum MethodArgumentModel {
    This(Span),
    ThisMut(Span),
    Regular(Span, Seq<char>, TypeModel),
}

impl<'a> View for AstMethodArgument<'a> {
    type V = MethodArgumentModel;

    open spec fn view(&self) -> MethodArgumentModel {
        match self {
            AstMethodArgument::This(span) => MethodArgumentModel::This(*span),
            AstMethodArgument::ThisMut(span) => MethodArgumentModel::ThisMut(*span),
            AstMethodArgument::Regular(span, name, arg_type) => MethodArgumentModel::Regular(
                *span,
                name@,
                arg_type@,
            ),
        }
    }
}

impl MethodArgumentModel {
    /// The bytes that the argument covers.
    pub open spec fn span(self) -> Span {
        match self {
            MethodArgumentModel::This(span) => span,
            MethodArgumentModel::ThisMut(span) => span,
            MethodArgumentModel::Regular(span, _, _) => span,
        }
    }
}

impl<'a> AstMethodArgument<'a> {
    /// The bytes that the argument covers.
    pub fn get_span(&self) -> (span: Span)
        ensures
            span == self@.span(),
    {
        match self {
            AstMethodArgument::This(span) => span.start..span.end,
            AstMethodArgument::ThisMut(span) => span.start..span.end,
            AstMethodArgument::Regular(span, _, _) => span.start..span.end,
        }
    }
}

/// A method: its visibility, its name with its generics, its arguments, the
/// type it returns if it names one, and its body.
#[derive(Debug)]
pub struct MethodAstNode<'a, Publicity> {
    pub span: Span,
    pub publicity: Publicity,
    pub new_type: AstType<'a>,
    pub args: Vec<AstMethodArgument<'a>>,
    pub return_type: Option<AstType<'a>>,
    pub body: ExpressionBlockAstNode,
}

/// What a `MethodAstNode` holds.
pub struct MethodModel<Publicity> {
    pub span: Span,
    pub publicity: Publicity,
    pub new_type: TypeModel,
    pub args: Seq<MethodArgumentModel>,
    pub return_type: Option<TypeModel>,
    pub body: ExpressionBlockAstNode,
}

impl<'a, Publicity> View for MethodAstNode<'a, Publicity> {
    type V = MethodModel<Publicity>;

    open spec fn view(&self) -> MethodModel<Publicity> {
        MethodModel {
            span: self.span,
            publicity: self.publicity,
            new_type: self.new_type@,
            args: models_of(self.args@),
            return_type: match self.return_type {
                Some(t) => Some(t@),
                None => None,
            },
            body: self.body,
        }
    }
}

/// A method with the comments that stand before it, the nearest one inmost.
#[derive(Debug)]
pub enum PossiblyDocumentedMethodAstNode<'a, Publicity> {
    BaseMethod(Span, MethodAstNode<'a, Publicity>),
    DocumentedMethod(Span, &'a str, Box<PossiblyDocumentedMethodAstNode<'a, Publicity>>),
}

/// What a `PossiblyDocumentedMethodAstNode` holds.
pub enum DocumentedMethodModel<Publicity> {
    BaseMethod(Span, MethodModel<Publicity>),
    DocumentedMethod(Span, Seq<char>, Box<DocumentedMethodModel<Publicity>>),
}

impl<'a, Publicity> View for PossiblyDocumentedMethodAstNode<'a, Publicity> {
    type V = DocumentedMethodModel<Publicity>;

    open spec fn view(&self) -> DocumentedMethodModel<Publicity>
        decreases self,
    {
        match self {
            PossiblyDocumentedMethodAstNode::BaseMethod(span, method) => DocumentedMethodModel::BaseMethod(
                *span,
                method@,
            ),
            PossiblyDocumentedMethodAstNode::DocumentedMethod(
                span,
                comment,
                method,
            ) => DocumentedMethodModel::DocumentedMethod(*span, comment@, Box::new((**method).view())),
        }
    }
}

impl<Publicity> DocumentedMethodModel<Publicity> {
    /// The bytes that the method covers, comments included.
    pub open spec fn span(self) -> Span {
        match self {
            DocumentedMethodModel::BaseMethod(span, _) => span,
            DocumentedMethodModel::DocumentedMethod(span, _, _) => span,
        }
    }
}

impl<'a, Publicity> PossiblyDocumentedMethodAstNode<'a, Publicity> {
    /// The bytes that the method covers, comments included.
    pub fn get_span(&self) -> (span: Span)
        ensures
            span == self@.span(),
    {
        match self {
            PossiblyDocumentedMethodAstNode::BaseMethod(span, _) => span.start..span.end,
            PossiblyDocumentedMethodAstNode::DocumentedMethod(span, _, _) => span.start..span.end,
        }
    }
}

/// An entry of a method list: a method, or a constraint block, which holds
/// the methods that exist where its generics meet their bounds.
#[derive(Debug)]
pub enum MethodOrConstraintAstNode<'a, Publicity> {
    Method(Span, PossiblyDocumentedMethodAstNode<'a, Publicity>),
    Constraint(Span, Generics<'a>, Vec<MethodOrConstraintAstNode<'a, Publicity>>),
}

/// What a `MethodOrConstraintAstNode` holds.
pub enum MethodOrConstraintModel<Publicity> {
    Method(Span, DocumentedMethodModel<Publicity>),
    Constraint(Span, GenericsModel, Seq<MethodOrConstraintModel<Publicity>>),
}

/// What an entry of a method list holds.
pub open spec fn method_entry_model<Publicity>(
    entry: MethodOrConstraintAstNode<Publicity>,
) -> MethodOrConstraintModel<Publicity>
    decreases entry, 0nat,
{
    match entry {
        MethodOrConstraintAstNode::Method(span, method) => MethodOrConstraintModel::Method(
            span,
            method@,
        ),
        MethodOrConstraintAstNode::Constraint(
            span,
            generics,
            methods,
        ) => MethodOrConstraintModel::Constraint(
            span,
            generics@,
            method_entries_model(methods@, methods@.len()),
        ),
    }
}

/// What the first `n` entries of a method list hold.
pub open spec fn method_entries_model<Publicity>(
    entries: Seq<MethodOrConstraintAstNode<Publicity>>,
    n: nat,
) -> Seq<MethodOrConstraintModel<Publicity>>
    decreases entries, n,
{
    if n == 0 || n > entries.len() {
        seq![]
    } else {
        method_entries_model(entries, (n - 1) as nat).push(method_entry_model(entries[n - 1]))
    }
}

impl<'a, Publicity> View for MethodOrConstraintAstNode<'a, Publicity> {
    type V = MethodOrConstraintModel<Publicity>;

    open spec fn view(&self) -> MethodOrConstraintModel<Publicity> {
        method_entry_model(*self)
    }
}

/// The first `n` entries hold what each of them holds, in order.
pub proof fn lemma_method_entries_model<Publicity>(
    entries: Seq<MethodOrConstraintAstNode<Publicity>>,
    n: nat,
)
    requires
        n <= entries.len(),
    ensures
        method_entries_model(entries, n).len() == n,
        forall|i: int| 0 <= i < n ==> method_entries_model(entries, n)[i] == entries[i]@,
    decreases n,
{
    if n > 0 {
        lemma_method_entries_model(entries, (n - 1) as nat);
    }
}

/// A constraint block has the models of its methods.
pub proof fn lemma_constraint_model<Publicity>(entry: MethodOrConstraintAstNode<Publicity>)
    ensures
        entry matches MethodOrConstraintAstNode::Constraint(span, generics, methods)
            ==> entry@ == MethodOrConstraintModel::Constraint(span, generics@, models_of(methods@)),
{
    if let MethodOrConstraintAstNode::Constraint(span, generics, methods) = entry {
        lemma_method_entries_model(methods@, methods@.len());
        assert(entry@->Constraint_2 =~= models_of(methods@));
    }
}

impl<Publicity> MethodOrConstraintModel<Publicity> {
    /// The bytes that the entry covers.
    pub open spec fn span(self) -> Span {
        match self {
            MethodOrConstraintModel::Method(span, _) => span,
            MethodOrConstraintModel::Constraint(span, _, _) => span,
        }
    }
}

impl<'a, Publicity> MethodOrConstraintAstNode<'a, Publicity> {
    /// The bytes that the entry covers.
    pub fn get_span(&self) -> (span: Span)
        ensures
            span == self@.span(),
    {
        match self {
            MethodOrConstraintAstNode::Method(span, _) => span.start..span.end,
            MethodOrConstraintAstNode::Constraint(span, _, _) => span.start..span.end,
        }
    }
}

/// The methods of a declaration, in the order in which they stand.
pub type MethodList<'a, Publicity> = Vec<MethodOrConstraintAstNode<'a, Publicity>>;

} // verus!
