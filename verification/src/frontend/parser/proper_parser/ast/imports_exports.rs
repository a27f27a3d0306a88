//! Import statements and the module paths they name.
use super::patterns::{AstDestructuringPattern, PatternModel};
use logos::Span;
use vstd::prelude::*;

verus! {

/// A path to a module: a root name, or a member of a module.
#[derive(Debug)]
pub enum AstModuleLocation<'a> {
    Root(Span, &'a str),
    MemberOf(Span, Box<AstModuleLocation<'a>>, &'a str),
}

/// What an `AstModuleLocation` holds.
pub enum ModuleLocationModel {
    Root(Span, Seq<char>),
    MemberOf(Span, Box<ModuleLocationModel>, Seq<char>),
}

impl<'a> View for AstModuleLocation<'a> {
    type V = ModuleLocationModel;

    open spec fn view(&self) -> ModuleLocationModel
        decreases self,
    {
        match self {
            AstModuleLocation::Root(span, name) => ModuleLocationModel::Root(*span, name@),
            AstModuleLocation::MemberOf(span, of, name) => ModuleLocationModel::MemberOf(
                *span,
                Box::new((**of).view()),
                name@,
            ),
        }
    }
}

impl ModuleLocationModel {
    /// The bytes that the path covers.
    pub open spec fn span(self) -> Span {
        match self {
            ModuleLocationModel::Root(span, _) => span,
            ModuleLocationModel::MemberOf(span, _, _) => span,
        }
    }
}

impl<'a> AstModuleLocation<'a> {
    /// The bytes that the path covers.
    pub fn get_span(&self) -> (span: Span)
        ensures
            span == self@.span(),
    {
        match self {
            AstModuleLocation::Root(span, _) => span.start..span.end,
            AstModuleLocation::MemberOf(span, _, _) => span.start..span.end,
        }
    }
}

/// An import statement: what it binds, and the module it takes it from. It
/// covers the bytes from its pattern to its semicolon.
#[derive(Debug)]
pub struct ImportStatementAstNode<'a> {
    pub span: Span,
    pub destructuring_pattern: AstDestructuringPattern<'a>,
    pub module_location: AstModuleLocation<'a>,
}

/// What an `ImportStatementAstNode` holds.
pub struct ImportStatementModel {
    pub span: Span,
    pub destructuring_pattern: PatternModel,
    pub module_location: ModuleLocationModel,
}

impl<'a> View for ImportStatementAstNode<'a> {
    type V = ImportStatementModel;

    open spec fn view(&self) -> ImportStatementModel {
        ImportStatementModel {
            span: self.span,
            destructuring_pattern: self.destructuring_pattern@,
            module_location: self.module_location@,
        }
    }
}

} // verus!
