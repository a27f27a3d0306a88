//! Enum declarations and their cases.
use super::methods::{MethodList, MethodOrConstraintModel};
use super::models_of;
use super::publicity::AstPublicity;
use super::types::{AstType, TypeModel};
use logos::Span;
use vstd::prelude::*;

verus! {

/// One case of an enum: its name and the types of what it holds.
#[derive(Debug)]
pub struct EnumCaseAstNode<'a> {
    pub span: Span,
    pub case_name: &'a str,
    pub case_args: Vec<AstType<'a>>,
}

/// What an `EnumCaseAstNode` holds.
pub struct EnumCaseModel {
    pub span: Span,
    pub case_name: Seq<char>,
    pub case_args: Seq<TypeModel>,
}

impl<'a> View for EnumCaseAstNode<'a> {
    type V = EnumCaseModel;

    open spec fn view(&self) -> EnumCaseModel {
        EnumCaseModel {
            span: self.span,
            case_name: self.case_name@,
            case_args: models_of(self.case_args@),
        }
    }
}

/// The cases of an enum, in the order in which they stand.
pub type CaseList<'a> = Vec<EnumCaseAstNode<'a>>;

/// An enum declaration: its name with its generics, what it implements, its
/// cases and its methods. It covers the bytes from `enum` to the closing brace.
#[derive(Debug)]
pub struct EnumDecAstNode<'a> {
    pub span: Span,
    pub enum_type: AstType<'a>,
    pub implements: Option<AstType<'a>>,
    pub cases: CaseList<'a>,
    pub methods: MethodList<'a, AstPublicity>,
}

/// What an `EnumDecAstNode` holds.
pub struct EnumDecModel {
    pub span: Span,
    pub enum_type: TypeModel,
    pub implements: Option<TypeModel>,
    pub cases: Seq<EnumCaseModel>,
    pub methods: Seq<MethodOrConstraintModel<AstPublicity>>,
}

impl<'a> View for EnumDecAstNode<'a> {
    type V = EnumDecModel;

    open spec fn view(&self) -> EnumDecModel {
        EnumDecModel {
            span: self.span,
            enum_type: self.enum_type@,
            implements: match self.implements {
                Some(t) => Some(t@),
                None => None,
            },
            cases: models_of(self.cases@),
            methods: models_of(self.methods@),
        }
    }
}

} // verus!
