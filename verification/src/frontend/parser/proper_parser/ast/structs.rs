//! Struct declarations.
use super::fields::{FieldList, FieldModel};
use super::methods::{MethodList, MethodOrConstraintModel};
use super::models_of;
use super::publicity::AstPublicity;
use super::types::{AstType, TypeModel};
use logos::Span;
use vstd::prelude::*;

verus! {

/// A struct declaration: its name with its generics, what it implements, its
/// fields and its methods. It covers the bytes from `struct` to the closing
/// brace.
#[derive(Debug)]
pub struct StructDecAstNode<'a> {
    pub span: Span,
    pub struct_type: AstType<'a>,
    pub implements: Option<AstType<'a>>,
    pub fields: FieldList<'a, AstPublicity>,
    pub methods: MethodList<'a, AstPublicity>,
}

/// What a `StructDecAstNode` holds.
pub struct StructDecModel {
    pub span: Span,
    pub struct_type: TypeModel,
    pub implements: Option<TypeModel>,
    pub fields: Seq<FieldModel<AstPublicity>>,
    pub methods: Seq<MethodOrConstraintModel<AstPublicity>>,
}

impl<'a> View for StructDecAstNode<'a> {
    type V = StructDecModel;

    open spec fn view(&self) -> StructDecModel {
        StructDecModel {
            span: self.span,
            struct_type: self.struct_type@,
            implements: match self.implements {
                Some(t) => Some(t@),
                None => None,
            },
            fields: models_of(self.fields@),
            methods: models_of(self.methods@),
        }
    }
}

} // verus!
