//! Class declarations.
use super::fields::{FieldList, FieldModel};
use super::methods::{MethodList, MethodOrConstraintModel};
use super::models_of;
use super::publicity::AstClassItemPublicity;
use super::types::{AstType, TypeModel};
use logos::Span;
use vstd::prelude::*;

verus! {

/// A class declaration: its name with its generics, what it extends and
/// implements, its fields and its methods. It covers the bytes from `class` to
/// the closing brace.
#[derive(Debug)]
pub struct ClassDecAstNode<'a> {
    pub span: Span,
    pub class_type: AstType<'a>,
    pub extends: Option<AstType<'a>>,
    pub implements: Option<AstType<'a>>,
    pub fields: FieldList<'a, AstClassItemPublicity>,
    pub methods: MethodList<'a, AstClassItemPublicity>,
}

/// What a `ClassDecAstNode` holds.
pub struct ClassDecModel {
    pub span: Span,
    pub class_type: TypeModel,
    pub extends: Option<TypeModel>,
    pub implements: Option<TypeModel>,
    pub fields: Seq<FieldModel<AstClassItemPublicity>>,
    pub methods: Seq<MethodOrConstraintModel<AstClassItemPublicity>>,
}

impl<'a> View for ClassDecAstNode<'a> {
    type V = ClassDecModel;

    open spec fn view(&self) -> ClassDecModel {
        ClassDecModel {
            span: self.span,
            class_type: self.class_type@,
            extends: match self.extends {
                Some(t) => Some(t@),
                None => None,
            },
            implements: match self.implements {
                Some(t) => Some(t@),
                None => None,
            },
            fields: models_of(self.fields@),
            methods: models_of(self.methods@),
        }
    }
}

} // verus!
