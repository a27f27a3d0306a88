//! Interface declarations.
use super::methods::{MethodList, MethodOrConstraintModel};
use super::models_of;
use super::publicity::InterfaceMethodPublicity;
use super::types::{AstType, TypeModel};
use logos::Span;
use vstd::prelude::*;

verus! {

/// An interface declaration: its name with its generics, what it extends, and
/// its methods. It covers the bytes from `interface` to the closing brace.
#[derive(Debug)]
pub struct InterfaceDecAstNode<'a> {
    pub span: Span,
    pub interface_type: AstType<'a>,
    pub extends: Option<AstType<'a>>,
    pub methods: MethodList<'a, InterfaceMethodPublicity>,
}

/// What an `InterfaceDecAstNode` holds.
pub struct InterfaceDecModel {
    pub span: Span,
    pub interface_type: TypeModel,
    pub extends: Option<TypeModel>,
    pub methods: Seq<MethodOrConstraintModel<InterfaceMethodPublicity>>,
}

impl<'a> View for InterfaceDecAstNode<'a> {
    type V = InterfaceDecModel;

    open spec fn view(&self) -> InterfaceDecModel {
        InterfaceDecModel {
            span: self.span,
            interface_type: self.interface_type@,
            extends: match self.extends {
                Some(t) => Some(t@),
                None => None,
            },
            methods: models_of(self.methods@),
        }
    }
}

} // verus!
