//! Fields of structs and classes.
use super::types::{AstType, TypeModel};
use logos::Span;
use vstd::prelude::*;

verus! {

/// A field: its visibility, its name and its type. It covers the bytes from
/// its visibility marker to the end of its type.
#[derive(Debug)]
pub struct FieldAstNode<'a, PublicityEnum> {
    pub span: Span,
    pub publicity: PublicityEnum,
    pub name: &'a str,
    pub field_type: AstType<'a>,
}

/// What a `FieldAstNode` holds.
pub struct FieldModel<PublicityEnum> {
    pub span: Span,
    pub publicity: PublicityEnum,
    pub name: Seq<char>,
    pub field_type: TypeModel,
}

impl<'a, PublicityEnum> View for FieldAstNode<'a, PublicityEnum> {
    type V = FieldModel<PublicityEnum>;

    open spec fn view(&self) -> FieldModel<PublicityEnum> {
        FieldModel {
            span: self.span,
            publicity: self.publicity,
            name: self.name@,
            field_type: self.field_type@,
        }
    }
}

/// The fields of a declaration, in the order in which they stand.
pub type FieldList<'a, PublicityEnum> = Vec<FieldAstNode<'a, PublicityEnum>>;

} // verus!
