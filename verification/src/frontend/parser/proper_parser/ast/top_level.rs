//! Top-level statements, of which a program is a list.
use super::classes::{ClassDecAstNode, ClassDecModel};
use super::enums::{EnumDecAstNode, EnumDecModel};
use super::imports_exports::{ImportStatementAstNode, ImportStatementModel};
use super::interfaces::{InterfaceDecAstNode, InterfaceDecModel};
use super::structs::{StructDecAstNode, StructDecModel};
use super::types::{TypeAliasAstNode, TypeAliasModel};
use logos::Span;
use vstd::prelude::*;

verus! {

/// A top-level statement. An export covers the bytes from `export` to the end
/// of what it exports; a commented statement those from the start of the
/// comment to the end of the statement, and keeps the text of the comment.
/// `Empty` stands for no statement; the parser never hands it out.
#[derive(Debug)]
pub enum TopLevelAstNode<'a> {
    ImportFrom(Span, ImportStatementAstNode<'a>),
    Export(Span, Box<TopLevelAstNode<'a>>),
    ExportDefault(Span, Box<TopLevelAstNode<'a>>),
    EnumDec(Span, EnumDecAstNode<'a>),
    StructDec(Span, StructDecAstNode<'a>),
    ClassDec(Span, ClassDecAstNode<'a>),
    InterfaceDec(Span, InterfaceDecAstNode<'a>),
    TypeAlias(Span, TypeAliasAstNode<'a>),
    CommentedNode(Span, &'a str, Box<TopLevelAstNode<'a>>),
    Empty,
}

/// What a `TopLevelAstNode` holds.
pub enum TopLevelModel {
    ImportFrom(Span, ImportStatementModel),
    Export(Span, Box<TopLevelModel>),
    ExportDefault(Span, Box<TopLevelModel>),
    EnumDec(Span, EnumDecModel),
    StructDec(Span, StructDecModel),
    ClassDec(Span, ClassDecModel),
    InterfaceDec(Span, InterfaceDecModel),
    TypeAlias(Span, TypeAliasModel),
    CommentedNode(Span, Seq<char>, Box<TopLevelModel>),
    Empty,
}

impl<'a> View for TopLevelAstNode<'a> {
    type V = TopLevelModel;

    open spec fn view(&self) -> TopLevelModel
        decreases self,
    {
        match self {
            TopLevelAstNode::ImportFrom(span, node) => TopLevelModel::ImportFrom(*span, node@),
            TopLevelAstNode::Export(span, node) => TopLevelModel::Export(*span, Box::new((**node).view())),
            TopLevelAstNode::ExportDefault(span, node) => TopLevelModel::ExportDefault(
                *span,
                Box::new((**node).view()),
            ),
            TopLevelAstNode::EnumDec(span, node) => TopLevelModel::EnumDec(*span, node@),
            TopLevelAstNode::StructDec(span, node) => TopLevelModel::StructDec(*span, node@),
            TopLevelAstNode::ClassDec(span, node) => TopLevelModel::ClassDec(*span, node@),
            TopLevelAstNode::InterfaceDec(span, node) => TopLevelModel::InterfaceDec(*span, node@),
            TopLevelAstNode::TypeAlias(span, node) => TopLevelModel::TypeAlias(*span, node@),
            TopLevelAstNode::CommentedNode(span, comment, node) => TopLevelModel::CommentedNode(
                *span,
                comment@,
                Box::new((**node).view()),
            ),
            TopLevelAstNode::Empty => TopLevelModel::Empty,
        }
    }
}

impl TopLevelModel {
    /// The bytes that the statement covers, from its first keyword or comment
    /// to its closing brace or semicolon. `Empty` covers nothing: an empty
    /// range at the start of the text.
    pub open spec fn span(self) -> Span {
        match self {
            TopLevelModel::ImportFrom(span, _) => span,
            TopLevelModel::Export(span, _) => span,
            TopLevelModel::ExportDefault(span, _) => span,
            TopLevelModel::EnumDec(span, _) => span,
            TopLevelModel::StructDec(span, _) => span,
            TopLevelModel::ClassDec(span, _) => span,
            TopLevelModel::InterfaceDec(span, _) => span,
            TopLevelModel::TypeAlias(span, _) => span,
            TopLevelModel::CommentedNode(span, _, _) => span,
            TopLevelModel::Empty => 0..0,
        }
    }
}

impl<'a> TopLevelAstNode<'a> {
    /// The bytes that the statement covers. There is no answer for `Empty`.
    pub fn get_span(&self) -> (span: Span)
        requires
            !(self is Empty),
        ensures
            span == self@.span(),
    {
        match self {
            TopLevelAstNode::ImportFrom(span, _) => span.start..span.end,
            TopLevelAstNode::Export(span, _) => span.start..span.end,
            TopLevelAstNode::ExportDefault(span, _) => span.start..span.end,
            TopLevelAstNode::EnumDec(span, _) => span.start..span.end,
            TopLevelAstNode::StructDec(span, _) => span.start..span.end,
            TopLevelAstNode::ClassDec(span, _) => span.start..span.end,
            TopLevelAstNode::InterfaceDec(span, _) => span.start..span.end,
            TopLevelAstNode::TypeAlias(span, _) => span.start..span.end,
            TopLevelAstNode::CommentedNode(span, _, _) => span.start..span.end,
            TopLevelAstNode::Empty => 0..0,
        }
    }
}

} // verus!
