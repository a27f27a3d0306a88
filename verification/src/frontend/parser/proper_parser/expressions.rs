//! Bodies of methods, which are not parsed yet.
use super::ast::expressions::ExpressionBlockAstNode;
use super::parse_error::ParseError;
use super::utility_things::LexerStruct;
use vstd::prelude::*;

verus! {

/// Parses the body of a method: takes no token and gives a body without
/// contents.
pub fn parse_block_expr<'a>(lxr: &mut LexerStruct<'a>) -> (r: Result<
    ExpressionBlockAstNode,
    ParseError,
>)
    ensures
        *final(lxr) == *old(lxr),
        r == Ok::<ExpressionBlockAstNode, ParseError>(ExpressionBlockAstNode {  }),
{
    Ok(ExpressionBlockAstNode {  })
}

} // verus!
