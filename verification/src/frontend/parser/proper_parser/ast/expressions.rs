//! Bodies of methods. They are not parsed yet: a body is a node without
//! contents that covers no token.
use vstd::prelude::*;

verus! {

/// The body of a method.
#[derive(Clone, Copy, Debug, PartialEq, Eq, Structural)]
pub struct ExpressionBlockAstNode {}

} // verus!
