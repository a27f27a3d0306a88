//! Who may see an item of a declaration.
use vstd::prelude::*;

verus! {

/// The visibility of an item of a struct or an enum.
#[derive(Clone, Copy, Debug, PartialEq, Eq, Structural)]
pub enum AstPublicity {
    Public,
    Private,
    ModulePrivate,
}

/// The visibility of an item of a class.
#[derive(Clone, Copy, Debug, PartialEq, Eq, Structural)]
pub enum AstClassItemPublicity {
    Public,
    Private,
    ModulePrivate,
    Protected,
    ModuleProtected,
}

/// The visibility of a method of an interface.
#[derive(Clone, Copy, Debug, PartialEq, Eq, Structural)]
pub enum InterfaceMethodPublicity {
    Public,
}

} // verus!
