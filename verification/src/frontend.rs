//! The front end: everything between source text and program tree.
pub mod parser;
