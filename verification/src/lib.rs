//! Front end of the uck compiler: a tokenizer, a rewindable token cursor and a
//! recursive-descent parser that turns source text into a program tree or a
//! single diagnostic.
pub mod frontend;
