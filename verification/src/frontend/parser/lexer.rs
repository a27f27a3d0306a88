//! The tokenizer and the cursor that the parser reads it through.
pub mod custom_lexer_struct;
pub mod logos_lexer;
pub mod scan;

use self::custom_lexer_struct::CustomLexerStruct;
use vstd::prelude::*;

verus! {

/// A cursor at the start of a source text.
pub fn get_custom_lexer_from_string<'a>(str_to_lex: &'a str) -> (lxr: CustomLexerStruct<'a>)
    ensures
        lxr.wf(),
        lxr.spec_source() == str_to_lex,
        lxr.index() == 0,
        lxr.current() is None,
        lxr.cached() == 0,
{
    CustomLexerStruct::new(str_to_lex)
}

} // verus!
