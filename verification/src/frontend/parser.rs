//! Source text in, program tree or diagnostic out.
pub mod lexer;
pub mod proper_parser;

use self::lexer::get_custom_lexer_from_string;
use self::lexer::logos_lexer::{token_stream, SpannedToken};
use self::lexer::scan::{run_end, ByteClass};
use self::proper_parser::ast::models_of;
use self::proper_parser::ast::top_level::TopLevelModel;
use self::proper_parser::parse_error::ParseErrorModel;
use self::proper_parser::{
    get_ast_from_custom_lexer, in_text_order, spec_parse_program, TopLevelAstNodeListResult,
};
use vstd::prelude::*;
use vstd::string::StringSliceAdditionalSpecFns;

verus! {

/// What parsing a source text comes to: the top-level statements of the
/// program that its tokens make, or the fatal failure that stopped the parse.
pub open spec fn spec_parse_str(text: Seq<u8>) -> Result<Seq<TopLevelModel>, ParseErrorModel> {
    spec_parse_program(token_stream(text), 0, seq![]).result
}

/// What a parse gave, as a plain value.
pub open spec fn program_model(r: TopLevelAstNodeListResult) -> Result<
    Seq<TopLevelModel>,
    ParseErrorModel,
> {
    match r {
        Ok(statements) => Ok(models_of(statements@)),
        Err(err) => Err(err@),
    }
}

/// A text without a byte holds no token and parses to a program without a
/// statement: that nothing is left to parse is no failure of the parse.
pub proof fn lemma_empty_text_is_empty_program()
    ensures
        token_stream(Seq::<u8>::empty()) == Seq::<SpannedToken>::empty(),
        spec_parse_str(Seq::<u8>::empty()) == Ok::<Seq<TopLevelModel>, ParseErrorModel>(seq![]),
{
    let text = Seq::<u8>::empty();
    assert(run_end(text, 0, ByteClass::Blank) == 0);
    assert(token_stream(text) =~= Seq::<SpannedToken>::empty());
}

/// Parses a source text into a program: its top-level statements in order,
/// or the first fatal failure. The statements cover stretches of the text that
/// do not overlap, in the order of the text.
pub fn parse_str(str_to_parse: &str) -> (r: TopLevelAstNodeListResult)
    ensures
        program_model(r) == spec_parse_str(str_to_parse.spec_bytes()),
        r is Ok ==> in_text_order(models_of(r.unwrap()@)),
        r is Err ==> r->Err_0.fatal,
{
    let mut lxr = get_custom_lexer_from_string(str_to_parse);
    get_ast_from_custom_lexer(&mut lxr)
}

} // verus!
