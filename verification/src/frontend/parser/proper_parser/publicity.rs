//! Visibility markers. Which markers a declaration takes depends on its kind;
//! each kind of visibility reads its own.
use super::super::lexer::logos_lexer::{LexerToken, SpannedToken, TokenKind};
use super::super::lexer::scan::str_eq;
use super::ast::publicity::{AstClassItemPublicity, AstPublicity, InterfaceMethodPublicity};
use super::parse_error::{ParseError, ParseErrorModel};
use super::utility_things::{
    call_error, kind_at, list1, spec_error_here, tok, LexerStruct,
};
use vstd::prelude::*;

verus! {

/// A kind of visibility that can be read off a marker. A marker is an
/// identifier; which identifiers are markers depends on the kind.
pub trait ParsePublicity: Sized {
    /// The visibility that a word marks, if it is a marker of this kind.
    spec fn spec_marker(text: Seq<char>) -> Option<Self>;

    /// What is expected where a marker of this kind has to stand.
    spec fn spec_expected() -> Seq<&'static str>;

    /// Reads the marker that stands next, without moving past it. Where none
    /// stands, the failure is not fatal and names what stands there.
    fn parse_publicity<'a>(lxr: &mut LexerStruct<'a>) -> (r: Result<Self, ParseError>)
        requires
            old(lxr).wf(),
        ensures
            final(lxr).extends(*old(lxr)),
            final(lxr).index() == old(lxr).index(),
            final(lxr).current() == old(lxr).ahead(),
            match r {
                Ok(publicity) => kind_at(old(lxr).stream(), old(lxr).index()) == Some(
                    TokenKind::Identifier,
                ) && Self::spec_marker(tok(old(lxr).stream(), old(lxr).index()).text) == Some(
                    publicity,
                ),
                Err(e) => !(kind_at(old(lxr).stream(), old(lxr).index()) == Some(
                    TokenKind::Identifier,
                ) && Self::spec_marker(tok(old(lxr).stream(), old(lxr).index()).text) is Some)
                    && e@ == spec_error_here(
                    old(lxr).stream(),
                    old(lxr).index(),
                    Self::spec_expected(),
                    false,
                ),
            },
    ;
}

/// Whether a marker of a kind of visibility stands at place `i`.
pub open spec fn marker_at<P: ParsePublicity>(s: Seq<SpannedToken>, i: nat) -> bool {
    kind_at(s, i) == Some(TokenKind::Identifier) && P::spec_marker(tok(s, i).text) is Some
}

/// The visibility that the marker at place `i` stands for; where none stands,
/// a failure that is not fatal.
pub open spec fn spec_parse_publicity<P: ParsePublicity>(s: Seq<SpannedToken>, i: nat) -> Result<
    P,
    ParseErrorModel,
> {
    if marker_at::<P>(s, i) {
        Ok(P::spec_marker(tok(s, i).text).unwrap())
    } else {
        Err(spec_error_here(s, i, P::spec_expected(), false))
    }
}

impl ParsePublicity for AstPublicity {
    open spec fn spec_marker(text: Seq<char>) -> Option<Self> {
        if text == "pub"@ {
            Some(AstPublicity::Public)
        } else if text == "mpriv"@ {
            Some(AstPublicity::ModulePrivate)
        } else if text == "priv"@ {
            Some(AstPublicity::Private)
        } else {
            None
        }
    }

    open spec fn spec_expected() -> Seq<&'static str> {
        seq!["[pub, mpriv, or priv] (to declare the publicity of a struct item)"]
    }

    fn parse_publicity<'a>(lxr: &mut LexerStruct<'a>) -> (r: Result<Self, ParseError>) {
        let token = lxr.peek();
        match token {
            Some(LexerToken::Identifier(word)) => {
                if str_eq(word, "pub") {
                    return Ok(AstPublicity::Public);
                } else if str_eq(word, "mpriv") {
                    return Ok(AstPublicity::ModulePrivate);
                } else if str_eq(word, "priv") {
                    return Ok(AstPublicity::Private);
                }
            },
            _ => {},
        }
        Err(
            call_error(
                lxr,
                token,
                list1("[pub, mpriv, or priv] (to declare the publicity of a struct item)"),
                false,
            ),
        )
    }
}

impl ParsePublicity for AstClassItemPublicity {
    open spec fn spec_marker(text: Seq<char>) -> Option<Self> {
        if text == "pub"@ {
            Some(AstClassItemPublicity::Public)
        } else if text == "mprot"@ {
            Some(AstClassItemPublicity::ModuleProtected)
        } else if text == "prot"@ {
            Some(AstClassItemPublicity::Protected)
        } else if text == "mpriv"@ {
            Some(AstClassItemPublicity::ModulePrivate)
        } else if text == "priv"@ {
            Some(AstClassItemPublicity::Private)
        } else {
            None
        }
    }

    open spec fn spec_expected() -> Seq<&'static str> {
        seq!["[pub, mprot, prot, mpriv, or priv] (to declare the publicity of a class item)"]
    }

    fn parse_publicity<'a>(lxr: &mut LexerStruct<'a>) -> (r: Result<Self, ParseError>) {
        let token = lxr.peek();
        match token {
            Some(LexerToken::Identifier(word)) => {
                if str_eq(word, "pub") {
                    return Ok(AstClassItemPublicity::Public);
                } else if str_eq(word, "mprot") {
                    return Ok(AstClassItemPublicity::ModuleProtected);
                } else if str_eq(word, "prot") {
                    return Ok(AstClassItemPublicity::Protected);
                } else if str_eq(word, "mpriv") {
                    return Ok(AstClassItemPublicity::ModulePrivate);
                } else if str_eq(word, "priv") {
                    return Ok(AstClassItemPublicity::Private);
                }
            },
            _ => {},
        }
        Err(
            call_error(
                lxr,
                token,
                list1(
                    "[pub, mprot, prot, mpriv, or priv] (to declare the publicity of a class item)",
                ),
                false,
            ),
        )
    }
}

impl ParsePublicity for InterfaceMethodPublicity {
    open spec fn spec_marker(text: Seq<char>) -> Option<Self> {
        if text == "pub"@ {
            Some(InterfaceMethodPublicity::Public)
        } else {
            None
        }
    }

    open spec fn spec_expected() -> Seq<&'static str> {
        seq!["[pub] (to declare the publicity of an interface method)"]
    }

    fn parse_publicity<'a>(lxr: &mut LexerStruct<'a>) -> (r: Result<Self, ParseError>) {
        let token = lxr.peek();
        match token {
            Some(LexerToken::Identifier(word)) => {
                if str_eq(word, "pub") {
                    return Ok(InterfaceMethodPublicity::Public);
                }
            },
            _ => {},
        }
        Err(
            call_error(
                lxr,
                token,
                list1("[pub] (to declare the publicity of an interface method)"),
                false,
            ),
        )
    }
}

} // verus!
