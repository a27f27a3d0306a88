//! The token cursor: the tokenizer behind a cache, so that the parser can look
//! ahead and go back without the text being cut into tokens twice.
use super::logos_lexer::{
    lex_token, spec_lex, token_stream, tokens_from, LexerToken, SpannedToken, TokenWithExtras,
};
use logos::Span;
use vstd::prelude::*;
use vstd::string::StringSliceAdditionalSpecFns;
use vstd::utf8::*;

verus! {

/// A place in the token stream that a cursor can go back to.
pub struct SavedLexerPosition(usize);

impl View for SavedLexerPosition {
    type V = nat;

    closed spec fn view(&self) -> nat {
        self.0 as nat
    }
}

/// A cursor over the tokens of a source text. It cuts the text into tokens
/// only as far as it has been read, and keeps every token it has cut.
pub struct CustomLexerStruct<'a> {
    source: &'a str,
    offset: usize,
    tokens: Vec<TokenWithExtras<'a>>,
    next_token_index: usize,
    current: Option<usize>,
}

impl<'a> CustomLexerStruct<'a> {
    /// The source text.
    pub closed spec fn spec_source(&self) -> &'a str {
        self.source
    }

    /// All the tokens of the source text, read or not.
    pub open spec fn stream(&self) -> Seq<SpannedToken> {
        token_stream(self.spec_source().spec_bytes())
    }

    /// The place in the stream of the token that `next` hands out next; the
    /// length of the stream where none is left.
    pub closed spec fn index(&self) -> nat {
        self.next_token_index as nat
    }

    /// The place in the stream of the token that `next` or `peek` handed out
    /// last; none before the first call and after one that found no token.
    pub closed spec fn current(&self) -> Option<nat> {
        match self.current {
            Some(c) => Some(c as nat),
            None => None,
        }
    }

    /// How many tokens the cursor has cut so far. It never gets smaller.
    pub closed spec fn cached(&self) -> nat {
        self.tokens@.len()
    }

    /// The invariant of the cursor: the tokens it keeps are the first tokens
    /// of the stream, the tokenizer stands where the rest of the stream
    /// starts, and the cursor stands among the tokens it keeps.
    pub closed spec fn wf(&self) -> bool {
        let bytes = self.source.spec_bytes();
        &&& self.tokens@.len() <= self.stream().len()
        &&& forall|k: int|
            0 <= k < self.tokens@.len() ==> (#[trigger] self.tokens@[k]).models(self.stream()[k])
        &&& self.offset <= bytes.len()
        &&& is_char_boundary(bytes, self.offset as int)
        &&& tokens_from(bytes, self.offset as int) == self.stream().skip(self.tokens@.len() as int)
        &&& self.next_token_index <= self.tokens@.len()
        &&& match self.current {
            Some(c) => c < self.tokens@.len(),
            None => true,
        }
    }

    /// Whether this cursor is a later state of `before`: a valid cursor over
    /// the same text that keeps at least as many tokens.
    pub open spec fn extends(&self, before: Self) -> bool {
        &&& self.wf()
        &&& self.spec_source() == before.spec_source()
        &&& self.cached() >= before.cached()
    }

    /// The place that `peek` looks at: the index, where a token is left.
    pub open spec fn ahead(&self) -> Option<nat> {
        if self.index() < self.stream().len() {
            Some(self.index())
        } else {
            None
        }
    }

    /// How many tokens the cursor has cut once the token at its index has been
    /// read: one more than now where that token is there and had not been cut.
    pub open spec fn cached_after_read(&self) -> nat {
        if self.index() == self.cached() && self.index() < self.stream().len() {
            self.cached() + 1
        } else {
            self.cached()
        }
    }

    /// A valid cursor stands inside the stream, among the tokens it has cut,
    /// and its current token is one of them.
    pub proof fn lemma_bounds(&self)
        requires
            self.wf(),
        ensures
            self.index() <= self.cached() <= self.stream().len(),
            self.current() is Some ==> self.current().unwrap() < self.cached(),
    {
    }

    /// A cursor at the start of a source text.
    pub fn new(source: &'a str) -> (lxr: Self)
        ensures
            lxr.wf(),
            lxr.spec_source() == source,
            lxr.index() == 0,
            lxr.current() is None,
            lxr.cached() == 0,
    {
        proof {
            encode_utf8_valid_utf8(source@);
            is_char_boundary_start_end_of_seq(source.spec_bytes());
            assert(token_stream(source.spec_bytes()).skip(0) =~= token_stream(source.spec_bytes()));
        }
        CustomLexerStruct {
            source,
            offset: 0,
            tokens: Vec::new(),
            next_token_index: 0,
            current: None,
        }
    }

    /// Hands out the next token and moves past it. At the end of the stream
    /// it hands out nothing and stays. The token is cut from the text the first
    /// time its place is reached and comes from the cache after that.
    pub fn next(&mut self) -> (r: Option<LexerToken<'a>>)
        requires
            old(self).wf(),
        ensures
            final(self).extends(*old(self)),
            final(self).current() == old(self).ahead(),
            final(self).cached() == old(self).cached_after_read(),
            match r {
                Some(t) => old(self).index() < old(self).stream().len() && t.models(
                    old(self).stream()[old(self).index() as int],
                ) && final(self).index() == old(self).index() + 1,
                None => old(self).index() == old(self).stream().len() && final(self).index()
                    == old(self).index(),
            },
    {
        let i = self.next_token_index;
        if i < self.tokens.len() {
            let t = self.tokens[i];
            self.current = Some(i);
            self.next_token_index = i + 1;
            Some(t.token)
        } else {
            let ghost bytes = self.source.spec_bytes();
            let ghost stream = self.stream();
            let ghost rest = stream.skip(i as int);
            match lex_token(self.source, self.offset) {
                Some(t) => {
                    proof {
                        let m = spec_lex(bytes, self.offset as int).unwrap();
                        assert(rest == seq![m] + tokens_from(bytes, m.span.end as int));
                        assert(rest.len() > 0);
                        assert(rest[0] == m);
                        assert(stream[i as int] == m);
                        assert(stream.skip(i + 1) =~= rest.skip(1));
                        assert(rest.skip(1) =~= tokens_from(bytes, m.span.end as int));
                    }
                    self.tokens.push(t);
                    self.offset = t.end;
                    self.current = Some(i);
                    self.next_token_index = self.tokens.len();
                    Some(t.token)
                },
                None => {
                    proof {
                        assert(rest.len() == 0);
                    }
                    self.current = None;
                    None
                },
            }
        }
    }

    /// Hands out the next token without moving past it.
    pub fn peek(&mut self) -> (r: Option<LexerToken<'a>>)
        requires
            old(self).wf(),
        ensures
            final(self).extends(*old(self)),
            final(self).index() == old(self).index(),
            final(self).current() == old(self).ahead(),
            final(self).cached() == old(self).cached_after_read(),
            match r {
                Some(t) => old(self).index() < old(self).stream().len() && t.models(
                    old(self).stream()[old(self).index() as int],
                ),
                None => old(self).index() == old(self).stream().len(),
            },
    {
        let optional_token = self.next();
        if optional_token.is_some() {
            self.next_token_index -= 1;
        }
        optional_token
    }

    /// The bytes that the current token covers.
    pub fn span(&self) -> (r: Option<Span>)
        requires
            self.wf(),
        ensures
            r == match self.current() {
                Some(c) => Some(self.stream()[c as int].span),
                None => None,
            },
    {
        match self.current {
            Some(c) => {
                let t = &self.tokens[c];
                Some(t.start..t.end)
            },
            None => None,
        }
    }

    /// The text of the current token.
    pub fn slice(&self) -> (r: Option<&'a str>)
        requires
            self.wf(),
        ensures
            match self.current() {
                Some(c) => r is Some && r.unwrap()@ == self.stream()[c as int].text,
                None => r is None,
            },
    {
        match self.current {
            Some(c) => Some(self.tokens[c].text),
            None => None,
        }
    }

    /// The bytes that the next token covers; the next token becomes the
    /// current one, without the cursor moving past it.
    pub fn peek_span(&mut self) -> (r: Option<Span>)
        requires
            old(self).wf(),
        ensures
            final(self).extends(*old(self)),
            final(self).index() == old(self).index(),
            final(self).current() == old(self).ahead(),
            final(self).cached() == old(self).cached_after_read(),
            r == match old(self).ahead() {
                Some(c) => Some(old(self).stream()[c as int].span),
                None => None,
            },
    {
        self.peek();
        self.span()
    }

    /// The text of the next token; the next token becomes the current one,
    /// without the cursor moving past it.
    pub fn peek_slice(&mut self) -> (r: Option<&'a str>)
        requires
            old(self).wf(),
        ensures
            final(self).extends(*old(self)),
            final(self).index() == old(self).index(),
            final(self).current() == old(self).ahead(),
            final(self).cached() == old(self).cached_after_read(),
            match old(self).ahead() {
                Some(c) => r is Some && r.unwrap()@ == old(self).stream()[c as int].text,
                None => r is None,
            },
    {
        self.peek();
        self.slice()
    }

    /// The place where the cursor stands, to go back to later.
    pub fn save_position(&self) -> (position: SavedLexerPosition)
        requires
            self.wf(),
        ensures
            position@ == self.index(),
            position@ <= self.cached(),
    {
        SavedLexerPosition(self.next_token_index)
    }

    /// Goes back to a place where the cursor stood before. The tokens from
    /// there on are handed out again as they were; nothing else changes.
    pub fn return_to_position(&mut self, position: SavedLexerPosition)
        requires
            old(self).wf(),
            position@ <= old(self).cached(),
        ensures
            final(self).extends(*old(self)),
            final(self).index() == position@,
            final(self).current() == old(self).current(),
            final(self).cached() == old(self).cached(),
            position@ == old(self).index() ==> *final(self) == *old(self),
    {
        self.next_token_index = position.0
    }

    /// Going back to a saved place brings the same tokens again: a later
    /// state of a cursor that stands where an earlier state stood has the same
    /// stream, so `next` hands out from it, token by token, what it handed out
    /// from the earlier state, with the same bytes and the same text.
    pub proof fn lemma_replay(&self, before: Self, k: nat)
        requires
            before.wf(),
            self.extends(before),
            self.index() == before.index(),
        ensures
            self.stream() == before.stream(),
            self.ahead() == before.ahead(),
            self.index() + k < self.stream().len() ==> self.stream()[(self.index() + k) as int]
                == before.stream()[(before.index() + k) as int],
    {
    }

    /// The source text that the cursor reads.
    pub fn source(&self) -> (r: &'a str)
        ensures
            r == self.spec_source(),
    {
        self.source
    }
}

} // verus!
