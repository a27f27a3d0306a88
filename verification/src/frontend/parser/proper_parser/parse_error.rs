//! The one kind of failure that parsing knows, and the rule that merges two
//! failures of alternatives into one.
use logos::Span;
use vstd::prelude::*;
use vstd::string::StringExecFns;

verus! {

/// Why parsing stopped: what could have stood there, where, what stood there
/// instead, whether the text had ended, and whether the failure is fatal.
#[derive(Debug)]
pub struct ParseError {
    pub expected: Vec<&'static str>,
    pub span: Span,
    pub got: Option<String>,
    pub is_eof: bool,
    pub fatal: bool,
}

/// What a `ParseError` says, as a plain value.
pub struct ParseErrorModel {
    pub expected: Seq<&'static str>,
    pub span: Span,
    pub got: Option<Seq<char>>,
    pub is_eof: bool,
    pub fatal: bool,
}

impl View for ParseError {
    type V = ParseErrorModel;

    open spec fn view(&self) -> ParseErrorModel {
        ParseErrorModel {
            expected: self.expected@,
            span: self.span,
            got: match self.got {
                Some(s) => Some(s@),
                None => None,
            },
            is_eof: self.is_eof,
            fatal: self.fatal,
        }
    }
}

/// The place of a failure at the end of the text: the largest offset, twice.
pub open spec fn end_of_input_span() -> Span {
    usize::MAX..usize::MAX
}

/// The failure "the text ended, one of `expected` should have followed".
pub open spec fn spec_end_of_file_error(expected: Seq<&'static str>, fatal: bool) -> ParseErrorModel {
    ParseErrorModel { expected, span: end_of_input_span(), got: None, is_eof: true, fatal }
}

/// The failure "`got` stands at `span`, one of `expected` should have".
pub open spec fn spec_unexpected_token_error(
    got: Seq<char>,
    span: Span,
    expected: Seq<&'static str>,
    fatal: bool,
) -> ParseErrorModel {
    ParseErrorModel { expected, span, got: Some(got), is_eof: false, fatal }
}

/// The smaller of two offsets.
pub open spec fn spec_min(a: usize, b: usize) -> usize {
    if a <= b {
        a
    } else {
        b
    }
}

/// Two failures merged: everything that either expected, first the first
/// one's; the end of the text if either met it, and then nothing found; else
/// the smaller start and the smaller end, and what the first one found; fatal
/// if either is.
pub open spec fn spec_combine_parse_errors(
    err_1: ParseErrorModel,
    err_2: ParseErrorModel,
) -> ParseErrorModel {
    ParseErrorModel {
        expected: err_1.expected + err_2.expected,
        span: if err_1.is_eof || err_2.is_eof {
            end_of_input_span()
        } else {
            spec_min(err_1.span.start, err_2.span.start)..spec_min(err_1.span.end, err_2.span.end)
        },
        got: if err_1.is_eof || err_2.is_eof {
            None
        } else {
            err_1.got
        },
        is_eof: err_1.is_eof || err_2.is_eof,
        fatal: err_1.fatal || err_2.fatal,
    }
}

/// The same failure with its fatality set.
pub open spec fn spec_with_fatality(err: ParseErrorModel, fatal: bool) -> ParseErrorModel {
    ParseErrorModel { fatal, ..err }
}

/// A merged failure expects a description exactly when one of the two did,
/// and is the end of the text or fatal exactly when one of the two was. At the
/// end of the text it holds the sentinel and nothing found.
pub proof fn lemma_combined_expects_union(
    err_1: ParseErrorModel,
    err_2: ParseErrorModel,
    description: &'static str,
)
    ensures
        spec_combine_parse_errors(err_1, err_2).expected.contains(description) <==> (
        err_1.expected.contains(description) || err_2.expected.contains(description)),
        spec_combine_parse_errors(err_1, err_2).is_eof <==> (err_1.is_eof || err_2.is_eof),
        spec_combine_parse_errors(err_1, err_2).fatal <==> (err_1.fatal || err_2.fatal),
        spec_combine_parse_errors(err_1, err_2).is_eof ==> spec_combine_parse_errors(
            err_1,
            err_2,
        ).span == end_of_input_span(),
        spec_combine_parse_errors(err_1, err_2).is_eof ==> spec_combine_parse_errors(
            err_1,
            err_2,
        ).got is None,
{
    let a = err_1.expected;
    let b = err_2.expected;
    if a.contains(description) {
        let i = choose|i: int| 0 <= i < a.len() && a[i] == description;
        assert((a + b)[i] == description);
    }
    if b.contains(description) {
        let i = choose|i: int| 0 <= i < b.len() && b[i] == description;
        assert((a + b)[a.len() + i] == description);
    }
    if (a + b).contains(description) {
        let i = choose|i: int| 0 <= i < (a + b).len() && (a + b)[i] == description;
        if i < a.len() {
            assert(a[i] == description);
        } else {
            assert(b[i - a.len()] == description);
        }
    }
}

/// Which of two failures comes first does not change whether the merged
/// failure is fatal, whether it is the end of the text, where it is reported,
/// or which descriptions it expects.
pub proof fn lemma_combined_in_either_order(
    err_1: ParseErrorModel,
    err_2: ParseErrorModel,
    description: &'static str,
)
    ensures
        spec_combine_parse_errors(err_1, err_2).fatal == spec_combine_parse_errors(
            err_2,
            err_1,
        ).fatal,
        spec_combine_parse_errors(err_1, err_2).is_eof == spec_combine_parse_errors(
            err_2,
            err_1,
        ).is_eof,
        spec_combine_parse_errors(err_1, err_2).span == spec_combine_parse_errors(
            err_2,
            err_1,
        ).span,
        spec_combine_parse_errors(err_1, err_2).expected.contains(description)
            <==> spec_combine_parse_errors(err_2, err_1).expected.contains(description),
{
    lemma_combined_expects_union(err_1, err_2, description);
    lemma_combined_expects_union(err_2, err_1, description);
}

/// The text of a decimal digit.
pub open spec fn digit_text(d: nat) -> Seq<char> {
    if d == 0 {
        "0"@
    } else if d == 1 {
        "1"@
    } else if d == 2 {
        "2"@
    } else if d == 3 {
        "3"@
    } else if d == 4 {
        "4"@
    } else if d == 5 {
        "5"@
    } else if d == 6 {
        "6"@
    } else if d == 7 {
        "7"@
    } else if d == 8 {
        "8"@
    } else {
        "9"@
    }
}

/// A number written in decimal digits.
pub open spec fn decimal_text(n: nat) -> Seq<char>
    decreases n,
{
    if n < 10 {
        digit_text(n)
    } else {
        decimal_text(n / 10) + digit_text(n % 10)
    }
}

/// The first `n` descriptions, with ` or ` between them.
pub open spec fn alternatives_text(expected: Seq<&'static str>, n: nat) -> Seq<char>
    decreases n,
{
    if n == 0 {
        Seq::empty()
    } else if n == 1 {
        expected[0]@
    } else {
        alternatives_text(expected, (n - 1) as nat) + " or "@ + expected[n - 1]@
    }
}

/// What a failure says in words. At the end of the text:
/// `unexpected end of input, expected A or B`. At a token:
/// ``unexpected `TOKEN` at START..END, expected A or B``, with the text of the
/// token that was found and the bytes at which the failure is reported.
pub open spec fn spec_message(err: ParseErrorModel) -> Seq<char> {
    let alternatives = alternatives_text(err.expected, err.expected.len());
    if err.is_eof {
        "unexpected end of input, expected "@ + alternatives
    } else {
        "unexpected `"@ + (match err.got {
            Some(got) => got,
            None => Seq::empty(),
        }) + "` at "@ + decimal_text(err.span.start as nat) + ".."@ + decimal_text(
            err.span.end as nat,
        ) + ", expected "@ + alternatives
    }
}

/// The text of a decimal digit.
fn digit_str(d: usize) -> (text: &'static str)
    requires
        d < 10,
    ensures
        text@ == digit_text(d as nat),
{
    if d == 0 {
        "0"
    } else if d == 1 {
        "1"
    } else if d == 2 {
        "2"
    } else if d == 3 {
        "3"
    } else if d == 4 {
        "4"
    } else if d == 5 {
        "5"
    } else if d == 6 {
        "6"
    } else if d == 7 {
        "7"
    } else if d == 8 {
        "8"
    } else {
        "9"
    }
}

/// Writes a number in decimal digits at the end of a text.
fn append_decimal(text: &mut String, n: usize)
    ensures
        final(text)@ == old(text)@ + decimal_text(n as nat),
    decreases n,
{
    if n >= 10 {
        append_decimal(text, n / 10);
    }
    text.append(digit_str(n % 10));
}

/// Writes descriptions, with ` or ` between them, at the end of a text.
fn append_alternatives(text: &mut String, expected: &Vec<&'static str>)
    ensures
        final(text)@ == old(text)@ + alternatives_text(expected@, expected@.len()),
{
    let mut i: usize = 0;
    while i < expected.len()
        invariant
            i <= expected@.len(),
            text@ == old(text)@ + alternatives_text(expected@, i as nat),
        decreases expected@.len() - i,
    {
        if i > 0 {
            text.append(" or ");
        }
        text.append(expected[i]);
        i += 1;
    }
}

impl ParseError {
    /// What the failure says in words.
    pub fn message(&self) -> (text: String)
        ensures
            text@ == spec_message(self@),
    {
        let mut text = String::new();
        if self.is_eof {
            text.append("unexpected end of input, expected ");
        } else {
            text.append("unexpected `");
            match &self.got {
                Some(got) => {
                    text.append(got.as_str());
                },
                None => {},
            }
            text.append("` at ");
            append_decimal(&mut text, self.span.start);
            text.append("..");
            append_decimal(&mut text, self.span.end);
            text.append(", expected ");
        }
        append_alternatives(&mut text, &self.expected);
        text
    }

    /// The failure "the text ended, one of `expected` should have followed".
    pub fn end_of_file_error(expected: Vec<&'static str>, is_fatal: bool) -> (err: Self)
        ensures
            err@ == spec_end_of_file_error(expected@, is_fatal),
    {
        ParseError {
            expected,
            span: usize::MAX..usize::MAX,
            got: None,
            is_eof: true,
            fatal: is_fatal,
        }
    }

    /// The failure "`got` stands at `span`, one of `expected` should have".
    pub fn unexpected_token_error(
        got: &str,
        span: Span,
        expected: Vec<&'static str>,
        is_fatal: bool,
    ) -> (err: Self)
        ensures
            err@ == spec_unexpected_token_error(got@, span, expected@, is_fatal),
    {
        ParseError { expected, span, got: Some(got.to_owned()), is_eof: false, fatal: is_fatal }
    }

    /// The same failure with its fatality set.
    pub fn with_fatality(self, is_fatal: bool) -> (err: Self)
        ensures
            err@ == spec_with_fatality(self@, is_fatal),
    {
        ParseError {
            expected: self.expected,
            span: self.span,
            got: self.got,
            is_eof: self.is_eof,
            fatal: is_fatal,
        }
    }
}

/// Merges the failures of two alternatives into one diagnostic.
pub fn combine_parse_errors(err_1: ParseError, err_2: ParseError) -> (err: ParseError)
    ensures
        err@ == spec_combine_parse_errors(err_1@, err_2@),
{
    let is_eof = err_1.is_eof || err_2.is_eof;
    let span = if is_eof {
        usize::MAX..usize::MAX
    } else {
        let start = if err_1.span.start <= err_2.span.start {
            err_1.span.start
        } else {
            err_2.span.start
        };
        let end = if err_1.span.end <= err_2.span.end {
            err_1.span.end
        } else {
            err_2.span.end
        };
        start..end
    };
    let fatal = err_1.fatal || err_2.fatal;
    let ghost first = err_1.expected@;
    let mut expected = err_1.expected;
    let mut i: usize = 0;
    while i < err_2.expected.len()
        invariant
            i <= err_2.expected@.len(),
            expected@ == first + err_2.expected@.subrange(0, i as int),
        decreases err_2.expected@.len() - i,
    {
        expected.push(err_2.expected[i]);
        i += 1;
        assert(expected@ =~= first + err_2.expected@.subrange(0, i as int));
    }
    assert(expected@ =~= first + err_2.expected@);
    let got = if is_eof {
        None
    } else {
        err_1.got
    };
    ParseError { expected, span, got, is_eof, fatal }
}

} // verus!
