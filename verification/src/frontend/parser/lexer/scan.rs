//! Byte-level scanning of UTF-8 source text: character boundaries, runs of a
//! byte class, digit strings and text comparison.
use vstd::prelude::*;
use vstd::string::StrSliceExecFns;
use vstd::string::StringSliceAdditionalSpecFns;
use vstd::utf8::*;

verus! {

/// Whether `char::is_alphabetic` holds of a character.
pub uninterp spec fn unicode_alphabetic(c: char) -> bool;

/// Whether `char::is_numeric` holds of a character.
pub uninterp spec fn unicode_numeric(c: char) -> bool;

/// `char::is_alphabetic`: whether the character has the Unicode property
/// `Alphabetic`. The contract only gives the answer its name.
#[verifier::external_body]
pub(crate) fn is_alphabetic(c: char) -> (r: bool)
    ensures
        r == unicode_alphabetic(c),
{
    c.is_alphabetic()
}

/// `char::is_numeric`: whether the character is in one of the Unicode general
/// categories for numbers. The contract only gives the answer its name.
#[verifier::external_body]
pub(crate) fn is_numeric(c: char) -> (r: bool)
    ensures
        r == unicode_numeric(c),
{
    c.is_numeric()
}

/// Whether the bytes between two offsets can be taken out of a text as a text
/// of their own: the offsets are in order, inside the text and on character
/// boundaries.
pub open spec fn can_slice(s: Seq<u8>, start: int, end: int) -> bool {
    0 <= start <= end <= s.len() && is_char_boundary(s, start) && is_char_boundary(s, end)
}

/// Whether `r` is the first character boundary at or after `index`.
pub open spec fn first_boundary_from(s: Seq<u8>, index: int, r: int) -> bool {
    &&& index <= r <= s.len()
    &&& is_char_boundary(s, r)
    &&& forall|j: int| index <= j < r ==> !is_char_boundary(s, j)
}

/// `<str as logos::Source>::slice`: the part of the text between two byte
/// offsets. It is there exactly when the offsets are in order, inside the text
/// and on character boundaries, and then holds the bytes between them.
#[verifier::external_body]
pub(crate) fn source_slice<'a>(src: &'a str, start: usize, end: usize) -> (r: Option<&'a str>)
    ensures
        r.is_some() == can_slice(src.spec_bytes(), start as int, end as int),
        r.is_some() ==> r.unwrap().spec_bytes() == src.spec_bytes().subrange(start as int, end as int),
{
    <str as logos::Source>::slice(src, start..end)
}

/// `<str as logos::Source>::find_boundary`: the first character boundary at
/// or after a byte offset that lies inside the text.
#[verifier::external_body]
pub(crate) fn find_boundary(src: &str, index: usize) -> (r: usize)
    requires
        index <= src.spec_bytes().len(),
    ensures
        first_boundary_from(src.spec_bytes(), index as int, r as int),
{
    <str as logos::Source>::find_boundary(src, index)
}

/// The number of bytes that a character takes, read off its first byte.
pub open spec fn char_width(b: u8) -> int {
    if b <= 0x7f {
        1
    } else if 0xc0 <= b <= 0xdf {
        2
    } else if 0xe0 <= b <= 0xef {
        3
    } else {
        4
    }
}

/// The character that starts at byte offset `p`.
pub open spec fn char_at(s: Seq<u8>, p: int) -> char {
    decode_utf8(s.subrange(p, s.len() as int))[0]
}

/// In valid text a character that starts at `p` ends inside the text, on the
/// next boundary, with continuation bytes in between.
pub proof fn lemma_char_step(s: Seq<u8>, p: int)
    requires
        valid_utf8(s),
        0 <= p < s.len(),
        is_char_boundary(s, p),
    ensures
        p + char_width(s[p]) <= s.len(),
        is_char_boundary(s, p + char_width(s[p])),
        forall|j: int| p < j < p + char_width(s[p]) ==> !is_char_boundary(s, j),
        !is_continuation_byte(s[p]),
{
    valid_utf8_split(s, p);
    let tail = s.subrange(p, s.len() as int);
    assert(tail[0] == s[p]);
    let w = length_of_first_scalar(tail);
    assert(w == char_width(s[p]));
    let rest = pop_first_scalar(tail);
    assert(valid_utf8(rest));
    if p + w < s.len() {
        assert(rest[0] == s[p + w]);
        assert(valid_first_scalar(rest));
        is_char_boundary_iff_not_is_continuation_byte(s, p + w);
    } else {
        is_char_boundary_start_end_of_seq(s);
    }
    assert forall|j: int| p < j < p + w implies !is_char_boundary(s, j) by {
        assert(tail[j - p] == s[j]);
        is_char_boundary_iff_not_is_continuation_byte(s, j);
    }
    is_char_boundary_iff_not_is_continuation_byte(s, p);
}

/// In valid text an ASCII byte stands alone: a boundary before it and after it.
pub proof fn lemma_ascii_boundary(s: Seq<u8>, p: int)
    requires
        valid_utf8(s),
        0 <= p < s.len(),
        s[p] <= 0x7f,
    ensures
        is_char_boundary(s, p),
        is_char_boundary(s, p + 1),
{
    is_char_boundary_iff_not_is_continuation_byte(s, p);
    lemma_char_step(s, p);
}

/// The text of a string slice is the decoding of its bytes.
pub proof fn lemma_text_of_bytes(t: &str)
    ensures
        t@ == decode_utf8(t.spec_bytes()),
        valid_utf8(t.spec_bytes()),
{
    encode_utf8_decode_utf8(t@);
    encode_utf8_valid_utf8(t@);
}

/// Whether two string slices hold the same text.
pub fn str_eq(a: &str, b: &str) -> (r: bool)
    ensures
        r == (a@ == b@),
{
    let x = a.as_bytes();
    let y = b.as_bytes();
    proof {
        lemma_text_of_bytes(a);
        lemma_text_of_bytes(b);
    }
    if x.len() != y.len() {
        return false;
    }
    let mut i: usize = 0;
    while i < x.len()
        invariant
            i <= x.len(),
            x.len() == y.len(),
            x@ == a.spec_bytes(),
            y@ == b.spec_bytes(),
            forall|j: int| 0 <= j < i ==> x@[j] == y@[j],
        decreases x.len() - i,
    {
        if x[i] != y[i] {
            return false;
        }
        i += 1;
    }
    assert(x@ =~= y@);
    true
}

/// The character that starts at a boundary inside the text.
pub fn char_at_offset(src: &str, p: usize) -> (c: char)
    requires
        p < src.spec_bytes().len(),
        is_char_boundary(src.spec_bytes(), p as int),
    ensures
        c == char_at(src.spec_bytes(), p as int),
{
    let (_, tail) = src.split_at(p);
    proof {
        lemma_text_of_bytes(tail);
        lemma_text_of_bytes(src);
        assert(tail.spec_bytes().len() > 0);
        assert(tail@.len() > 0);
    }
    tail.get_char(0)
}

/// A class of ASCII bytes that a run is made of.
#[derive(Clone, Copy, Debug, PartialEq, Eq, Structural)]
pub enum ByteClass {
    /// Space, tab, line feed and form feed.
    Blank,
    /// `0` to `9`.
    Digit,
    /// `0` to `9` and `A` to `F`.
    HexDigit,
    /// `0` and `1`.
    BinDigit,
    /// Every byte but the line feed.
    NotLineFeed,
    /// Every byte but the double quote.
    NotDoubleQuote,
}

impl ByteClass {
    /// Whether a byte belongs to the class.
    pub open spec fn has(self, b: u8) -> bool {
        match self {
            ByteClass::Blank => b == 0x20 || b == 0x09 || b == 0x0a || b == 0x0c,
            ByteClass::Digit => 0x30 <= b <= 0x39,
            ByteClass::HexDigit => 0x30 <= b <= 0x39 || 0x41 <= b <= 0x46,
            ByteClass::BinDigit => b == 0x30 || b == 0x31,
            ByteClass::NotLineFeed => b != 0x0a,
            ByteClass::NotDoubleQuote => b != 0x22,
        }
    }

    /// Whether a byte belongs to the class.
    pub fn contains(self, b: u8) -> (r: bool)
        ensures
            r == self.has(b),
    {
        match self {
            ByteClass::Blank => b == 0x20 || b == 0x09 || b == 0x0a || b == 0x0c,
            ByteClass::Digit => 0x30 <= b && b <= 0x39,
            ByteClass::HexDigit => (0x30 <= b && b <= 0x39) || (0x41 <= b && b <= 0x46),
            ByteClass::BinDigit => b == 0x30 || b == 0x31,
            ByteClass::NotLineFeed => b != 0x0a,
            ByteClass::NotDoubleQuote => b != 0x22,
        }
    }
}

/// Where the longest run of bytes of one class that starts at `p` ends.
pub open spec fn run_end(s: Seq<u8>, p: int, class: ByteClass) -> int
    decreases s.len() - p,
{
    if 0 <= p < s.len() && class.has(s[p]) {
        run_end(s, p + 1, class)
    } else {
        p
    }
}

/// A run ends at or after its start, inside the text, on a byte that is not
/// of the class, and holds bytes of the class only.
pub proof fn lemma_run_end(s: Seq<u8>, p: int, class: ByteClass)
    requires
        0 <= p <= s.len(),
    ensures
        p <= run_end(s, p, class) <= s.len(),
        run_end(s, p, class) < s.len() ==> !class.has(s[run_end(s, p, class)]),
        forall|j: int| p <= j < run_end(s, p, class) ==> class.has(#[trigger] s[j]),
    decreases s.len() - p,
{
    if p < s.len() && class.has(s[p]) {
        lemma_run_end(s, p + 1, class);
    }
}

/// Finds where the longest run of bytes of one class that starts at `p` ends.
pub fn scan_run(bytes: &[u8], p: usize, class: ByteClass) -> (q: usize)
    requires
        p <= bytes@.len(),
    ensures
        q == run_end(bytes@, p as int, class),
        p <= q <= bytes@.len(),
        q < bytes@.len() ==> !class.has(bytes@[q as int]),
        forall|j: int| p <= j < q ==> class.has(#[trigger] bytes@[j]),
{
    let mut q = p;
    while q < bytes.len() && class.contains(bytes[q])
        invariant
            p <= q <= bytes@.len(),
            run_end(bytes@, p as int, class) == run_end(bytes@, q as int, class),
        decreases bytes@.len() - q,
    {
        q += 1;
    }
    proof {
        lemma_run_end(bytes@, p as int, class);
    }
    q
}

/// The value of a digit: `0` to `9`, then `A` for ten and so on.
pub open spec fn digit_value(b: u8) -> int {
    if b <= 0x39 {
        b - 0x30
    } else {
        b - 0x41 + 10
    }
}

/// The number that the digits between two offsets write in a radix.
pub open spec fn radix_value(s: Seq<u8>, from: int, to: int, radix: int) -> int
    decreases to - from,
{
    if from >= to {
        0
    } else {
        radix_value(s, from, to - 1, radix) * radix + digit_value(s[to - 1])
    }
}

/// A longer digit string never writes a smaller number.
pub proof fn lemma_radix_value_grows(s: Seq<u8>, from: int, mid: int, to: int, radix: int)
    requires
        0 <= from <= mid <= to <= s.len(),
        radix >= 1,
        forall|j: int| from <= j < to ==> ByteClass::HexDigit.has(#[trigger] s[j]),
    ensures
        0 <= radix_value(s, from, mid, radix) <= radix_value(s, from, to, radix),
    decreases to - from,
{
    if mid < to {
        lemma_radix_value_grows(s, from, mid, to - 1, radix);
        let v = radix_value(s, from, to - 1, radix);
        assert(ByteClass::HexDigit.has(s[to - 1]));
        assert(v * radix >= v) by (nonlinear_arith)
            requires
                v >= 0,
                radix >= 1,
        ;
    } else if from < mid {
        lemma_radix_value_grows(s, from, mid - 1, mid - 1, radix);
        let v = radix_value(s, from, mid - 1, radix);
        assert(ByteClass::HexDigit.has(s[mid - 1]));
        assert(v * radix >= 0) by (nonlinear_arith)
            requires
                v >= 0,
                radix >= 1,
        ;
    }
}

/// Reads the number that a string of digits writes, unless it needs more
/// than 64 bits.
pub fn parse_radix(bytes: &[u8], from: usize, to: usize, radix: u64) -> (r: Option<u64>)
    requires
        from <= to <= bytes@.len(),
        2 <= radix <= 16,
        forall|j: int| from <= j < to ==> ByteClass::HexDigit.has(#[trigger] bytes@[j]),
    ensures
        match r {
            Some(v) => v == radix_value(bytes@, from as int, to as int, radix as int),
            None => radix_value(bytes@, from as int, to as int, radix as int) > u64::MAX,
        },
{
    let mut acc: u64 = 0;
    let mut i = from;
    while i < to
        invariant
            from <= i <= to <= bytes@.len(),
            2 <= radix <= 16,
            acc == radix_value(bytes@, from as int, i as int, radix as int),
            forall|j: int| from <= j < to ==> ByteClass::HexDigit.has(#[trigger] bytes@[j]),
        decreases to - i,
    {
        let b = bytes[i];
        assert(ByteClass::HexDigit.has(bytes@[i as int]));
        let d: u64 = if b <= 0x39 {
            (b - 0x30) as u64
        } else {
            (b - 0x41) as u64 + 10
        };
        assert(d == digit_value(b));
        let next = match acc.checked_mul(radix) {
            Some(m) => m.checked_add(d),
            None => None,
        };
        match next {
            Some(v) => {
                acc = v;
            },
            None => {
                proof {
                    assert(radix_value(bytes@, from as int, i + 1, radix as int) > u64::MAX);
                    lemma_radix_value_grows(bytes@, from as int, i + 1, to as int, radix as int);
                }
                return None;
            },
        }
        i += 1;
    }
    Some(acc)
}

} // verus!
