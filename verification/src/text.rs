//! Small verified string utilities shared by the rest of the crate.

use vstd::prelude::*;
use vstd::string::StringSliceAdditionalSpecFns;
use vstd::utf8::{decode_utf8, encode_utf8, is_char_boundary, valid_utf8};

verus! {

/// Appends one character to a string.
///
/// Trusted: `String::push` appends the given character at the end of the
/// string, as std documents it.
#[verifier::external_body]
pub(crate) fn push_char(s: &mut String, c: char)
    ensures
        final(s)@ == old(s)@.push(c),
{
    s.push(c);
}

/// Appends a string slice to a string.
///
/// Trusted: `String::push_str` appends the given slice at the end of the
/// string, as std documents it.
#[verifier::external_body]
pub(crate) fn push_str(s: &mut String, t: &str)
    ensures
        final(s)@ == old(s)@ + t@,
{
    s.push_str(t);
}

/// The text that UTF-8 bytes encode.
///
/// Trusted: `String::from_utf8` succeeds exactly when the bytes are valid
/// UTF-8, and the string then holds the characters they encode, as std
/// documents it.
#[verifier::external_body]
pub(crate) fn utf8_string(bytes: Vec<u8>) -> (r: Option<String>)
    ensures
        r is Some <==> valid_utf8(bytes@),
        r matches Some(t) ==> t@ == decode_utf8(bytes@),
{
    String::from_utf8(bytes).ok()
}

/// Copies a string slice into a new owned string.
pub fn owned(t: &str) -> (r: String)
    ensures
        r@ == t@,
{
    t.to_owned()
}

/// Builds an owned string holding the given characters, in order.
pub fn string_from_chars(cs: &Vec<char>) -> (r: String)
    ensures
        r@ == cs@,
{
    let mut r = String::new();
    let mut i: usize = 0;
    while i < cs.len()
        invariant
            i <= cs.len(),
            r@ == cs@.take(i as int),
        decreases cs.len() - i,
    {
        push_char(&mut r, cs[i]);
        i = i + 1;
        assert(r@ == cs@.take(i as int));
    }
    assert(cs@.take(cs.len() as int) == cs@);
    r
}

/// The characters of a string slice, in order.
pub fn chars_of(t: &str) -> (r: Vec<char>)
    ensures
        r@ == t@,
{
    broadcast use vstd::string::axiom_spec_iter;
    let mut r: Vec<char> = Vec::new();
    for c in it: t.chars()
        invariant
            it.seq() == t@,
            r@ == it.seq().take(it.index()),
    {
        r.push(c);
        assert(r@ == it.seq().take(it.index() + 1));
    }
    assert(t@.take(t@.len() as int) == t@);
    r
}

/// The number of bytes UTF-8 uses for a character.
pub open spec fn char_utf8_len(c: char) -> nat {
    vstd::utf8::encode_scalar(c as u32).len()
}

/// Encoding a concatenation concatenates the encodings.
pub proof fn lemma_encode_concat(a: Seq<char>, b: Seq<char>)
    ensures
        encode_utf8(a + b) == encode_utf8(a) + encode_utf8(b),
    decreases a.len(),
{
    if a.len() == 0 {
        assert(a + b =~= b);
        assert(encode_utf8(a) =~= Seq::<u8>::empty());
        assert(Seq::<u8>::empty() + encode_utf8(b) =~= encode_utf8(b));
    } else {
        lemma_encode_concat(a.drop_first(), b);
        assert((a + b).drop_first() =~= a.drop_first() + b);
        assert((a + b)[0] == a[0]);
    }
}

/// Encoding a single character gives its scalar encoding.
pub proof fn lemma_encode_single(c: char)
    ensures
        encode_utf8(seq![c]) == vstd::utf8::encode_scalar(c as u32),
{
    let s = seq![c];
    assert(s.drop_first() =~= Seq::<char>::empty());
    assert(encode_utf8(s.drop_first()) =~= Seq::<u8>::empty());
    assert(encode_utf8(s) =~= vstd::utf8::encode_scalar(c as u32) + encode_utf8(s.drop_first()));
    assert(vstd::utf8::encode_scalar(c as u32) + Seq::<u8>::empty() =~= vstd::utf8::encode_scalar(c as u32));
}

/// The number of bytes UTF-8 uses for a character, as `char::len_utf8`
/// computes it.
pub fn len_utf8(c: char) -> (r: usize)
    ensures
        r == char_utf8_len(c),
{
    proof {
        vstd::utf8::char_is_scalar(c);
    }
    let v = c as u32;
    if v <= 0x7f {
        1
    } else if v <= 0x7ff {
        2
    } else if v <= 0xffff {
        3
    } else {
        4
    }
}

/// The number of bytes UTF-8 uses for the first `n` characters.
pub fn utf8_len_prefix(cs: &Vec<char>, n: usize) -> (r: usize)
    requires
        n <= cs.len(),
        encode_utf8(cs@.take(n as int)).len() <= usize::MAX,
    ensures
        r == encode_utf8(cs@.take(n as int)).len(),
{
    let mut total: usize = 0;
    let mut i: usize = 0;
    assert(cs@.take(0) =~= Seq::<char>::empty());
    while i < n
        invariant
            i <= n <= cs.len(),
            total == encode_utf8(cs@.take(i as int)).len(),
            encode_utf8(cs@.take(n as int)).len() <= usize::MAX,
        decreases n - i,
    {
        let w = len_utf8(cs[i]);
        proof {
            assert(cs@.take(i + 1) =~= cs@.take(i as int) + seq![cs@[i as int]]);
            lemma_encode_concat(cs@.take(i as int), seq![cs@[i as int]]);
            assert(seq![cs@[i as int]].drop_first() =~= Seq::<char>::empty());
            lemma_encode_single(cs@[i as int]);
            assert(cs@.take(n as int) =~= cs@.take(i + 1) + cs@.subrange(i + 1, n as int));
            lemma_encode_concat(cs@.take(i + 1), cs@.subrange(i + 1, n as int));
        }
        total = total + w;
        i = i + 1;
    }
    total
}

/// A boundary inside a prefix that ends on a boundary is a boundary of the
/// prefix.
pub proof fn lemma_boundary_in_prefix(bytes: Seq<u8>, start: int, end: int)
    requires
        valid_utf8(bytes),
        0 <= start <= end <= bytes.len(),
        is_char_boundary(bytes, start),
        is_char_boundary(bytes, end),
    ensures
        valid_utf8(bytes.subrange(0, end)),
        is_char_boundary(bytes.subrange(0, end), start),
{
    vstd::utf8::valid_utf8_split(bytes, end);
    let pre = bytes.subrange(0, end);
    if start == end {
        vstd::utf8::is_char_boundary_start_end_of_seq(pre);
        assert(pre.len() == end);
    } else {
        vstd::utf8::is_char_boundary_iff_not_is_continuation_byte(bytes, start);
        vstd::utf8::is_char_boundary_iff_not_is_continuation_byte(pre, start);
        assert(pre[start] == bytes[start]);
    }
}

/// The text of the bytes `[start, end)` of a string slice.
pub fn substring_bytes(t: &str, start: usize, end: usize) -> (r: String)
    requires
        start <= end <= encode_utf8(t@).len(),
        is_char_boundary(encode_utf8(t@), start as int),
        is_char_boundary(encode_utf8(t@), end as int),
    ensures
        encode_utf8(r@) == encode_utf8(t@).subrange(start as int, end as int),
        r@ == decode_utf8(encode_utf8(t@).subrange(start as int, end as int)),
{
    proof {
        vstd::utf8::encode_utf8_valid_utf8(t@);
        lemma_boundary_in_prefix(encode_utf8(t@), start as int, end as int);
    }
    let (a, _) = t.split_at(end);
    let (_, b) = a.split_at(start);
    proof {
        assert(b.spec_bytes() =~= encode_utf8(t@).subrange(start as int, end as int));
        vstd::utf8::encode_utf8_decode_utf8(b@);
    }
    b.to_owned()
}

/// The text from byte offset `start` to the end of a string slice.
pub fn suffix_from(t: &str, start: usize) -> (r: String)
    requires
        start <= encode_utf8(t@).len(),
        is_char_boundary(encode_utf8(t@), start as int),
    ensures
        r@ == decode_utf8(encode_utf8(t@).subrange(start as int, encode_utf8(t@).len() as int)),
        r@.len() == 0 <==> start == encode_utf8(t@).len(),
{
    proof {
        vstd::utf8::encode_utf8_valid_utf8(t@);
    }
    let (_, b) = t.split_at(start);
    proof {
        let rest = encode_utf8(t@).subrange(start as int, encode_utf8(t@).len() as int);
        assert(b.spec_bytes() =~= rest);
        vstd::utf8::encode_utf8_decode_utf8(b@);
        if b@.len() == 0 {
            assert(encode_utf8(b@) =~= Seq::<u8>::empty());
        }
    }
    b.to_owned()
}

/// The lowercase form of a text, as `str::to_lowercase` computes it.
pub uninterp spec fn str_lowercase(s: Seq<char>) -> Seq<char>;

/// Calls `str::to_lowercase`. Trusted: the result depends only on the text
/// (named `str_lowercase`).
#[verifier::external_body]
pub(crate) fn to_lowercase(s: &str) -> (r: String)
    ensures
        r@ == str_lowercase(s@),
{
    s.to_lowercase()
}

/// `needle` occurs in `hay` starting at position `i`.
pub open spec fn occurs_at(hay: Seq<char>, needle: Seq<char>, i: int) -> bool {
    0 <= i && i + needle.len() <= hay.len() && hay.subrange(i, i + needle.len()) == needle
}

/// `needle` occurs somewhere in `hay`.
pub open spec fn contains_seq(hay: Seq<char>, needle: Seq<char>) -> bool {
    exists|i: int| occurs_at(hay, needle, i)
}

/// Whether `needle` occurs in `hay`.
pub fn contains_str(hay: &str, needle: &str) -> (r: bool)
    ensures
        r == contains_seq(hay@, needle@),
{
    let h = chars_of(hay);
    let n = chars_of(needle);
    if n.len() > h.len() {
        proof {
            assert forall|i: int| !occurs_at(hay@, needle@, i) by {}
        }
        return false;
    }
    let mut i: usize = 0;
    while i <= h.len() - n.len()
        invariant
            h@ == hay@,
            n@ == needle@,
            n.len() <= h.len(),
            i <= h.len() - n.len() + 1,
            forall|k: int| 0 <= k < i ==> !occurs_at(hay@, needle@, k),
        decreases h.len() - i,
    {
        let mut j: usize = 0;
        let mut same = true;
        while j < n.len()
            invariant
                h@ == hay@,
                n@ == needle@,
                i + n.len() <= h.len(),
                j <= n.len(),
                same == (forall|m: int| 0 <= m < j ==> h@[i + m] == n@[m]),
            decreases n.len() - j,
        {
            if h[i + j] != n[j] {
                same = false;
            }
            j = j + 1;
        }
        if same {
            assert(hay@.subrange(i as int, i + needle@.len()) =~= needle@);
            assert(occurs_at(hay@, needle@, i as int));
            return true;
        }
        assert(!occurs_at(hay@, needle@, i as int)) by {
            if occurs_at(hay@, needle@, i as int) {
                let m = choose|m: int| 0 <= m < n.len() && h@[i + m] != n@[m];
                assert(hay@.subrange(i as int, i + needle.len())[m] == h@[i + m]);
            }
        }
        i = i + 1;
    }
    proof {
        assert forall|k: int| !occurs_at(hay@, needle@, k) by {
            if occurs_at(hay@, needle@, k) {
                assert(0 <= k < i);
            }
        }
    }
    false
}

/// The decimal digit character for `d < 10`.
pub open spec fn digit_char(d: nat) -> char {
    if d == 0 {
        '0'
    } else if d == 1 {
        '1'
    } else if d == 2 {
        '2'
    } else if d == 3 {
        '3'
    } else if d == 4 {
        '4'
    } else if d == 5 {
        '5'
    } else if d == 6 {
        '6'
    } else if d == 7 {
        '7'
    } else if d == 8 {
        '8'
    } else {
        '9'
    }
}

/// The decimal representation of `n`, without leading zeros.
pub open spec fn decimal(n: nat) -> Seq<char>
    decreases n,
{
    if n < 10 {
        seq![digit_char(n)]
    } else {
        decimal(n / 10).push(digit_char(n % 10))
    }
}

pub fn digit(d: usize) -> (r: char)
    requires
        d < 10,
    ensures
        r == digit_char(d as nat),
{
    if d == 0 {
        '0'
    } else if d == 1 {
        '1'
    } else if d == 2 {
        '2'
    } else if d == 3 {
        '3'
    } else if d == 4 {
        '4'
    } else if d == 5 {
        '5'
    } else if d == 6 {
        '6'
    } else if d == 7 {
        '7'
    } else if d == 8 {
        '8'
    } else {
        '9'
    }
}

/// Appends the decimal representation of `n`.
pub fn push_decimal(s: &mut String, n: usize)
    ensures
        final(s)@ == old(s)@ + decimal(n as nat),
    decreases n,
{
    if n >= 10 {
        push_decimal(s, n / 10);
    }
    push_char(s, digit(n % 10));
    assert(final(s)@ =~= old(s)@ + decimal(n as nat));
}

/// The decimal representation of `n`, as `to_string` gives it.
pub fn decimal_string(n: usize) -> (r: String)
    ensures
        r@ == decimal(n as nat),
{
    let mut r = String::new();
    push_decimal(&mut r, n);
    assert(r@ =~= decimal(n as nat));
    r
}

/// How `{:?}` shows a character: quoted, with escapes.
pub uninterp spec fn char_debug_text(c: char) -> Seq<char>;

/// Formats a character with `{:?}`. Trusted: std's `Debug` for `char`
/// depends only on the character (named `char_debug_text`).
#[verifier::external_body]
pub(crate) fn char_debug(c: char) -> (r: String)
    ensures
        r@ == char_debug_text(c),
{
    format!("{:?}", c)
}

/// How `{:?}` shows a string: quoted, with escapes.
pub uninterp spec fn str_debug_text(s: Seq<char>) -> Seq<char>;

/// Formats a string with `{:?}`. Trusted: std's `Debug` for `str` depends
/// only on the characters (named `str_debug_text`).
#[verifier::external_body]
pub(crate) fn str_debug(s: &str) -> (r: String)
    ensures
        r@ == str_debug_text(s@),
{
    format!("{:?}", s)
}

/// The number written by a string of decimal digits.
pub open spec fn digits_value(d: Seq<char>) -> nat
    decreases d.len(),
{
    if d.len() == 0 {
        0
    } else {
        digits_value(d.drop_last()) * 10 + (d.last() as nat - 48) as nat
    }
}

/// Every character is an ASCII decimal digit.
pub open spec fn all_digits(d: Seq<char>) -> bool {
    forall|k: int| 0 <= k < d.len() ==> '0' <= #[trigger] d[k] <= '9'
}

/// What parsing a text as a `usize` gives, as std documents `FromStr` for
/// unsigned integers: an optional `+`, then one or more decimal digits whose
/// value fits.
pub open spec fn std_usize_parse(s: Seq<char>) -> Option<nat> {
    let d = if s.len() > 0 && s[0] == '+' {
        s.drop_first()
    } else {
        s
    };
    if d.len() > 0 && all_digits(d) && digits_value(d) <= usize::MAX {
        Some(digits_value(d))
    } else {
        None
    }
}

/// What `str::parse::<usize>` reports when it fails.
pub uninterp spec fn parse_int_error_text(s: Seq<char>) -> Seq<char>;

/// Calls `str::parse::<usize>`. Trusted: the outcome is the one std
/// documents (`std_usize_parse`); the error's text depends only on the
/// input (named `parse_int_error_text`).
#[verifier::external_body]
pub(crate) fn parse_usize(s: &str) -> (r: Result<usize, String>)
    ensures
        (match r {
            Ok(v) => std_usize_parse(s@) == Some(v as nat),
            Err(m) => std_usize_parse(s@) is None && m@ == parse_int_error_text(s@),
        }),
{
    match s.parse::<usize>() {
        Ok(v) => Ok(v),
        Err(e) => Err(e.to_string()),
    }
}

/// Whether two string slices hold the same characters.
pub fn str_eq(a: &str, b: &str) -> (r: bool)
    ensures
        r == (a@ == b@),
{
    let x = chars_of(a);
    let y = chars_of(b);
    if x.len() != y.len() {
        return false;
    }
    let mut i: usize = 0;
    while i < x.len()
        invariant
            x@ == a@,
            y@ == b@,
            x.len() == y.len(),
            i <= x.len(),
            forall|k: int| 0 <= k < i ==> x@[k] == y@[k],
        decreases x.len() - i,
    {
        if x[i] != y[i] {
            return false;
        }
        i = i + 1;
    }
    assert(a@ =~= b@);
    true
}

} // verus!
