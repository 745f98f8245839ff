//! The small path language that picks a field out of a JSON record.
//!
//! ```text
//! path    := segment+
//! segment := ('.' ident) | '.'? '[' digits ']' | '.'? '[' quoted ']'
//! ident   := [A-Za-z_][A-Za-z0-9_]*
//! quoted  := '"' (any byte but '"' and '\' | '\"' | '\\')* '"'
//! ```
//!
//! A quoted key names any object key: hyphens, dots, spaces, non-ASCII text.

use vstd::prelude::*;
use vstd::string::StringSliceAdditionalSpecFns;

use crate::text::{
    char_debug, char_debug_text, decimal, digits_value, owned, parse_int_error_text, parse_usize, push_char,
    push_decimal, push_str, std_usize_parse, utf8_string,
};
use vstd::utf8::{decode_utf8, valid_utf8};

verus! {

/// One step of a path: an object key or an array index.
#[derive(Debug, Clone, PartialEq, Eq)]
pub enum Segment {
    Key(String),
    Index(usize),
}

/// A path step by its contents.
pub enum SegmentView {
    Key(Seq<char>),
    Index(usize),
}

impl View for Segment {
    type V = SegmentView;

    open spec fn view(&self) -> SegmentView {
        match self {
            Segment::Key(k) => SegmentView::Key(k@),
            Segment::Index(i) => SegmentView::Index(*i),
        }
    }
}

pub open spec fn segments_view(v: Seq<Segment>) -> Seq<SegmentView> {
    v.map_values(|s: Segment| s@)
}

pub open spec fn spec_ident_start(b: u8) -> bool {
    (65 <= b <= 90) || (97 <= b <= 122) || b == 95
}

pub open spec fn spec_ident_continue(b: u8) -> bool {
    spec_ident_start(b) || (48 <= b <= 57)
}

pub open spec fn spec_digit(b: u8) -> bool {
    48 <= b <= 57
}

/// The first position from `i` on whose byte cannot continue an identifier.
pub open spec fn ident_end(b: Seq<u8>, i: int) -> int
    decreases b.len() - i,
{
    if 0 <= i < b.len() && spec_ident_continue(b[i]) {
        ident_end(b, i + 1)
    } else {
        i
    }
}

/// The first position from `i` on whose byte is not a decimal digit.
pub open spec fn digits_end(b: Seq<u8>, i: int) -> int
    decreases b.len() - i,
{
    if 0 <= i < b.len() && spec_digit(b[i]) {
        digits_end(b, i + 1)
    } else {
        i
    }
}

pub proof fn lemma_ident_end_bounds(b: Seq<u8>, i: int)
    requires
        0 <= i <= b.len(),
    ensures
        i <= ident_end(b, i) <= b.len(),
        forall|k: int| i <= k < ident_end(b, i) ==> spec_ident_continue(#[trigger] b[k]),
        ident_end(b, i) < b.len() ==> !spec_ident_continue(b[ident_end(b, i)]),
    decreases b.len() - i,
{
    if i < b.len() && spec_ident_continue(b[i]) {
        lemma_ident_end_bounds(b, i + 1);
    }
}

pub proof fn lemma_digits_end_bounds(b: Seq<u8>, i: int)
    requires
        0 <= i <= b.len(),
    ensures
        i <= digits_end(b, i) <= b.len(),
        forall|k: int| i <= k < digits_end(b, i) ==> spec_digit(#[trigger] b[k]),
        digits_end(b, i) < b.len() ==> !spec_digit(b[digits_end(b, i)]),
    decreases b.len() - i,
{
    if i < b.len() && spec_digit(b[i]) {
        lemma_digits_end_bounds(b, i + 1);
    }
}

/// Bytes read one character each (as `u8 as char` does).
pub open spec fn bytes_as_chars(b: Seq<u8>) -> Seq<char> {
    b.map_values(|x: u8| x as char)
}

pub open spec fn msg_expected_ident(p: int) -> Seq<char> {
    "expected identifier at position "@ + decimal(p as nat)
}

pub open spec fn msg_expected_ident_start(p: int, c: char) -> Seq<char> {
    "expected identifier start at position "@ + decimal(p as nat) + ", found "@ + char_debug_text(c)
}

pub open spec fn msg_expected_digits(p: int) -> Seq<char> {
    "expected digits at position "@ + decimal(p as nat)
}

pub open spec fn msg_expected_close(p: int) -> Seq<char> {
    "expected ']' at position "@ + decimal(p as nat)
}

pub open spec fn msg_invalid_index(digits: Seq<char>) -> Seq<char> {
    "invalid index \""@ + digits + "\": "@ + parse_int_error_text(digits)
}

pub open spec fn msg_unexpected(p: int, c: char) -> Seq<char> {
    "expected '.' or '[' at position "@ + decimal(p as nat) + ", found "@ + char_debug_text(c)
}

pub open spec fn msg_unterminated(p: int) -> Seq<char> {
    "unterminated string at position "@ + decimal(p as nat)
}

pub open spec fn msg_bad_escape(p: int) -> Seq<char> {
    "invalid escape at position "@ + decimal(p as nat)
}

pub open spec fn msg_bad_utf8() -> Seq<char> {
    "invalid UTF-8 in key"@
}

/// Puts `front` before the segments of a parse result.
pub open spec fn prepend(front: Seq<SegmentView>, r: Result<Seq<SegmentView>, Seq<char>>) -> Result<
    Seq<SegmentView>,
    Seq<char>,
> {
    match r {
        Ok(rest) => Ok(front + rest),
        Err(e) => Err(e),
    }
}

/// What reading the inside of a quoted key gives.
pub enum QuotedScan {
    /// The position of the closing quote, and the key's bytes with the
    /// escapes resolved.
    Closed(int, Seq<u8>),
    /// The path ends before the closing quote.
    Unterminated,
    /// A backslash at this position is not followed by `"` or `\`.
    BadEscape(int),
}

/// Puts bytes before the key bytes of a scan.
pub open spec fn scan_prepend(front: Seq<u8>, r: QuotedScan) -> QuotedScan {
    match r {
        QuotedScan::Closed(e, u) => QuotedScan::Closed(e, front + u),
        _ => r,
    }
}

/// Reads a quoted key's inside from position `j` to its closing quote.
pub open spec fn scan_quoted(b: Seq<u8>, j: int) -> QuotedScan
    decreases b.len() - j,
{
    if j < 0 || j >= b.len() {
        QuotedScan::Unterminated
    } else if b[j] == 34 {
        QuotedScan::Closed(j, Seq::empty())
    } else if b[j] == 92 {
        if j + 1 < b.len() && (b[j + 1] == 34 || b[j + 1] == 92) {
            scan_prepend(seq![b[j + 1]], scan_quoted(b, j + 2))
        } else {
            QuotedScan::BadEscape(j)
        }
    } else {
        scan_prepend(seq![b[j]], scan_quoted(b, j + 1))
    }
}

pub proof fn lemma_scan_bounds(b: Seq<u8>, j: int)
    requires
        0 <= j,
    ensures
        scan_quoted(b, j) matches QuotedScan::Closed(e, _) ==> j <= e < b.len() && b[e] == 34,
    decreases b.len() - j,
{
    if j < b.len() && b[j] != 34 {
        if b[j] == 92 {
            if j + 1 < b.len() && (b[j + 1] == 34 || b[j + 1] == 92) {
                lemma_scan_bounds(b, j + 2);
            }
        } else {
            lemma_scan_bounds(b, j + 1);
        }
    }
}

/// Parses a bracketed segment whose `[` is at position `i`, then the rest.
pub open spec fn bracket_from(b: Seq<u8>, i: int) -> Result<Seq<SegmentView>, Seq<char>>
    decreases b.len() - i, 0int,
{
    let start = i + 1;
    if i < 0 || start > b.len() {
        Ok(Seq::empty())
    } else if start < b.len() && b[start] == 34 {
        proof {
            lemma_scan_bounds(b, start + 1);
        }
        match scan_quoted(b, start + 1) {
            QuotedScan::Unterminated => Err(msg_unterminated(start)),
            QuotedScan::BadEscape(p) => Err(msg_bad_escape(p)),
            QuotedScan::Closed(e, u) => if e + 1 >= b.len() || b[e + 1] != 93 {
                Err(msg_expected_close(e + 1))
            } else if !valid_utf8(u) {
                Err(msg_bad_utf8())
            } else {
                prepend(seq![SegmentView::Key(decode_utf8(u))], parse_from(b, e + 2))
            },
        }
    } else {
        let end = digits_end(b, start);
        proof {
            lemma_digits_end_bounds(b, start);
        }
        let digits = bytes_as_chars(b.subrange(start, end));
        if start == end {
            Err(msg_expected_digits(start))
        } else if end >= b.len() || b[end] != 93 {
            Err(msg_expected_close(end))
        } else if digits_value(digits) > usize::MAX {
            Err(msg_invalid_index(digits))
        } else {
            prepend(seq![SegmentView::Index(digits_value(digits) as usize)], parse_from(b, end + 1))
        }
    }
}

/// Parses the segments of `b` from position `i` to the end.
pub open spec fn parse_from(b: Seq<u8>, i: int) -> Result<Seq<SegmentView>, Seq<char>>
    decreases b.len() - i, 1int,
{
    if i < 0 || i >= b.len() {
        Ok(Seq::empty())
    } else if b[i] == 46 && !(i + 1 < b.len() && b[i + 1] == 91) {
        let start = i + 1;
        if start >= b.len() {
            Err(msg_expected_ident(start))
        } else if !spec_ident_start(b[start]) {
            Err(msg_expected_ident_start(start, b[start] as char))
        } else {
            let end = ident_end(b, start + 1);
            proof {
                lemma_ident_end_bounds(b, start + 1);
            }
            prepend(
                seq![SegmentView::Key(bytes_as_chars(b.subrange(start, end)))],
                parse_from(b, end),
            )
        }
    } else if b[i] == 46 {
        bracket_from(b, i + 1)
    } else if b[i] == 91 {
        bracket_from(b, i)
    } else {
        Err(msg_unexpected(i, b[i] as char))
    }
}

/// What parsing a path gives: its segments, or the message of the first
/// error.
pub open spec fn spec_parse_path(b: Seq<u8>) -> Result<Seq<SegmentView>, Seq<char>> {
    if b.len() == 0 {
        Err("empty path"@)
    } else {
        match parse_from(b, 0) {
            Ok(segs) => if segs.len() == 0 {
                Err("empty path"@)
            } else {
                Ok(segs)
            },
            Err(e) => Err(e),
        }
    }
}

pub open spec fn parse_result_view(r: Result<Vec<Segment>, String>) -> Result<Seq<SegmentView>, Seq<char>> {
    match r {
        Ok(v) => Ok(segments_view(v@)),
        Err(m) => Err(m@),
    }
}

fn is_ident_start(b: u8) -> (r: bool)
    ensures
        r == spec_ident_start(b),
{
    (65 <= b && b <= 90) || (97 <= b && b <= 122) || b == 95
}

fn is_ident_continue(b: u8) -> (r: bool)
    ensures
        r == spec_ident_continue(b),
{
    is_ident_start(b) || (48 <= b && b <= 57)
}

/// The text of the bytes `[start, end)`, one character per byte.
fn ascii_text(bytes: &[u8], start: usize, end: usize) -> (r: String)
    requires
        start <= end <= bytes@.len(),
    ensures
        r@ == bytes_as_chars(bytes@.subrange(start as int, end as int)),
{
    let mut r = String::new();
    let mut k = start;
    while k < end
        invariant
            start <= k <= end <= bytes@.len(),
            r@ == bytes_as_chars(bytes@.subrange(start as int, k as int)),
        decreases end - k,
    {
        push_char(&mut r, bytes[k] as char);
        k = k + 1;
        assert(r@ =~= bytes_as_chars(bytes@.subrange(start as int, k as int)));
    }
    r
}

fn message_at(prefix: &str, p: usize) -> (r: String)
    ensures
        r@ == prefix@ + decimal(p as nat),
{
    let mut m = owned(prefix);
    push_decimal(&mut m, p);
    m
}

fn message_found(prefix: &str, p: usize, c: char) -> (r: String)
    ensures
        r@ == prefix@ + decimal(p as nat) + ", found "@ + char_debug_text(c),
{
    let mut m = message_at(prefix, p);
    push_str(&mut m, ", found ");
    let d = char_debug(c);
    push_str(&mut m, d.as_str());
    m
}

/// Parses a path such as `.steps[0].text` into its segments; on failure,
/// a message naming the byte position of the error.
pub fn parse_path(s: &str) -> (r: Result<Vec<Segment>, String>)
    ensures
        parse_result_view(r) == spec_parse_path(s.spec_bytes()),
{
    let bytes = s.as_bytes();
    let ghost b = s.spec_bytes();
    if bytes.len() == 0 {
        return Err(owned("empty path"));
    }
    let mut segments: Vec<Segment> = Vec::new();
    let mut i: usize = 0;
    assert(segments_view(segments@) =~= Seq::<SegmentView>::empty());
    assert(prepend(Seq::empty(), parse_from(b, 0)) == parse_from(b, 0)) by {
        if parse_from(b, 0) is Ok {
            assert(Seq::<SegmentView>::empty() + parse_from(b, 0)->Ok_0 =~= parse_from(b, 0)->Ok_0);
        }
    }
    while i < bytes.len()
        invariant
            bytes@ == b,
            b == s.spec_bytes(),
            b.len() > 0,
            i <= b.len(),
            parse_from(b, 0) == prepend(segments_view(segments@), parse_from(b, i as int)),
            i > 0 ==> segments@.len() > 0,
        decreases b.len() - i,
    {
        let ghost front = segments_view(segments@);
        if bytes[i] == 46 && !(i + 1 < bytes.len() && bytes[i + 1] == 91) {
            i = i + 1;
            let start = i;
            if i >= bytes.len() {
                return Err(message_at("expected identifier at position ", i));
            }
            if !is_ident_start(bytes[i]) {
                return Err(message_found("expected identifier start at position ", i, bytes[i] as char));
            }
            i = i + 1;
            proof {
                lemma_ident_end_bounds(b, i as int);
            }
            while i < bytes.len() && is_ident_continue(bytes[i])
                invariant
                    bytes@ == b,
                    start < i <= b.len(),
                    ident_end(b, i as int) == ident_end(b, start + 1),
                decreases b.len() - i,
            {
                i = i + 1;
            }
            let ident = ascii_text(bytes, start, i);
            let seg = Segment::Key(ident);
            let ghost rest = parse_from(b, i as int);
            segments.push(seg);
            proof {
                assert(segments_view(segments@) =~= front.push(seg@));
                lemma_prepend_step(front, seg@, rest);
            }
        } else if bytes[i] == 46 || bytes[i] == 91 {
            let open = if bytes[i] == 46 {
                i + 1
            } else {
                i
            };
            assert(parse_from(b, i as int) == bracket_from(b, open as int));
            assert(parse_from(b, 0) == prepend(front, bracket_from(b, open as int)));
            i = open + 1;
            let start = i;
            if i < bytes.len() && bytes[i] == 34 {
                let qstart = i + 1;
                let mut j = qstart;
                let mut key: Vec<u8> = Vec::new();
                assert(scan_prepend(key@, scan_quoted(b, j as int)) == scan_quoted(b, j as int)) by {
                    if scan_quoted(b, j as int) is Closed {
                        assert(key@ + scan_quoted(b, j as int)->Closed_1 =~= scan_quoted(b, j as int)->Closed_1);
                    }
                }
                while j < bytes.len() && bytes[j] != 34
                    invariant
                        bytes@ == b,
                        qstart <= j <= b.len(),
                        b == s.spec_bytes(),
                        b.len() > 0,
                        start == open + 1,
                        qstart == start + 1,
                        start < b.len(),
                        b[start as int] == 34,
                        parse_from(b, 0) == prepend(front, bracket_from(b, open as int)),
                        scan_quoted(b, qstart as int) == scan_prepend(key@, scan_quoted(b, j as int)),
                    decreases b.len() - j,
                {
                    let ghost before = key@;
                    if bytes[j] == 92 {
                        if j + 1 < bytes.len() && (bytes[j + 1] == 34 || bytes[j + 1] == 92) {
                            key.push(bytes[j + 1]);
                            proof {
                                lemma_scan_prepend_push(before, b[j + 1], scan_quoted(b, j + 2));
                            }
                            j = j + 2;
                        } else {
                            assert(scan_quoted(b, j as int) == QuotedScan::BadEscape(j as int));
                            assert(scan_quoted(b, qstart as int) == QuotedScan::BadEscape(j as int));
                            assert(bracket_from(b, open as int) == Err::<Seq<SegmentView>, Seq<char>>(msg_bad_escape(j as int)));
                            return Err(message_at("invalid escape at position ", j));
                        }
                    } else {
                        key.push(bytes[j]);
                        proof {
                            lemma_scan_prepend_push(before, b[j as int], scan_quoted(b, j + 1));
                        }
                        j = j + 1;
                    }
                }
                if j >= bytes.len() {
                    return Err(message_at("unterminated string at position ", start));
                }
                assert(scan_quoted(b, qstart as int) == QuotedScan::Closed(j as int, key@)) by {
                    assert(key@ + Seq::<u8>::empty() =~= key@);
                }
                if j + 1 >= bytes.len() || bytes[j + 1] != 93 {
                    return Err(message_at("expected ']' at position ", j + 1));
                }
                let text = match utf8_string(key) {
                    Some(t) => t,
                    None => {
                        return Err(owned("invalid UTF-8 in key"));
                    },
                };
                i = j + 2;
                let seg = Segment::Key(text);
                let ghost rest = parse_from(b, i as int);
                segments.push(seg);
                proof {
                    assert(segments_view(segments@) =~= front.push(seg@));
                    lemma_prepend_step(front, seg@, rest);
                }
            } else {
                proof {
                    lemma_digits_end_bounds(b, start as int);
                }
                while i < bytes.len() && 48 <= bytes[i] && bytes[i] <= 57
                    invariant
                        bytes@ == b,
                        start <= i <= b.len(),
                        digits_end(b, i as int) == digits_end(b, start as int),
                    decreases b.len() - i,
                {
                    i = i + 1;
                }
                if start == i {
                    return Err(message_at("expected digits at position ", start));
                }
                let digits = ascii_text(bytes, start, i);
                if i >= bytes.len() || bytes[i] != 93 {
                    return Err(message_at("expected ']' at position ", i));
                }
                proof {
                    assert forall|k: int| 0 <= k < digits@.len() implies '0' <= #[trigger] digits@[k] <= '9' by {
                        assert(spec_digit(b[start + k]));
                    }
                    assert(digits@.len() > 0 && digits@[0] != '+');
                }
                let index = match parse_usize(digits.as_str()) {
                    Ok(v) => v,
                    Err(e) => {
                        let mut m = owned("invalid index \"");
                        push_str(&mut m, digits.as_str());
                        push_str(&mut m, "\": ");
                        push_str(&mut m, e.as_str());
                        return Err(m);
                    },
                };
                i = i + 1;
                let seg = Segment::Index(index);
                let ghost rest = parse_from(b, i as int);
                segments.push(seg);
                proof {
                    assert(segments_view(segments@) =~= front.push(seg@));
                    lemma_prepend_step(front, seg@, rest);
                }
            }
        } else {
            return Err(message_found("expected '.' or '[' at position ", i, bytes[i] as char));
        }
    }
    proof {
        assert(prepend(segments_view(segments@), parse_from(b, i as int)) == Ok::<Seq<SegmentView>, Seq<char>>(segments_view(segments@))) by {
            assert(segments_view(segments@) + Seq::<SegmentView>::empty() =~= segments_view(segments@));
        }
    }
    if segments.len() == 0 {
        return Err(owned("empty path"));
    }
    Ok(segments)
}

proof fn lemma_ident_end_at_end(b: Seq<u8>, i: int)
    requires
        0 <= i <= b.len(),
        forall|k: int| i <= k < b.len() ==> spec_ident_continue(#[trigger] b[k]),
    ensures
        ident_end(b, i) == b.len(),
    decreases b.len() - i,
{
    if i < b.len() {
        lemma_ident_end_at_end(b, i + 1);
    }
}

/// A character that may begin an identifier: an ASCII letter or `_`.
pub open spec fn ident_first_char(c: char) -> bool {
    ('A' <= c <= 'Z') || ('a' <= c <= 'z') || c == '_'
}

/// A character that may follow in an identifier: an ASCII letter, an ASCII
/// digit or `_`.
pub open spec fn ident_rest_char(c: char) -> bool {
    ident_first_char(c) || ('0' <= c <= '9')
}

/// Every identifier `w` of the grammar (`[A-Za-z_][A-Za-z0-9_]*`) read
/// after a dot is the one key `w`: parsing `.w` gives exactly `[Key(w)]`.
pub proof fn lemma_dot_identifier_is_key(w: Seq<char>)
    requires
        w.len() > 0,
        ident_first_char(w[0]),
        forall|k: int| 1 <= k < w.len() ==> ident_rest_char(#[trigger] w[k]),
    ensures
        spec_parse_path(vstd::utf8::encode_utf8(seq!['.'] + w)) == Ok::<_, Seq<char>>(seq![SegmentView::Key(w)]),
{
    let c = seq!['.'] + w;
    assert(vstd::utf8::is_ascii_chars(c)) by {
        assert forall|i: int| 0 <= i < c.len() implies '\0' <= #[trigger] c[i] <= '\u{7f}' by {
            if i > 0 {
                assert(c[i] == w[i - 1]);
            }
        }
    }
    vstd::utf8::is_ascii_chars_encode_utf8(c);
    let b = vstd::utf8::encode_utf8(c);
    assert(b[0] == 46u8) by {
        assert(c[0] == '.');
    }
    assert(b.len() >= 2);
    assert(c[1] == w[0]);
    assert(spec_ident_start(b[1])) by {
        assert(b[1] == w[0] as u8);
    }
    assert(b[1] != 91u8);
    assert forall|k: int| 2 <= k < b.len() implies spec_ident_continue(#[trigger] b[k]) by {
        assert(c[k] == w[k - 1]);
        assert(ident_rest_char(w[k - 1]));
        assert(b[k] == c[k] as u8);
    }
    lemma_ident_end_at_end(b, 2);
    assert(bytes_as_chars(b.subrange(1, b.len() as int)) =~= w) by {
        assert forall|k: int| 0 <= k < w.len() implies #[trigger] bytes_as_chars(b.subrange(1, b.len() as int))[k] == w[k] by {
            assert(c[k + 1] == w[k]);
            assert(b[k + 1] == c[k + 1] as u8);
        }
    }
    assert(parse_from(b, b.len() as int) == Ok::<_, Seq<char>>(Seq::<SegmentView>::empty()));
    assert(seq![SegmentView::Key(w)] + Seq::<SegmentView>::empty() =~= seq![SegmentView::Key(w)]);
    assert(parse_from(b, 0) == Ok::<_, Seq<char>>(seq![SegmentView::Key(w)]));
}

proof fn lemma_scan_prepend_push(front: Seq<u8>, x: u8, rest: QuotedScan)
    ensures
        scan_prepend(front, scan_prepend(seq![x], rest)) == scan_prepend(front.push(x), rest),
{
    if rest is Closed {
        assert(front + (seq![x] + rest->Closed_1) =~= front.push(x) + rest->Closed_1);
    }
}

proof fn lemma_prepend_step(front: Seq<SegmentView>, seg: SegmentView, rest: Result<Seq<SegmentView>, Seq<char>>)
    ensures
        prepend(front, prepend(seq![seg], rest)) == prepend(front.push(seg), rest),
{
    if rest is Ok {
        assert(front + (seq![seg] + rest->Ok_0) =~= front.push(seg) + rest->Ok_0);
    }
}

/// A JSON value as the library reads it: numbers by their text, object
/// members in their order.
#[derive(Debug)]
pub enum JsonValue {
    Null,
    Bool(bool),
    Number(String),
    Str(String),
    Array(Vec<JsonValue>),
    Object(Vec<(String, JsonValue)>),
}

/// The value of the first member named `k`, if any.
pub open spec fn object_get(members: Seq<(String, JsonValue)>, k: Seq<char>) -> Option<JsonValue>
    decreases members.len(),
{
    if members.len() == 0 {
        None
    } else if members[0].0@ == k {
        Some(members[0].1)
    } else {
        object_get(members.drop_first(), k)
    }
}

/// One step along a path: a member of an object, or an element of an
/// array; nothing for any other value or a missing member or element.
pub open spec fn spec_step(v: JsonValue, s: SegmentView) -> Option<JsonValue> {
    match s {
        SegmentView::Key(k) => match v {
            JsonValue::Object(members) => object_get(members@, k),
            _ => None,
        },
        SegmentView::Index(i) => match v {
            JsonValue::Array(items) => if i < items@.len() {
                Some(items@[i as int])
            } else {
                None
            },
            _ => None,
        },
    }
}

/// The value reached by following the whole path, if every step exists.
pub open spec fn spec_extract(v: JsonValue, path: Seq<SegmentView>) -> Option<JsonValue>
    decreases path.len(),
{
    if path.len() == 0 {
        Some(v)
    } else {
        match spec_step(v, path[0]) {
            Some(c) => spec_extract(c, path.drop_first()),
            None => None,
        }
    }
}

fn member<'a>(members: &'a Vec<(String, JsonValue)>, k: &str) -> (r: Option<&'a JsonValue>)
    ensures
        r is None <==> object_get(members@, k@) is None,
        r matches Some(x) ==> object_get(members@, k@) == Some(*x),
{
    let mut j: usize = 0;
    assert(members@.skip(0) =~= members@);
    while j < members.len()
        invariant
            j <= members@.len(),
            object_get(members@, k@) == object_get(members@.skip(j as int), k@),
        decreases members.len() - j,
    {
        assert(members@.skip(j as int)[0] == members@[j as int]);
        if crate::text::str_eq(members[j].0.as_str(), k) {
            return Some(&members[j].1);
        }
        assert(members@.skip(j as int).drop_first() =~= members@.skip(j + 1));
        j = j + 1;
    }
    None
}

/// Follows the path from the value: object members by key, array elements
/// by index. Nothing when a step is missing or meets another kind of value.
pub fn extract<'a>(value: &'a JsonValue, path: &[Segment]) -> (r: Option<&'a JsonValue>)
    ensures
        r is None <==> spec_extract(*value, segments_view(path@)) is None,
        r matches Some(x) ==> spec_extract(*value, segments_view(path@)) == Some(*x),
{
    let ghost p = segments_view(path@);
    let mut cur: &'a JsonValue = value;
    let mut k: usize = 0;
    assert(p.skip(0) =~= p);
    while k < path.len()
        invariant
            p == segments_view(path@),
            k <= path@.len(),
            spec_extract(*value, p) == spec_extract(*cur, p.skip(k as int)),
        decreases path.len() - k,
    {
        assert(p.skip(k as int)[0] == path@[k as int]@);
        assert(p.skip(k as int).drop_first() =~= p.skip(k + 1));
        let next = match &path[k] {
            Segment::Key(key) => match cur {
                JsonValue::Object(members) => member(members, key.as_str()),
                _ => None,
            },
            Segment::Index(i) => match cur {
                JsonValue::Array(items) => {
                    if *i < items.len() {
                        Some(&items[*i])
                    } else {
                        None
                    }
                },
                _ => None,
            },
        };
        match next {
            Some(c) => {
                cur = c;
            },
            None => {
                return None;
            },
        }
        k = k + 1;
    }
    assert(p.skip(k as int) =~= Seq::<SegmentView>::empty());
    Some(cur)
}

/// The text of the string the path leads to; nothing when the path misses
/// or leads to a value that is not a string.
pub fn extract_str(value: &JsonValue, path: &[Segment]) -> (r: Option<String>)
    ensures
        r matches Some(s) ==> spec_extract(*value, segments_view(path@)) matches Some(JsonValue::Str(t)) && t@ == s@,
        r is None ==> !(spec_extract(*value, segments_view(path@)) matches Some(JsonValue::Str(_))),
{
    match extract(value, path) {
        Some(JsonValue::Str(s)) => Some(owned(s.as_str())),
        _ => None,
    }
}

} // verus!
