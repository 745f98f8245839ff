//! Substitution: the text with every match replaced by an expanded
//! template.
//!
//! Template syntax: `$$` is a literal `$`; `$&` and `$0` are the whole match;
//! `$N` (a run of digits) is capture group `N`; `${name}` is the group named
//! `name` (or numbered, when `name` is a number). A group that did not take
//! part expands to nothing. Any other `$` is kept as it is.

use vstd::prelude::*;
use vstd::utf8::{decode_utf8, encode_utf8, is_char_boundary, valid_utf8};

use super::{matches_laid_out, matches_view, span_ok, text_bytes, CaptureView, Match, MatchView};
use crate::text::{all_digits, chars_of, digits_value, parse_usize, push_char, push_str, std_usize_parse, str_eq, string_from_chars, substring_bytes, suffix_from};

verus! {

/// A piece of the output: byte range `[start, end)`, and whether it came
/// from a replacement or was copied from the text.
#[derive(Debug, Clone, Copy, PartialEq, Eq, Structural)]
pub struct ReplaceSegment {
    pub start: usize,
    pub end: usize,
    pub is_replacement: bool,
}

/// The text after substitution, cut into its pieces.
#[derive(Debug, Clone)]
pub struct ReplaceResult {
    pub output: String,
    pub segments: Vec<ReplaceSegment>,
}

/// The abstract content of a substitution result.
pub struct ReplaceState {
    pub output: Seq<char>,
    pub segments: Seq<ReplaceSegment>,
}

impl View for ReplaceResult {
    type V = ReplaceState;

    open spec fn view(&self) -> ReplaceState {
        ReplaceState { output: self.output@, segments: self.segments@ }
    }
}

/// The text of the first capture with group number `n`.
pub open spec fn capture_by_index(caps: Seq<CaptureView>, n: nat) -> Option<Seq<char>>
    decreases caps.len(),
{
    if caps.len() == 0 {
        None
    } else if caps[0].index == n {
        Some(caps[0].text)
    } else {
        capture_by_index(caps.drop_first(), n)
    }
}

/// The text of the first capture named `name`.
pub open spec fn capture_by_name(caps: Seq<CaptureView>, name: Seq<char>) -> Option<Seq<char>>
    decreases caps.len(),
{
    if caps.len() == 0 {
        None
    } else if caps[0].name == Some(name) {
        Some(caps[0].text)
    } else {
        capture_by_name(caps.drop_first(), name)
    }
}

/// What a group reference names in a match: a number picks the group with
/// that index (`0` being the whole match), anything else the group with
/// that name.
pub open spec fn spec_lookup(m: MatchView, key: Seq<char>) -> Option<Seq<char>> {
    match std_usize_parse(key) {
        Some(n) => if n == 0 {
            Some(m.text)
        } else {
            capture_by_index(m.captures, n)
        },
        None => capture_by_name(m.captures, key),
    }
}

pub open spec fn lookup_text(m: MatchView, key: Seq<char>) -> Seq<char> {
    match spec_lookup(m, key) {
        Some(t) => t,
        None => Seq::empty(),
    }
}

/// The first position from `i` on holding `}`, or the length when none
/// does.
pub open spec fn find_close(t: Seq<char>, i: int) -> int
    decreases t.len() - i,
{
    if i < 0 || i >= t.len() {
        t.len() as int
    } else if t[i] == '}' {
        i
    } else {
        find_close(t, i + 1)
    }
}

/// The first position from `i` on that is not an ASCII digit.
pub open spec fn digit_run_end(t: Seq<char>, i: int) -> int
    decreases t.len() - i,
{
    if 0 <= i < t.len() && '0' <= t[i] <= '9' {
        digit_run_end(t, i + 1)
    } else {
        i
    }
}

pub proof fn lemma_find_close_bounds(t: Seq<char>, i: int)
    requires
        0 <= i,
    ensures
        i <= find_close(t, i) || find_close(t, i) == t.len(),
        find_close(t, i) <= t.len(),
        find_close(t, i) < t.len() ==> t[find_close(t, i)] == '}' && i <= find_close(t, i),
    decreases t.len() - i,
{
    if i < t.len() && t[i] != '}' {
        lemma_find_close_bounds(t, i + 1);
    }
}

pub proof fn lemma_digit_run_end_bounds(t: Seq<char>, i: int)
    requires
        0 <= i <= t.len(),
    ensures
        i <= digit_run_end(t, i) <= t.len(),
        forall|k: int| i <= k < digit_run_end(t, i) ==> '0' <= #[trigger] t[k] <= '9',
    decreases t.len() - i,
{
    if i < t.len() && '0' <= t[i] <= '9' {
        lemma_digit_run_end_bounds(t, i + 1);
    }
}

/// The expansion of the template from position `i` on, for match `m`.
pub open spec fn expand_from(t: Seq<char>, i: int, m: MatchView) -> Seq<char>
    decreases t.len() - i,
{
    if i < 0 || i >= t.len() {
        Seq::empty()
    } else if t[i] != '$' || i + 1 >= t.len() {
        seq![t[i]] + expand_from(t, i + 1, m)
    } else if t[i + 1] == '$' {
        seq!['$'] + expand_from(t, i + 2, m)
    } else if t[i + 1] == '&' {
        m.text + expand_from(t, i + 2, m)
    } else if t[i + 1] == '{' && find_close(t, i + 2) < t.len() {
        let c = find_close(t, i + 2);
        proof {
            lemma_find_close_bounds(t, i + 2);
        }
        lookup_text(m, t.subrange(i + 2, c)) + expand_from(t, c + 1, m)
    } else if '0' <= t[i + 1] <= '9' {
        let e = digit_run_end(t, i + 1);
        proof {
            lemma_digit_run_end_bounds(t, i + 1);
        }
        lookup_text(m, t.subrange(i + 1, e)) + expand_from(t, e, m)
    } else {
        seq!['$'] + expand_from(t, i + 1, m)
    }
}

/// The template expanded for match `m`.
pub open spec fn spec_expand(template: Seq<char>, m: MatchView) -> Seq<char> {
    expand_from(template, 0, m)
}

fn capture_index(caps: &Vec<crate::engine::CaptureGroup>, n: usize) -> (r: Option<String>)
    ensures
        (match r {
            Some(t) => capture_by_index(caps@.map_values(|c: crate::engine::CaptureGroup| c@), n as nat) == Some(t@),
            None => capture_by_index(caps@.map_values(|c: crate::engine::CaptureGroup| c@), n as nat) is None,
        }),
{
    let ghost cs = caps@.map_values(|c: crate::engine::CaptureGroup| c@);
    let mut k: usize = 0;
    assert(cs.skip(0) =~= cs);
    while k < caps.len()
        invariant
            cs == caps@.map_values(|c: crate::engine::CaptureGroup| c@),
            k <= caps.len(),
            capture_by_index(cs, n as nat) == capture_by_index(cs.skip(k as int), n as nat),
        decreases caps.len() - k,
    {
        assert(cs.skip(k as int).drop_first() =~= cs.skip(k + 1));
        assert(cs.skip(k as int)[0] == caps@[k as int]@);
        if caps[k].index == n {
            return Some(caps[k].text.clone());
        }
        k = k + 1;
    }
    None
}

fn capture_name(caps: &Vec<crate::engine::CaptureGroup>, name: &str) -> (r: Option<String>)
    ensures
        (match r {
            Some(t) => capture_by_name(caps@.map_values(|c: crate::engine::CaptureGroup| c@), name@) == Some(t@),
            None => capture_by_name(caps@.map_values(|c: crate::engine::CaptureGroup| c@), name@) is None,
        }),
{
    let ghost cs = caps@.map_values(|c: crate::engine::CaptureGroup| c@);
    let mut k: usize = 0;
    assert(cs.skip(0) =~= cs);
    while k < caps.len()
        invariant
            cs == caps@.map_values(|c: crate::engine::CaptureGroup| c@),
            k <= caps.len(),
            capture_by_name(cs, name@) == capture_by_name(cs.skip(k as int), name@),
        decreases caps.len() - k,
    {
        assert(cs.skip(k as int).drop_first() =~= cs.skip(k + 1));
        assert(cs.skip(k as int)[0] == caps@[k as int]@);
        let same = match &caps[k].name {
            Some(nm) => str_eq(nm.as_str(), name),
            None => false,
        };
        if same {
            return Some(caps[k].text.clone());
        }
        k = k + 1;
    }
    None
}

/// The text a group reference (`"2"`, `"year"`, `"0"`) picks out of a
/// match, if that group took part.
pub fn lookup_capture(m: &Match, key: &str) -> (r: Option<String>)
    ensures
        (match r {
            Some(t) => spec_lookup(m@, key@) == Some(t@),
            None => spec_lookup(m@, key@) is None,
        }),
{
    match parse_usize(key) {
        Ok(n) => {
            if n == 0 {
                Some(m.text.clone())
            } else {
                capture_index(&m.captures, n)
            }
        },
        Err(_) => capture_name(&m.captures, key),
    }
}

fn push_lookup(out: &mut String, m: &Match, key: &str)
    ensures
        final(out)@ == old(out)@ + lookup_text(m@, key@),
{
    match lookup_capture(m, key) {
        Some(t) => push_str(out, t.as_str()),
        None => {
            assert(final(out)@ =~= old(out)@ + lookup_text(m@, key@));
        },
    }
}

fn chars_text(cs: &Vec<char>, start: usize, end: usize) -> (r: String)
    requires
        start <= end <= cs.len(),
    ensures
        r@ == cs@.subrange(start as int, end as int),
{
    let mut r = String::new();
    let mut k = start;
    while k < end
        invariant
            start <= k <= end <= cs.len(),
            r@ == cs@.subrange(start as int, k as int),
        decreases end - k,
    {
        push_char(&mut r, cs[k]);
        k = k + 1;
        assert(r@ =~= cs@.subrange(start as int, k as int));
    }
    r
}

/// The template with its group references filled in from `m`.
pub fn expand_replacement(template: &str, m: &Match) -> (r: String)
    ensures
        r@ == spec_expand(template@, m@),
{
    let t = chars_of(template);
    let ghost ts = template@;
    let mut out = String::new();
    let mut i: usize = 0;
    assert(out@ + expand_from(ts, 0, m@) =~= expand_from(ts, 0, m@));
    while i < t.len()
        invariant
            t@ == ts,
            i <= t.len(),
            out@ + expand_from(ts, i as int, m@) == expand_from(ts, 0, m@),
        decreases t.len() - i,
    {
        let ghost before = out@;
        let ghost ii = i as int;
        if t[i] != '$' || i + 1 >= t.len() {
            push_char(&mut out, t[i]);
            i = i + 1;
            assert(before + expand_from(ts, ii, m@) =~= out@ + expand_from(ts, i as int, m@));
        } else if t[i + 1] == '$' {
            push_char(&mut out, '$');
            i = i + 2;
            assert(before + expand_from(ts, ii, m@) =~= out@ + expand_from(ts, i as int, m@));
        } else if t[i + 1] == '&' {
            push_str(&mut out, m.text.as_str());
            i = i + 2;
            assert(before + expand_from(ts, ii, m@) =~= out@ + expand_from(ts, i as int, m@));
        } else {
            let mut c = i + 2;
            proof {
                lemma_find_close_bounds(ts, i + 2);
            }
            while c < t.len() && t[c] != '}'
                invariant
                    t@ == ts,
                    i + 2 <= c <= t.len(),
                    find_close(ts, c as int) == find_close(ts, i + 2),
                decreases t.len() - c,
            {
                c = c + 1;
            }
            if t[i + 1] == '{' && c < t.len() {
                let key = chars_text(&t, i + 2, c);
                push_lookup(&mut out, m, key.as_str());
                i = c + 1;
                assert(before + expand_from(ts, ii, m@) =~= out@ + expand_from(ts, i as int, m@));
            } else if '0' <= t[i + 1] && t[i + 1] <= '9' {
                let mut e = i + 1;
                proof {
                    lemma_digit_run_end_bounds(ts, i + 1);
                }
                while e < t.len() && '0' <= t[e] && t[e] <= '9'
                    invariant
                        t@ == ts,
                        i + 1 <= e <= t.len(),
                        digit_run_end(ts, e as int) == digit_run_end(ts, i + 1),
                    decreases t.len() - e,
                {
                    e = e + 1;
                }
                let key = chars_text(&t, i + 1, e);
                push_lookup(&mut out, m, key.as_str());
                i = e;
                assert(before + expand_from(ts, ii, m@) =~= out@ + expand_from(ts, i as int, m@));
            } else {
                push_char(&mut out, '$');
                i = i + 1;
                assert(before + expand_from(ts, ii, m@) =~= out@ + expand_from(ts, i as int, m@));
            }
        }
    }
    assert(out@ + Seq::<char>::empty() =~= out@);
    out
}

/// Appends a piece to the output, recording its byte span; an empty piece
/// changes nothing.
pub open spec fn push_piece(st: ReplaceState, piece: Seq<char>, is_replacement: bool) -> ReplaceState {
    if piece.len() == 0 {
        st
    } else {
        ReplaceState {
            output: st.output + piece,
            segments: st.segments.push(
                ReplaceSegment {
                    start: encode_utf8(st.output).len() as usize,
                    end: encode_utf8(st.output + piece).len() as usize,
                    is_replacement,
                },
            ),
        }
    }
}

/// Where the text before match `k` starts: the end of the match before it.
pub open spec fn prev_end(ms: Seq<MatchView>, k: int) -> usize {
    if k <= 0 {
        0
    } else {
        ms[k - 1].end
    }
}

/// The text between byte offsets `from` and `to`, empty unless `from < to`.
pub open spec fn literal_piece(b: Seq<u8>, from: int, to: int) -> Seq<char> {
    if from < to {
        decode_utf8(b.subrange(from, to))
    } else {
        Seq::empty()
    }
}

/// The output after the first `k` matches: each one preceded by the text
/// before it and replaced by the expanded template.
pub open spec fn replace_upto(text: Seq<char>, ms: Seq<MatchView>, template: Seq<char>, k: int) -> ReplaceState
    decreases k,
{
    if k <= 0 {
        ReplaceState { output: Seq::empty(), segments: Seq::empty() }
    } else {
        let st = replace_upto(text, ms, template, k - 1);
        let m = ms[k - 1];
        let st1 = push_piece(st, literal_piece(text_bytes(text), prev_end(ms, k - 1) as int, m.start as int), false);
        push_piece(st1, spec_expand(template, m), true)
    }
}

/// The whole substitution: all matches replaced, then the rest of the text.
pub open spec fn spec_replace_all(text: Seq<char>, ms: Seq<MatchView>, template: Seq<char>) -> ReplaceState {
    push_piece(
        replace_upto(text, ms, template, ms.len() as int),
        literal_piece(text_bytes(text), prev_end(ms, ms.len() as int) as int, text_bytes(text).len() as int),
        false,
    )
}

fn push_segment(out: &mut String, segments: &mut Vec<ReplaceSegment>, piece: &str, is_replacement: bool)
    ensures
        (ReplaceState { output: final(out)@, segments: final(segments)@ }) == push_piece(
            ReplaceState { output: old(out)@, segments: old(segments)@ },
            piece@,
            is_replacement,
        ),
{
    if piece.unicode_len() > 0 {
        let start = out.as_str().len();
        push_str(out, piece);
        let end = out.as_str().len();
        segments.push(ReplaceSegment { start, end, is_replacement });
    }
}

/// The text with every match replaced by the template, expanded for that
/// match; `matches` are the matches of a search of `text`.
pub fn replace_all(text: &str, matches: &Vec<Match>, template: &str) -> (r: ReplaceResult)
    requires
        matches_laid_out(matches_view(matches@), text@),
    ensures
        r@ == spec_replace_all(text@, matches_view(matches@), template@),
{
    let ghost ms = matches_view(matches@);
    let ghost b = text_bytes(text@);
    let mut output = String::new();
    let mut segments: Vec<ReplaceSegment> = Vec::new();
    let mut pos: usize = 0;
    let mut k: usize = 0;
    proof {
        vstd::utf8::encode_utf8_valid_utf8(text@);
        vstd::utf8::is_char_boundary_start_end_of_seq(b);
    }
    while k < matches.len()
        invariant
            ms == matches_view(matches@),
            b == text_bytes(text@),
            vstd::utf8::valid_utf8(b),
            matches_laid_out(ms, text@),
            k <= matches.len(),
            pos == prev_end(ms, k as int),
            pos <= b.len(),
            vstd::utf8::is_char_boundary(b, pos as int),
            (ReplaceState { output: output@, segments: segments@ }) == replace_upto(text@, ms, template@, k as int),
        decreases matches.len() - k,
    {
        let m = &matches[k];
        assert(ms[k as int] == m@);
        assert(span_ok(b, ms[k as int].start, ms[k as int].end));
        if k > 0 {
            assert(ms[k - 1].end <= ms[k as int].start);
        }
        if m.start > pos {
            let lit = substring_bytes(text, pos, m.start);
            push_segment(&mut output, &mut segments, lit.as_str(), false);
        } else {
            assert(literal_piece(b, pos as int, m.start as int) =~= Seq::<char>::empty());
        }
        let expanded = expand_replacement(template, m);
        push_segment(&mut output, &mut segments, expanded.as_str(), true);
        pos = m.end;
        k = k + 1;
    }
    proof {
        vstd::utf8::is_char_boundary_start_end_of_seq(b);
    }
    let rest = suffix_from(text, pos);
    push_segment(&mut output, &mut segments, rest.as_str(), false);
    proof {
        if pos as int == b.len() {
            assert(literal_piece(b, pos as int, b.len() as int) =~= Seq::<char>::empty());
        }
    }
    ReplaceResult { output, segments }
}

/// The segments lie end to end, each non-empty, from the start of the
/// output to its end.
pub open spec fn tiles(st: ReplaceState) -> bool {
    &&& forall|i: int| 0 <= i < st.segments.len() ==> (#[trigger] st.segments[i]).start < st.segments[i].end
    &&& forall|i: int| 0 <= i < st.segments.len() - 1 ==> (#[trigger] st.segments[i]).end == st.segments[i + 1].start
    &&& st.segments.len() > 0 ==> st.segments[0].start == 0 && st.segments.last().end == encode_utf8(st.output).len()
    &&& st.segments.len() == 0 ==> st.output.len() == 0
}

proof fn lemma_push_piece_tiles(st: ReplaceState, piece: Seq<char>, is_replacement: bool)
    requires
        tiles(st),
        encode_utf8(st.output + piece).len() <= usize::MAX,
    ensures
        tiles(push_piece(st, piece, is_replacement)),
        push_piece(st, piece, is_replacement).output == st.output + piece,
{
    crate::text::lemma_encode_concat(st.output, piece);
    if piece.len() == 0 {
        assert(st.output + piece =~= st.output);
    } else {
        assert(encode_utf8(piece).len() > 0) by {
            crate::text::lemma_encode_concat(seq![piece[0]], piece.drop_first());
            assert(seq![piece[0]] + piece.drop_first() =~= piece);
            crate::text::lemma_encode_single(piece[0]);
        }
        if st.segments.len() == 0 {
            assert(st.output =~= Seq::<char>::empty());
            assert(encode_utf8(st.output) =~= Seq::<u8>::empty());
        }
    }
}

proof fn lemma_replace_upto_tiles(text: Seq<char>, ms: Seq<MatchView>, template: Seq<char>, k: int)
    requires
        0 <= k <= ms.len(),
        encode_utf8(replace_upto(text, ms, template, k).output).len() <= usize::MAX,
    ensures
        tiles(replace_upto(text, ms, template, k)),
    decreases k,
{
    if k > 0 {
        let st = replace_upto(text, ms, template, k - 1);
        let m = ms[k - 1];
        let lit = literal_piece(text_bytes(text), prev_end(ms, k - 1) as int, m.start as int);
        let exp = spec_expand(template, m);
        let st1 = push_piece(st, lit, false);
        assert(st1.output == st.output + lit);
        assert(push_piece(st1, exp, true).output == st1.output + exp);
        crate::text::lemma_encode_concat(st1.output, exp);
        crate::text::lemma_encode_concat(st.output, lit);
        lemma_replace_upto_tiles(text, ms, template, k - 1);
        lemma_push_piece_tiles(st, lit, false);
        lemma_push_piece_tiles(st1, exp, true);
    } else {
        assert(tiles(replace_upto(text, ms, template, k)));
    }
}

/// The segments of a substitution tile its output: they lie end to end,
/// each non-empty, from byte 0 to the end of the output (for an output whose
/// byte length fits in `usize`).
pub proof fn lemma_replace_segments_tile(text: Seq<char>, ms: Seq<MatchView>, template: Seq<char>)
    requires
        encode_utf8(spec_replace_all(text, ms, template).output).len() <= usize::MAX,
    ensures
        tiles(spec_replace_all(text, ms, template)),
{
    let st = replace_upto(text, ms, template, ms.len() as int);
    let rest = literal_piece(text_bytes(text), prev_end(ms, ms.len() as int) as int, text_bytes(text).len() as int);
    assert(push_piece(st, rest, false).output == st.output + rest);
    crate::text::lemma_encode_concat(st.output, rest);
    lemma_replace_upto_tiles(text, ms, template, ms.len() as int);
    lemma_push_piece_tiles(st, rest, false);
}

/// `$&` expands to the whole match.
proof fn lemma_expand_ampersand(m: MatchView)
    ensures
        spec_expand("$&"@, m) == m.text,
{
    reveal_strlit("$&");
    let t = "$&"@;
    assert(t.len() == 2 && t[0] == '$' && t[1] == '&');
    assert(expand_from(t, 2, m) =~= Seq::<char>::empty());
    assert(expand_from(t, 0, m) =~= m.text + expand_from(t, 2, m));
}

/// `$0` expands to the whole match.
proof fn lemma_expand_whole_match(m: MatchView)
    ensures
        spec_expand("$0"@, m) == m.text,
{
    reveal_strlit("$0");
    let t = "$0"@;
    assert(t.len() == 2 && t[0] == '$' && t[1] == '0');
    assert(digit_run_end(t, 2) == 2);
    assert(digit_run_end(t, 1) == 2);
    let key = t.subrange(1, 2);
    assert(key =~= seq!['0']);
    assert(all_digits(key));
    assert(key.drop_last() =~= Seq::<char>::empty());
    assert(digits_value(Seq::<char>::empty()) == 0);
    assert(key.last() == '0');
    assert(('0' as nat) == 48);
    assert(digits_value(key) == 0);
    assert(std_usize_parse(key) == Some(0nat));
    assert(expand_from(t, 2, m) =~= Seq::<char>::empty());
    assert(expand_from(t, 0, m) =~= lookup_text(m, key) + expand_from(t, 2, m));
}

/// Decoding the bytes up to one boundary, then on to a later one, decodes
/// the bytes up to the later one.
proof fn lemma_decode_prefix_split(b: Seq<u8>, x: int, y: int)
    requires
        valid_utf8(b),
        0 <= x <= y <= b.len(),
        is_char_boundary(b, x),
        is_char_boundary(b, y),
    ensures
        decode_utf8(b.subrange(0, y)) == decode_utf8(b.subrange(0, x)) + decode_utf8(b.subrange(x, y)),
{
    crate::text::lemma_boundary_in_prefix(b, x, y);
    let p = b.subrange(0, y);
    vstd::utf8::decode_utf8_split(p, x);
    assert(p.subrange(0, x) =~= b.subrange(0, x));
    assert(p.subrange(x, p.len() as int) =~= b.subrange(x, y));
}

proof fn lemma_identity_upto(text: Seq<char>, ms: Seq<MatchView>, template: Seq<char>, k: int)
    requires
        matches_laid_out(ms, text),
        forall|i: int| 0 <= i < ms.len() ==> spec_expand(template, #[trigger] ms[i]) == ms[i].text,
        0 <= k <= ms.len(),
    ensures
        replace_upto(text, ms, template, k).output == decode_utf8(text_bytes(text).subrange(0, prev_end(ms, k) as int)),
        prev_end(ms, k) <= text_bytes(text).len(),
        is_char_boundary(text_bytes(text), prev_end(ms, k) as int),
    decreases k,
{
    let b = text_bytes(text);
    vstd::utf8::encode_utf8_valid_utf8(text);
    vstd::utf8::is_char_boundary_start_end_of_seq(b);
    if k == 0 {
        assert(b.subrange(0, 0) =~= Seq::<u8>::empty());
        assert(decode_utf8(Seq::<u8>::empty()) =~= Seq::<char>::empty());
    } else {
        lemma_identity_upto(text, ms, template, k - 1);
        let m = ms[k - 1];
        let pe = prev_end(ms, k - 1) as int;
        assert(span_ok(b, m.start, m.end));
        if k > 1 {
            assert(ms[k - 2].end <= ms[k - 1].start);
        }
        let st = replace_upto(text, ms, template, k - 1);
        let lit = literal_piece(b, pe, m.start as int);
        let st1 = push_piece(st, lit, false);
        assert(spec_expand(template, m) == m.text);
        assert(st1.output == st.output + lit);
        assert(push_piece(st1, m.text, true).output == st1.output + m.text);
        if pe < m.start {
            lemma_decode_prefix_split(b, pe, m.start as int);
        } else {
            assert(lit =~= Seq::<char>::empty());
            assert(pe == m.start);
        }
        lemma_decode_prefix_split(b, m.start as int, m.end as int);
    }
}

proof fn lemma_identity(text: Seq<char>, ms: Seq<MatchView>, template: Seq<char>)
    requires
        matches_laid_out(ms, text),
        forall|i: int| 0 <= i < ms.len() ==> spec_expand(template, #[trigger] ms[i]) == ms[i].text,
    ensures
        spec_replace_all(text, ms, template).output == text,
{
    let b = text_bytes(text);
    vstd::utf8::encode_utf8_valid_utf8(text);
    vstd::utf8::is_char_boundary_start_end_of_seq(b);
    lemma_identity_upto(text, ms, template, ms.len() as int);
    let pe = prev_end(ms, ms.len() as int) as int;
    let st = replace_upto(text, ms, template, ms.len() as int);
    let rest = literal_piece(b, pe, b.len() as int);
    assert(push_piece(st, rest, false).output == st.output + rest);
    if pe < b.len() {
        lemma_decode_prefix_split(b, pe, b.len() as int);
    } else {
        assert(rest =~= Seq::<char>::empty());
    }
    assert(b.subrange(0, b.len() as int) =~= b);
    vstd::utf8::encode_utf8_decode_utf8(text);
}

proof fn lemma_find_close_at(t: Seq<char>, i: int, j: int)
    requires
        0 <= i <= j < t.len(),
        t[j] == '}',
        forall|k: int| i <= k < j ==> t[k] != '}',
    ensures
        find_close(t, i) == j,
    decreases j - i,
{
    if i < j {
        lemma_find_close_at(t, i + 1, j);
    }
}

proof fn lemma_digit_run_to_end(t: Seq<char>, i: int)
    requires
        0 <= i <= t.len(),
        forall|k: int| i <= k < t.len() ==> '0' <= #[trigger] t[k] <= '9',
    ensures
        digit_run_end(t, i) == t.len(),
    decreases t.len() - i,
{
    if i < t.len() {
        lemma_digit_run_to_end(t, i + 1);
    }
}

/// A braced number is the same group reference as the bare number: for
/// every match and every run of decimal digits `d`, `${d}` expands as `$d`
/// does, to the whole match when `d`'s value is 0 and otherwise to the text
/// of the capture group with that number (nothing when it did not take
/// part).
pub proof fn lemma_braced_number_is_group(m: MatchView, d: Seq<char>)
    requires
        d.len() > 0,
        forall|k: int| 0 <= k < d.len() ==> '0' <= #[trigger] d[k] <= '9',
    ensures
        spec_expand(seq!['$', '{'] + d + seq!['}'], m) == spec_expand(seq!['$'] + d, m),
        crate::text::digits_value(d) <= usize::MAX ==> spec_expand(seq!['$', '{'] + d + seq!['}'], m) == if crate::text::digits_value(d) == 0 {
            m.text
        } else {
            match capture_by_index(m.captures, crate::text::digits_value(d)) {
                Some(t) => t,
                None => Seq::empty(),
            }
        },
{
    let t1 = seq!['$', '{'] + d + seq!['}'];
    let t2 = seq!['$'] + d;
    let n1 = t1.len() as int;
    assert forall|k: int| 2 <= k < n1 - 1 implies t1[k] != '}' by {
        assert(t1[k] == d[k - 2]);
    }
    lemma_find_close_at(t1, 2, n1 - 1);
    assert(t1.subrange(2, n1 - 1) =~= d);
    assert(expand_from(t1, n1, m) == Seq::<char>::empty());
    assert(expand_from(t1, 0, m) == lookup_text(m, d) + expand_from(t1, n1, m));
    assert(lookup_text(m, d) + Seq::<char>::empty() =~= lookup_text(m, d));
    assert forall|k: int| 1 <= k < t2.len() implies '0' <= #[trigger] t2[k] <= '9' by {
        assert(t2[k] == d[k - 1]);
    }
    lemma_digit_run_to_end(t2, 1);
    assert(t2.subrange(1, t2.len() as int) =~= d);
    assert(t2[1] == d[0]);
    assert(expand_from(t2, t2.len() as int, m) == Seq::<char>::empty());
    assert(expand_from(t2, 0, m) == lookup_text(m, d) + expand_from(t2, t2.len() as int, m));
    assert(d[0] != '+');
    assert(crate::text::all_digits(d));
}

/// Replacing every match by `$0` or `$&` (the whole match) gives the text
/// back, for matches laid out in the text.
pub proof fn lemma_replace_whole_match_identity(text: Seq<char>, ms: Seq<MatchView>)
    requires
        matches_laid_out(ms, text),
    ensures
        spec_replace_all(text, ms, "$0"@).output == text,
        spec_replace_all(text, ms, "$&"@).output == text,
{
    assert forall|i: int| 0 <= i < ms.len() implies spec_expand("$0"@, #[trigger] ms[i]) == ms[i].text by {
        lemma_expand_whole_match(ms[i]);
    }
    assert forall|i: int| 0 <= i < ms.len() implies spec_expand("$&"@, #[trigger] ms[i]) == ms[i].text by {
        lemma_expand_ampersand(ms[i]);
    }
    lemma_identity(text, ms, "$0"@);
    lemma_identity(text, ms, "$&"@);
}

} // verus!
