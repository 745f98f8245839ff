//! The engine backed by PCRE2 (through the `pcre2` crate).

use vstd::prelude::*;
use vstd::slice::slice_subrange;
use vstd::string::StringSliceAdditionalSpecFns;
use vstd::utf8::{decode_utf8, encode_utf8, is_char_boundary};

use super::{
    matches_laid_out, matches_view, name_at, span_ok, text_bytes, CaptureGroup, CaptureView,
    CompiledRegex, EngineError, EngineFlags, EngineKind, EngineResult, Match, MatchView,
};
use crate::text::{
    chars_of, contains_seq, contains_str, owned, parse_usize, std_usize_parse, str_lowercase, string_from_chars,
    substring_bytes, to_lowercase,
};

verus! {

#[verifier::external_type_specification]
#[verifier::external_body]
pub struct ExPcre2Regex(pcre2::bytes::Regex);

/// The names of the groups of a pattern compiled by PCRE2, in group order.
pub uninterp spec fn pcre2_group_names(
    pattern: Seq<char>,
    ucp: bool,
    caseless: bool,
    multi_line: bool,
    dotall: bool,
    extended: bool,
) -> Seq<Option<Seq<char>>>;

/// What one PCRE2 search of a subject reports: the byte spans of every group
/// of the first match, no match, or an error text.
pub type P2Outcome = Result<Option<Seq<Option<(usize, usize)>>>, Seq<char>>;

/// How the PCRE2 library in use behaved for one compiled pattern: whether
/// the CVE guard applied, what compiling reported, and what each search of
/// a subject reports. These follow the PCRE2 build on the machine (the
/// system library when one is found, and its JIT when the platform has
/// one), so the library states no single answer; contracts say that some
/// such behaviour explains what was observed.
pub struct Pcre2Env {
    pub blocked: bool,
    pub built: Result<(), Seq<char>>,
    pub searches: spec_fn(Seq<u8>) -> P2Outcome,
}

/// An error text of the `pcre2` crate: every form its `Display` writes
/// begins with `PCRE2: `.
pub open spec fn pcre2_error_text(m: Seq<char>) -> bool {
    m.len() >= 7 && m.subrange(0, 7) == "PCRE2: "@
}

/// A behaviour of PCRE2 that fits a linked library that is release 10.45
/// (`linked`) or not: the CVE guard applies exactly on 10.45, and what
/// compiling reports is PCRE2's own.
pub open spec fn env_for(env: Pcre2Env, linked: bool) -> bool {
    &&& env.blocked == linked
    &&& env.built matches Err(m) ==> pcre2_error_text(m)
}

/// No error of PCRE2's own reads as the CVE guard's refusal.
pub proof fn lemma_pcre2_error_not_refusal(m: Seq<char>)
    requires
        pcre2_error_text(m),
    ensures
        m != scs_blocked_message(),
{
    reveal_strlit("PCRE2: ");
    reveal_strlit(
        "Pattern blocked (CVE-2025-58050): (*scs:) / (*SCAN_SUBSTRING:) triggers a heap-buffer-overflow on the linked PCRE2 10.45. Upgrade to PCRE2 >= 10.46 to use this verb.",
    );
    assert(m[1] == m.subrange(0, 7)[1]);
    assert(m[1] == 'C');
    assert(scs_blocked_message()[1] == 'a');
}

/// A behaviour for engines other than PCRE2, which do not read it.
pub open spec fn default_env() -> Pcre2Env {
    Pcre2Env { blocked: false, built: Ok(()), searches: |s: Seq<u8>| Ok(None) }
}

/// Source of a compiled PCRE2 pattern: the pattern and the options.
pub type Pcre2Source = (Seq<char>, EngineFlags);

pub open spec fn p2_names(src: Pcre2Source) -> Seq<Option<Seq<char>>> {
    pcre2_group_names(src.0, src.1.unicode, src.1.case_insensitive, src.1.multi_line, src.1.dot_matches_newline, src.1.extended)
}

/// The engine backed by PCRE2.
pub struct Pcre2Engine;

/// A pattern compiled by PCRE2, kept with the pattern and options it was
/// built from, and with what its searches report. Values are only made by
/// `build`.
pub struct Pcre2CompiledRegex {
    re: pcre2::bytes::Regex,
    pattern: String,
    flags: EngineFlags,
    outcomes: Ghost<spec_fn(Seq<u8>) -> P2Outcome>,
}

impl Pcre2CompiledRegex {
    /// What a search of a subject with this compiled pattern reports.
    pub closed spec fn searches(&self) -> spec_fn(Seq<u8>) -> P2Outcome {
        self.outcomes@
    }
}

impl View for Pcre2CompiledRegex {
    type V = Pcre2Source;

    closed spec fn view(&self) -> Pcre2Source {
        (self.pattern@, self.flags)
    }
}

/// Calls `pcre2::bytes::RegexBuilder::build` with UTF mode on, JIT when
/// available, and the options taken from the flags. Trusted: a compiled
/// pattern keeps the pattern and flags it was built from, and an error's
/// text is the error's `Display` output, which always begins with
/// `PCRE2: `. Whether PCRE2 accepts the pattern, and the rest of the error
/// text, follow the PCRE2 build in use, so nothing more is stated.
#[verifier::external_body]
fn build(pattern: &str, flags: &EngineFlags) -> (r: Result<Pcre2CompiledRegex, String>)
    ensures
        r matches Ok(c) ==> c@ == (pattern@, *flags),
        r matches Err(m) ==> pcre2_error_text(m@),
{
    let mut builder = pcre2::bytes::RegexBuilder::new();
    builder.utf(true);
    builder.ucp(flags.unicode);
    builder.caseless(flags.case_insensitive);
    builder.multi_line(flags.multi_line);
    builder.dotall(flags.dot_matches_newline);
    builder.extended(flags.extended);
    builder.jit_if_available(true);
    match builder.build(pattern) {
        Ok(re) => Ok(Pcre2CompiledRegex { re, pattern: pattern.to_string(), flags: *flags, outcomes: Ghost(arbitrary()) }),
        Err(e) => Err(e.to_string()),
    }
}

/// Calls `pcre2::bytes::Regex::capture_names`. Trusted: the names depend only
/// on the compiled pattern and options (named `pcre2_group_names`).
#[verifier::external_body]
fn group_names(c: &Pcre2CompiledRegex) -> (r: Vec<Option<String>>)
    ensures
        r.deep_view() == pcre2_group_names(c@.0, c@.1.unicode, c@.1.case_insensitive, c@.1.multi_line,
            c@.1.dot_matches_newline, c@.1.extended),
{
    c.re.capture_names().to_vec()
}

/// Calls `pcre2::bytes::Regex::captures` on a subject and reads the span of
/// every group. Trusted: one compiled pattern reports the same outcome
/// whenever it searches the same subject (`c.searches()`); which outcome
/// that is follows the PCRE2 build in use and is not stated. As the crate
/// documents, group 0 of a match is present, and every span lies inside the
/// subject.
#[verifier::external_body]
fn captures_at(c: &Pcre2CompiledRegex, subject: &[u8]) -> (r: Result<Option<Vec<Option<(usize, usize)>>>, String>)
    ensures
        (match r {
            Ok(Some(g)) => (c.searches())(subject@) == Ok::<Option<Seq<Option<(usize, usize)>>>, Seq<char>>(Some(g@))
                && g.len() > 0 && g@[0] is Some
                && forall|i: int| 0 <= i < g.len() && (#[trigger] g@[i]) is Some ==> g@[i].unwrap().0 <= g@[i].unwrap().1 <= subject@.len(),
            Ok(None) => (c.searches())(subject@) == Ok::<Option<Seq<Option<(usize, usize)>>>, Seq<char>>(None),
            Err(m) => (c.searches())(subject@) == Err::<Option<Seq<Option<(usize, usize)>>>, Seq<char>>(m@),
        }),
{
    match c.re.captures(subject) {
        Ok(Some(caps)) => Ok(Some((0..caps.len()).map(|i| caps.get(i).map(|m| (m.start(), m.end()))).collect())),
        Ok(None) => Ok(None),
        Err(e) => Err(e.to_string()),
    }
}

/// The PCRE2 version that the `pcre2` crate reports: the version its
/// bindings (`pcre2-sys`) were generated for, 10.45.
pub open spec fn bindings_version() -> (u32, u32) {
    (10, 45)
}

/// Calls `pcre2::version`, which returns the constants `PCRE2_MAJOR` and
/// `PCRE2_MINOR` of the `pcre2-sys` bindings, 10 and 45. It does not ask
/// the library linked at run time.
#[verifier::external_body]
fn library_version() -> (r: (u32, u32))
    ensures
        r == bindings_version(),
{
    pcre2::version()
}

/// Whether a PCRE2 version is 10.45, the one CVE-2025-58050 affects.
pub fn is_version_10_45(major: u32, minor: u32) -> (r: bool)
    ensures
        r == (major == 10 && minor == 45),
{
    major == 10 && minor == 45
}

/// Whether the PCRE2 version that the `pcre2` crate reports is 10.45, which
/// CVE-2025-58050 affects (upgrade to 10.46 or later to resolve). That
/// version is the one the bindings were generated for, so the answer is
/// yes; `is_version_10_45` says how a version is judged. The release of the
/// library linked at run time can only be read through its C interface;
/// a caller that has read it hands it to `compile_on`,
/// `create_engine_linked`, `App::set_linked_pcre2` or
/// `Workspace::run_tests_linked` in place of this answer.
pub fn is_pcre2_10_45() -> (r: bool)
    ensures
        r == is_blocked_version(),
{
    let (major, minor) = library_version();
    is_version_10_45(major, minor)
}

/// A character with the Unicode `White_Space` property, as
/// `char::is_whitespace` tests it.
pub open spec fn unicode_space(c: char) -> bool {
    ('\u{9}' <= c <= '\u{d}') || c == ' ' || c == '\u{85}' || c == '\u{a0}' || c == '\u{1680}' || (
    '\u{2000}' <= c <= '\u{200a}') || c == '\u{2028}' || c == '\u{2029}' || c == '\u{202f}' || c == '\u{205f}'
        || c == '\u{3000}'
}

fn is_unicode_space(c: char) -> (r: bool)
    ensures
        r == unicode_space(c),
{
    ('\u{9}' <= c && c <= '\u{d}') || c == ' ' || c == '\u{85}' || c == '\u{a0}' || c == '\u{1680}' || (
    '\u{2000}' <= c && c <= '\u{200a}') || c == '\u{2028}' || c == '\u{2029}' || c == '\u{202f}' || c
        == '\u{205f}' || c == '\u{3000}'
}

/// The first position from `i` on that does not hold a space.
pub open spec fn skip_spaces(s: Seq<char>, i: int) -> int
    decreases s.len() - i,
{
    if 0 <= i < s.len() && unicode_space(s[i]) {
        skip_spaces(s, i + 1)
    } else {
        i
    }
}

/// The first position from `i` on that holds a space.
pub open spec fn word_end(s: Seq<char>, i: int) -> int
    decreases s.len() - i,
{
    if 0 <= i < s.len() && !unicode_space(s[i]) {
        word_end(s, i + 1)
    } else {
        i
    }
}

/// The first position from `i` on that holds a `.`.
pub open spec fn find_dot(s: Seq<char>, i: int) -> int
    decreases s.len() - i,
{
    if 0 <= i < s.len() && s[i] != '.' {
        find_dot(s, i + 1)
    } else {
        i
    }
}

/// A number as `str::parse::<u32>` reads it.
pub open spec fn u32_parse(d: Seq<char>) -> Option<u32> {
    match std_usize_parse(d) {
        Some(v) => if v <= u32::MAX {
            Some(v as u32)
        } else {
            None
        },
        None => None,
    }
}

/// The release in a PCRE2 version text such as `10.45 2025-02-21`: the
/// first two `.`-separated numbers of its first word.
pub open spec fn spec_release(text: Seq<char>) -> Option<(u32, u32)> {
    let a = skip_spaces(text, 0);
    if a >= text.len() {
        None
    } else {
        let w = text.subrange(a, word_end(text, a));
        let d = find_dot(w, 0);
        if d >= w.len() {
            None
        } else {
            let e = find_dot(w, d + 1);
            match (u32_parse(w.subrange(0, d)), u32_parse(w.subrange(d + 1, e))) {
                (Some(x), Some(y)) => Some((x, y)),
                _ => None,
            }
        }
    }
}

proof fn lemma_scan_bounds(s: Seq<char>, i: int)
    requires
        0 <= i <= s.len(),
    ensures
        i <= skip_spaces(s, i) <= s.len(),
        i <= word_end(s, i) <= s.len(),
        i <= find_dot(s, i) <= s.len(),
    decreases s.len() - i,
{
    if i < s.len() {
        lemma_scan_bounds(s, i + 1);
    }
}

fn parse_u32(cs: &Vec<char>, start: usize, end: usize) -> (r: Option<u32>)
    requires
        start <= end <= cs@.len(),
    ensures
        r == u32_parse(cs@.subrange(start as int, end as int)),
{
    let mut part: Vec<char> = Vec::new();
    let mut k = start;
    while k < end
        invariant
            start <= k <= end <= cs@.len(),
            part@ == cs@.subrange(start as int, k as int),
        decreases end - k,
    {
        part.push(cs[k]);
        k = k + 1;
        assert(part@ =~= cs@.subrange(start as int, k as int));
    }
    let text = string_from_chars(&part);
    match parse_usize(text.as_str()) {
        Ok(v) => if v <= 4294967295 {
            Some(v as u32)
        } else {
            None
        },
        Err(_) => None,
    }
}

/// Reads the release out of a PCRE2 version text such as
/// `10.45 2025-02-21`: the first two `.`-separated numbers of its first
/// word; `None` when they are not there.
pub fn release_of(text: &str) -> (r: Option<(u32, u32)>)
    ensures
        r == spec_release(text@),
{
    let cs = chars_of(text);
    let ghost t = text@;
    proof {
        lemma_scan_bounds(t, 0);
    }
    let mut a: usize = 0;
    while a < cs.len() && is_unicode_space(cs[a])
        invariant
            cs@ == t,
            a <= t.len(),
            skip_spaces(t, a as int) == skip_spaces(t, 0),
        decreases cs.len() - a,
    {
        a = a + 1;
    }
    if a >= cs.len() {
        return None;
    }
    proof {
        lemma_scan_bounds(t, a as int);
    }
    let mut b: usize = a;
    while b < cs.len() && !is_unicode_space(cs[b])
        invariant
            cs@ == t,
            a <= b <= t.len(),
            word_end(t, b as int) == word_end(t, a as int),
        decreases cs.len() - b,
    {
        b = b + 1;
    }
    let ghost w = t.subrange(a as int, b as int);
    let mut d: usize = a;
    while d < b && cs[d] != '.'
        invariant
            cs@ == t,
            a <= d <= b <= t.len(),
            w == t.subrange(a as int, b as int),
            find_dot(w, d - a) == find_dot(w, 0),
        decreases b - d,
    {
        d = d + 1;
    }
    proof {
        lemma_scan_bounds(w, 0);
    }
    if d >= b {
        return None;
    }
    let mut e: usize = d + 1;
    while e < b && cs[e] != '.'
        invariant
            cs@ == t,
            a < d + 1 <= e <= b <= t.len(),
            w == t.subrange(a as int, b as int),
            find_dot(w, e - a) == find_dot(w, d + 1 - a),
        decreases b - e,
    {
        e = e + 1;
    }
    proof {
        lemma_scan_bounds(w, d + 1 - a);
        assert(w.subrange(0, d - a) =~= t.subrange(a as int, d as int));
        assert(w.subrange(d + 1 - a, e - a) =~= t.subrange(d + 1, e as int));
    }
    let major = parse_u32(&cs, a, d);
    let minor = parse_u32(&cs, d + 1, e);
    match (major, minor) {
        (Some(x), Some(y)) => Some((x, y)),
        _ => None,
    }
}

/// The CVE guard applies: the reported PCRE2 version is 10.45.
pub open spec fn is_blocked_version() -> bool {
    bindings_version().0 == 10 && bindings_version().1 == 45
}

pub open spec fn spec_uses_scs_verb(pattern: Seq<char>) -> bool {
    contains_seq(str_lowercase(pattern), "(*scs:"@) || contains_seq(str_lowercase(pattern), "(*scan_substring:"@)
}

/// Whether the pattern invokes the scan-substring verb (`(*scs:` or
/// `(*scan_substring:`, in any case), the documented trigger of
/// CVE-2025-58050.
pub fn uses_scs_verb(pattern: &str) -> (r: bool)
    ensures
        r == spec_uses_scs_verb(pattern@),
{
    let lower = to_lowercase(pattern);
    contains_str(lower.as_str(), "(*scs:") || contains_str(lower.as_str(), "(*scan_substring:")
}

/// The message given for a pattern that the CVE guard blocks.
pub open spec fn scs_blocked_message() -> Seq<char> {
    "Pattern blocked (CVE-2025-58050): (*scs:) / (*SCAN_SUBSTRING:) triggers a heap-buffer-overflow on the linked PCRE2 10.45. Upgrade to PCRE2 >= 10.46 to use this verb."@
}

/// The message given when a reported span does not fall on character
/// boundaries of the text.
pub open spec fn off_boundary_message() -> Seq<char> {
    "match offsets do not fall on character boundaries"@
}

/// Every group of a search at `offset` lies on character boundaries.
pub open spec fn p2_groups_ok(g: Seq<Option<(usize, usize)>>, offset: int, bytes: Seq<u8>) -> bool {
    forall|i: int| 0 <= i < g.len() && (#[trigger] g[i]) is Some ==>
        is_char_boundary(bytes, offset + g[i].unwrap().0) && is_char_boundary(bytes, offset + g[i].unwrap().1)
}

/// The capture groups `1..n` of a search at `offset`.
pub open spec fn p2_captures_upto(g: Seq<Option<(usize, usize)>>, names: Seq<Option<Seq<char>>>, offset: int, bytes: Seq<u8>, n: int) -> Seq<CaptureView>
    decreases n,
{
    if n <= 1 {
        Seq::empty()
    } else {
        let prev = p2_captures_upto(g, names, offset, bytes, n - 1);
        if n - 1 < g.len() && g[n - 1] is Some {
            let sp = g[n - 1].unwrap();
            prev.push(CaptureView {
                index: (n - 1) as usize,
                name: name_at(names, n - 1),
                start: (offset + sp.0) as usize,
                end: (offset + sp.1) as usize,
                text: decode_utf8(bytes.subrange(offset + sp.0, offset + sp.1)),
            })
        } else {
            prev
        }
    }
}

/// The match built from a search at `offset`.
pub open spec fn p2_match(g: Seq<Option<(usize, usize)>>, names: Seq<Option<Seq<char>>>, offset: int, bytes: Seq<u8>) -> MatchView {
    let sp = g[0].unwrap();
    MatchView {
        start: (offset + sp.0) as usize,
        end: (offset + sp.1) as usize,
        text: decode_utf8(bytes.subrange(offset + sp.0, offset + sp.1)),
        captures: p2_captures_upto(g, names, offset, bytes, g.len() as int),
    }
}

/// Prepends found matches to the outcome of the rest of the search.
pub open spec fn prepend(found: Seq<MatchView>, rest: Result<Seq<MatchView>, Seq<char>>) -> Result<Seq<MatchView>, Seq<char>> {
    match rest {
        Ok(ms) => Ok(found + ms),
        Err(m) => Err(m),
    }
}

/// Every match PCRE2 finds from byte `offset` on: search the rest of the text,
/// skip an empty match found right at the resumption point, and resume after
/// each match (one byte further after an empty one).
pub open spec fn pcre2_find_from(
    searches: spec_fn(Seq<u8>) -> P2Outcome,
    names: Seq<Option<Seq<char>>>,
    bytes: Seq<u8>,
    offset: int,
) -> Result<Seq<MatchView>, Seq<char>>
    decreases bytes.len() + 1 - offset,
{
    if offset < 0 || offset > bytes.len() {
        Ok(Seq::empty())
    } else {
        match searches(bytes.subrange(offset, bytes.len() as int)) {
            Err(m) => Err(m),
            Ok(None) => Ok(Seq::empty()),
            Ok(Some(g)) => {
                if g.len() == 0 || g[0] is None {
                    Ok(Seq::empty())
                } else {
                    let sp = g[0].unwrap();
                    if !(sp.0 <= sp.1 && offset + sp.1 <= bytes.len()) {
                        Ok(Seq::empty())
                    } else if sp.0 == sp.1 && sp.0 == 0 && offset > 0 {
                        pcre2_find_from(searches, names, bytes, offset + 1)
                    } else if !p2_groups_ok(g, offset, bytes) {
                        Err(off_boundary_message())
                    } else {
                        let m = p2_match(g, names, offset, bytes);
                        if sp.0 == sp.1 && offset + sp.1 >= bytes.len() {
                            Ok(seq![m])
                        } else {
                            let next = if sp.0 == sp.1 { offset + sp.1 + 1 } else { offset + sp.1 };
                            prepend(seq![m], pcre2_find_from(searches, names, bytes, next))
                        }
                    }
                }
            },
        }
    }
}

/// Search resumption keeps adjacent matches: when the search from byte `o`
/// reports a non-empty match ending at byte `e`, and the search from `e`
/// reports a non-empty match starting right there, then the matches found
/// from `o` are that first match followed by the one starting at `e`
/// (nothing between them is skipped).
pub proof fn lemma_pcre2_adjacent_matches_kept(
    searches: spec_fn(Seq<u8>) -> P2Outcome,
    names: Seq<Option<Seq<char>>>,
    bytes: Seq<u8>,
    o: int,
    g: Seq<Option<(usize, usize)>>,
    h: Seq<Option<(usize, usize)>>,
)
    requires
        0 <= o <= bytes.len() <= usize::MAX,
        searches(bytes.subrange(o, bytes.len() as int)) == Ok::<_, Seq<char>>(Some(g)),
        g.len() > 0,
        g[0] matches Some(sp) && sp.0 < sp.1 && o + sp.1 <= bytes.len(),
        p2_groups_ok(g, o, bytes),
        searches(bytes.subrange(o + g[0].unwrap().1, bytes.len() as int)) == Ok::<_, Seq<char>>(Some(h)),
        h.len() > 0,
        h[0] matches Some(sq) && sq.0 == 0 && 0 < sq.1 && o + g[0].unwrap().1 + sq.1 <= bytes.len(),
        p2_groups_ok(h, o + g[0].unwrap().1, bytes),
    ensures
        pcre2_find_from(searches, names, bytes, o) matches Ok(ms) ==> {
            &&& ms.len() >= 2
            &&& ms[0].start == o + g[0].unwrap().0 && ms[0].end == o + g[0].unwrap().1
            &&& ms[1].start == o + g[0].unwrap().1 && ms[1].end == o + g[0].unwrap().1 + h[0].unwrap().1
        },
{
    let e = o + g[0].unwrap().1;
    assert(pcre2_find_from(searches, names, bytes, o) == prepend(
        seq![p2_match(g, names, o, bytes)],
        pcre2_find_from(searches, names, bytes, e),
    ));
    let m1 = p2_match(g, names, o, bytes);
    let m2 = p2_match(h, names, e, bytes);
    assert(m1.start == o + g[0].unwrap().0 && m1.end == e);
    assert(m2.start == e && m2.end == e + h[0].unwrap().1);
    assert(pcre2_find_from(searches, names, bytes, e) == prepend(
        seq![m2],
        pcre2_find_from(searches, names, bytes, e + h[0].unwrap().1),
    ));
    match pcre2_find_from(searches, names, bytes, e + h[0].unwrap().1) {
        Ok(rest) => {
            let ms = seq![m1] + (seq![m2] + rest);
            assert(pcre2_find_from(searches, names, bytes, o) == Ok::<_, Seq<char>>(ms));
            assert(ms[0] == m1);
            assert(ms[1] == m2);
        },
        Err(_) => {},
    }
}

/// For a pattern that matches exactly one character at the start of every
/// remaining part of an ASCII text (and nothing in the empty rest), such as
/// `\d` on a text of digits, every character is reported: as many matches as
/// characters, the `k`-th spanning byte `k`.
pub proof fn lemma_pcre2_every_character_matched(
    searches: spec_fn(Seq<u8>) -> P2Outcome,
    src: Pcre2Source,
    text: Seq<char>,
)
    requires
        vstd::utf8::is_ascii_chars(text),
        text.len() <= usize::MAX,
        forall|o: int|
            0 <= o < text.len() ==> #[trigger] searches(text_bytes(text).subrange(o, text.len() as int))
                == Ok::<_, Seq<char>>(Some(seq![Some((0usize, 1usize))])),
        searches(Seq::<u8>::empty()) == Ok::<_, Seq<char>>(None::<Seq<Option<(usize, usize)>>>),
    ensures
        spec_pcre2_find(searches, src, text) matches Ok(ms) && ms.len() == text.len() && forall|k: int|
            0 <= k < ms.len() ==> (#[trigger] ms[k]).start == k && ms[k].end == k + 1 && ms[k].text == seq![text[k]],
{
    let bytes = text_bytes(text);
    vstd::utf8::is_ascii_chars_encode_utf8(text);
    vstd::utf8::encode_utf8_valid_utf8(text);
    lemma_every_byte_from(searches, p2_names(src), text, bytes, 0);
}

proof fn lemma_every_byte_from(
    searches: spec_fn(Seq<u8>) -> P2Outcome,
    names: Seq<Option<Seq<char>>>,
    text: Seq<char>,
    bytes: Seq<u8>,
    o: int,
)
    requires
        bytes == text_bytes(text),
        vstd::utf8::is_ascii_chars(text),
        bytes.len() == text.len(),
        text.len() <= usize::MAX,
        forall|i: int| 0 <= i < text.len() ==> text[i] as u8 == #[trigger] bytes[i],
        vstd::utf8::valid_utf8(bytes),
        0 <= o <= bytes.len(),
        forall|o: int|
            0 <= o < text.len() ==> #[trigger] searches(text_bytes(text).subrange(o, text.len() as int))
                == Ok::<_, Seq<char>>(Some(seq![Some((0usize, 1usize))])),
        searches(Seq::<u8>::empty()) == Ok::<_, Seq<char>>(None::<Seq<Option<(usize, usize)>>>),
    ensures
        pcre2_find_from(searches, names, bytes, o) matches Ok(ms) && ms.len() == bytes.len() - o && forall|k: int|
            0 <= k < ms.len() ==> (#[trigger] ms[k]).start == o + k && ms[k].end == o + k + 1 && ms[k].text
                == seq![text[o + k]],
    decreases bytes.len() - o,
{
    if o == bytes.len() {
        assert(bytes.subrange(o, bytes.len() as int) =~= Seq::<u8>::empty());
    } else {
        let g = seq![Some((0usize, 1usize))];
        assert(searches(bytes.subrange(o, bytes.len() as int)) == Ok::<_, Seq<char>>(Some(g)));
        vstd::utf8::is_char_boundary_start_end_of_seq(bytes);
        vstd::utf8::is_char_boundary_iff_not_is_continuation_byte(bytes, o);
        assert(text[o] <= '\u{7f}');
        assert(bytes[o] < 128);
        if o + 1 < bytes.len() {
            vstd::utf8::is_char_boundary_iff_not_is_continuation_byte(bytes, o + 1);
            assert(text[o + 1] <= '\u{7f}');
            assert(bytes[o + 1] < 128);
        }
        assert(p2_groups_ok(g, o, bytes));
        let m = p2_match(g, names, o, bytes);
        let one = bytes.subrange(o, o + 1);
        assert(one =~= encode_utf8(seq![text[o]])) by {
            vstd::utf8::is_ascii_chars_encode_utf8(seq![text[o]]);
        }
        vstd::utf8::encode_utf8_decode_utf8(seq![text[o]]);
        assert(m.text == seq![text[o]]);
        lemma_every_byte_from(searches, names, text, bytes, o + 1);
        let rest = pcre2_find_from(searches, names, bytes, o + 1)->Ok_0;
        assert(pcre2_find_from(searches, names, bytes, o) == Ok::<_, Seq<char>>(seq![m] + rest));
        assert forall|k: int| 0 <= k < (seq![m] + rest).len() implies (#[trigger] (seq![m] + rest)[k]).start == o + k
            && (seq![m] + rest)[k].end == o + k + 1 && (seq![m] + rest)[k].text == seq![text[o + k]] by {
            if k > 0 {
                assert((seq![m] + rest)[k] == rest[k - 1]);
                assert(rest[k - 1].start == o + 1 + (k - 1));
                assert(o + 1 + (k - 1) == o + k);
            } else {
                assert((seq![m] + rest)[k] == m);
                assert(m.start == o && m.end == o + 1);
            }
        }
    }
}

/// Every match found in a text when searches report as `searches` does,
/// with the group names of the pattern.
pub open spec fn spec_pcre2_find(
    searches: spec_fn(Seq<u8>) -> P2Outcome,
    src: Pcre2Source,
    text: Seq<char>,
) -> Result<Seq<MatchView>, Seq<char>> {
    pcre2_find_from(searches, p2_names(src), text_bytes(text), 0)
}

/// What compiling gives under a behaviour of PCRE2: the CVE guard's refusal
/// of a scan-substring pattern where it applies, else what PCRE2 reported.
pub open spec fn spec_pcre2_compile(pattern: Seq<char>, env: Pcre2Env) -> Result<(), Seq<char>> {
    if env.blocked && spec_uses_scs_verb(pattern) {
        Err(scs_blocked_message())
    } else {
        env.built
    }
}

impl Pcre2Engine {
    pub fn kind(&self) -> (r: EngineKind)
        ensures
            r == EngineKind::Pcre2,
    {
        EngineKind::Pcre2
    }

    /// Compiles the pattern with the flags as PCRE2 options. On PCRE2 10.45
    /// (as the `pcre2` crate reports it) a pattern that uses the
    /// scan-substring verb is refused.
    pub fn compile(&self, pattern: &str, flags: &EngineFlags) -> (r: EngineResult<CompiledRegex>)
        ensures
            (match r {
                Ok(c) => c is Pcre2 && c->Pcre2_0@ == (pattern@, *flags) && !(is_blocked_version() && spec_uses_scs_verb(pattern@)),
                Err(e) => e is CompileError,
            }),
            (r matches Err(e) && e->CompileError_0@ == scs_blocked_message()) <==> (is_blocked_version()
                && spec_uses_scs_verb(pattern@)),
            r matches Err(e) ==> (e->CompileError_0@ == scs_blocked_message() || pcre2_error_text(e->CompileError_0@)),
    {
        self.compile_on(pattern, flags, is_pcre2_10_45())
    }

    /// Compiles the pattern with the flags as PCRE2 options, on a linked
    /// PCRE2 that is release 10.45 or not: on 10.45 a pattern that uses the
    /// scan-substring verb is refused.
    pub fn compile_on(&self, pattern: &str, flags: &EngineFlags, linked_10_45: bool) -> (r: EngineResult<CompiledRegex>)
        ensures
            (match r {
                Ok(c) => c is Pcre2 && c->Pcre2_0@ == (pattern@, *flags) && !(linked_10_45 && spec_uses_scs_verb(pattern@)),
                Err(e) => e is CompileError,
            }),
            (r matches Err(e) && e->CompileError_0@ == scs_blocked_message()) <==> (linked_10_45 && spec_uses_scs_verb(
                pattern@,
            )),
            r matches Err(e) ==> (e->CompileError_0@ == scs_blocked_message() || pcre2_error_text(e->CompileError_0@)),
    {
        if linked_10_45 && uses_scs_verb(pattern) {
            let r = Err(EngineError::CompileError(owned(
                "Pattern blocked (CVE-2025-58050): (*scs:) / (*SCAN_SUBSTRING:) triggers a heap-buffer-overflow on the linked PCRE2 10.45. Upgrade to PCRE2 >= 10.46 to use this verb.",
            )));
            return r;
        }
        match build(pattern, flags) {
            Ok(c) => Ok(CompiledRegex::Pcre2(c)),
            Err(m) => {
                proof {
                    lemma_pcre2_error_not_refusal(m@);
                }
                Err(EngineError::CompileError(m))
            },
        }
    }
}

impl Pcre2CompiledRegex {
    /// Every match in the text: search the rest of the text again and again,
    /// resuming after each match (one byte further after an empty one).
    pub fn find_matches(&self, text: &str) -> (r: EngineResult<Vec<Match>>)
        ensures
            (match r {
                Ok(ms) => spec_pcre2_find(self.searches(), self@, text@) == Ok::<Seq<MatchView>, Seq<char>>(matches_view(ms@))
                    && matches_laid_out(matches_view(ms@), text@),
                Err(e) => e is MatchError && spec_pcre2_find(self.searches(), self@, text@) == Err::<Seq<MatchView>, Seq<char>>(e->MatchError_0@),
            }),
    {
        let ghost src = self@;
        let ghost sr = self.searches();
        let ghost nm = p2_names(src);
        let bytes = text.as_bytes();
        let ghost bs = bytes@;
        let names = group_names(self);
        let mut matches: Vec<Match> = Vec::new();
        let mut offset: usize = 0;
        assert(prepend(matches_view(matches@), pcre2_find_from(sr, nm, bs, 0)) == pcre2_find_from(sr, nm, bs, 0)) by {
            assert(matches_view(matches@) =~= Seq::<MatchView>::empty());
            match pcre2_find_from(sr, nm, bs, 0) {
                Ok(ms) => { assert(Seq::<MatchView>::empty() + ms =~= ms); },
                Err(_) => {},
            }
        }
        loop
            invariant_except_break
                offset <= bs.len(),
                pcre2_find_from(sr, nm, bs, 0) == prepend(matches_view(matches@), pcre2_find_from(sr, nm, bs, offset as int)),
                forall|i: int| 0 <= i < matches.len() ==> (#[trigger] matches@[i]).end <= offset,
            invariant
                src == self@,
                sr == self.searches(),
                nm == p2_names(src),
                bs == bytes@,
                bs == text_bytes(text@),
                names.deep_view() == p2_names(src),
                matches_laid_out(matches_view(matches@), text@),
            ensures
                pcre2_find_from(sr, nm, bs, 0) == Ok::<Seq<MatchView>, Seq<char>>(matches_view(matches@)),
            decreases bs.len() + 1 - offset,
        {
            let subject = slice_subrange(bytes, offset, bytes.len());
            let caps = match captures_at(self, subject) {
                Ok(Some(g)) => g,
                Ok(None) => {
                    assert(matches_view(matches@) + Seq::<MatchView>::empty() =~= matches_view(matches@));
                    break;
                },
                Err(m) => {
                    return Err(EngineError::MatchError(m));
                },
            };
            let (s, e) = caps[0].unwrap();
            if s == e && s == 0 && offset > 0 {
                if offset == bytes.len() {
                    assert(pcre2_find_from(sr, nm, bs, offset + 1) == Ok::<Seq<MatchView>, Seq<char>>(Seq::empty()));
                    assert(matches_view(matches@) + Seq::<MatchView>::empty() =~= matches_view(matches@));
                    break;
                }
                offset = offset + 1;
                continue;
            }
            let abs_start = offset + s;
            let abs_end = offset + e;
            if !(text.is_char_boundary(abs_start) && text.is_char_boundary(abs_end)) {
                proof {
                    assert(caps@[0] is Some);
                    assert(!p2_groups_ok(caps@, offset as int, bs));
                }
                return Err(EngineError::MatchError(owned("match offsets do not fall on character boundaries")));
            }
            let mut captures: Vec<CaptureGroup> = Vec::new();
            let mut i: usize = 1;
            while i < caps.len()
                invariant
                    1 <= i <= caps.len(),
                    offset <= bs.len(),
                    bs.len() == bytes.len(),
                    src == self@,
                    sr == self.searches(),
                    nm == p2_names(src),
                    pcre2_find_from(sr, nm, bs, 0) == prepend(matches_view(matches@), pcre2_find_from(sr, nm, bs, offset as int)),
                    sr(bs.subrange(offset as int, bs.len() as int)) == Ok::<Option<Seq<Option<(usize, usize)>>>, Seq<char>>(Some(caps@)),
                    !(s == e && s == 0 && offset > 0),
                    caps.len() > 0,
                    caps@[0] == Some((s, e)),
                    offset + e <= bs.len(),
                    bs == text_bytes(text@),
                    bs == bytes@,
                    subject@ == bs.subrange(offset as int, bs.len() as int),
                    names.deep_view() == p2_names(src),
                    forall|j: int| 0 <= j < caps.len() && (#[trigger] caps@[j]) is Some ==> caps@[j].unwrap().0 <= caps@[j].unwrap().1 <= subject@.len(),
                    is_char_boundary(bs, offset + s),
                    is_char_boundary(bs, offset + e),
                    forall|j: int| 0 <= j < i && (#[trigger] caps@[j]) is Some ==>
                        is_char_boundary(bs, offset + caps@[j].unwrap().0) && is_char_boundary(bs, offset + caps@[j].unwrap().1),
                    captures@.map_values(|c: CaptureGroup| c@) == p2_captures_upto(caps@, p2_names(src), offset as int, bs, i as int),
                decreases caps.len() - i,
            {
                match caps[i] {
                    Some(sp) => {
                        assert(caps@[i as int] == Some(sp));
                        assert(sp.0 <= sp.1 <= subject@.len());
                        assert(bs.len() == bytes@.len());
                        let a = offset + sp.0;
                        let b = offset + sp.1;
                        if !(text.is_char_boundary(a) && text.is_char_boundary(b)) {
                            proof {
                                assert(!p2_groups_ok(caps@, offset as int, bs));
                            }
                            return Err(EngineError::MatchError(owned("match offsets do not fall on character boundaries")));
                        }
                        let name = if i < names.len() {
                            match &names[i] {
                                Some(n) => Some(n.clone()),
                                None => None,
                            }
                        } else {
                            None
                        };
                        let cg = CaptureGroup { index: i, name, start: a, end: b, text: substring_bytes(text, a, b) };
                        let ghost before = captures@;
                        captures.push(cg);
                        proof {
                            if i < names.len() {
                                assert(names.deep_view()[i as int] == names@[i as int].deep_view());
                            }
                            assert(captures@.map_values(|c: CaptureGroup| c@) =~= before.map_values(|c: CaptureGroup| c@).push(cg@));
                        }
                    },
                    None => {},
                }
                i = i + 1;
            }
            let m = Match { start: abs_start, end: abs_end, text: substring_bytes(text, abs_start, abs_end), captures };
            let ghost before = matches@;
            proof {
                assert(p2_groups_ok(caps@, offset as int, bs));
                assert(m@ == p2_match(caps@, p2_names(src), offset as int, bs));
            }
            matches.push(m);
            proof {
                assert(matches_view(matches@) =~= matches_view(before).push(m@));
                let mv = matches_view(matches@);
                assert forall|x: int, y: int| 0 <= x < y < mv.len() implies #[trigger] mv[x].end <= #[trigger] mv[y].start by {
                    if y == mv.len() - 1 {
                        assert(before[x].end <= offset);
                    }
                }
            }
            if s == e {
                if abs_end >= bytes.len() {
                    proof {
                        assert(matches_view(before) + seq![m@] =~= matches_view(matches@));
                    }
                    break;
                }
                offset = abs_end + 1;
            } else {
                offset = abs_end;
            }
            proof {
                assert(matches_view(before) + (seq![m@] + Seq::<MatchView>::empty()) =~= matches_view(matches@));
                match pcre2_find_from(sr, nm, bs, offset as int) {
                    Ok(rest) => {
                        assert(matches_view(before) + (seq![m@] + rest) =~= matches_view(matches@) + rest);
                    },
                    Err(_) => {},
                }
            }
        }
        Ok(matches)
    }
}

} // verus!
