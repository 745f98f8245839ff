//! Regex engines behind one interface, and the match data they produce.

pub mod fancy;
pub mod replace;
pub mod pcre2_debug;
pub mod pcre2;
pub mod rust_regex;

use vstd::prelude::*;

use crate::text::{contains_seq, contains_str, digit, digit_char, owned, push_char, push_str};
use fancy::{fancy_regex_new, spec_fancy_find, FancyCompiledRegex, FancyRegexEngine};
use pcre2::{default_env, env_for, spec_pcre2_compile, spec_pcre2_find, Pcre2CompiledRegex, Pcre2Engine, Pcre2Env};
use rust_regex::{rust_regex_new, spec_rust_find, RustCompiledRegex, RustRegexEngine};

verus! {

/// The regex engines the tool can run a pattern on.
#[derive(Debug, Clone, Copy, PartialEq, Eq, Structural)]
pub enum EngineKind {
    RustRegex,
    FancyRegex,
    Pcre2,
}

impl EngineKind {
    /// Every engine, in cycling order.
    pub fn all() -> (r: Vec<EngineKind>)
        ensures
            r@ == seq![EngineKind::RustRegex, EngineKind::FancyRegex, EngineKind::Pcre2],
    {
        let mut r = Vec::new();
        r.push(EngineKind::RustRegex);
        r.push(EngineKind::FancyRegex);
        r.push(EngineKind::Pcre2);
        r
    }

    pub open spec fn spec_next(self) -> EngineKind {
        match self {
            EngineKind::RustRegex => EngineKind::FancyRegex,
            EngineKind::FancyRegex => EngineKind::Pcre2,
            EngineKind::Pcre2 => EngineKind::RustRegex,
        }
    }

    /// The engine that follows this one in the cycle.
    pub fn next(self) -> (r: EngineKind)
        ensures
            r == self.spec_next(),
    {
        match self {
            EngineKind::RustRegex => EngineKind::FancyRegex,
            EngineKind::FancyRegex => EngineKind::Pcre2,
            EngineKind::Pcre2 => EngineKind::RustRegex,
        }
    }

    pub open spec fn spec_label(self) -> Seq<char> {
        match self {
            EngineKind::RustRegex => "Rust regex"@,
            EngineKind::FancyRegex => "fancy-regex"@,
            EngineKind::Pcre2 => "PCRE2"@,
        }
    }

    /// The engine's display name.
    pub fn label(self) -> (r: String)
        ensures
            r@ == self.spec_label(),
    {
        match self {
            EngineKind::RustRegex => owned("Rust regex"),
            EngineKind::FancyRegex => owned("fancy-regex"),
            EngineKind::Pcre2 => owned("PCRE2"),
        }
    }
}

/// Matching options shared by all engines.
#[derive(Debug, Clone, Copy, PartialEq, Eq, Structural)]
pub struct EngineFlags {
    pub case_insensitive: bool,
    pub multi_line: bool,
    pub dot_matches_newline: bool,
    pub unicode: bool,
    pub extended: bool,
}

impl Default for EngineFlags {
    fn default() -> (r: EngineFlags)
        ensures
            r == EngineFlags::spec_none(),
    {
        EngineFlags {
            case_insensitive: false,
            multi_line: false,
            dot_matches_newline: false,
            unicode: false,
            extended: false,
        }
    }
}

/// One letter for one flag, kept when the flag is on.
pub open spec fn flag_letter(on: bool, letter: char) -> Seq<char> {
    if on {
        seq![letter]
    } else {
        Seq::empty()
    }
}

impl EngineFlags {
    pub open spec fn spec_none() -> EngineFlags {
        EngineFlags {
            case_insensitive: false,
            multi_line: false,
            dot_matches_newline: false,
            unicode: false,
            extended: false,
        }
    }

    pub fn toggle_case_insensitive(&mut self)
        ensures
            *final(self) == (EngineFlags { case_insensitive: !old(self).case_insensitive, ..*old(self) }),
    {
        self.case_insensitive = !self.case_insensitive;
    }

    pub fn toggle_multi_line(&mut self)
        ensures
            *final(self) == (EngineFlags { multi_line: !old(self).multi_line, ..*old(self) }),
    {
        self.multi_line = !self.multi_line;
    }

    pub fn toggle_dot_matches_newline(&mut self)
        ensures
            *final(self) == (EngineFlags {
                dot_matches_newline: !old(self).dot_matches_newline,
                ..*old(self)
            }),
    {
        self.dot_matches_newline = !self.dot_matches_newline;
    }

    pub fn toggle_unicode(&mut self)
        ensures
            *final(self) == (EngineFlags { unicode: !old(self).unicode, ..*old(self) }),
    {
        self.unicode = !self.unicode;
    }

    pub fn toggle_extended(&mut self)
        ensures
            *final(self) == (EngineFlags { extended: !old(self).extended, ..*old(self) }),
    {
        self.extended = !self.extended;
    }

    /// The inline-flag letters of the flags that are on, in the order `imsux`.
    pub open spec fn spec_letters(self) -> Seq<char> {
        flag_letter(self.case_insensitive, 'i') + flag_letter(self.multi_line, 'm')
            + flag_letter(self.dot_matches_newline, 's') + flag_letter(self.unicode, 'u')
            + flag_letter(self.extended, 'x')
    }

    /// The pattern with the active flags written in front of it as an inline
    /// group `(?...)`; the pattern itself when no flag is on.
    pub open spec fn spec_wrap(self, pattern: Seq<char>) -> Seq<char> {
        if self.spec_letters().len() == 0 {
            pattern
        } else {
            "(?"@ + self.spec_letters() + ")"@ + pattern
        }
    }

    pub fn wrap_pattern(&self, pattern: &str) -> (r: String)
        ensures
            r@ == self.spec_wrap(pattern@),
    {
        let mut letters = String::new();
        if self.case_insensitive {
            push_char(&mut letters, 'i');
        }
        if self.multi_line {
            push_char(&mut letters, 'm');
        }
        if self.dot_matches_newline {
            push_char(&mut letters, 's');
        }
        if self.unicode {
            push_char(&mut letters, 'u');
        }
        if self.extended {
            push_char(&mut letters, 'x');
        }
        assert(letters@ =~= self.spec_letters());
        if letters.unicode_len() == 0 {
            owned(pattern)
        } else {
            let mut r = owned("(?");
            push_str(&mut r, letters.as_str());
            push_str(&mut r, ")");
            push_str(&mut r, pattern);
            r
        }
    }
}

/// The abstract content of a capture group.
pub struct CaptureView {
    pub index: usize,
    pub name: Option<Seq<char>>,
    pub start: usize,
    pub end: usize,
    pub text: Seq<char>,
}

/// The abstract content of a match.
pub struct MatchView {
    pub start: usize,
    pub end: usize,
    pub text: Seq<char>,
    pub captures: Seq<CaptureView>,
}

/// A capture group that took part in a match; offsets are byte offsets into
/// the searched text.
#[derive(Debug, Clone)]
pub struct CaptureGroup {
    pub index: usize,
    pub name: Option<String>,
    pub start: usize,
    pub end: usize,
    pub text: String,
}

impl View for CaptureGroup {
    type V = CaptureView;

    open spec fn view(&self) -> CaptureView {
        CaptureView {
            index: self.index,
            name: match self.name {
                Some(n) => Some(n@),
                None => None,
            },
            start: self.start,
            end: self.end,
            text: self.text@,
        }
    }
}

/// One match of a pattern; offsets are byte offsets into the searched text.
#[derive(Debug, Clone)]
pub struct Match {
    pub start: usize,
    pub end: usize,
    pub text: String,
    pub captures: Vec<CaptureGroup>,
}

impl View for Match {
    type V = MatchView;

    open spec fn view(&self) -> MatchView {
        MatchView {
            start: self.start,
            end: self.end,
            text: self.text@,
            captures: self.captures@.map_values(|c: CaptureGroup| c@),
        }
    }
}

/// The abstract contents of a list of matches.
pub open spec fn matches_view(ms: Seq<Match>) -> Seq<MatchView> {
    ms.map_values(|m: Match| m@)
}

/// What one search reports of one match: for each group, its byte span and
/// text, or `None` when the group did not take part.
pub type GroupSpans = Seq<Option<(usize, usize, Seq<char>)>>;

pub open spec fn group_at(groups: GroupSpans, i: int) -> Option<(usize, usize, Seq<char>)> {
    if 0 <= i < groups.len() {
        groups[i]
    } else {
        None
    }
}

pub open spec fn name_at(names: Seq<Option<Seq<char>>>, i: int) -> Option<Seq<char>> {
    if 0 <= i < names.len() {
        names[i]
    } else {
        None
    }
}

/// The capture groups `1..n` that took part in a match, in index order.
pub open spec fn captures_upto(groups: GroupSpans, names: Seq<Option<Seq<char>>>, n: int) -> Seq<
    CaptureView,
>
    decreases n,
{
    if n <= 1 {
        Seq::empty()
    } else {
        let prev = captures_upto(groups, names, n - 1);
        match group_at(groups, n - 1) {
            Some(g) => prev.push(
                CaptureView {
                    index: (n - 1) as usize,
                    name: name_at(names, n - 1),
                    start: g.0,
                    end: g.1,
                    text: g.2,
                },
            ),
            None => prev,
        }
    }
}

/// The match built from one search result, looking at groups `1..n`.
pub open spec fn match_from_groups(groups: GroupSpans, names: Seq<Option<Seq<char>>>, n: int) -> MatchView {
    let g = groups[0].unwrap();
    MatchView { start: g.0, end: g.1, text: g.2, captures: captures_upto(groups, names, n) }
}

/// Builds a match from one search result, looking at groups `1..n`.
pub fn build_match(
    groups: &Vec<Option<(usize, usize, String)>>,
    names: &Vec<Option<String>>,
    n: usize,
) -> (r: Match)
    requires
        groups.len() > 0,
        groups@[0] is Some,
    ensures
        r@ == match_from_groups(groups.deep_view(), names.deep_view(), n as int),
{
    let ghost gs = groups.deep_view();
    let ghost ns = names.deep_view();
    let mut captures: Vec<CaptureGroup> = Vec::new();
    let mut i: usize = 1;
    assert(captures@.map_values(|c: CaptureGroup| c@) =~= captures_upto(gs, ns, 1));
    while i < n
        invariant
            1 <= i <= n || (n < 1 && i == 1),
            gs == groups.deep_view(),
            ns == names.deep_view(),
            captures@.map_values(|c: CaptureGroup| c@) == captures_upto(gs, ns, i as int),
        decreases n - i,
    {
        if i < groups.len() {
            match &groups[i] {
                Some(g) => {
                    let name = if i < names.len() {
                        match &names[i] {
                            Some(s) => Some(s.clone()),
                            None => None,
                        }
                    } else {
                        None
                    };
                    let cg = CaptureGroup {
                        index: i,
                        name,
                        start: g.0,
                        end: g.1,
                        text: g.2.clone(),
                    };
                    let ghost before = captures@;
                    captures.push(cg);
                    assert(captures@.map_values(|c: CaptureGroup| c@) =~= before.map_values(
                        |c: CaptureGroup| c@,
                    ).push(cg@));
                },
                None => {},
            }
        }
        i = i + 1;
    }
    let g0 = groups[0].as_ref().unwrap();
    let r = Match { start: g0.0, end: g0.1, text: g0.2.clone(), captures };
    proof {
        if n < 1 {
            assert(captures_upto(gs, ns, n as int) =~= captures_upto(gs, ns, 1));
        }
    }
    r
}

/// Why an engine could not compile a pattern or search a text.
#[derive(Debug)]
pub enum EngineError {
    CompileError(String),
    MatchError(String),
}

pub type EngineResult<T> = Result<T, EngineError>;

impl EngineError {
    pub open spec fn spec_message(&self) -> Seq<char> {
        match self {
            EngineError::CompileError(m) => "Compile error: "@ + m@,
            EngineError::MatchError(m) => "Match error: "@ + m@,
        }
    }

    /// The error as a line of text, e.g. `Compile error: ...`.
    pub fn message(&self) -> (r: String)
        ensures
            r@ == self.spec_message(),
    {
        match self {
            EngineError::CompileError(m) => {
                let mut r = owned("Compile error: ");
                push_str(&mut r, m.as_str());
                r
            },
            EngineError::MatchError(m) => {
                let mut r = owned("Match error: ");
                push_str(&mut r, m.as_str());
                r
            },
        }
    }
}

/// What compiling a pattern gives: nothing on success, the error text
/// otherwise. `env` is how the PCRE2 build in use behaved (other engines do
/// not read it).
pub open spec fn spec_compile(kind: EngineKind, pattern: Seq<char>, flags: EngineFlags, env: Pcre2Env) -> Result<(), Seq<char>> {
    match kind {
        EngineKind::RustRegex => rust_regex_new(flags.spec_wrap(pattern)),
        EngineKind::FancyRegex => fancy_regex_new(flags.spec_wrap(pattern)),
        EngineKind::Pcre2 => spec_pcre2_compile(pattern, env),
    }
}

/// What searching a text with a compiled pattern gives: the matches, or the
/// error text of the engine. `env` is how the PCRE2 build in use behaves.
pub open spec fn spec_find(kind: EngineKind, pattern: Seq<char>, flags: EngineFlags, text: Seq<char>, env: Pcre2Env) -> Result<Seq<MatchView>, Seq<char>> {
    match kind {
        EngineKind::RustRegex => Ok(spec_rust_find(flags.spec_wrap(pattern), text)),
        EngineKind::FancyRegex => spec_fancy_find(flags.spec_wrap(pattern), text),
        EngineKind::Pcre2 => spec_pcre2_find(env.searches, (pattern, flags), text),
    }
}

/// A compile outcome agrees with what the specification says of it.
pub open spec fn compile_agrees(r: EngineResult<CompiledRegex>, s: Result<(), Seq<char>>) -> bool {
    match r {
        Ok(_) => s is Ok,
        Err(e) => e is CompileError && s == Err::<(), Seq<char>>(e->CompileError_0@),
    }
}

/// A pattern compiled by one of the engines.
pub enum CompiledRegex {
    Rust(RustCompiledRegex),
    Fancy(FancyCompiledRegex),
    Pcre2(Pcre2CompiledRegex),
}

impl CompiledRegex {
    /// What searching `text` gives.
    pub open spec fn spec_find(&self, text: Seq<char>) -> Result<Seq<MatchView>, Seq<char>> {
        match self {
            CompiledRegex::Rust(c) => Ok(spec_rust_find(c@, text)),
            CompiledRegex::Fancy(c) => spec_fancy_find(c@, text),
            CompiledRegex::Pcre2(c) => spec_pcre2_find(c.searches(), c@, text),
        }
    }

    /// The compiled pattern searches as `kind` does with `pattern` and
    /// `flags` (and PCRE2 behaving as `env`).
    pub open spec fn searches_as(&self, kind: EngineKind, pattern: Seq<char>, flags: EngineFlags, env: Pcre2Env) -> bool {
        forall|t: Seq<char>| #[trigger] self.spec_find(t) == spec_find(kind, pattern, flags, t, env)
    }

    /// Every match of the pattern in the text, or the engine's error.
    pub fn find_matches(&self, text: &str) -> (r: EngineResult<Vec<Match>>)
        ensures
            (match r {
                Ok(ms) => self.spec_find(text@) == Ok::<Seq<MatchView>, Seq<char>>(matches_view(ms@))
                    && matches_laid_out(matches_view(ms@), text@),
                Err(e) => e is MatchError && self.spec_find(text@) == Err::<Seq<MatchView>, Seq<char>>(e->MatchError_0@),
            }),
    {
        match self {
            CompiledRegex::Rust(c) => Ok(c.find_matches(text)),
            CompiledRegex::Fancy(c) => c.find_matches(text),
            CompiledRegex::Pcre2(c) => c.find_matches(text),
        }
    }
}

/// A regex engine, picked by kind, and whether the PCRE2 library linked in
/// is release 10.45 (on which the CVE guard refuses scan-substring
/// patterns).
pub struct RegexEngine {
    pub kind: EngineKind,
    pub pcre2_10_45: bool,
}

impl RegexEngine {
    pub fn kind(&self) -> (r: EngineKind)
        ensures
            r == self.kind,
    {
        self.kind
    }

    /// Compiles a pattern with the given flags.
    pub fn compile(&self, pattern: &str, flags: &EngineFlags) -> (r: EngineResult<CompiledRegex>)
        ensures
            exists|env: Pcre2Env| #[trigger] compile_explained(r, self.kind, pattern@, *flags, self.pcre2_10_45, env),
            self.kind != EngineKind::Pcre2 ==> compile_explained(r, self.kind, pattern@, *flags, self.pcre2_10_45, default_env()),
            self.kind == EngineKind::Pcre2 ==> ((r matches Err(e) && e->CompileError_0@ == pcre2::scs_blocked_message())
                <==> (self.pcre2_10_45 && pcre2::spec_uses_scs_verb(pattern@))),
    {
        let r = match self.kind {
            EngineKind::RustRegex => RustRegexEngine.compile(pattern, flags),
            EngineKind::FancyRegex => FancyRegexEngine.compile(pattern, flags),
            EngineKind::Pcre2 => Pcre2Engine.compile_on(pattern, flags, self.pcre2_10_45),
        };
        proof {
            if self.kind == EngineKind::Pcre2 {
                let built: Result<(), Seq<char>> = if r is Err && r->Err_0->CompileError_0@ != pcre2::scs_blocked_message() {
                    Err(r->Err_0->CompileError_0@)
                } else {
                    Ok(())
                };
                let searches = if r is Ok && r->Ok_0 is Pcre2 {
                    r->Ok_0->Pcre2_0.searches()
                } else {
                    default_env().searches
                };
                let env = Pcre2Env { blocked: self.pcre2_10_45, built, searches };
                assert(compile_explained(r, self.kind, pattern@, *flags, self.pcre2_10_45, env));
            } else {
                assert(compile_explained(r, self.kind, pattern@, *flags, self.pcre2_10_45, default_env()));
            }
        }
        r
    }
}

/// A compile outcome is explained by PCRE2 behaving as `env`, a behaviour
/// that fits the linked release (10.45 or not: `linked`): it agrees with the
/// specification, and a compiled pattern searches accordingly.
pub open spec fn compile_explained(
    r: EngineResult<CompiledRegex>,
    kind: EngineKind,
    pattern: Seq<char>,
    flags: EngineFlags,
    linked: bool,
    env: Pcre2Env,
) -> bool {
    &&& env_fits(kind, env, linked)
    &&& compile_agrees(r, spec_compile(kind, pattern, flags, env))
    &&& r matches Ok(c) ==> c.searches_as(kind, pattern, flags, env)
}

/// The CVE guard refuses a pattern exactly when the linked PCRE2 is 10.45
/// and the pattern uses the scan-substring verb: under any behaviour of
/// PCRE2 that fits the linked release, compiling gives the refusal on those
/// patterns and on no other.
pub proof fn lemma_refusal_only_on_10_45(pattern: Seq<char>, flags: EngineFlags, linked: bool, env: Pcre2Env)
    requires
        env_for(env, linked),
    ensures
        (spec_compile(EngineKind::Pcre2, pattern, flags, env) == Err::<(), Seq<char>>(pcre2::scs_blocked_message())) <==> (
        linked && pcre2::spec_uses_scs_verb(pattern)),
{
    if env.built is Err {
        pcre2::lemma_pcre2_error_not_refusal(env.built->Err_0);
    }
}

/// For PCRE2, the behaviour fits the linked release.
pub open spec fn env_fits(kind: EngineKind, env: Pcre2Env, linked: bool) -> bool {
    kind == EngineKind::Pcre2 ==> env_for(env, linked)
}

/// The engine of the given kind, taking the PCRE2 version that the `pcre2`
/// crate reports as the linked one.
pub fn create_engine(kind: EngineKind) -> (r: RegexEngine)
    ensures
        r == (RegexEngine { kind, pcre2_10_45: pcre2::is_blocked_version() }),
{
    RegexEngine { kind, pcre2_10_45: pcre2::is_pcre2_10_45() }
}

/// The engine of the given kind, told whether the linked PCRE2 is 10.45.
pub fn create_engine_linked(kind: EngineKind, pcre2_10_45: bool) -> (r: RegexEngine)
    ensures
        r == (RegexEngine { kind, pcre2_10_45 }),
{
    RegexEngine { kind, pcre2_10_45 }
}

/// The bytes of a text, as UTF-8 encodes them.
pub open spec fn text_bytes(t: Seq<char>) -> Seq<u8> {
    vstd::utf8::encode_utf8(t)
}

/// `[start, end)` is a range of the bytes that begins and ends on character
/// boundaries.
pub open spec fn span_ok(bytes: Seq<u8>, start: usize, end: usize) -> bool {
    &&& start <= end <= bytes.len()
    &&& vstd::utf8::is_char_boundary(bytes, start as int)
    &&& vstd::utf8::is_char_boundary(bytes, end as int)
}

/// The matches lie in `text` on character boundaries, in order, without
/// overlapping, and each one's text is the text of its range.
pub open spec fn matches_laid_out(ms: Seq<MatchView>, text: Seq<char>) -> bool {
    &&& forall|i: int| 0 <= i < ms.len() ==> span_ok(text_bytes(text), #[trigger] ms[i].start, ms[i].end)
    &&& forall|i: int| 0 <= i < ms.len() ==> (#[trigger] ms[i]).text == vstd::utf8::decode_utf8(
        text_bytes(text).subrange(ms[i].start as int, ms[i].end as int),
    )
    &&& forall|i: int, j: int| 0 <= i < j < ms.len() ==> #[trigger] ms[i].end <= #[trigger] ms[j].start
}

/// What a search of a whole text reports is laid out as documented: every
/// match has its overall group, which lies on character boundaries and whose
/// text is the text of its range, and the matches come in order without
/// overlapping.
pub open spec fn searches_laid_out(all: Seq<GroupSpans>, text: Seq<char>) -> bool {
    &&& forall|k: int| 0 <= k < all.len() ==> {
        &&& (#[trigger] all[k]).len() > 0
        &&& all[k][0] is Some
        &&& span_ok(text_bytes(text), all[k][0].unwrap().0, all[k][0].unwrap().1)
        &&& all[k][0].unwrap().2 == vstd::utf8::decode_utf8(
            text_bytes(text).subrange(all[k][0].unwrap().0 as int, all[k][0].unwrap().1 as int),
        )
    }
    &&& forall|k: int, l: int| 0 <= k < l < all.len() ==> (#[trigger] all[k])[0].unwrap().1 <= (
    #[trigger] all[l])[0].unwrap().0
}

/// The matches built from the searches of a whole text.
pub open spec fn matches_from_searches(all: Seq<GroupSpans>, names: Seq<Option<Seq<char>>>) -> Seq<MatchView> {
    all.map_values(|g: GroupSpans| match_from_groups(g, names, names.len() as int))
}

pub proof fn lemma_searches_give_laid_out_matches(all: Seq<GroupSpans>, names: Seq<Option<Seq<char>>>, text: Seq<char>)
    requires
        searches_laid_out(all, text),
    ensures
        matches_laid_out(matches_from_searches(all, names), text),
{
    let ms = matches_from_searches(all, names);
    assert forall|i: int| 0 <= i < ms.len() implies span_ok(text_bytes(text), #[trigger] ms[i].start, ms[i].end) by {
        assert(all[i].len() > 0);
    }
    assert forall|i: int, j: int| 0 <= i < j < ms.len() implies #[trigger] ms[i].end <= #[trigger] ms[j].start by {
        assert(all[i][0].unwrap().1 <= all[j][0].unwrap().0);
    }
}

/// Builds the matches of every search of a whole text.
pub fn build_matches(all: &Vec<Vec<Option<(usize, usize, String)>>>, names: &Vec<Option<String>>) -> (r: Vec<Match>)
    requires
        forall|k: int| 0 <= k < all.len() ==> (#[trigger] all@[k]).len() > 0 && all@[k]@[0] is Some,
    ensures
        matches_view(r@) == matches_from_searches(all.deep_view(), names.deep_view()),
{
    let mut r: Vec<Match> = Vec::new();
    let mut k: usize = 0;
    while k < all.len()
        invariant
            k <= all.len(),
            forall|k: int| 0 <= k < all.len() ==> (#[trigger] all@[k]).len() > 0 && all@[k]@[0] is Some,
            matches_view(r@) == matches_from_searches(all.deep_view(), names.deep_view()).take(k as int),
        decreases all.len() - k,
    {
        let m = build_match(&all[k], names, names.len());
        let ghost before = r@;
        r.push(m);
        assert(matches_view(r@) =~= matches_view(before).push(m@));
        assert(all.deep_view()[k as int] == all@[k as int].deep_view());
        k = k + 1;
        assert(matches_view(r@) =~= matches_from_searches(all.deep_view(), names.deep_view()).take(k as int));
    }
    assert(matches_from_searches(all.deep_view(), names.deep_view()).take(k as int) =~= matches_from_searches(all.deep_view(), names.deep_view()));
    r
}

/// How capable an engine is: each one runs everything the ones before it
/// run, and more.
pub open spec fn engine_rank(k: EngineKind) -> nat {
    match k {
        EngineKind::RustRegex => 0,
        EngineKind::FancyRegex => 1,
        EngineKind::Pcre2 => 2,
    }
}

/// Syntax only PCRE2 runs: recursion and subroutine calls, conditionals and
/// backtracking-control verbs.
pub open spec fn needs_pcre2(p: Seq<char>) -> bool {
    ||| contains_seq(p, "(?R"@)
    ||| contains_seq(p, "(?&"@)
    ||| contains_seq(p, "(?P>"@)
    ||| contains_seq(p, "(?("@)
    ||| contains_seq(p, "(*"@)
    ||| exists|j: nat| 1 <= j <= 9 && #[trigger] contains_seq(p, "(?"@.push(digit_char(j)))
}

/// Syntax fancy-regex runs and the Rust engine does not: look-around,
/// backreferences and atomic groups.
pub open spec fn needs_fancy(p: Seq<char>) -> bool {
    ||| contains_seq(p, "(?="@)
    ||| contains_seq(p, "(?!"@)
    ||| contains_seq(p, "(?<="@)
    ||| contains_seq(p, "(?<!"@)
    ||| contains_seq(p, "(?>"@)
    ||| contains_seq(p, "\\k<"@)
    ||| exists|j: nat| 1 <= j <= 9 && #[trigger] contains_seq(p, "\\"@.push(digit_char(j)))
}

/// The least capable engine that runs the pattern's syntax.
pub open spec fn spec_minimum_engine(p: Seq<char>) -> EngineKind {
    if needs_pcre2(p) {
        EngineKind::Pcre2
    } else if needs_fancy(p) {
        EngineKind::FancyRegex
    } else {
        EngineKind::RustRegex
    }
}

fn contains_prefix_digit(p: &str, prefix: &str) -> (r: bool)
    ensures
        r == exists|j: nat| 1 <= j <= 9 && #[trigger] contains_seq(p@, prefix@.push(digit_char(j))),
{
    let mut k: usize = 1;
    while k <= 9
        invariant
            1 <= k <= 10,
            forall|j: nat| 1 <= j < k ==> !#[trigger] contains_seq(p@, prefix@.push(digit_char(j))),
        decreases 10 - k,
    {
        let mut needle = owned(prefix);
        push_char(&mut needle, digit(k));
        if contains_str(p, needle.as_str()) {
            assert(contains_seq(p@, prefix@.push(digit_char(k as nat))));
            return true;
        }
        k = k + 1;
    }
    false
}

/// The least capable engine that runs the pattern's syntax: PCRE2 for
/// recursion, subroutine calls, conditionals and verbs; fancy-regex for
/// look-around, backreferences and atomic groups; the Rust engine otherwise.
pub fn detect_minimum_engine(pattern: &str) -> (r: EngineKind)
    ensures
        r == spec_minimum_engine(pattern@),
{
    let pcre2 = contains_str(pattern, "(?R") || contains_str(pattern, "(?&") || contains_str(pattern, "(?P>")
        || contains_str(pattern, "(?(") || contains_str(pattern, "(*") || contains_prefix_digit(pattern, "(?");
    if pcre2 {
        return EngineKind::Pcre2;
    }
    let fancy = contains_str(pattern, "(?=") || contains_str(pattern, "(?!") || contains_str(pattern, "(?<=")
        || contains_str(pattern, "(?<!") || contains_str(pattern, "(?>") || contains_str(pattern, "\\k<")
        || contains_prefix_digit(pattern, "\\");
    if fancy {
        EngineKind::FancyRegex
    } else {
        EngineKind::RustRegex
    }
}

/// Moving from `current` to `suggested` gains capability.
pub fn is_engine_upgrade(current: EngineKind, suggested: EngineKind) -> (r: bool)
    ensures
        r == (engine_rank(suggested) > engine_rank(current)),
{
    let a: u8 = match current {
        EngineKind::RustRegex => 0,
        EngineKind::FancyRegex => 1,
        EngineKind::Pcre2 => 2,
    };
    let b: u8 = match suggested {
        EngineKind::RustRegex => 0,
        EngineKind::FancyRegex => 1,
        EngineKind::Pcre2 => 2,
    };
    b > a
}

/// Switching engine three times comes back to the engine one started on.
pub proof fn lemma_engine_cycle(k: EngineKind)
    ensures
        k.spec_next().spec_next().spec_next() == k,
{
}

/// Toggling a flag twice leaves the flags as they were, and toggling one
/// flag leaves the others alone.
pub proof fn lemma_toggle_twice(f: EngineFlags)
    ensures
        (EngineFlags { case_insensitive: !(EngineFlags { case_insensitive: !f.case_insensitive, ..f }).case_insensitive, ..(EngineFlags { case_insensitive: !f.case_insensitive, ..f }) }) == f,
        (EngineFlags { multi_line: !(EngineFlags { multi_line: !f.multi_line, ..f }).multi_line, ..(EngineFlags { multi_line: !f.multi_line, ..f }) }) == f,
        (EngineFlags { dot_matches_newline: !(EngineFlags { dot_matches_newline: !f.dot_matches_newline, ..f }).dot_matches_newline, ..(EngineFlags { dot_matches_newline: !f.dot_matches_newline, ..f }) }) == f,
        (EngineFlags { unicode: !(EngineFlags { unicode: !f.unicode, ..f }).unicode, ..(EngineFlags { unicode: !f.unicode, ..f }) }) == f,
        (EngineFlags { extended: !(EngineFlags { extended: !f.extended, ..f }).extended, ..(EngineFlags { extended: !f.extended, ..f }) }) == f,
{
}

/// With no flag on, the pattern is used as it is.
pub proof fn lemma_no_flags_no_wrap(p: Seq<char>)
    ensures
        EngineFlags::spec_none().spec_wrap(p) == p,
{
    assert(EngineFlags::spec_none().spec_letters() =~= Seq::<char>::empty());
}

} // verus!
