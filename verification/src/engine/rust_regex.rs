//! The engine backed by the `regex` crate.

use vstd::prelude::*;

use super::{
    build_matches, matches_from_searches, matches_laid_out, matches_view, searches_laid_out,
    CompiledRegex, EngineError, EngineFlags, EngineKind, EngineResult, GroupSpans, Match, MatchView,
};

verus! {

#[verifier::external_type_specification]
#[verifier::external_body]
pub struct ExRustRegex(regex::Regex);

/// Whether `regex::Regex::new` accepts a pattern, and the text of its error
/// when it does not.
pub uninterp spec fn rust_regex_new(pattern: Seq<char>) -> Result<(), Seq<char>>;

/// The names of the groups of a pattern compiled by `regex::Regex::new`, in
/// group order (`None` for unnamed groups and for group 0).
pub uninterp spec fn rust_regex_group_names(pattern: Seq<char>) -> Seq<Option<Seq<char>>>;

/// What `regex::Regex::captures_iter` reports on a text for a compiled
/// pattern, one entry per match.
pub uninterp spec fn rust_regex_captures(pattern: Seq<char>, text: Seq<char>) -> Seq<GroupSpans>;

/// The engine backed by the `regex` crate.
pub struct RustRegexEngine;

/// A pattern compiled by the `regex` crate, kept with the exact source it was
/// compiled from. Values are only made by `compile_source`, so the source
/// always is the one the regex was built from.
pub struct RustCompiledRegex {
    re: regex::Regex,
    source: String,
}

impl View for RustCompiledRegex {
    type V = Seq<char>;

    closed spec fn view(&self) -> Seq<char> {
        self.source@
    }
}

/// Calls `regex::Regex::new`. Trusted: it succeeds exactly when the crate
/// accepts the pattern (named `rust_regex_new`), and the error text is the
/// error's `Display` output.
#[verifier::external_body]
fn compile_source(source: &str) -> (r: Result<RustCompiledRegex, String>)
    ensures
        (match r {
            Ok(c) => c@ == source@ && rust_regex_new(source@) is Ok,
            Err(m) => rust_regex_new(source@) == Err::<(), Seq<char>>(m@),
        }),
{
    match regex::Regex::new(source) {
        Ok(re) => Ok(RustCompiledRegex { re, source: source.to_string() }),
        Err(e) => Err(e.to_string()),
    }
}

/// Calls `regex::Regex::capture_names`. Trusted: the names depend only on the
/// compiled pattern (named `rust_regex_group_names`).
#[verifier::external_body]
fn group_names(c: &RustCompiledRegex) -> (r: Vec<Option<String>>)
    ensures
        r.deep_view() == rust_regex_group_names(c@),
{
    c.re.capture_names().map(|n| n.map(|s| s.to_string())).collect()
}

/// Calls `regex::Regex::captures_iter` and reads every group of every match.
/// Trusted: the result depends only on the pattern and the text (named
/// `rust_regex_captures`); as the crate documents, group 0 of every match is
/// present, offsets fall on character boundaries of the text, a group's text
/// is the text of its range (`Match::as_str`), and successive matches do not
/// overlap.
#[verifier::external_body]
fn captures_all(c: &RustCompiledRegex, text: &str) -> (r: Vec<Vec<Option<(usize, usize, String)>>>)
    ensures
        r.deep_view() == rust_regex_captures(c@, text@),
        searches_laid_out(r.deep_view(), text@),
{
    c.re.captures_iter(text).map(|caps| {
        (0..caps.len()).map(|i| caps.get(i).map(|m| (m.start(), m.end(), m.as_str().to_string()))).collect()
    }).collect()
}

/// The matches the `regex` crate finds for a compiled source.
pub open spec fn spec_rust_find(source: Seq<char>, text: Seq<char>) -> Seq<MatchView> {
    matches_from_searches(rust_regex_captures(source, text), rust_regex_group_names(source))
}

impl RustRegexEngine {
    pub fn kind(&self) -> (r: EngineKind)
        ensures
            r == EngineKind::RustRegex,
    {
        EngineKind::RustRegex
    }

    /// Compiles the pattern with the flags written in front of it.
    pub fn compile(&self, pattern: &str, flags: &EngineFlags) -> (r: EngineResult<CompiledRegex>)
        ensures
            (match r {
                Ok(c) => c is Rust && c->Rust_0@ == flags.spec_wrap(pattern@) && rust_regex_new(flags.spec_wrap(pattern@)) is Ok,
                Err(e) => e is CompileError && rust_regex_new(flags.spec_wrap(pattern@)) == Err::<(), Seq<char>>(e->CompileError_0@),
            }),
    {
        let full = flags.wrap_pattern(pattern);
        match compile_source(full.as_str()) {
            Ok(c) => Ok(CompiledRegex::Rust(c)),
            Err(m) => Err(EngineError::CompileError(m)),
        }
    }
}

impl RustCompiledRegex {
    /// Every match in the text, with the groups that took part.
    pub fn find_matches(&self, text: &str) -> (r: Vec<Match>)
        ensures
            matches_view(r@) == spec_rust_find(self@, text@),
            matches_laid_out(matches_view(r@), text@),
    {
        let names = group_names(self);
        let all = captures_all(self, text);
        proof {
            assert forall|k: int| 0 <= k < all.len() implies (#[trigger] all@[k]).len() > 0 && all@[k]@[0] is Some by {
                assert(all.deep_view()[k] == all@[k].deep_view());
                assert(all.deep_view()[k].len() > 0);
                assert(all@[k].deep_view()[0] == all@[k]@[0].deep_view());
            }
            super::lemma_searches_give_laid_out_matches(all.deep_view(), names.deep_view(), text@);
        }
        build_matches(&all, &names)
    }
}

} // verus!
