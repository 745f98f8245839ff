//! The engine backed by the `fancy-regex` crate (lookaround, backreferences).

use vstd::prelude::*;

use super::{
    build_matches, matches_from_searches, matches_laid_out, matches_view, searches_laid_out,
    CompiledRegex, EngineError, EngineFlags, EngineKind, EngineResult, GroupSpans, Match, MatchView,
};

verus! {

#[verifier::external_type_specification]
#[verifier::external_body]
pub struct ExFancyRegex(fancy_regex::Regex);

/// Whether `fancy_regex::Regex::new` accepts a pattern, and the text of its
/// error when it does not.
pub uninterp spec fn fancy_regex_new(pattern: Seq<char>) -> Result<(), Seq<char>>;

/// The names of the groups of a pattern compiled by `fancy_regex::Regex::new`,
/// in group order.
pub uninterp spec fn fancy_regex_group_names(pattern: Seq<char>) -> Seq<Option<Seq<char>>>;

/// What `fancy_regex::Regex::captures_iter` reports on a text for a compiled
/// pattern: one entry per match, or the text of the first error it yields.
pub uninterp spec fn fancy_regex_captures(pattern: Seq<char>, text: Seq<char>) -> Result<Seq<GroupSpans>, Seq<char>>;

/// The engine backed by the `fancy-regex` crate.
pub struct FancyRegexEngine;

/// A pattern compiled by `fancy-regex`, kept with the exact source it was
/// compiled from. Values are only made by `compile_source`.
pub struct FancyCompiledRegex {
    re: fancy_regex::Regex,
    source: String,
}

impl View for FancyCompiledRegex {
    type V = Seq<char>;

    closed spec fn view(&self) -> Seq<char> {
        self.source@
    }
}

/// Calls `fancy_regex::Regex::new`. Trusted: it succeeds exactly when the
/// crate accepts the pattern (named `fancy_regex_new`); the error text is the
/// error's `Display` output.
#[verifier::external_body]
fn compile_source(source: &str) -> (r: Result<FancyCompiledRegex, String>)
    ensures
        (match r {
            Ok(c) => c@ == source@ && fancy_regex_new(source@) is Ok,
            Err(m) => fancy_regex_new(source@) == Err::<(), Seq<char>>(m@),
        }),
{
    match fancy_regex::Regex::new(source) {
        Ok(re) => Ok(FancyCompiledRegex { re, source: source.to_string() }),
        Err(e) => Err(e.to_string()),
    }
}

/// Calls `fancy_regex::Regex::capture_names`. Trusted: the names depend only
/// on the compiled pattern (named `fancy_regex_group_names`).
#[verifier::external_body]
fn group_names(c: &FancyCompiledRegex) -> (r: Vec<Option<String>>)
    ensures
        r.deep_view() == fancy_regex_group_names(c@),
{
    c.re.capture_names().map(|n| n.map(|s| s.to_string())).collect()
}

/// Calls `fancy_regex::Regex::captures_iter` and reads every group of every
/// match, stopping at the first error. Trusted: the result depends only on
/// the pattern and the text (named `fancy_regex_captures`); as the crate
/// documents, group 0 of every match is present, offsets fall on character
/// boundaries of the text, a group's text is the text of its range
/// (`Match::as_str`), and successive matches do not overlap.
#[verifier::external_body]
fn captures_all(c: &FancyCompiledRegex, text: &str) -> (r: Result<Vec<Vec<Option<(usize, usize, String)>>>, String>)
    ensures
        (match r {
            Ok(all) => fancy_regex_captures(c@, text@) == Ok::<Seq<GroupSpans>, Seq<char>>(all.deep_view())
                && searches_laid_out(all.deep_view(), text@),
            Err(m) => fancy_regex_captures(c@, text@) == Err::<Seq<GroupSpans>, Seq<char>>(m@),
        }),
{
    c.re.captures_iter(text).map(|res| res.map(|caps| {
        (0..caps.len()).map(|i| caps.get(i).map(|m| (m.start(), m.end(), m.as_str().to_string()))).collect()
    })).collect::<Result<Vec<Vec<_>>, _>>().map_err(|e| e.to_string())
}

/// The matches `fancy-regex` finds for a compiled source, or the text of the
/// error it stopped at.
pub open spec fn spec_fancy_find(source: Seq<char>, text: Seq<char>) -> Result<Seq<MatchView>, Seq<char>> {
    match fancy_regex_captures(source, text) {
        Ok(all) => Ok(matches_from_searches(all, fancy_regex_group_names(source))),
        Err(m) => Err(m),
    }
}

impl FancyRegexEngine {
    pub fn kind(&self) -> (r: EngineKind)
        ensures
            r == EngineKind::FancyRegex,
    {
        EngineKind::FancyRegex
    }

    /// Compiles the pattern with the flags written in front of it.
    pub fn compile(&self, pattern: &str, flags: &EngineFlags) -> (r: EngineResult<CompiledRegex>)
        ensures
            (match r {
                Ok(c) => c is Fancy && c->Fancy_0@ == flags.spec_wrap(pattern@) && fancy_regex_new(flags.spec_wrap(pattern@)) is Ok,
                Err(e) => e is CompileError && fancy_regex_new(flags.spec_wrap(pattern@)) == Err::<(), Seq<char>>(e->CompileError_0@),
            }),
    {
        let full = flags.wrap_pattern(pattern);
        match compile_source(full.as_str()) {
            Ok(c) => Ok(CompiledRegex::Fancy(c)),
            Err(m) => Err(EngineError::CompileError(m)),
        }
    }
}

impl FancyCompiledRegex {
    /// Every match in the text, with the groups that took part; the error the
    /// engine reports if it gives up.
    pub fn find_matches(&self, text: &str) -> (r: EngineResult<Vec<Match>>)
        ensures
            (match r {
                Ok(ms) => spec_fancy_find(self@, text@) == Ok::<Seq<MatchView>, Seq<char>>(matches_view(ms@))
                    && matches_laid_out(matches_view(ms@), text@),
                Err(e) => e is MatchError && spec_fancy_find(self@, text@) == Err::<Seq<MatchView>, Seq<char>>(e->MatchError_0@),
            }),
    {
        let names = group_names(self);
        match captures_all(self, text) {
            Ok(all) => {
                proof {
                    assert forall|k: int| 0 <= k < all.len() implies (#[trigger] all@[k]).len() > 0 && all@[k]@[0] is Some by {
                        assert(all.deep_view()[k] == all@[k].deep_view());
                        assert(all.deep_view()[k].len() > 0);
                        assert(all@[k].deep_view()[0] == all@[k]@[0].deep_view());
                    }
                    super::lemma_searches_give_laid_out_matches(all.deep_view(), names.deep_view(), text@);
                }
                Ok(build_matches(&all, &names))
            },
            Err(m) => Err(EngineError::MatchError(m)),
        }
    }
}

} // verus!
