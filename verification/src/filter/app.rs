//! State of the interactive filter: the pattern being typed, the lines, and
//! which of them currently pass.

use std::ops::Range;

use vstd::prelude::*;

use crate::engine::rust_regex::{rust_regex_new, spec_rust_find};
use crate::engine::pcre2::default_env;
use crate::engine::{create_engine, CompiledRegex, EngineFlags, EngineKind, MatchView, RegexEngine};
use crate::filter::{filter_keep, kept_indices, lemma_kept_indices_agree, line_hit, FilterOptions};
use crate::input::editor::Editor;
use crate::text::owned;

verus! {

/// What the user decided to do with the filtered lines.
#[derive(Debug, Clone, Copy, PartialEq, Eq, Structural)]
pub enum Outcome {
    Pending,
    Emit,
    Discard,
}

/// The byte spans of a list of matches.
pub open spec fn spans_of(ms: Seq<MatchView>) -> Seq<Range<usize>> {
    ms.map_values(|m: MatchView| Range { start: m.start, end: m.end })
}

/// The extracted field values, by their text.
pub open spec fn extracted_view(e: Option<Vec<Option<String>>>) -> Option<Seq<Option<Seq<char>>>> {
    match e {
        Some(v) => Some(v.deep_view()),
        None => None,
    }
}

/// What line `i` is matched against: the line itself, or in JSON mode the
/// extracted field, which may be missing.
pub open spec fn haystack_at(lines: Seq<Seq<char>>, extracted: Option<Seq<Option<Seq<char>>>>, i: int) -> Option<
    Seq<char>,
> {
    match extracted {
        Some(e) => e[i],
        None => Some(lines[i]),
    }
}

/// The cursor after clamping it into a list of `len` entries.
pub open spec fn clamped(selected: usize, scroll: usize, len: nat) -> (usize, usize) {
    if len == 0 {
        (0, 0)
    } else if selected >= len {
        ((len - 1) as usize, scroll)
    } else {
        (selected, scroll)
    }
}

/// The interactive filter.
pub struct FilterApp {
    pub pattern_editor: Editor,
    pub options: FilterOptions,
    pub lines: Vec<String>,
    /// In JSON mode, the field extracted from each line (same length as
    /// `lines`); `None` for a line whose field could not be had. Such a
    /// line never passes.
    pub json_extracted: Option<Vec<Option<String>>>,
    /// Indices of the lines that currently pass.
    pub matched: Vec<usize>,
    /// For each passing line, the byte spans the pattern matched in its
    /// input (the extracted field in JSON mode); empty when inverted.
    pub match_spans: Vec<Vec<Range<usize>>>,
    /// Cursor into `matched`.
    pub selected: usize,
    /// First visible entry of `matched`.
    pub scroll: usize,
    /// The compile error of the last recompute, if any.
    pub error: Option<String>,
    pub should_quit: bool,
    pub outcome: Outcome,
    /// The engine the pattern is compiled on.
    pub engine: RegexEngine,
    /// The flags the pattern is compiled with.
    pub engine_flags: EngineFlags,
}

impl FilterApp {
    /// The flags the pattern is compiled with.
    pub open spec fn flags(&self) -> EngineFlags {
        self.engine_flags
    }

    /// The compiled pattern runs on the Rust engine, with only the
    /// case-insensitive flag possibly on; the editor is well formed and the
    /// extracted values, if any, line up with the lines.
    pub open spec fn wf(&self) -> bool {
        &&& self.pattern_editor.wf()
        &&& self.engine.kind == EngineKind::RustRegex
        &&& self.engine_flags == (FilterOptions {
            invert: false,
            case_insensitive: self.engine_flags.case_insensitive,
        }).spec_flags()
        &&& match self.json_extracted {
            Some(e) => e@.len() == self.lines@.len(),
            None => true,
        }
    }

    pub open spec fn pattern_view(&self) -> Seq<char> {
        self.pattern_editor@.content
    }

    pub open spec fn haystack(&self, i: int) -> Option<Seq<char>> {
        haystack_at(self.lines.deep_view(), extracted_view(self.json_extracted), i)
    }

    /// Whether line `i` passes under the current pattern and options.
    pub open spec fn passes(&self) -> spec_fn(int) -> bool {
        |i: int| match self.haystack(i) {
            None => false,
            Some(h) => if self.pattern_view().len() == 0 {
                !self.options.invert
            } else {
                line_hit(self.pattern_view(), self.flags(), h) != self.options.invert
            },
        }
    }

    /// The spans shown for passing line `i`.
    pub open spec fn line_spans(&self, i: int) -> Seq<Range<usize>> {
        if self.pattern_view().len() == 0 || self.options.invert {
            Seq::empty()
        } else {
            spans_of(spec_rust_find(self.flags().spec_wrap(self.pattern_view()), self.haystack(i).unwrap()))
        }
    }

    /// The pattern is non-empty and does not compile.
    pub open spec fn compile_failed(&self) -> bool {
        self.pattern_view().len() > 0 && rust_regex_new(self.flags().spec_wrap(self.pattern_view())) is Err
    }

    /// `matched`, `match_spans` and `error` are what the pattern and the
    /// options give.
    pub open spec fn results_current(&self) -> bool {
        if self.compile_failed() {
            &&& self.error matches Some(m) && m@ == "Compile error: "@ + rust_regex_new(
                self.flags().spec_wrap(self.pattern_view()),
            )->Err_0
            &&& self.matched@.len() == 0
            &&& self.match_spans@.len() == 0
        } else {
            &&& self.error is None
            &&& self.matched@ == kept_indices(self.passes(), self.lines@.len() as int)
            &&& self.match_spans@.len() == self.matched@.len()
            &&& forall|j: int| 0 <= j < self.matched@.len() ==> (#[trigger] self.match_spans@[j])@
                == self.line_spans(self.matched@[j] as int)
        }
    }

    /// A filter over `lines` with `initial_pattern` already applied.
    pub fn new(lines: Vec<String>, initial_pattern: &str, options: FilterOptions) -> (r: FilterApp)
        requires
            initial_pattern@.len() < usize::MAX,
        ensures
            r.wf(),
            r.results_current(),
            r.pattern_view() == initial_pattern@,
            r.pattern_editor@.cursor == initial_pattern@.len(),
            r.options == options,
            r.flags().case_insensitive == options.case_insensitive,
            r.lines@ == lines@,
            r.json_extracted is None,
            r.selected == 0,
            r.scroll == 0,
            !r.should_quit,
            r.outcome == Outcome::Pending,
    {
        Self::build(lines, None, initial_pattern, options)
    }

    /// A filter that matches the field extracted from each line (`--json`)
    /// instead of the line; `extracted[i]` is `None` where line `i` had no
    /// usable field.
    pub fn with_json_extracted(
        lines: Vec<String>,
        extracted: Vec<Option<String>>,
        initial_pattern: &str,
        options: FilterOptions,
    ) -> (r: FilterApp)
        requires
            lines@.len() == extracted@.len(),
            initial_pattern@.len() < usize::MAX,
        ensures
            r.wf(),
            r.results_current(),
            r.pattern_view() == initial_pattern@,
            r.pattern_editor@.cursor == initial_pattern@.len(),
            r.options == options,
            r.flags().case_insensitive == options.case_insensitive,
            r.lines@ == lines@,
            r.json_extracted == Some(extracted),
            r.selected == 0,
            r.scroll == 0,
            !r.should_quit,
            r.outcome == Outcome::Pending,
    {
        Self::build(lines, Some(extracted), initial_pattern, options)
    }

    fn build(
        lines: Vec<String>,
        json_extracted: Option<Vec<Option<String>>>,
        initial_pattern: &str,
        options: FilterOptions,
    ) -> (r: FilterApp)
        requires
            initial_pattern@.len() < usize::MAX,
            match json_extracted {
                Some(e) => e@.len() == lines@.len(),
                None => true,
            },
        ensures
            r.wf(),
            r.results_current(),
            r.pattern_view() == initial_pattern@,
            r.pattern_editor@.cursor == initial_pattern@.len(),
            r.options == options,
            r.flags().case_insensitive == options.case_insensitive,
            r.lines@ == lines@,
            r.json_extracted == json_extracted,
            r.selected == 0,
            r.scroll == 0,
            !r.should_quit,
            r.outcome == Outcome::Pending,
    {
        let pattern_editor = Editor::with_content(owned(initial_pattern));
        let engine_flags = EngineFlags {
            case_insensitive: options.case_insensitive,
            multi_line: false,
            dot_matches_newline: false,
            unicode: false,
            extended: false,
        };
        let engine = create_engine(EngineKind::RustRegex);
        let mut app = FilterApp {
            pattern_editor,
            options,
            lines,
            json_extracted,
            matched: Vec::new(),
            match_spans: Vec::new(),
            selected: 0,
            scroll: 0,
            error: None,
            should_quit: false,
            outcome: Outcome::Pending,
            engine,
            engine_flags,
        };
        app.recompute();
        app
    }

    /// The pattern as typed.
    pub fn pattern(&self) -> (r: String)
        ensures
            r@ == self.pattern_view(),
    {
        self.pattern_editor.content()
    }

    /// Re-runs the pattern over the lines and clamps the selection.
    pub fn recompute(&mut self)
        requires
            old(self).wf(),
        ensures
            final(self).wf(),
            final(self).results_current(),
            final(self).pattern_editor == old(self).pattern_editor,
            final(self).options == old(self).options,
            final(self).flags() == old(self).flags(),
            final(self).lines == old(self).lines,
            final(self).json_extracted == old(self).json_extracted,
            final(self).should_quit == old(self).should_quit,
            final(self).outcome == old(self).outcome,
            final(self).compile_failed() ==> final(self).selected == 0 && final(self).scroll == 0,
            !final(self).compile_failed() ==> (final(self).selected, final(self).scroll) == clamped(
                old(self).selected,
                old(self).scroll,
                final(self).matched@.len(),
            ),
    {
        self.error = None;
        let pattern = self.pattern();
        let ghost keep = self.passes();
        if pattern.unicode_len() == 0 {
            let mut matched: Vec<usize> = Vec::new();
            let mut spans: Vec<Vec<Range<usize>>> = Vec::new();
            let mut idx: usize = 0;
            while idx < self.lines.len()
                invariant
                    self.wf(),
                    self.pattern_view().len() == 0,
                    idx <= self.lines@.len(),
                    keep == self.passes(),
                    matched@ == kept_indices(keep, idx as int),
                    spans@.len() == matched@.len(),
                    forall|j: int| 0 <= j < spans@.len() ==> (#[trigger] spans@[j])@ == Seq::<Range<usize>>::empty(),
                decreases self.lines.len() - idx,
            {
                let present = match &self.json_extracted {
                    Some(e) => e[idx].is_some(),
                    None => true,
                };
                proof {
                    if self.json_extracted is Some {
                        let e = self.json_extracted->Some_0;
                        assert(e.deep_view()[idx as int] == e@[idx as int].deep_view());
                    }
                }
                if present && !self.options.invert {
                    matched.push(idx);
                    spans.push(Vec::new());
                }
                idx = idx + 1;
            }
            self.matched = matched;
            self.match_spans = spans;
            self.clamp_selection();
            assert(self.passes() =~= keep);
            return;
        }
        let flags = self.engine_flags;
        match self.engine.compile(pattern.as_str(), &flags) {
            Ok(compiled) => {
                let (indices, spans) = self.collect_matches(&compiled);
                self.matched = indices;
                self.match_spans = spans;
                self.clamp_selection();
                assert(self.passes() =~= keep);
            },
            Err(err) => {
                let m = err.message();
                self.error = Some(m);
                self.matched = Vec::new();
                self.match_spans = Vec::new();
                self.selected = 0;
                self.scroll = 0;
            },
        }
    }

    fn collect_matches(&self, compiled: &CompiledRegex) -> (r: (Vec<usize>, Vec<Vec<Range<usize>>>))
        requires
            self.wf(),
            self.pattern_view().len() > 0,
            compiled.searches_as(EngineKind::RustRegex, self.pattern_view(), self.flags(), default_env()),
        ensures
            r.0@ == kept_indices(self.passes(), self.lines@.len() as int),
            r.1@.len() == r.0@.len(),
            forall|j: int| 0 <= j < r.0@.len() ==> (#[trigger] r.1@[j])@ == self.line_spans(r.0@[j] as int),
    {
        let mut indices: Vec<usize> = Vec::new();
        let mut all_spans: Vec<Vec<Range<usize>>> = Vec::new();
        let mut idx: usize = 0;
        while idx < self.lines.len()
            invariant
                self.wf(),
                self.pattern_view().len() > 0,
                compiled.searches_as(EngineKind::RustRegex, self.pattern_view(), self.flags(), default_env()),
                idx <= self.lines@.len(),
                indices@ == kept_indices(self.passes(), idx as int),
                all_spans@.len() == indices@.len(),
                forall|j: int| 0 <= j < indices@.len() ==> (#[trigger] all_spans@[j])@ == self.line_spans(
                    indices@[j] as int,
                ),
            decreases self.lines.len() - idx,
        {
            let haystack: Option<&str> = match &self.json_extracted {
                Some(e) => match &e[idx] {
                    Some(s) => Some(s.as_str()),
                    None => None,
                },
                None => Some(self.lines[idx].as_str()),
            };
            proof {
                if self.json_extracted is Some {
                    let e = self.json_extracted->Some_0;
                    assert(e.deep_view()[idx as int] == e@[idx as int].deep_view());
                } else {
                    assert(self.lines.deep_view()[idx as int] == self.lines@[idx as int]@);
                }
            }
            if let Some(h) = haystack {
                assert(self.haystack(idx as int) == Some(h@));
                let line_matches = match compiled.find_matches(h) {
                    Ok(v) => v,
                    Err(_) => Vec::new(),
                };
                assert(compiled.spec_find(h@) == crate::engine::spec_find(
                    EngineKind::RustRegex,
                    self.pattern_view(),
                    self.flags(),
                    h@,
                    default_env(),
                ));
                let hit = line_matches.len() > 0;
                if hit != self.options.invert {
                    indices.push(idx);
                    let mut spans: Vec<Range<usize>> = Vec::new();
                    if !self.options.invert {
                        let mut k: usize = 0;
                        while k < line_matches.len()
                            invariant
                                k <= line_matches@.len(),
                                spans@ == spans_of(crate::engine::matches_view(line_matches@).take(k as int)),
                            decreases line_matches.len() - k,
                        {
                            let m = &line_matches[k];
                            let ghost before = spans@;
                            spans.push(Range { start: m.start, end: m.end });
                            k = k + 1;
                            assert(spans@ =~= spans_of(crate::engine::matches_view(line_matches@).take(k as int)));
                        }
                        assert(crate::engine::matches_view(line_matches@).take(k as int) =~= crate::engine::matches_view(line_matches@));
                    }
                    all_spans.push(spans);
                }
            }
            idx = idx + 1;
        }
        (indices, all_spans)
    }

    fn clamp_selection(&mut self)
        ensures
            (final(self).selected, final(self).scroll) == clamped(old(self).selected, old(self).scroll, old(self).matched@.len()),
            final(self).pattern_editor == old(self).pattern_editor,
            final(self).options == old(self).options,
            final(self).lines == old(self).lines,
            final(self).json_extracted == old(self).json_extracted,
            final(self).matched == old(self).matched,
            final(self).match_spans == old(self).match_spans,
            final(self).error == old(self).error,
            final(self).should_quit == old(self).should_quit,
            final(self).outcome == old(self).outcome,
            final(self).engine == old(self).engine,
            final(self).engine_flags == old(self).engine_flags,
    {
        if self.matched.len() == 0 {
            self.selected = 0;
            self.scroll = 0;
        } else if self.selected >= self.matched.len() {
            self.selected = self.matched.len() - 1;
        }
    }

    /// Moves the cursor to the next passing line, if there is one.
    pub fn select_next(&mut self)
        ensures
            final(self).selected == if old(self).matched@.len() > 0 && old(self).selected < old(self).matched@.len() - 1 {
                (old(self).selected + 1) as usize
            } else {
                old(self).selected
            },
            *final(self) == (FilterApp { selected: final(self).selected, ..*old(self) }),
    {
        if self.matched.len() > 0 && self.selected < self.matched.len() - 1 {
            self.selected = self.selected + 1;
        }
    }

    /// Moves the cursor to the previous passing line, stopping at the first.
    pub fn select_prev(&mut self)
        ensures
            final(self).selected == if old(self).selected > 0 {
                (old(self).selected - 1) as usize
            } else {
                0
            },
            *final(self) == (FilterApp { selected: final(self).selected, ..*old(self) }),
    {
        self.selected = self.selected.saturating_sub(1);
    }

    /// Flips case-insensitive matching and recomputes.
    pub fn toggle_case_insensitive(&mut self)
        requires
            old(self).wf(),
        ensures
            final(self).wf(),
            final(self).results_current(),
            final(self).options == (FilterOptions {
                case_insensitive: !old(self).options.case_insensitive,
                ..old(self).options
            }),
            final(self).flags().case_insensitive == final(self).options.case_insensitive,
            final(self).pattern_editor == old(self).pattern_editor,
            final(self).lines == old(self).lines,
            final(self).json_extracted == old(self).json_extracted,
    {
        self.options.case_insensitive = !self.options.case_insensitive;
        self.engine_flags.case_insensitive = self.options.case_insensitive;
        self.recompute();
    }

    /// Flips inversion and recomputes.
    pub fn toggle_invert(&mut self)
        requires
            old(self).wf(),
        ensures
            final(self).wf(),
            invert_toggled(*old(self), *final(self)),
    {
        self.options.invert = !self.options.invert;
        self.recompute();
    }
}

/// `post` is `pre` with inversion flipped and the results recomputed.
/// The interactive filter shows what `filter_lines` gives: outside JSON
/// mode and with its engine flags set from its options, a filter whose
/// results are current lists exactly the lines `filter_lines` keeps, and on
/// a pattern that does not compile holds the error `filter_lines` reports.
pub proof fn lemma_recompute_agrees_with_filter_lines(a: FilterApp)
    requires
        a.results_current(),
        a.json_extracted is None,
        a.flags() == a.options.spec_flags(),
    ensures
        !a.compile_failed() ==> a.matched@ == kept_indices(
            filter_keep(a.lines.deep_view(), a.pattern_view(), a.options),
            a.lines@.len() as int,
        ),
        a.compile_failed() ==> a.matched@.len() == 0 && (a.error matches Some(m) && m@ == "Compile error: "@ + rust_regex_new(
            a.options.spec_flags().spec_wrap(a.pattern_view()),
        )->Err_0),
        a.compile_failed() <==> (a.pattern_view().len() > 0 && rust_regex_new(
            a.options.spec_flags().spec_wrap(a.pattern_view()),
        ) is Err),
{
    let keep = filter_keep(a.lines.deep_view(), a.pattern_view(), a.options);
    let passes = a.passes();
    assert forall|i: int| 0 <= i < a.lines@.len() implies #[trigger] passes(i) == keep(i) by {
        assert(a.haystack(i) == Some(a.lines.deep_view()[i]));
    }
    lemma_kept_indices_agree(passes, keep, a.lines@.len() as int);
}

pub open spec fn invert_toggled(pre: FilterApp, post: FilterApp) -> bool {
    &&& post.results_current()
    &&& post.options == (FilterOptions { invert: !pre.options.invert, ..pre.options })
    &&& post.flags() == pre.flags()
    &&& post.pattern_editor == pre.pattern_editor
    &&& post.lines == pre.lines
    &&& post.json_extracted == pre.json_extracted
}

/// Flipping inversion twice brings back the lines that passed, their
/// spans and the error.
pub proof fn lemma_invert_twice_restores(a: FilterApp, b: FilterApp, c: FilterApp)
    requires
        a.results_current(),
        invert_toggled(a, b),
        invert_toggled(b, c),
    ensures
        c.matched@ == a.matched@,
        c.match_spans@.len() == a.match_spans@.len(),
        forall|j: int| 0 <= j < c.match_spans@.len() ==> (#[trigger] c.match_spans@[j])@ == a.match_spans@[j]@,
        (c.error is None) == (a.error is None),
        c.error matches Some(m) ==> a.error matches Some(m0) && m@ == m0@,
{
    assert(c.options == a.options);
    assert(c.passes() =~= a.passes());
}

/// After clamping, the cursor points at an entry whenever there is one,
/// and is 0 when there is none.
pub proof fn lemma_clamped_in_bounds(selected: usize, scroll: usize, len: nat)
    requires
        len <= usize::MAX,
    ensures
        len > 0 ==> clamped(selected, scroll, len).0 < len,
        len == 0 ==> clamped(selected, scroll, len) == (0usize, 0usize),
{
}

} // verus!
