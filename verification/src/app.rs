//! The state of the interactive tester and everything it does in response
//! to the user.

use std::collections::VecDeque;
use std::time::{Duration, Instant};

use vstd::prelude::*;
use vstd::string::StringSliceAdditionalSpecFns;
use vstd::utf8::encode_utf8;

use crate::codegen::{generate_code, spec_generate_code, Language};
use crate::engine::pcre2::{default_env, Pcre2Env};
use crate::engine::env_fits;
use crate::engine::pcre2_debug::{DebugSession, DebugTrace};
use crate::engine::replace::{replace_all, spec_replace_all, ReplaceResult};
use crate::engine::{
    create_engine, create_engine_linked, detect_minimum_engine, engine_rank, is_engine_upgrade, matches_laid_out, matches_view,
    spec_compile, spec_find, spec_minimum_engine, CompiledRegex, EngineFlags, EngineKind, Match, MatchView,
    RegexEngine,
};
use crate::explain::syntax::pattern_tree;
use crate::explain::tree::{explain_nodes, RegexAst};
use crate::explain::visitor::nodes_view;
use crate::explain::{explain, spec_parse_error, ExplainNode};
use crate::input::editor::{edit_fits, spec_after_edit, spec_after_motion, EditOp, Editor, Motion};
use crate::text::{owned, push_char, push_str};

verus! {

/// `std::time::Instant`, carried through as an opaque value.
#[verifier::external_type_specification]
#[verifier::external_body]
pub struct ExInstant(Instant);

/// `arboard::Clipboard`, carried through as an opaque value.
#[verifier::external_type_specification]
#[verifier::external_body]
pub struct ExClipboard(arboard::Clipboard);

/// Reads the monotonic clock with `Instant::now`. Nothing is stated of the
/// reading.
#[verifier::external_body]
fn clock_now() -> Instant {
    Instant::now()
}

/// The time since `start`, by `Instant::elapsed`. Nothing is stated of it.
#[verifier::external_body]
fn clock_elapsed(start: &Instant) -> Duration {
    start.elapsed()
}

/// A zero-length duration, by `Duration::new(0, 0)`. Nothing is stated of
/// the value: durations are only carried to the display.
#[verifier::external_body]
fn zero_duration() -> Duration {
    Duration::new(0, 0)
}

/// Opens the system clipboard with `arboard::Clipboard::new`. Whether it
/// opens depends on the machine, so nothing is stated of the outcome; the
/// error is arboard's message.
#[verifier::external_body]
fn clipboard_open() -> Result<arboard::Clipboard, String> {
    match arboard::Clipboard::new() {
        Ok(cb) => Ok(cb),
        Err(e) => Err(e.to_string()),
    }
}

/// Puts text on the clipboard with `arboard::Clipboard::set_text`. Whether
/// it succeeds depends on the machine, so nothing is stated of the outcome;
/// the error is arboard's message.
#[verifier::external_body]
fn clipboard_set_text(cb: &mut arboard::Clipboard, text: &str) -> Result<(), String> {
    match cb.set_text(text) {
        Ok(()) => Ok(()),
        Err(e) => Err(e.to_string()),
    }
}

/// `Duration` is `Copy`: its `clone` gives back the same value.
pub assume_specification[ <Duration as Clone>::clone ](d: &Duration) -> (r: Duration)
    ensures
        r == *d,
;

/// The timing and outcome of one engine in a benchmark run.
#[derive(Debug, Clone)]
pub struct BenchmarkResult {
    pub engine: EngineKind,
    pub compile_time: Duration,
    pub match_time: Duration,
    pub match_count: usize,
    pub error: Option<String>,
}

/// The first `max` characters of `s` followed by `...`, or `s` itself when
/// it is no longer than that.
pub open spec fn spec_truncate(s: Seq<char>, max: nat) -> Seq<char> {
    if s.len() <= max {
        s
    } else {
        s.take(max as int) + "..."@
    }
}

fn truncate(s: &str, max_chars: usize) -> (r: String)
    ensures
        r@ == spec_truncate(s@, max_chars as nat),
{
    let n = s.unicode_len();
    if n <= max_chars {
        return owned(s);
    }
    let mut r = String::new();
    let mut i: usize = 0;
    while i < max_chars
        invariant
            n == s@.len(),
            max_chars < n,
            i <= max_chars,
            r@ == s@.take(i as int),
        decreases max_chars - i,
    {
        push_char(&mut r, s.get_char(i));
        i = i + 1;
        assert(r@ =~= s@.take(i as int));
    }
    push_str(&mut r, "...");
    r
}

/// One character per byte that needs no escaping in a URL; `%XX` (upper-case
/// hex) for every other byte.
pub open spec fn url_unreserved(b: u8) -> bool {
    (65 <= b <= 90) || (97 <= b <= 122) || (48 <= b <= 57) || b == 45 || b == 95 || b == 46 || b == 126
}

pub open spec fn hex_digit(n: nat) -> char {
    if n < 10 {
        crate::text::digit_char(n)
    } else if n == 10 {
        'A'
    } else if n == 11 {
        'B'
    } else if n == 12 {
        'C'
    } else if n == 13 {
        'D'
    } else if n == 14 {
        'E'
    } else {
        'F'
    }
}

pub open spec fn url_encode_byte(b: u8) -> Seq<char> {
    if url_unreserved(b) {
        seq![b as char]
    } else {
        seq!['%', hex_digit((b / 16) as nat), hex_digit((b % 16) as nat)]
    }
}

/// The bytes of a text, percent-encoded.
pub open spec fn url_encode_bytes(b: Seq<u8>) -> Seq<char>
    decreases b.len(),
{
    if b.len() == 0 {
        Seq::empty()
    } else {
        url_encode_bytes(b.drop_last()) + url_encode_byte(b.last())
    }
}

fn hex(n: u8) -> (r: char)
    requires
        n < 16,
    ensures
        r == hex_digit(n as nat),
{
    if n < 10 {
        crate::text::digit(n as usize)
    } else if n == 10 {
        'A'
    } else if n == 11 {
        'B'
    } else if n == 12 {
        'C'
    } else if n == 13 {
        'D'
    } else if n == 14 {
        'E'
    } else {
        'F'
    }
}

fn url_encode(s: &str) -> (r: String)
    ensures
        r@ == url_encode_bytes(s.spec_bytes()),
{
    let bytes = s.as_bytes();
    let mut out = String::new();
    let mut i: usize = 0;
    while i < bytes.len()
        invariant
            bytes@ == s.spec_bytes(),
            i <= bytes@.len(),
            out@ == url_encode_bytes(bytes@.take(i as int)),
        decreases bytes.len() - i,
    {
        let b = bytes[i];
        assert(bytes@.take(i + 1).drop_last() =~= bytes@.take(i as int));
        if (65 <= b && b <= 90) || (97 <= b && b <= 122) || (48 <= b && b <= 57) || b == 45 || b == 95 || b == 46
            || b == 126 {
            push_char(&mut out, b as char);
        } else {
            push_char(&mut out, '%');
            push_char(&mut out, hex(b / 16));
            push_char(&mut out, hex(b % 16));
        }
        i = i + 1;
        assert(out@ =~= url_encode_bytes(bytes@.take(i as int)));
    }
    assert(bytes@.take(i as int) =~= bytes@);
    out
}

/// The number of lines the match list shows before match `k`: one per match
/// and one per capture of each.
pub open spec fn lines_before(ms: Seq<MatchView>, k: int) -> nat
    decreases k,
{
    if k <= 0 {
        0
    } else {
        lines_before(ms, k - 1) + 1 + ms[k - 1].captures.len()
    }
}

/// The match-list line of the selected match or capture, as a scroll
/// offset (saturating at `u16::MAX`).
pub open spec fn selection_line(ms: Seq<MatchView>, selected: usize, capture: Option<usize>) -> u16 {
    let line = lines_before(ms, selected as int) + match capture {
        Some(ci) => 1 + ci,
        None => 0,
    };
    if line > u16::MAX {
        u16::MAX
    } else {
        line as u16
    }
}

/// The message shown after copying `text`.
pub open spec fn copied_message(text: Seq<char>) -> Seq<char> {
    "Copied: \""@ + spec_truncate(text, 40) + "\""@
}

/// What replacing gives for a template, a text and its matches: nothing
/// when the template is empty or nothing matched.
pub open spec fn spec_replace_result(template: Seq<char>, text: Seq<char>, ms: Seq<MatchView>) -> Option<
    crate::engine::replace::ReplaceState,
> {
    if template.len() == 0 || ms.len() == 0 {
        None
    } else {
        Some(spec_replace_all(text, ms, template))
    }
}

pub open spec fn replace_view(r: Option<ReplaceResult>) -> Option<crate::engine::replace::ReplaceState> {
    match r {
        Some(x) => Some(x@),
        None => None,
    }
}

pub open spec fn error_view(e: Option<String>) -> Option<Seq<char>> {
    match e {
        Some(m) => Some(m@),
        None => None,
    }
}

/// What searching the test text gives: nothing without a compiled pattern
/// or with an empty text, the engine's outcome otherwise.
pub open spec fn match_outcome(compiled: Option<CompiledRegex>, text: Seq<char>) -> Option<
    Result<Seq<MatchView>, Seq<char>>,
> {
    match compiled {
        None => None,
        Some(c) => if text.len() == 0 {
            None
        } else {
            Some(c.spec_find(text))
        },
    }
}

/// The compiled pattern is there exactly when compiling succeeded, and then
/// searches as the engine does.
pub open spec fn compile_matches(
    compiled: Option<CompiledRegex>,
    kind: EngineKind,
    pattern: Seq<char>,
    flags: EngineFlags,
    s: Result<(), Seq<char>>,
    env: Pcre2Env,
) -> bool {
    match compiled {
        Some(c) => s is Ok && c.searches_as(kind, pattern, flags, env),
        None => s is Err,
    }
}

/// The error shown after a recompute: a search error first, then a compile
/// error, then a syntax error from the explanation.
pub open spec fn recompute_error(
    compiled: Result<(), Seq<char>>,
    parse: Option<(Seq<char>, usize)>,
    outcome: Option<Result<Seq<MatchView>, Seq<char>>>,
) -> Option<Seq<char>> {
    match outcome {
        Some(Err(e)) => Some("Match error: "@ + e),
        _ => pre_match_error(compiled, parse),
    }
}

/// A compile outcome (compiled pattern, error message) is the one the
/// engine gives for the pattern.
pub open spec fn compile_outcome_ok(
    compiled: Option<CompiledRegex>,
    error: Option<String>,
    kind: EngineKind,
    pattern: Seq<char>,
    flags: EngineFlags,
    linked: bool,
    env: Pcre2Env,
) -> bool {
    let s = spec_compile(kind, pattern, flags, env);
    &&& env_fits(kind, env, linked)
    &&& compile_matches(compiled, kind, pattern, flags, s, env)
    &&& error_view(error) == match s {
        Ok(()) => None,
        Err(m) => Some("Compile error: "@ + m),
    }
}

/// After a recompute with the given engine, the compiled pattern is the one
/// the engine gives, and the error line shows a search error, else a compile
/// error, else a syntax error.
pub open spec fn recompute_outcome_ok(
    app: App,
    kind: EngineKind,
    pattern: Seq<char>,
    flags: EngineFlags,
    text: Seq<char>,
    linked: bool,
    env: Pcre2Env,
) -> bool {
    let s = spec_compile(kind, pattern, flags, env);
    &&& env_fits(kind, env, linked)
    &&& compile_matches(app.compiled, kind, pattern, flags, s, env)
    &&& error_view(app.error) == recompute_error(s, spec_parse_error(pattern), match_outcome(app.compiled, text))
}

/// The error line before searching: a compile error, else a syntax error.
pub open spec fn pre_match_error(compiled: Result<(), Seq<char>>, parse: Option<(Seq<char>, usize)>) -> Option<
    Seq<char>,
> {
    match compiled {
        Err(m) => Some("Compile error: "@ + m),
        Ok(()) => match parse {
            Some((m, _)) => Some(m),
            None => None,
        },
    }
}

/// After compiling, the compiled pattern is the one the engine gives, and
/// the error line shows the compile error, else the syntax error.
pub open spec fn compile_phase_ok(app: App, kind: EngineKind, pattern: Seq<char>, flags: EngineFlags, linked: bool, env: Pcre2Env) -> bool {
    let s = spec_compile(kind, pattern, flags, env);
    &&& env_fits(kind, env, linked)
    &&& compile_matches(app.compiled, kind, pattern, flags, s, env)
    &&& error_view(app.error) == pre_match_error(s, spec_parse_error(pattern))
}

/// What a rematch does, from the state before (`pre`) to the state after
/// (`post`).
pub open spec fn rematch_post(pre: App, post: App) -> bool {
    &&& post.match_scroll == 0
    &&& post.selected_match == 0
    &&& post.selected_capture is None
    &&& (match match_outcome(pre.compiled, pre.text_view()) {
        Some(Ok(ms)) => post.matches_view() == ms && post.error == pre.error,
        Some(Err(e)) => post.matches@.len() == 0 && error_view(post.error) == Some(
            "Match error: "@ + e,
        ),
        None => post.matches@.len() == 0 && post.error == pre.error,
    })
    &&& post.match_time is Some <==> match_outcome(pre.compiled, pre.text_view()) is Some
    &&& replace_view(post.replace_result) == if pre.compiled is Some && pre.text_view().len()
        == 0 {
        None
    } else {
        spec_replace_result(pre.template_view(), pre.text_view(), post.matches_view())
    }
    &&& post == (App {
        matches: post.matches,
        match_scroll: 0,
        selected_match: 0,
        selected_capture: None,
        match_time: post.match_time,
        error: post.error,
        replace_result: post.replace_result,
        ..pre
    })
}

/// What the explanation panel lists for a pattern: nothing on a syntax
/// error, otherwise the explanation of the pattern's syntax tree.
pub open spec fn explanation_shown(pattern: Seq<char>, nodes: Seq<ExplainNode>) -> bool {
    match spec_parse_error(pattern) {
        Some(_) => nodes.len() == 0,
        None => pattern.len() > 0 ==> exists|t: RegexAst| #[trigger] pattern_tree(pattern, t) && explain_nodes(t, 0) == nodes_view(nodes),
    }
}

/// What a recompute does, from the state before (`pre`) to the state after
/// (`post`).
pub open spec fn recompute_post(pre: App, post: App) -> bool {
    &&& post.match_scroll == 0
    &&& post.explain_scroll == 0
    &&& pre.pattern_view().len() == 0 ==> post.explanation@.len() == 0
    &&& pre.pattern_view().len() > 0 ==> explanation_shown(pre.pattern_view(), post.explanation@)
    &&& pre.pattern_view().len() == 0 ==> {
        &&& post.compiled is None
        &&& post.matches@.len() == 0
        &&& post.error is None
        &&& post.compile_time is None
        &&& post.match_time is None
        &&& post.error_offset is None
        &&& post == (App {
            compiled: None,
            matches: post.matches,
            explanation: post.explanation,
            error: None,
            compile_time: None,
            match_time: None,
            error_offset: None,
            match_scroll: 0,
            explain_scroll: 0,
            ..pre
        })
    }
    &&& pre.pattern_view().len() > 0 ==> {
        let p = pre.pattern_view();
        let k = upgraded_engine(pre.engine_kind, p);
        &&& post.engine_kind == k
        &&& k != pre.engine_kind ==> error_view(post.clipboard_status) == Some(
            auto_switch_message(pre.engine_kind, k),
        ) && post.clipboard_status_ticks == STATUS_TICKS
        &&& k == pre.engine_kind ==> post.clipboard_status == pre.clipboard_status
            && post.clipboard_status_ticks == pre.clipboard_status_ticks
        &&& exists|env: Pcre2Env| #[trigger]
            recompute_outcome_ok(post, k, p, pre.flags, pre.text_view(), pre.engine.pcre2_10_45, env)
        &&& k != EngineKind::Pcre2 ==> recompute_outcome_ok(
            post,
            k,
            p,
            pre.flags,
            pre.text_view(), pre.engine.pcre2_10_45,
            default_env(),
        )
        &&& (match match_outcome(post.compiled, pre.text_view()) {
            Some(Ok(ms)) => post.matches_view() == ms,
            _ => post.matches@.len() == 0,
        })
        &&& post.error_offset == match spec_parse_error(p) {
            Some((_, off)) => Some(off),
            None => None::<usize>,
        }
        &&& post.compile_time is Some
        &&& post.match_time is Some <==> match_outcome(post.compiled, pre.text_view()) is Some
        &&& post.selected_match == 0
        &&& post.selected_capture is None
        &&& replace_view(post.replace_result) == if post.compiled is Some
            && pre.text_view().len() == 0 {
            None
        } else {
            spec_replace_result(pre.template_view(), pre.text_view(), post.matches_view())
        }
        &&& post == (App {
            engine_kind: post.engine_kind,
            engine: post.engine,
            clipboard_status: post.clipboard_status,
            clipboard_status_ticks: post.clipboard_status_ticks,
            compiled: post.compiled,
            matches: post.matches,
            explanation: post.explanation,
            error: post.error,
            compile_time: post.compile_time,
            match_time: post.match_time,
            error_offset: post.error_offset,
            match_scroll: 0,
            explain_scroll: 0,
            selected_match: 0,
            selected_capture: None,
            replace_result: post.replace_result,
            ..pre
        })
    }
}

/// The engine a pattern moves the tester to: the least capable one that
/// runs it, when that one is more capable than the current one.
pub open spec fn upgraded_engine(current: EngineKind, pattern: Seq<char>) -> EngineKind {
    if engine_rank(spec_minimum_engine(pattern)) > engine_rank(current) {
        spec_minimum_engine(pattern)
    } else {
        current
    }
}

/// The status message shown when the engine is switched for a pattern.
pub open spec fn auto_switch_message(from: EngineKind, to: EngineKind) -> Seq<char> {
    "Auto-switched "@ + from.spec_label() + " \u{2192} "@ + to.spec_label() + " for this pattern"@
}

/// Where the selection goes on "next": into the captures of the selected
/// match, then on to the next match; it stays at the last one.
pub open spec fn next_selection(ms: Seq<MatchView>, sel: usize, cap: Option<usize>) -> (usize, Option<usize>) {
    let m = ms[sel as int];
    match cap {
        None => if m.captures.len() > 0 {
            (sel, Some(0usize))
        } else if sel + 1 < ms.len() {
            ((sel + 1) as usize, None)
        } else {
            (sel, None)
        },
        Some(ci) => if ci + 1 < m.captures.len() {
            (sel, Some((ci + 1) as usize))
        } else if sel + 1 < ms.len() {
            ((sel + 1) as usize, None)
        } else {
            (sel, Some(ci))
        },
    }
}

/// Where the selection goes on "previous": back through the captures to the
/// match itself, then to the last capture of the match before; it stays at
/// the first match.
pub open spec fn prev_selection(ms: Seq<MatchView>, sel: usize, cap: Option<usize>) -> (usize, Option<usize>) {
    match cap {
        Some(ci) => if ci == 0 {
            (sel, None)
        } else {
            (sel, Some((ci - 1) as usize))
        },
        None => if sel > 0 {
            let m = ms[sel - 1];
            ((sel - 1) as usize, if m.captures.len() > 0 {
                Some((m.captures.len() - 1) as usize)
            } else {
                None
            })
        } else {
            (sel, None)
        },
    }
}

/// Stepping back undoes a step forward: from a valid selection that "next"
/// moves, "previous" returns to it.
pub proof fn lemma_prev_undoes_next(ms: Seq<MatchView>, sel: usize, cap: Option<usize>)
    requires
        sel < ms.len() <= usize::MAX,
        ms[sel as int].captures.len() <= usize::MAX,
        cap matches Some(ci) ==> ci < ms[sel as int].captures.len(),
        next_selection(ms, sel, cap) != (sel, cap),
    ensures
        prev_selection(ms, next_selection(ms, sel, cap).0, next_selection(ms, sel, cap).1) == (sel, cap),
{
    let m = ms[sel as int];
    let (s2, c2) = next_selection(ms, sel, cap);
    if s2 != sel {
        assert(ms[s2 - 1] == m);
    }
}

/// The text of the selected match or capture.
pub open spec fn spec_selected_text(ms: Seq<MatchView>, sel: usize, cap: Option<usize>) -> Option<Seq<char>> {
    if sel >= ms.len() {
        None
    } else {
        match cap {
            None => Some(ms[sel as int].text),
            Some(ci) => if ci < ms[sel as int].captures.len() {
                Some(ms[sel as int].captures[ci as int].text)
            } else {
                None
            },
        }
    }
}

/// A status message is the success message, or an error from the
/// clipboard.
pub open spec fn clipboard_report(status: Option<String>, success: Seq<char>) -> bool {
    match status {
        Some(m) => m@ == success || exists|e: Seq<char>| m@ == "Clipboard error: "@ + e,
        None => false,
    }
}

/// The regex101 flavor for an engine.
pub open spec fn regex101_flavor(k: EngineKind) -> Seq<char> {
    if k == EngineKind::Pcre2 {
        "pcre2"@
    } else {
        "ecmascript"@
    }
}

/// The regex101 link for a pattern, a test text, flags and an engine.
pub open spec fn spec_regex101_url(pattern: Seq<char>, text: Seq<char>, flags: EngineFlags, k: EngineKind) -> Seq<char> {
    "https://regex101.com/?regex="@ + url_encode_bytes(encode_utf8(pattern)) + "&testString="@
        + url_encode_bytes(encode_utf8(text)) + "&flags="@ + url_encode_bytes(encode_utf8("g"@ + flags.spec_letters()))
        + "&flavor="@ + regex101_flavor(k)
}

/// The first index from `i` on whose debugger step belongs to a match
/// attempt after `current`.
pub open spec fn first_later_attempt(steps: Seq<crate::engine::pcre2_debug::DebugStep>, i: int, current: usize) -> Option<
    usize,
>
    decreases steps.len() - i,
{
    if i < 0 || i >= steps.len() {
        None
    } else if steps[i].match_attempt > current {
        Some(i as usize)
    } else {
        first_later_attempt(steps, i + 1, current)
    }
}

/// The first index from `i` on whose debugger step backtracks.
pub open spec fn first_backtrack(steps: Seq<crate::engine::pcre2_debug::DebugStep>, i: int) -> Option<usize>
    decreases steps.len() - i,
{
    if i < 0 || i >= steps.len() {
        None
    } else if steps[i].is_backtrack {
        Some(i as usize)
    } else {
        first_backtrack(steps, i + 1)
    }
}

/// The match attempt of the current debugger step (0 past the end).
pub open spec fn current_attempt(s: DebugSession) -> usize {
    if s.step < s.trace.steps@.len() {
        s.trace.steps@[s.step as int].match_attempt
    } else {
        0
    }
}

/// One benchmark entry is what its engine gives for the pattern and text.
pub open spec fn bench_outcome_ok(
    r: BenchmarkResult,
    kind: EngineKind,
    pattern: Seq<char>,
    flags: EngineFlags,
    text: Seq<char>,
    linked: bool,
    env: Pcre2Env,
) -> bool {
    &&& env_fits(kind, env, linked)
    &&& r.engine == kind
    &&& match spec_compile(kind, pattern, flags, env) {
        Err(m) => r.match_count == 0 && error_view(r.error) == Some("Compile error: "@ + m),
        Ok(()) => match spec_find(kind, pattern, flags, text, env) {
            Ok(ms) => r.match_count == ms.len() && r.error is None,
            Err(e) => r.match_count == 0 && error_view(r.error) == Some("Match error: "@ + e),
        },
    }
}

/// What is left of opening the debugger after `App::start_debug`.
#[derive(Debug, Clone, Copy, PartialEq, Eq, Structural)]
pub enum DebugStart {
    /// Nothing: the debugger reported missing input, or reopened its session.
    Done,
    /// A trace to record, from this byte offset of the test text.
    Record(usize),
}

/// The byte offset a trace starts from: the start of the selected match, or
/// 0 without one.
pub open spec fn selected_match_start(ms: Seq<MatchView>, sel: usize) -> usize {
    if ms.len() > 0 && sel < ms.len() {
        ms[sel as int].start
    } else {
        0
    }
}

/// Opening the debugger on `pre` went through `mid` (the state on PCRE2,
/// recomputed when the engine changed) to `post`: the closed session comes
/// back when it is for the same pattern and text, else a trace is asked
/// for.
pub open spec fn debug_start_ok(pre: App, mid: App, post: App, r: DebugStart) -> bool {
    &&& pre.engine_kind == EngineKind::Pcre2 ==> mid == pre
    &&& pre.engine_kind != EngineKind::Pcre2 ==> recompute_post(
        App {
            engine_kind: EngineKind::Pcre2,
            engine: RegexEngine { kind: EngineKind::Pcre2, pcre2_10_45: pre.engine.pcre2_10_45 },
            ..pre
        },
        mid,
    ) && mid.wf()
    &&& if mid.debug_cache matches Some(c) && c.pattern@ == pre.pattern_view() && c.subject@ == pre.text_view() {
        r is Done && post == (App { debug_session: mid.debug_cache, debug_cache: None, ..mid })
    } else {
        r == DebugStart::Record(selected_match_start(mid.matches_view(), mid.selected_match)) && post == mid
    }
}

/// The state of the interactive tester.
pub struct App {
    pub regex_editor: Editor,
    pub test_editor: Editor,
    pub replace_editor: Editor,
    pub focused_panel: u8,
    pub engine_kind: EngineKind,
    pub flags: EngineFlags,
    pub matches: Vec<Match>,
    pub replace_result: Option<ReplaceResult>,
    pub explanation: Vec<ExplainNode>,
    pub error: Option<String>,
    pub show_help: bool,
    pub help_page: usize,
    pub should_quit: bool,
    pub match_scroll: u16,
    pub replace_scroll: u16,
    pub explain_scroll: u16,
    /// Committed patterns, oldest first, at most 100.
    pub pattern_history: VecDeque<String>,
    /// The history entry being shown, while browsing.
    pub history_index: Option<usize>,
    /// The pattern that was being edited when browsing started.
    pub history_temp: Option<String>,
    pub selected_match: usize,
    pub selected_capture: Option<usize>,
    pub clipboard_status: Option<String>,
    /// Ticks left before the status message is cleared.
    pub clipboard_status_ticks: u32,
    pub show_whitespace: bool,
    pub rounded_borders: bool,
    pub vim_mode: bool,
    pub compile_time: Option<Duration>,
    pub match_time: Option<Duration>,
    pub error_offset: Option<usize>,
    pub output_on_quit: bool,
    pub workspace_path: Option<String>,
    pub show_recipes: bool,
    pub recipe_index: usize,
    pub show_benchmark: bool,
    pub benchmark_results: Vec<BenchmarkResult>,
    pub show_codegen: bool,
    pub codegen_language_index: usize,
    pub debug_session: Option<DebugSession>,
    /// The last closed debugger session, reopened when nothing changed.
    pub debug_cache: Option<DebugSession>,
    /// The engine patterns are compiled on.
    pub engine: RegexEngine,
    /// The compiled pattern, when it compiled.
    pub compiled: Option<CompiledRegex>,
}

pub const PANEL_REGEX: u8 = 0;

pub const PANEL_TEST: u8 = 1;

pub const PANEL_REPLACE: u8 = 2;

pub const PANEL_MATCHES: u8 = 3;

pub const PANEL_EXPLAIN: u8 = 4;

pub const PANEL_COUNT: u8 = 5;

/// How long a status message stays, in ticks of the event loop.
pub const STATUS_TICKS: u32 = 40;

/// Searches `text` with the compiled pattern, timing the search: the
/// matches, the time taken, and the search error, if any.
fn search(compiled: &Option<CompiledRegex>, text: &str) -> (r: (Vec<Match>, Option<Duration>, Option<String>))
    ensures
        (match match_outcome(*compiled, text@) {
            Some(Ok(ms)) => matches_view(r.0@) == ms && matches_laid_out(ms, text@) && r.2 is None,
            Some(Err(e)) => r.0@.len() == 0 && error_view(r.2) == Some("Match error: "@ + e),
            None => r.0@.len() == 0 && r.2 is None,
        }),
        r.1 is Some <==> match_outcome(*compiled, text@) is Some,
{
    match compiled {
        Some(c) => {
            if text.unicode_len() == 0 {
                return (Vec::new(), None, None);
            }
            let start = clock_now();
            match c.find_matches(text) {
                Ok(m) => (m, Some(clock_elapsed(&start)), None),
                Err(e) => (Vec::new(), Some(clock_elapsed(&start)), Some(e.message())),
            }
        },
        None => (Vec::new(), None, None),
    }
}

/// Compiles the pattern, timing it: the compiled pattern or the compile
/// error's message.
fn compile_timed(engine: &RegexEngine, pattern: &str, flags: &EngineFlags) -> (r: (
    Option<CompiledRegex>,
    Duration,
    Option<String>,
))
    ensures
        exists|env: Pcre2Env| #[trigger] compile_outcome_ok(r.0, r.2, engine.kind, pattern@, *flags, engine.pcre2_10_45, env),
        engine.kind != EngineKind::Pcre2 ==> compile_outcome_ok(r.0, r.2, engine.kind, pattern@, *flags, engine.pcre2_10_45, default_env()),
{
    let start = clock_now();
    let res = engine.compile(pattern, flags);
    let ghost env = if engine.kind == EngineKind::Pcre2 {
        choose|env: Pcre2Env| #[trigger] crate::engine::compile_explained(res, engine.kind, pattern@, *flags, engine.pcre2_10_45, env)
    } else {
        default_env()
    };
    let r = match res {
        Ok(c) => (Some(c), clock_elapsed(&start), None),
        Err(e) => (None, clock_elapsed(&start), Some(e.message())),
    };
    assert(compile_outcome_ok(r.0, r.2, engine.kind, pattern@, *flags, engine.pcre2_10_45, env));
    r
}

fn auto_switch_text(from: EngineKind, to: EngineKind) -> (r: String)
    ensures
        r@ == auto_switch_message(from, to),
{
    let mut m = owned("Auto-switched ");
    push_str(&mut m, from.label().as_str());
    push_str(&mut m, " \u{2192} ");
    push_str(&mut m, to.label().as_str());
    push_str(&mut m, " for this pattern");
    m
}

/// The error line and error position after compiling: the compile error
/// if there is one, else the syntax error; the position of the syntax error
/// unless a position is already set.
/// The explanation of a pattern, or its syntax error and the error's
/// position in characters.
fn explain_or_error(pattern: &str) -> (r: (Vec<ExplainNode>, Option<(String, usize)>))
    ensures
        explanation_shown(pattern@, r.0@),
        (match r.1 {
            None => spec_parse_error(pattern@) is None,
            Some((m, off)) => spec_parse_error(pattern@) == Some((m@, off)),
        }),
{
    match explain(pattern) {
        Ok(nodes) => (nodes, None),
        Err((m, off)) => (Vec::new(), Some((m, off.unwrap_or(0)))),
    }
}

fn merge_errors(
    compile_err: Option<String>,
    parse: Option<(String, usize)>,
    offset: Option<usize>,
) -> (r: (Option<String>, Option<usize>))
    ensures
        error_view(r.0) == match error_view(compile_err) {
            Some(m) => Some(m),
            None => match parse {
                Some((m, _)) => Some(m@),
                None => None,
            },
        },
        r.1 == if offset is None {
            match parse {
                Some((_, off)) => Some(off),
                None => None::<usize>,
            }
        } else {
            offset
        },
{
    match parse {
        None => (compile_err, offset),
        Some((msg, off)) => {
            let new_offset = if offset.is_none() {
                Some(off)
            } else {
                offset
            };
            let error = if compile_err.is_none() {
                Some(msg)
            } else {
                compile_err
            };
            (error, new_offset)
        },
    }
}

/// The history entries, by their text.
pub open spec fn history_seq(h: Seq<String>) -> Seq<Seq<char>> {
    h.map_values(|s: String| s@)
}

/// Appends an entry to the history, dropping the oldest once there are more
/// than 100.
fn push_history(h: &mut VecDeque<String>, pattern: String)
    requires
        old(h)@.len() <= 100,
        forall|i: int| 0 <= i < old(h)@.len() ==> (#[trigger] old(h)@[i])@.len() < usize::MAX,
        pattern@.len() < usize::MAX,
    ensures
        final(h)@.len() <= 100,
        forall|i: int| 0 <= i < final(h)@.len() ==> (#[trigger] final(h)@[i])@.len() < usize::MAX,
        history_seq(final(h)@) == if old(h)@.len() + 1 > 100 {
            history_seq(old(h)@).push(pattern@).drop_first()
        } else {
            history_seq(old(h)@).push(pattern@)
        },
{
    let ghost before = h@;
    h.push_back(pattern);
    assert(history_seq(h@) =~= history_seq(before).push(pattern@));
    if h.len() > 100 {
        let ghost full = h@;
        let _ = h.pop_front();
        assert(history_seq(h@) =~= history_seq(full).drop_first());
    }
}

/// The match-list line of a selection, capped at `u16::MAX`.
fn selection_line_of(matches: &Vec<Match>, sel: usize, cap: Option<usize>) -> (r: u16)
    requires
        sel < matches@.len(),
    ensures
        r == selection_line(matches_view(matches@), sel, cap),
{
    let ghost ms = matches_view(matches@);
    let cap_max: usize = 65535;
    let mut line: usize = 0;
    let mut i: usize = 0;
    while i < sel
        invariant
            ms == matches_view(matches@),
            sel < matches@.len(),
            i <= sel,
            line == if lines_before(ms, i as int) > cap_max { cap_max as nat } else { lines_before(ms, i as int) },
        decreases sel - i,
    {
        let add = matches[i].captures.len();
        assert(add == ms[i as int].captures.len());
        if line >= cap_max || add >= cap_max - line {
            line = cap_max;
        } else {
            line = line + 1 + add;
        }
        i = i + 1;
    }
    match cap {
        Some(ci) => {
            if line >= cap_max || ci >= cap_max - line {
                line = cap_max;
            } else {
                line = line + 1 + ci;
            }
        },
        None => {},
    }
    line as u16
}

/// The step `debug_next_match` moves to.
fn next_attempt_step(s: &DebugSession) -> (r: usize)
    ensures
        r == match first_later_attempt(s.trace.steps@, s.step + 1, current_attempt(*s)) {
            Some(i) => i,
            None => s.step,
        },
{
    let n = s.trace.steps.len();
    let current = if s.step < n {
        s.trace.steps[s.step].match_attempt
    } else {
        0
    };
    if s.step >= n {
        return s.step;
    }
    let mut i = s.step + 1;
    while i < n
        invariant
            n == s.trace.steps@.len(),
            s.step < i <= n,
            current == current_attempt(*s),
            first_later_attempt(s.trace.steps@, s.step + 1, current) == first_later_attempt(s.trace.steps@, i as int, current),
        decreases n - i,
    {
        if s.trace.steps[i].match_attempt > current {
            return i;
        }
        i = i + 1;
    }
    s.step
}

/// The step `debug_next_backtrack` moves to.
fn next_backtrack_step(s: &DebugSession) -> (r: usize)
    ensures
        r == match first_backtrack(s.trace.steps@, s.step + 1) {
            Some(i) => i,
            None => s.step,
        },
{
    let n = s.trace.steps.len();
    if s.step >= n {
        return s.step;
    }
    let mut i = s.step + 1;
    while i < n
        invariant
            n == s.trace.steps@.len(),
            s.step < i <= n,
            first_backtrack(s.trace.steps@, s.step + 1) == first_backtrack(s.trace.steps@, i as int),
        decreases n - i,
    {
        if s.trace.steps[i].is_backtrack {
            return i;
        }
        i = i + 1;
    }
    s.step
}

/// Where `select_match_next` moves the selection.
fn next_selection_of(matches: &Vec<Match>, sel: usize, cap: Option<usize>) -> (r: (usize, Option<usize>))
    requires
        sel < matches@.len(),
    ensures
        r == next_selection(matches_view(matches@), sel, cap),
{
    let ncaps = matches[sel].captures.len();
    assert(ncaps == matches_view(matches@)[sel as int].captures.len());
    match cap {
        None => {
            if ncaps > 0 {
                (sel, Some(0))
            } else if sel < matches.len() - 1 {
                (sel + 1, None)
            } else {
                (sel, None)
            }
        },
        Some(ci) => {
            if ci < ncaps && ci + 1 < ncaps {
                (sel, Some(ci + 1))
            } else if ci >= ncaps || ci + 1 >= ncaps {
                if sel < matches.len() - 1 {
                    (sel + 1, None)
                } else {
                    (sel, Some(ci))
                }
            } else {
                (sel, Some(ci))
            }
        },
    }
}

/// Where `select_match_prev` moves the selection.
fn prev_selection_of(matches: &Vec<Match>, sel: usize, cap: Option<usize>) -> (r: (usize, Option<usize>))
    requires
        sel < matches@.len(),
    ensures
        r == prev_selection(matches_view(matches@), sel, cap),
{
    match cap {
        Some(ci) => {
            if ci == 0 {
                (sel, None)
            } else {
                (sel, Some(ci - 1))
            }
        },
        None => {
            if sel > 0 {
                let ncaps = matches[sel - 1].captures.len();
                assert(ncaps == matches_view(matches@)[sel - 1].captures.len());
                if ncaps > 0 {
                    (sel - 1, Some(ncaps - 1))
                } else {
                    (sel - 1, None)
                }
            } else {
                (sel, None)
            }
        },
    }
}

/// Runs one engine on the pattern and text, timing compile and search.
fn bench_engine(kind: EngineKind, pcre2_10_45: bool, pattern: &str, flags: &EngineFlags, text: &str) -> (r: BenchmarkResult)
    ensures
        exists|env: Pcre2Env| #[trigger] bench_outcome_ok(r, kind, pattern@, *flags, text@, pcre2_10_45, env),
        kind != EngineKind::Pcre2 ==> bench_outcome_ok(r, kind, pattern@, *flags, text@, pcre2_10_45, default_env()),
{
    let eng = create_engine_linked(kind, pcre2_10_45);
    let (compiled, compile_time, compile_err) = compile_timed(&eng, pattern, flags);
    let ghost env = choose|b: Pcre2Env| #[trigger] compile_outcome_ok(compiled, compile_err, kind, pattern@, *flags, pcre2_10_45, b);
    let r = match compiled {
        None => BenchmarkResult {
            engine: kind,
            compile_time,
            match_time: zero_duration(),
            match_count: 0,
            error: compile_err,
        },
        Some(c) => {
            let start = clock_now();
            let found = c.find_matches(text);
            let match_time = clock_elapsed(&start);
            assert(c.spec_find(text@) == spec_find(kind, pattern@, *flags, text@, env));
            match found {
                Ok(ms) => BenchmarkResult { engine: kind, compile_time, match_time, match_count: ms.len(), error: None },
                Err(e) => BenchmarkResult {
                    engine: kind,
                    compile_time,
                    match_time,
                    match_count: 0,
                    error: Some(e.message()),
                },
            }
        },
    };
    assert(bench_outcome_ok(r, kind, pattern@, *flags, text@, pcre2_10_45, env));
    r
}

impl App {
    pub open spec fn pattern_view(&self) -> Seq<char> {
        self.regex_editor@.content
    }

    pub open spec fn text_view(&self) -> Seq<char> {
        self.test_editor@.content
    }

    pub open spec fn template_view(&self) -> Seq<char> {
        self.replace_editor@.content
    }

    pub open spec fn matches_view(&self) -> Seq<MatchView> {
        matches_view(self.matches@)
    }

    /// The editors are well formed; the engine is the one `engine_kind`
    /// names; the history holds at most 100 entries, each short enough to
    /// edit, and its cursor points into it.
    pub open spec fn wf_base(&self) -> bool {
        &&& self.engine.kind == self.engine_kind
        &&& self.focused_panel < PANEL_COUNT
        &&& self.show_recipes ==> self.recipe_index < crate::dispatch::RECIPE_COUNT
        &&& self.show_codegen ==> self.codegen_language_index < crate::dispatch::LANGUAGE_COUNT
        &&& self.regex_editor.wf()
        &&& self.test_editor.wf()
        &&& self.replace_editor.wf()
        &&& self.pattern_history@.len() <= 100
        &&& forall|i: int| 0 <= i < self.pattern_history@.len() ==> (#[trigger] self.pattern_history@[i])@.len() < usize::MAX
        &&& self.history_index matches Some(i) ==> i < self.pattern_history@.len()
        &&& self.history_temp matches Some(t) ==> t@.len() < usize::MAX
    }

    /// `wf_base`, and: the matches lie in the test text, and when there are
    /// matches the selection points at a match (and capture) that exists.
    pub open spec fn wf(&self) -> bool {
        &&& self.wf_base()
        &&& matches_laid_out(self.matches_view(), self.text_view())
        &&& self.matches@.len() > 0 ==> {
            &&& self.selected_match < self.matches@.len()
            &&& self.selected_capture matches Some(ci) ==> ci < self.matches@[self.selected_match as int].captures@.len()
        }
    }

    pub open spec fn history_view(&self) -> Seq<Seq<char>> {
        history_seq(self.pattern_history@)
    }

    /// A fresh tester on the given engine with the given flags.
    pub fn new(engine_kind: EngineKind, flags: EngineFlags) -> (r: App)
        ensures
            r.wf(),
            r.engine_kind == engine_kind,
            r.flags == flags,
            r.pattern_view().len() == 0,
            r.text_view().len() == 0,
            r.template_view().len() == 0,
            r.focused_panel == PANEL_REGEX,
            r.matches@.len() == 0,
            r.replace_result is None,
            r.explanation@.len() == 0,
            r.error is None,
            !r.show_help,
            r.help_page == 0,
            !r.should_quit,
            r.match_scroll == 0 && r.replace_scroll == 0 && r.explain_scroll == 0,
            r.pattern_history@.len() == 0,
            r.history_index is None,
            r.history_temp is None,
            r.selected_match == 0,
            r.selected_capture is None,
            r.clipboard_status is None,
            r.clipboard_status_ticks == 0,
            !r.show_whitespace && !r.rounded_borders && !r.vim_mode,
            r.compile_time is None && r.match_time is None,
            r.error_offset is None,
            !r.output_on_quit,
            r.workspace_path is None,
            !r.show_recipes && r.recipe_index == 0,
            !r.show_benchmark && r.benchmark_results@.len() == 0,
            !r.show_codegen && r.codegen_language_index == 0,
            r.debug_session is None && r.debug_cache is None,
            r.compiled is None,
    {
        let engine = create_engine(engine_kind);
        App {
            regex_editor: Editor::new(),
            test_editor: Editor::new(),
            replace_editor: Editor::new(),
            focused_panel: PANEL_REGEX,
            engine_kind,
            flags,
            matches: Vec::new(),
            replace_result: None,
            explanation: Vec::new(),
            error: None,
            show_help: false,
            help_page: 0,
            should_quit: false,
            match_scroll: 0,
            replace_scroll: 0,
            explain_scroll: 0,
            pattern_history: VecDeque::new(),
            history_index: None,
            history_temp: None,
            selected_match: 0,
            selected_capture: None,
            clipboard_status: None,
            clipboard_status_ticks: 0,
            show_whitespace: false,
            rounded_borders: false,
            vim_mode: false,
            compile_time: None,
            match_time: None,
            error_offset: None,
            output_on_quit: false,
            workspace_path: None,
            show_recipes: false,
            recipe_index: 0,
            show_benchmark: false,
            benchmark_results: Vec::new(),
            show_codegen: false,
            codegen_language_index: 0,
            debug_session: None,
            debug_cache: None,
            engine,
            compiled: None,
        }
    }

    /// Recomputes the replacement preview: the text with every match
    /// replaced, or nothing when the template is empty or nothing matched.
    pub fn rereplace(&mut self)
        requires
            old(self).wf(),
        ensures
            final(self).wf(),
            replace_view(final(self).replace_result) == spec_replace_result(
                old(self).template_view(),
                old(self).text_view(),
                old(self).matches_view(),
            ),
            *final(self) == (App { replace_result: final(self).replace_result, ..*old(self) }),
    {
        let template = self.replace_editor.content();
        if template.unicode_len() == 0 || self.matches.len() == 0 {
            self.replace_result = None;
            return;
        }
        let text = self.test_editor.content();
        self.replace_result = Some(replace_all(text.as_str(), &self.matches, template.as_str()));
    }

    /// Sets the replacement template and recomputes the preview.
    pub fn set_replacement(&mut self, text: &str)
        requires
            old(self).wf(),
            text@.len() < usize::MAX,
        ensures
            final(self).wf(),
            final(self).template_view() == text@,
            final(self).replace_editor@.cursor == text@.len(),
            replace_view(final(self).replace_result) == spec_replace_result(
                text@,
                old(self).text_view(),
                old(self).matches_view(),
            ),
            *final(self) == (App {
                replace_editor: final(self).replace_editor,
                replace_result: final(self).replace_result,
                ..*old(self)
            }),
    {
        self.replace_editor = Editor::with_content(owned(text));
        self.rereplace();
    }

    pub fn scroll_replace_up(&mut self)
        ensures
            *final(self) == (App {
                replace_scroll: if old(self).replace_scroll > 0 {
                    (old(self).replace_scroll - 1) as u16
                } else {
                    0
                },
                ..*old(self)
            }),
    {
        self.replace_scroll = self.replace_scroll.saturating_sub(1);
    }

    pub fn scroll_replace_down(&mut self)
        ensures
            *final(self) == (App {
                replace_scroll: if old(self).replace_scroll < u16::MAX {
                    (old(self).replace_scroll + 1) as u16
                } else {
                    u16::MAX
                },
                ..*old(self)
            }),
    {
        self.replace_scroll = self.replace_scroll.saturating_add(1);
    }

    pub fn scroll_match_up(&mut self)
        ensures
            *final(self) == (App {
                match_scroll: if old(self).match_scroll > 0 {
                    (old(self).match_scroll - 1) as u16
                } else {
                    0
                },
                ..*old(self)
            }),
    {
        self.match_scroll = self.match_scroll.saturating_sub(1);
    }

    pub fn scroll_match_down(&mut self)
        ensures
            *final(self) == (App {
                match_scroll: if old(self).match_scroll < u16::MAX {
                    (old(self).match_scroll + 1) as u16
                } else {
                    u16::MAX
                },
                ..*old(self)
            }),
    {
        self.match_scroll = self.match_scroll.saturating_add(1);
    }

    pub fn scroll_explain_up(&mut self)
        ensures
            *final(self) == (App {
                explain_scroll: if old(self).explain_scroll > 0 {
                    (old(self).explain_scroll - 1) as u16
                } else {
                    0
                },
                ..*old(self)
            }),
    {
        self.explain_scroll = self.explain_scroll.saturating_sub(1);
    }

    pub fn scroll_explain_down(&mut self)
        ensures
            *final(self) == (App {
                explain_scroll: if old(self).explain_scroll < u16::MAX {
                    (old(self).explain_scroll + 1) as u16
                } else {
                    u16::MAX
                },
                ..*old(self)
            }),
    {
        self.explain_scroll = self.explain_scroll.saturating_add(1);
    }

    /// Shows a status message for the next 40 ticks.
    pub fn set_status_message(&mut self, message: String)
        ensures
            *final(self) == (App {
                clipboard_status: Some(message),
                clipboard_status_ticks: STATUS_TICKS,
                ..*old(self)
            }),
    {
        self.clipboard_status = Some(message);
        self.clipboard_status_ticks = STATUS_TICKS;
    }

    /// Counts down the status message; clears it once its ticks are spent.
    /// Returns whether it was cleared.
    pub fn tick_clipboard_status(&mut self) -> (cleared: bool)
        ensures
            old(self).clipboard_status is None ==> !cleared && *final(self) == *old(self),
            old(self).clipboard_status is Some && old(self).clipboard_status_ticks > 0 ==> !cleared && *final(self) == (App { clipboard_status_ticks: (old(self).clipboard_status_ticks - 1) as u32, ..*old(self) }),
            old(self).clipboard_status is Some && old(self).clipboard_status_ticks == 0 ==> cleared && *final(self) == (App { clipboard_status: None, ..*old(self) }),
            (*final(self), cleared) == status_tick(*old(self)),
    {
        if self.clipboard_status.is_some() {
            if self.clipboard_status_ticks > 0 {
                self.clipboard_status_ticks = self.clipboard_status_ticks - 1;
            } else {
                self.clipboard_status = None;
                return true;
            }
        }
        false
    }

    /// Switches to the given engine without recompiling.
    pub fn switch_engine_to(&mut self, kind: EngineKind)
        ensures
            *final(self) == (App {
                engine_kind: kind,
                engine: RegexEngine { kind, pcre2_10_45: old(self).engine.pcre2_10_45 },
                ..*old(self)
            }),
    {
        self.engine_kind = kind;
        self.engine = create_engine_linked(kind, self.engine.pcre2_10_45);
    }

    /// Tells the tester which PCRE2 release is linked in, as the library
    /// reports it at run time (`None` when it cannot be read): the CVE guard
    /// applies exactly on 10.45.
    pub fn set_linked_pcre2(&mut self, version: Option<(u32, u32)>)
        ensures
            *final(self) == (App {
                engine: RegexEngine { kind: old(self).engine.kind, pcre2_10_45: version == Some((10u32, 45u32)) },
                ..*old(self)
            }),
    {
        let blocked = match version {
            Some((major, minor)) => crate::engine::pcre2::is_version_10_45(major, minor),
            None => false,
        };
        self.engine = create_engine_linked(self.engine.kind, blocked);
    }

    /// Moves the debugger one step forward, stopping at the last step.
    pub fn debug_step_forward(&mut self)
        ensures
            (match old(self).debug_session {
                Some(s) => final(self).debug_session == Some(DebugSession {
                    step: if s.step + 1 < s.trace.steps@.len() {
                        (s.step + 1) as usize
                    } else {
                        s.step
                    },
                    ..s
                }),
                None => final(self).debug_session is None,
            }),
            *final(self) == (App { debug_session: final(self).debug_session, ..*old(self) }),
    {
        match &mut self.debug_session {
            Some(s) => {
                if s.trace.steps.len() > 0 && s.step < s.trace.steps.len() - 1 {
                    s.step = s.step + 1;
                }
            },
            None => {},
        }
    }

    /// Moves the debugger one step back, stopping at the first step.
    pub fn debug_step_back(&mut self)
        ensures
            (match old(self).debug_session {
                Some(s) => final(self).debug_session == Some(DebugSession {
                    step: if s.step > 0 {
                        (s.step - 1) as usize
                    } else {
                        0
                    },
                    ..s
                }),
                None => final(self).debug_session is None,
            }),
            *final(self) == (App { debug_session: final(self).debug_session, ..*old(self) }),
    {
        match &mut self.debug_session {
            Some(s) => {
                s.step = s.step.saturating_sub(1);
            },
            None => {},
        }
    }

    /// Jumps to the first step.
    pub fn debug_jump_start(&mut self)
        ensures
            (match old(self).debug_session {
                Some(s) => final(self).debug_session == Some(DebugSession { step: 0, ..s }),
                None => final(self).debug_session is None,
            }),
            *final(self) == (App { debug_session: final(self).debug_session, ..*old(self) }),
    {
        match &mut self.debug_session {
            Some(s) => {
                s.step = 0;
            },
            None => {},
        }
    }

    /// Jumps to the last step.
    pub fn debug_jump_end(&mut self)
        ensures
            (match old(self).debug_session {
                Some(s) => final(self).debug_session == Some(DebugSession {
                    step: if s.trace.steps@.len() > 0 {
                        (s.trace.steps@.len() - 1) as usize
                    } else {
                        s.step
                    },
                    ..s
                }),
                None => final(self).debug_session is None,
            }),
            *final(self) == (App { debug_session: final(self).debug_session, ..*old(self) }),
    {
        match &mut self.debug_session {
            Some(s) => {
                if s.trace.steps.len() > 0 {
                    s.step = s.trace.steps.len() - 1;
                }
            },
            None => {},
        }
    }

    /// Flips the heatmap view of the debugger.
    pub fn debug_toggle_heatmap(&mut self)
        ensures
            (match old(self).debug_session {
                Some(s) => final(self).debug_session == Some(DebugSession { show_heatmap: !s.show_heatmap, ..s }),
                None => final(self).debug_session is None,
            }),
            *final(self) == (App { debug_session: final(self).debug_session, ..*old(self) }),
    {
        match &mut self.debug_session {
            Some(s) => {
                s.show_heatmap = !s.show_heatmap;
            },
            None => {},
        }
    }

    /// Closes the debugger, keeping its session to reopen.
    pub fn close_debug(&mut self)
        ensures
            *final(self) == (App { debug_session: None, debug_cache: old(self).debug_session, ..*old(self) }),
    {
        self.debug_cache = self.debug_session.take();
    }

    /// Opens the debugger, up to recording a trace: without a pattern or a
    /// test text it says so in the status line; otherwise it moves to PCRE2
    /// (recomputing) when on another engine, and reopens the session it
    /// closed last when that one is for the same pattern and text. Else the
    /// trace is still to be recorded, from the start of the selected match
    /// (byte 0 without matches); `finish_debug` takes it.
    #[verifier::spinoff_prover]
    #[verifier::rlimit(40)]
    pub fn start_debug(&mut self) -> (r: DebugStart)
        requires
            old(self).wf_base(),
        ensures
            final(self).wf_base(),
            old(self).pattern_view().len() == 0 || old(self).text_view().len() == 0 ==> r is Done && *final(self) == (App {
                clipboard_status: Some(final(self).clipboard_status->Some_0),
                clipboard_status_ticks: STATUS_TICKS,
                ..*old(self)
            }) && final(self).clipboard_status->Some_0@ == "Debugger needs both a pattern and test string"@,
            old(self).pattern_view().len() > 0 && old(self).text_view().len() > 0 ==> exists|mid: App| #[trigger]
                debug_start_ok(*old(self), mid, *final(self), r),
    {
        let pattern = self.regex_editor.content();
        let subject = self.test_editor.content();
        if pattern.unicode_len() == 0 || subject.unicode_len() == 0 {
            self.set_status_message(owned("Debugger needs both a pattern and test string"));
            return DebugStart::Done;
        }
        if self.engine_kind != EngineKind::Pcre2 {
            self.switch_engine_to(EngineKind::Pcre2);
            self.recompute();
        }
        let ghost mid = *self;
        let same = match &self.debug_cache {
            Some(cached) => crate::text::str_eq(cached.pattern.as_str(), pattern.as_str()) && crate::text::str_eq(
                cached.subject.as_str(),
                subject.as_str(),
            ),
            None => false,
        };
        if same {
            self.debug_session = self.debug_cache.take();
            assert(debug_start_ok(*old(self), mid, *self, DebugStart::Done));
            return DebugStart::Done;
        }
        let start = if self.matches.len() > 0 && self.selected_match < self.matches.len() {
            self.matches[self.selected_match].start
        } else {
            0
        };
        assert(debug_start_ok(*old(self), mid, *self, DebugStart::Record(start)));
        DebugStart::Record(start)
    }

    /// Takes the recorded trace of the pattern on the test text: a new
    /// session at its first step, heatmap off; on an error, the error in the
    /// status line.
    pub fn finish_debug(&mut self, trace: Result<DebugTrace, String>)
        ensures
            (match trace {
                Ok(t) => final(self).debug_session matches Some(s) && s.trace == t && s.step == 0 && !s.show_heatmap
                    && s.pattern@ == old(self).pattern_view() && s.subject@ == old(self).text_view()
                    && *final(self) == (App { debug_session: final(self).debug_session, ..*old(self) }),
                Err(e) => final(self).clipboard_status matches Some(m) && m@ == "Debugger error: "@ + e@
                    && *final(self) == (App {
                    clipboard_status: final(self).clipboard_status,
                    clipboard_status_ticks: STATUS_TICKS,
                    ..*old(self)
                }),
            }),
    {
        match trace {
            Ok(t) => {
                let pattern = self.regex_editor.content();
                let subject = self.test_editor.content();
                self.debug_session = Some(DebugSession { trace: t, step: 0, show_heatmap: false, pattern, subject });
            },
            Err(e) => {
                let mut m = owned("Debugger error: ");
                push_str(&mut m, e.as_str());
                self.set_status_message(m);
            },
        }
    }

    /// Searches the test text again with the compiled pattern, resets the
    /// selection, and recomputes the replacement preview.
    pub fn rematch(&mut self)
        requires
            old(self).wf_base(),
        ensures
            final(self).wf(),
            rematch_post(*old(self), *final(self)),
    {
        let text = self.test_editor.content();
        let (found, time, err) = search(&self.compiled, text.as_str());
        self.match_scroll = 0;
        self.selected_match = 0;
        self.selected_capture = None;
        self.matches = found;
        self.match_time = time;
        if let Some(e) = err {
            self.error = Some(e);
        }
        if self.compiled.is_some() && text.unicode_len() == 0 {
            self.replace_result = None;
        } else {
            self.rereplace();
        }
    }

    /// Recompiles the pattern (moving to a more capable engine when the
    /// pattern needs one), explains it in the explanation panel, and
    /// searches the test text again.
    ///
    /// On a syntax error the explanation panel is empty and the error
    /// shows in the error line (unless the engine reported its own).
    #[verifier::spinoff_prover]
    #[verifier::rlimit(40)]
    pub fn recompute(&mut self)
        requires
            old(self).wf_base(),
        ensures
            final(self).wf(),
            recompute_post(*old(self), *final(self)),
    {
        let pattern = self.regex_editor.content();
        self.match_scroll = 0;
        self.explain_scroll = 0;
        self.error_offset = None;
        if pattern.unicode_len() == 0 {
            self.compiled = None;
            self.matches = Vec::new();
            self.explanation = Vec::new();
            self.error = None;
            self.compile_time = None;
            self.match_time = None;
            return;
        }
        let suggested = detect_minimum_engine(pattern.as_str());
        if is_engine_upgrade(self.engine_kind, suggested) {
            let prev = self.engine_kind;
            self.engine_kind = suggested;
            self.engine = create_engine_linked(suggested, self.engine.pcre2_10_45);
            let msg = auto_switch_text(prev, suggested);
            self.set_status_message(msg);
        }
        self.compile_phase(pattern.as_str());
        let ghost env = choose|b: Pcre2Env| #[trigger] compile_phase_ok(*self, self.engine_kind, pattern@, self.flags, self.engine.pcre2_10_45, b);
        self.rematch();
        proof {
            assert(recompute_outcome_ok(*self, self.engine_kind, pattern@, self.flags, self.text_view(), self.engine.pcre2_10_45, env));
            if self.engine_kind != EngineKind::Pcre2 {
                assert(recompute_outcome_ok(*self, self.engine_kind, pattern@, self.flags, self.text_view(), self.engine.pcre2_10_45, default_env()));
            }
        }
    }

    /// Compiles the pattern on the current engine and checks its syntax,
    /// setting the compiled pattern, the error line and the error position.
    fn compile_phase(&mut self, pattern: &str)
        requires
            old(self).wf_base(),
            pattern@ == old(self).pattern_view(),
        ensures
            final(self).wf_base(),
            exists|env: Pcre2Env| #[trigger] compile_phase_ok(*final(self), old(self).engine_kind, pattern@, old(self).flags, old(self).engine.pcre2_10_45, env),
            old(self).engine_kind != EngineKind::Pcre2 ==> compile_phase_ok(
                *final(self),
                old(self).engine_kind,
                pattern@,
                old(self).flags, old(self).engine.pcre2_10_45,
                default_env(),
            ),
            final(self).error_offset == if old(self).error_offset is None {
                match spec_parse_error(pattern@) {
                    Some((_, off)) => Some(off),
                    None => None::<usize>,
                }
            } else {
                old(self).error_offset
            },
            final(self).compile_time is Some,
            explanation_shown(pattern@, final(self).explanation@),
            final(self).compiled is None ==> final(self).matches@.len() == 0,
            final(self).compiled is Some ==> final(self).matches == old(self).matches,
            *final(self) == (App {
                compiled: final(self).compiled,
                error: final(self).error,
                compile_time: final(self).compile_time,
                explanation: final(self).explanation,
                error_offset: final(self).error_offset,
                matches: final(self).matches,
                ..*old(self)
            }),
    {
        let (compiled, time, compile_err) = compile_timed(&self.engine, pattern, &self.flags);
        let ghost env = choose|b: Pcre2Env| #[trigger] compile_outcome_ok(compiled, compile_err, self.engine_kind, pattern@, self.flags, self.engine.pcre2_10_45, b);
        let (nodes, parse) = explain_or_error(pattern);
        let (error, error_offset) = merge_errors(compile_err, parse, self.error_offset);
        if compiled.is_none() {
            self.matches = Vec::new();
        }
        self.compile_time = Some(time);
        self.compiled = compiled;
        self.error = error;
        self.error_offset = error_offset;
        self.explanation = nodes;
        assert(compile_phase_ok(*self, self.engine_kind, pattern@, self.flags, self.engine.pcre2_10_45, env));
    }

    /// Replaces the pattern and recomputes.
    pub fn set_pattern(&mut self, pattern: &str)
        requires
            old(self).wf_base(),
            pattern@.len() < usize::MAX,
        ensures
            final(self).wf(),
            final(self).pattern_view() == pattern@,
            final(self).regex_editor@.cursor == pattern@.len(),
            final(self).test_editor == old(self).test_editor,
            recompute_post(App { regex_editor: final(self).regex_editor, ..*old(self) }, *final(self)),
    {
        self.regex_editor = Editor::with_content(owned(pattern));
        self.recompute();
    }

    /// Replaces the test text and searches it again.
    pub fn set_test_string(&mut self, text: &str)
        requires
            old(self).wf_base(),
            text@.len() < usize::MAX,
        ensures
            final(self).wf(),
            final(self).text_view() == text@,
            final(self).test_editor@.cursor == text@.len(),
            rematch_post(App { test_editor: final(self).test_editor, ..*old(self) }, *final(self)),
    {
        self.test_editor = Editor::with_content(owned(text));
        self.rematch();
    }

    /// Moves to the next engine in the cycle and recomputes.
    pub fn switch_engine(&mut self)
        requires
            old(self).wf_base(),
        ensures
            final(self).wf(),
            recompute_post(
                App {
                    engine_kind: old(self).engine_kind.spec_next(),
                    engine: RegexEngine { kind: old(self).engine_kind.spec_next(), pcre2_10_45: old(self).engine.pcre2_10_45 },
                    ..*old(self)
                },
                *final(self),
            ),
    {
        self.engine_kind = self.engine_kind.next();
        self.engine = create_engine_linked(self.engine_kind, self.engine.pcre2_10_45);
        self.recompute();
    }

    /// Saves the current pattern at the end of the history, unless it is
    /// empty or the same as the last entry; the oldest entry goes once there
    /// are more than 100. Stops any browsing.
    pub fn commit_pattern_to_history(&mut self)
        requires
            old(self).wf(),
        ensures
            final(self).wf(),
            history_committed(*old(self), *final(self)),
    {
        let pattern = self.regex_editor.content();
        if pattern.unicode_len() == 0 {
            return;
        }
        let n = self.pattern_history.len();
        if n > 0 {
            assert(self.history_view().last() == self.pattern_history@[n - 1]@);
            if crate::text::str_eq(self.pattern_history[n - 1].as_str(), pattern.as_str()) {
                return;
            }
        }
        push_history(&mut self.pattern_history, pattern);
        self.history_index = None;
        self.history_temp = None;
    }

    /// Shows the previous (older) history entry; on the first step, keeps
    /// the pattern being edited to come back to.
    pub fn history_prev(&mut self)
        requires
            old(self).wf(),
        ensures
            final(self).wf(),
            history_back(*old(self), *final(self)),
    {
        let n = self.pattern_history.len();
        if n == 0 {
            return;
        }
        let new_index = match self.history_index {
            Some(0) => {
                return;
            },
            Some(idx) => idx - 1,
            None => {
                self.history_temp = Some(self.regex_editor.content());
                n - 1
            },
        };
        self.show_history_entry(new_index);
    }

    /// Shows the next (newer) history entry; past the newest, restores the
    /// pattern that was being edited and stops browsing.
    pub fn history_next(&mut self)
        requires
            old(self).wf(),
        ensures
            final(self).wf(),
            history_forward(*old(self), *final(self)),
    {
        let idx = match self.history_index {
            Some(idx) => idx,
            None => {
                return;
            },
        };
        if idx + 1 < self.pattern_history.len() {
            self.show_history_entry(idx + 1);
        } else {
            self.restore_edited_pattern();
        }
    }

    /// Loads history entry `idx` into the pattern editor and recomputes.
    fn show_history_entry(&mut self, idx: usize)
        requires
            old(self).wf(),
            idx < old(self).history_view().len(),
        ensures
            final(self).wf(),
            final(self).history_index == Some(idx),
            final(self).pattern_view() == old(self).history_view()[idx as int],
            recompute_post(
                App { regex_editor: final(self).regex_editor, history_index: Some(idx), ..*old(self) },
                *final(self),
            ),
    {
        self.history_index = Some(idx);
        let pattern = self.pattern_history[idx].clone();
        self.regex_editor = Editor::with_content(pattern);
        self.recompute();
    }

    /// Stops browsing the history and puts back the pattern that was being
    /// edited.
    fn restore_edited_pattern(&mut self)
        requires
            old(self).wf(),
        ensures
            final(self).wf(),
            final(self).history_index is None,
            final(self).history_temp is None,
            final(self).pattern_view() == match old(self).history_temp {
                Some(t) => t@,
                None => Seq::<char>::empty(),
            },
            recompute_post(
                App {
                    regex_editor: final(self).regex_editor,
                    history_index: None,
                    history_temp: None,
                    ..*old(self)
                },
                *final(self),
            ),
    {
        self.history_index = None;
        let content = match self.history_temp.take() {
            Some(t) => t,
            None => String::new(),
        };
        self.regex_editor = Editor::with_content(content);
        self.recompute();
    }

    /// Moves the selection to the next capture or match and scrolls to it.
    pub fn select_match_next(&mut self)
        requires
            old(self).wf(),
        ensures
            final(self).wf(),
            old(self).matches@.len() == 0 ==> *final(self) == *old(self),
            old(self).matches@.len() > 0 ==> {
                let (sel, cap) = next_selection(old(self).matches_view(), old(self).selected_match, old(self).selected_capture);
                *final(self) == (App {
                    selected_match: sel,
                    selected_capture: cap,
                    match_scroll: selection_line(old(self).matches_view(), sel, cap),
                    ..*old(self)
                })
            },
    {
        if self.matches.len() == 0 {
            return;
        }
        let (sel, cap) = next_selection_of(&self.matches, self.selected_match, self.selected_capture);
        self.selected_match = sel;
        self.selected_capture = cap;
        self.scroll_to_selected();
    }

    /// Moves the selection to the previous capture or match and scrolls to
    /// it.
    pub fn select_match_prev(&mut self)
        requires
            old(self).wf(),
        ensures
            final(self).wf(),
            old(self).matches@.len() == 0 ==> *final(self) == *old(self),
            old(self).matches@.len() > 0 ==> {
                let (sel, cap) = prev_selection(old(self).matches_view(), old(self).selected_match, old(self).selected_capture);
                *final(self) == (App {
                    selected_match: sel,
                    selected_capture: cap,
                    match_scroll: selection_line(old(self).matches_view(), sel, cap),
                    ..*old(self)
                })
            },
    {
        if self.matches.len() == 0 {
            return;
        }
        let (sel, cap) = prev_selection_of(&self.matches, self.selected_match, self.selected_capture);
        self.selected_match = sel;
        self.selected_capture = cap;
        self.scroll_to_selected();
    }

    /// Scrolls the match list to the selected match or capture.
    fn scroll_to_selected(&mut self)
        requires
            old(self).matches@.len() > 0 ==> old(self).selected_match < old(self).matches@.len(),
        ensures
            old(self).matches@.len() == 0 ==> *final(self) == *old(self),
            old(self).matches@.len() > 0 ==> *final(self) == (App {
                match_scroll: selection_line(old(self).matches_view(), old(self).selected_match, old(self).selected_capture),
                ..*old(self)
            }),
    {
        if self.matches.len() == 0 || self.selected_match >= self.matches.len() {
            return;
        }
        let line = selection_line_of(&self.matches, self.selected_match, self.selected_capture);
        self.match_scroll = line;
    }

    /// The text of the selected match or capture.
    fn selected_text(&self) -> (r: Option<String>)
        ensures
            error_view(r) == spec_selected_text(self.matches_view(), self.selected_match, self.selected_capture),
    {
        if self.selected_match >= self.matches.len() {
            return None;
        }
        let m = &self.matches[self.selected_match];
        assert(m@ == self.matches_view()[self.selected_match as int]);
        match self.selected_capture {
            None => Some(m.text.clone()),
            Some(ci) => {
                if ci < m.captures.len() {
                    assert(m.captures@[ci as int]@ == m@.captures[ci as int]);
                    Some(m.captures[ci].text.clone())
                } else {
                    None
                }
            },
        }
    }

    /// Shows the clipboard outcome as the status message.
    fn report_copy(&mut self, outcome: Result<(), String>, success_msg: &str)
        ensures
            error_view(final(self).clipboard_status) == Some(
                match outcome {
                    Ok(()) => success_msg@,
                    Err(e) => "Clipboard error: "@ + e@,
                },
            ),
            *final(self) == (App {
                clipboard_status: final(self).clipboard_status,
                clipboard_status_ticks: STATUS_TICKS,
                ..*old(self)
            }),
    {
        match outcome {
            Ok(()) => self.set_status_message(owned(success_msg)),
            Err(e) => {
                let mut m = owned("Clipboard error: ");
                push_str(&mut m, e.as_str());
                self.set_status_message(m);
            },
        }
    }

    /// Puts `text` on the clipboard and reports how it went.
    fn copy_to_clipboard(&mut self, text: &str, success_msg: &str)
        ensures
            clipboard_report(final(self).clipboard_status, success_msg@),
            *final(self) == (App {
                clipboard_status: final(self).clipboard_status,
                clipboard_status_ticks: STATUS_TICKS,
                ..*old(self)
            }),
    {
        let outcome = match clipboard_open() {
            Ok(cb) => {
                let mut cb = cb;
                clipboard_set_text(&mut cb, text)
            },
            Err(e) => Err(e),
        };
        self.report_copy(outcome, success_msg);
    }

    /// Copies the selected match or capture to the clipboard.
    pub fn copy_selected_match(&mut self)
        ensures
            spec_selected_text(old(self).matches_view(), old(self).selected_match, old(self).selected_capture) is None
                ==> *final(self) == *old(self),
            spec_selected_text(old(self).matches_view(), old(self).selected_match, old(self).selected_capture) matches Some(
                t,
            ) ==> clipboard_report(final(self).clipboard_status, copied_message(t)) && *final(self) == (App {
                clipboard_status: final(self).clipboard_status,
                clipboard_status_ticks: STATUS_TICKS,
                ..*old(self)
            }),
    {
        let text = match self.selected_text() {
            Some(t) => t,
            None => {
                return;
            },
        };
        let mut msg = owned("Copied: \"");
        let short = truncate(text.as_str(), 40);
        push_str(&mut msg, short.as_str());
        push_str(&mut msg, "\"");
        self.copy_to_clipboard(text.as_str(), msg.as_str());
    }

    /// The regex101.com link for the current pattern, test text, flags and
    /// engine.
    pub fn regex101_url(&self) -> (r: String)
        ensures
            r@ == spec_regex101_url(self.pattern_view(), self.text_view(), self.flags, self.engine_kind),
    {
        let pattern = self.regex_editor.content();
        let test_string = self.test_editor.content();
        let mut flags = owned("g");
        if self.flags.case_insensitive {
            push_char(&mut flags, 'i');
        }
        if self.flags.multi_line {
            push_char(&mut flags, 'm');
        }
        if self.flags.dot_matches_newline {
            push_char(&mut flags, 's');
        }
        if self.flags.unicode {
            push_char(&mut flags, 'u');
        }
        if self.flags.extended {
            push_char(&mut flags, 'x');
        }
        assert(flags@ =~= "g"@ + self.flags.spec_letters());
        let flavor = match self.engine_kind {
            EngineKind::Pcre2 => "pcre2",
            _ => "ecmascript",
        };
        let mut url = owned("https://regex101.com/?regex=");
        push_str(&mut url, url_encode(pattern.as_str()).as_str());
        push_str(&mut url, "&testString=");
        push_str(&mut url, url_encode(test_string.as_str()).as_str());
        push_str(&mut url, "&flags=");
        push_str(&mut url, url_encode(flags.as_str()).as_str());
        push_str(&mut url, "&flavor=");
        push_str(&mut url, flavor);
        url
    }

    /// Copies the regex101.com link to the clipboard.
    pub fn copy_regex101_url(&mut self)
        ensures
            clipboard_report(final(self).clipboard_status, "regex101 URL copied to clipboard"@),
            *final(self) == (App {
                clipboard_status: final(self).clipboard_status,
                clipboard_status_ticks: STATUS_TICKS,
                ..*old(self)
            }),
    {
        let url = self.regex101_url();
        self.copy_to_clipboard(url.as_str(), "regex101 URL copied to clipboard");
    }

    /// Copies a snippet using the pattern in `lang` to the clipboard and
    /// closes the language menu; with no pattern, says so instead.
    pub fn generate_code(&mut self, lang: &Language)
        ensures
            old(self).pattern_view().len() == 0 ==> *final(self) == (App {
                clipboard_status: final(self).clipboard_status,
                clipboard_status_ticks: STATUS_TICKS,
                ..*old(self)
            }) && error_view(final(self).clipboard_status) == Some("No pattern to generate code for"@),
            old(self).pattern_view().len() > 0 ==> *final(self) == (App {
                clipboard_status: final(self).clipboard_status,
                clipboard_status_ticks: STATUS_TICKS,
                show_codegen: false,
                ..*old(self)
            }) && clipboard_report(final(self).clipboard_status, lang.spec_label() + " code copied to clipboard"@),
    {
        let pattern = self.regex_editor.content();
        if pattern.unicode_len() == 0 {
            self.set_status_message(owned("No pattern to generate code for"));
            return;
        }
        let code = generate_code(lang, pattern.as_str(), &self.flags);
        let mut msg = lang.label();
        push_str(&mut msg, " code copied to clipboard");
        self.copy_to_clipboard(code.as_str(), msg.as_str());
        self.show_codegen = false;
    }

    /// Moves the debugger to the first later step of a later match attempt.
    pub fn debug_next_match(&mut self)
        ensures
            (match old(self).debug_session {
                Some(s) => final(self).debug_session == Some(DebugSession {
                    step: match first_later_attempt(s.trace.steps@, s.step + 1, current_attempt(s)) {
                        Some(i) => i,
                        None => s.step,
                    },
                    ..s
                }),
                None => final(self).debug_session is None,
            }),
            *final(self) == (App { debug_session: final(self).debug_session, ..*old(self) }),
    {
        match &mut self.debug_session {
            Some(s) => {
                let step = next_attempt_step(s);
                s.step = step;
            },
            None => {},
        }
    }

    /// Moves the debugger to the first later step that backtracks.
    pub fn debug_next_backtrack(&mut self)
        ensures
            (match old(self).debug_session {
                Some(s) => final(self).debug_session == Some(DebugSession {
                    step: match first_backtrack(s.trace.steps@, s.step + 1) {
                        Some(i) => i,
                        None => s.step,
                    },
                    ..s
                }),
                None => final(self).debug_session is None,
            }),
            *final(self) == (App { debug_session: final(self).debug_session, ..*old(self) }),
    {
        match &mut self.debug_session {
            Some(s) => {
                let step = next_backtrack_step(s);
                s.step = step;
            },
            None => {},
        }
    }

    /// Applies an edit to the focused text field and brings what depends on
    /// it up to date: the pattern is recompiled, the text searched again, or
    /// the replacement preview redone. Other panels ignore edits.
    pub fn edit_focused(&mut self, op: EditOp)
        requires
            old(self).wf(),
            old(self).focused_panel == PANEL_REGEX ==> edit_fits(old(self).regex_editor@, op),
            old(self).focused_panel == PANEL_TEST ==> edit_fits(old(self).test_editor@, op),
            old(self).focused_panel == PANEL_REPLACE ==> edit_fits(old(self).replace_editor@, op),
        ensures
            final(self).wf(),
            old(self).focused_panel == PANEL_REGEX ==> final(self).regex_editor@ == spec_after_edit(
                old(self).regex_editor@,
                op,
            ) && recompute_post(App { regex_editor: final(self).regex_editor, ..*old(self) }, *final(self)),
            old(self).focused_panel == PANEL_TEST ==> final(self).test_editor@ == spec_after_edit(
                old(self).test_editor@,
                op,
            ) && rematch_post(App { test_editor: final(self).test_editor, ..*old(self) }, *final(self)),
            old(self).focused_panel == PANEL_REPLACE ==> final(self).replace_editor@ == spec_after_edit(
                old(self).replace_editor@,
                op,
            ) && replace_view(final(self).replace_result) == spec_replace_result(
                final(self).template_view(),
                old(self).text_view(),
                old(self).matches_view(),
            ) && *final(self) == (App {
                replace_editor: final(self).replace_editor,
                replace_result: final(self).replace_result,
                ..*old(self)
            }),
            old(self).focused_panel > PANEL_REPLACE ==> *final(self) == *old(self),
    {
        if self.focused_panel == PANEL_REGEX {
            self.regex_editor.apply_edit(op);
            self.recompute();
        } else if self.focused_panel == PANEL_TEST {
            self.test_editor.apply_edit(op);
            self.rematch();
        } else if self.focused_panel == PANEL_REPLACE {
            self.replace_editor.apply_edit(op);
            self.rereplace();
        }
    }

    /// Moves the cursor of the focused text field; other panels ignore it.
    pub fn move_focused(&mut self, m: Motion)
        requires
            old(self).wf(),
        ensures
            final(self).wf(),
            old(self).focused_panel == PANEL_REGEX ==> *final(self) == (App {
                regex_editor: final(self).regex_editor,
                ..*old(self)
            }) && final(self).regex_editor@ == spec_after_motion(old(self).regex_editor@, m),
            old(self).focused_panel == PANEL_TEST ==> *final(self) == (App {
                test_editor: final(self).test_editor,
                ..*old(self)
            }) && final(self).test_editor@ == spec_after_motion(old(self).test_editor@, m),
            old(self).focused_panel == PANEL_REPLACE ==> *final(self) == (App {
                replace_editor: final(self).replace_editor,
                ..*old(self)
            }) && final(self).replace_editor@ == spec_after_motion(old(self).replace_editor@, m),
            old(self).focused_panel > PANEL_REPLACE ==> *final(self) == *old(self),
    {
        if self.focused_panel == PANEL_REGEX {
            self.regex_editor.apply_motion(m);
        } else if self.focused_panel == PANEL_TEST {
            self.test_editor.apply_motion(m);
        } else if self.focused_panel == PANEL_REPLACE {
            self.replace_editor.apply_motion(m);
        }
    }

    /// Runs the pattern on the test text with every engine, in cycling
    /// order, and opens the results; does nothing without both a pattern and
    /// a text.
    pub fn run_benchmark(&mut self)
        ensures
            old(self).pattern_view().len() == 0 || old(self).text_view().len() == 0 ==> *final(self) == *old(self),
            old(self).pattern_view().len() > 0 && old(self).text_view().len() > 0 ==> {
                &&& final(self).benchmark_results@.len() == 3
                &&& final(self).benchmark_results@[0].engine == EngineKind::RustRegex
                &&& final(self).benchmark_results@[1].engine == EngineKind::FancyRegex
                &&& final(self).benchmark_results@[2].engine == EngineKind::Pcre2
                &&& forall|k: int| #![trigger final(self).benchmark_results@[k]] 0 <= k < 3 ==> exists|env: Pcre2Env| #[trigger] bench_outcome_ok(
                    final(self).benchmark_results@[k],
                    final(self).benchmark_results@[k].engine,
                    old(self).pattern_view(),
                    old(self).flags,
                    old(self).text_view(), old(self).engine.pcre2_10_45,
                    env,
                )
                &&& forall|k: int| 0 <= k < 2 ==> bench_outcome_ok(
                    #[trigger] final(self).benchmark_results@[k],
                    final(self).benchmark_results@[k].engine,
                    old(self).pattern_view(),
                    old(self).flags,
                    old(self).text_view(), old(self).engine.pcre2_10_45,
                    default_env(),
                )
                &&& *final(self) == (App {
                    benchmark_results: final(self).benchmark_results,
                    show_benchmark: true,
                    ..*old(self)
                })
            },
    {
        let pattern = self.regex_editor.content();
        let text = self.test_editor.content();
        if pattern.unicode_len() == 0 || text.unicode_len() == 0 {
            return;
        }
        let kinds = EngineKind::all();
        let mut results: Vec<BenchmarkResult> = Vec::new();
        let ghost mut witnesses: Seq<Pcre2Env> = Seq::empty();
        let mut k: usize = 0;
        while k < 3
            invariant
                kinds@ == seq![EngineKind::RustRegex, EngineKind::FancyRegex, EngineKind::Pcre2],
                k <= 3,
                results@.len() == k,
                witnesses.len() == k,
                forall|j: int| 0 <= j < k ==> (#[trigger] results@[j]).engine == kinds@[j],
                forall|j: int| 0 <= j < k ==> bench_outcome_ok(
                    #[trigger] results@[j],
                    kinds@[j],
                    pattern@,
                    self.flags,
                    text@, self.engine.pcre2_10_45,
                    witnesses[j],
                ),
                forall|j: int| 0 <= j < k && j < 2 ==> bench_outcome_ok(
                    #[trigger] results@[j],
                    kinds@[j],
                    pattern@,
                    self.flags,
                    text@, self.engine.pcre2_10_45,
                    default_env(),
                ),
            decreases 3 - k,
        {
            let r = bench_engine(kinds[k], self.engine.pcre2_10_45, pattern.as_str(), &self.flags, text.as_str());
            let ghost b = choose|b: Pcre2Env| #[trigger] bench_outcome_ok(r, kinds@[k as int], pattern@, self.flags, text@, self.engine.pcre2_10_45, b);
            results.push(r);
            proof {
                witnesses = witnesses.push(b);
            }
            k = k + 1;
        }
        proof {
            assert forall|j: int| #![trigger results@[j]] 0 <= j < 3 implies exists|env: Pcre2Env| #[trigger] bench_outcome_ok(
                results@[j],
                results@[j].engine,
                pattern@,
                self.flags,
                text@, self.engine.pcre2_10_45,
                env,
            ) by {
                assert(bench_outcome_ok(results@[j], results@[j].engine, pattern@, self.flags, text@, self.engine.pcre2_10_45, witnesses[j]));
            }
        }
        self.benchmark_results = results;
        self.show_benchmark = true;
    }
}

/// What committing the pattern to the history does: a non-empty pattern
/// that is not already the newest entry is appended (the oldest entry goes
/// when there would be more than 100) and browsing stops; otherwise nothing.
pub open spec fn history_committed(pre: App, post: App) -> bool {
    let skip = pre.pattern_view().len() == 0 || (pre.history_view().len() > 0 && pre.history_view().last()
        == pre.pattern_view());
    &&& skip ==> post == pre
    &&& !skip ==> {
        &&& post.history_view() == if pre.history_view().len() + 1 > 100 {
            pre.history_view().push(pre.pattern_view()).drop_first()
        } else {
            pre.history_view().push(pre.pattern_view())
        }
        &&& post == (App { pattern_history: post.pattern_history, history_index: None, history_temp: None, ..pre })
    }
}

/// What showing the previous (older) history entry does: from the newest
/// when not browsing (keeping the pattern being edited), one older while
/// browsing; nothing at the oldest or with no history.
pub open spec fn history_back(pre: App, post: App) -> bool {
    &&& pre.history_view().len() == 0 || pre.history_index == Some(0usize) ==> post == pre
    &&& pre.history_view().len() > 0 && pre.history_index != Some(0usize) ==> {
        let new_index: usize = match pre.history_index {
            Some(i) => (i - 1) as usize,
            None => (pre.history_view().len() - 1) as usize,
        };
        let temp = match pre.history_index {
            Some(_) => pre.history_temp,
            None => post.history_temp,
        };
        &&& post.history_index == Some(new_index)
        &&& pre.history_index is None ==> error_view(post.history_temp) == Some(pre.pattern_view())
        &&& post.pattern_view() == pre.history_view()[new_index as int]
        &&& recompute_post(
            App { regex_editor: post.regex_editor, history_index: Some(new_index), history_temp: temp, ..pre },
            post,
        )
    }
}

/// What showing the next (newer) history entry does: past the newest, the
/// pattern that was being edited comes back and browsing stops.
pub open spec fn history_forward(pre: App, post: App) -> bool {
    &&& pre.history_index is None ==> post == pre
    &&& pre.history_index matches Some(i) ==> {
        let n = pre.history_view().len();
        if i + 1 < n {
            &&& post.history_index == Some((i + 1) as usize)
            &&& post.pattern_view() == pre.history_view()[i + 1]
            &&& recompute_post(
                App { regex_editor: post.regex_editor, history_index: Some((i + 1) as usize), ..pre },
                post,
            )
        } else {
            &&& post.history_index is None
            &&& post.history_temp is None
            &&& post.pattern_view() == match pre.history_temp {
                Some(t) => t@,
                None => Seq::<char>::empty(),
            }
            &&& recompute_post(
                App { regex_editor: post.regex_editor, history_index: None, history_temp: None, ..pre },
                post,
            )
        }
    }
}

/// Going back one history entry and forward again brings back the pattern
/// that was being edited, and browsing stops.
pub proof fn lemma_history_back_forth_restores(a: App, b: App, c: App)
    requires
        a.wf(),
        a.history_index is None,
        a.history_view().len() > 0,
        history_back(a, b),
        history_forward(b, c),
    ensures
        c.pattern_view() == a.pattern_view(),
        c.history_index is None,
        c.history_temp is None,
{
    assert(b.history_view() == a.history_view());
}

/// In a tester with matches, replacing every match by `$0` or `$&` (the
/// whole match) previews the test text itself.
pub proof fn lemma_whole_match_preview_is_text(app: App)
    requires
        app.wf(),
        app.matches@.len() > 0,
    ensures
        spec_replace_result("$0"@, app.text_view(), app.matches_view()) matches Some(st) && st.output
            == app.text_view(),
        spec_replace_result("$&"@, app.text_view(), app.matches_view()) matches Some(st) && st.output
            == app.text_view(),
{
    reveal_strlit("$0");
    reveal_strlit("$&");
    crate::engine::replace::lemma_replace_whole_match_identity(app.text_view(), app.matches_view());
}

/// Auto-selection never moves to a less capable engine, and the engine it
/// settles on runs the pattern's syntax.
pub proof fn lemma_auto_switch_never_downgrades(current: EngineKind, pattern: Seq<char>)
    ensures
        engine_rank(upgraded_engine(current, pattern)) >= engine_rank(current),
        engine_rank(upgraded_engine(current, pattern)) >= engine_rank(spec_minimum_engine(pattern)),
{
}

/// No two neighbouring history entries are equal.
pub open spec fn no_adjacent_repeats(h: Seq<Seq<char>>) -> bool {
    forall|i: int| 0 <= i < h.len() - 1 ==> #[trigger] h[i] != h[i + 1]
}

/// Committing a pattern keeps the history free of neighbouring repeats and
/// at most 100 long: the history `commit_pattern_to_history` leaves behind
/// (see its contract) has both properties when the one before had them.
pub proof fn lemma_history_commit_keeps_shape(h: Seq<Seq<char>>, p: Seq<char>)
    requires
        no_adjacent_repeats(h),
        h.len() <= 100,
        !(p.len() == 0 || (h.len() > 0 && h.last() == p)),
    ensures
        no_adjacent_repeats(
            if h.len() + 1 > 100 {
                h.push(p).drop_first()
            } else {
                h.push(p)
            },
        ),
        (if h.len() + 1 > 100 {
            h.push(p).drop_first()
        } else {
            h.push(p)
        }).len() <= 100,
        (if h.len() + 1 > 100 {
            h.push(p).drop_first()
        } else {
            h.push(p)
        }).last() == p,
{
    let g = h.push(p);
    assert forall|i: int| 0 <= i < g.len() - 1 implies #[trigger] g[i] != g[i + 1] by {
        if i + 1 < h.len() {
            assert(h[i] != h[i + 1]);
        } else {
            assert(g[i] == h.last());
        }
    }
    if h.len() + 1 > 100 {
        let d = g.drop_first();
        assert forall|i: int| 0 <= i < d.len() - 1 implies #[trigger] d[i] != d[i + 1] by {
            assert(d[i] == g[i + 1]);
            assert(d[i + 1] == g[i + 2]);
        }
    }
}

/// One tick of the status timer: the app after `tick_clipboard_status`,
/// and whether the message was cleared.
pub open spec fn status_tick(a: App) -> (App, bool) {
    if a.clipboard_status is None {
        (a, false)
    } else if a.clipboard_status_ticks > 0 {
        (App { clipboard_status_ticks: (a.clipboard_status_ticks - 1) as u32, ..a }, false)
    } else {
        (App { clipboard_status: None, ..a }, true)
    }
}

/// The app after `n` ticks of the status timer.
pub open spec fn status_after_ticks(a: App, n: nat) -> App
    decreases n,
{
    if n == 0 {
        a
    } else {
        status_tick(status_after_ticks(a, (n - 1) as nat)).0
    }
}

/// A status message shown with `set_status_message` (on any app `b`) stays
/// for 40 ticks: each of the first 40 ticks keeps it and answers `false`,
/// counting its ticks down from 40; the 41st tick answers `true` and clears
/// it, leaving the rest of the app as it was.
pub proof fn lemma_status_message_lasts_forty_ticks(b: App, m: String, n: nat)
    ensures
        ({
            let a = App { clipboard_status: Some(m), clipboard_status_ticks: STATUS_TICKS, ..b };
            &&& n <= STATUS_TICKS ==> status_after_ticks(a, n) == (App {
                clipboard_status_ticks: (STATUS_TICKS - n) as u32,
                ..a
            })
            &&& n < STATUS_TICKS ==> !status_tick(status_after_ticks(a, n)).1
            &&& status_tick(status_after_ticks(a, STATUS_TICKS as nat)).1
            &&& status_after_ticks(a, (STATUS_TICKS + 1) as nat) == (App {
                clipboard_status: None,
                clipboard_status_ticks: 0,
                ..b
            })
        }),
{
    let a = App { clipboard_status: Some(m), clipboard_status_ticks: STATUS_TICKS, ..b };
    if n <= STATUS_TICKS {
        lemma_status_countdown(a, n);
    }
    lemma_status_countdown(a, STATUS_TICKS as nat);
}

proof fn lemma_status_countdown(a: App, n: nat)
    requires
        a.clipboard_status is Some,
        a.clipboard_status_ticks == STATUS_TICKS,
        n <= STATUS_TICKS,
    ensures
        status_after_ticks(a, n) == (App { clipboard_status_ticks: (STATUS_TICKS - n) as u32, ..a }),
    decreases n,
{
    if n > 0 {
        lemma_status_countdown(a, (n - 1) as nat);
    }
}

/// While no status message is shown, ticking answers `false` and changes
/// nothing, however many ticks pass.
pub proof fn lemma_idle_ticks_change_nothing(a: App, n: nat)
    requires
        a.clipboard_status is None,
    ensures
        status_tick(a) == (a, false),
        status_after_ticks(a, n) == a,
    decreases n,
{
    if n > 0 {
        lemma_idle_ticks_change_nothing(a, (n - 1) as nat);
    }
}

} // verus!
