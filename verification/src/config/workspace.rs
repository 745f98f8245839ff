//! A saved session (pattern, text, replacement, engine and flags) and the
//! match tests it may carry.

use vstd::prelude::*;

use crate::app::{recompute_post, upgraded_engine, App};
use crate::config::settings::{engine_by_name, engine_name, spec_engine_by_name, spec_engine_name};
use crate::text::{decimal, push_decimal, push_str, str_debug, str_debug_text};
use crate::engine::pcre2::{default_env, is_blocked_version, is_pcre2_10_45, Pcre2Env};
use crate::engine::{compile_explained, create_engine_linked, env_fits, spec_compile, spec_find, CompiledRegex, EngineFlags, EngineKind, RegexEngine};

verus! {

/// One expectation: whether the pattern should match an input.
#[derive(Debug, Clone)]
pub struct TestCase {
    pub input: String,
    pub should_match: bool,
}

/// The outcome of one expectation.
#[derive(Debug)]
pub struct TestResult {
    pub input: String,
    pub should_match: bool,
    pub did_match: bool,
    pub passed: bool,
}

/// A saved session.
pub struct Workspace {
    pub pattern: String,
    pub test_string: String,
    pub replacement: String,
    pub engine: String,
    pub case_insensitive: bool,
    pub multiline: bool,
    pub dotall: bool,
    pub unicode: bool,
    pub extended: bool,
    pub show_whitespace: bool,
    pub tests: Vec<TestCase>,
}

/// `ws` holds the tester's session: its pattern, text, replacement, engine
/// (by name), flags and whitespace display, and no tests.
pub open spec fn saved_from(app: App, ws: Workspace) -> bool {
    &&& ws.pattern@ == app.pattern_view()
    &&& ws.test_string@ == app.text_view()
    &&& ws.replacement@ == app.template_view()
    &&& ws.engine@ == spec_engine_name(app.engine_kind)
    &&& ws.spec_flags() == app.flags
    &&& ws.show_whitespace == app.show_whitespace
    &&& ws.tests@.len() == 0
}

/// `post` is the tester `pre` with the workspace applied: its pattern, text,
/// flags and whitespace display; its replacement when it has one; its engine,
/// from which the pattern is recompiled (possibly moving to a more capable
/// engine) and the text searched.
pub open spec fn applied(ws: Workspace, pre: App, post: App) -> bool {
    &&& post.pattern_view() == ws.pattern@
    &&& post.text_view() == ws.test_string@
    &&& post.template_view() == if ws.replacement@.len() > 0 {
        ws.replacement@
    } else {
        pre.template_view()
    }
    &&& post.flags == ws.spec_flags()
    &&& post.show_whitespace == ws.show_whitespace
    &&& exists|mid: App| {
        &&& mid.engine_kind == ws.spec_kind()
        &&& mid.flags == ws.spec_flags()
        &&& mid.text_view() == ws.test_string@
        &&& mid.template_view() == post.template_view()
        &&& #[trigger] recompute_post(App { regex_editor: post.regex_editor, ..mid }, post)
    }
}

/// Saving the tester into a workspace and applying that workspace to a
/// tester restores the pattern, the text, the flags and the whitespace
/// display, the replacement when there was one, and the engine, moved up to
/// a more capable one only when the pattern needs it.
pub proof fn lemma_workspace_round_trip(a: App, ws: Workspace, pre: App, post: App)
    requires
        saved_from(a, ws),
        applied(ws, pre, post),
    ensures
        post.pattern_view() == a.pattern_view(),
        post.text_view() == a.text_view(),
        post.flags == a.flags,
        post.show_whitespace == a.show_whitespace,
        a.template_view().len() > 0 ==> post.template_view() == a.template_view(),
        post.engine_kind == if a.pattern_view().len() > 0 {
            upgraded_engine(a.engine_kind, a.pattern_view())
        } else {
            a.engine_kind
        },
{
    crate::config::settings::lemma_engine_name_round_trip(a.engine_kind);
    let mid = choose|mid: App| {
        &&& mid.engine_kind == ws.spec_kind()
        &&& mid.flags == ws.spec_flags()
        &&& mid.text_view() == ws.test_string@
        &&& mid.template_view() == post.template_view()
        &&& #[trigger] recompute_post(App { regex_editor: post.regex_editor, ..mid }, post)
    };
    assert(mid.engine_kind == a.engine_kind);
}

/// Saving a tester whose engine already runs its pattern, applying that
/// workspace to a tester with no replacement (as `App::new` makes one), and
/// saving again gives back the same workspace: pattern, text, replacement,
/// engine name, flags and whitespace display agree, and neither carries
/// tests.
pub proof fn lemma_workspace_save_apply_save(a: App, ws: Workspace, pre: App, post: App, again: Workspace)
    requires
        saved_from(a, ws),
        applied(ws, pre, post),
        saved_from(post, again),
        pre.template_view().len() == 0,
        a.pattern_view().len() > 0 ==> upgraded_engine(a.engine_kind, a.pattern_view()) == a.engine_kind,
    ensures
        again.pattern@ == ws.pattern@,
        again.test_string@ == ws.test_string@,
        again.replacement@ == ws.replacement@,
        again.engine@ == ws.engine@,
        again.spec_flags() == ws.spec_flags(),
        again.show_whitespace == ws.show_whitespace,
        again.tests@.len() == 0 && ws.tests@.len() == 0,
{
    lemma_workspace_round_trip(a, ws, pre, post);
}

/// Whether a search outcome counts as a match: at least one match found.
pub open spec fn found_match(r: Result<Seq<crate::engine::MatchView>, Seq<char>>) -> bool {
    match r {
        Ok(ms) => ms.len() > 0,
        Err(_) => false,
    }
}

impl Workspace {
    /// The flags the workspace selects.
    pub open spec fn spec_flags(&self) -> EngineFlags {
        EngineFlags {
            case_insensitive: self.case_insensitive,
            multi_line: self.multiline,
            dot_matches_newline: self.dotall,
            unicode: self.unicode,
            extended: self.extended,
        }
    }

    pub open spec fn spec_kind(&self) -> EngineKind {
        spec_engine_by_name(self.engine@)
    }

    /// The current session of the tester, with no tests.
    pub fn from_app(app: &App) -> (r: Workspace)
        ensures
            saved_from(*app, r),
    {
        Workspace {
            pattern: app.regex_editor.content(),
            test_string: app.test_editor.content(),
            replacement: app.replace_editor.content(),
            engine: engine_name(app.engine_kind),
            case_insensitive: app.flags.case_insensitive,
            multiline: app.flags.multi_line,
            dotall: app.flags.dot_matches_newline,
            unicode: app.flags.unicode,
            extended: app.flags.extended,
            show_whitespace: app.show_whitespace,
            tests: Vec::new(),
        }
    }

    /// Restores the session into the tester: engine, flags, whitespace
    /// display, test text, replacement (when there is one) and pattern; the
    /// pattern is then recompiled and the text searched.
    pub fn apply(&self, app: &mut App)
        requires
            old(app).wf_base(),
            self.pattern@.len() < usize::MAX,
            self.test_string@.len() < usize::MAX,
            self.replacement@.len() < usize::MAX,
        ensures
            final(app).wf(),
            applied(*self, *old(app), *final(app)),
    {
        self.restore_setup(app);
        let ghost mid = *app;
        app.set_pattern(self.pattern.as_str());
        assert(recompute_post(App { regex_editor: app.regex_editor, ..mid }, *app));
    }

    /// Everything `apply` restores before the pattern.
    fn restore_setup(&self, app: &mut App)
        requires
            old(app).wf_base(),
            self.test_string@.len() < usize::MAX,
            self.replacement@.len() < usize::MAX,
        ensures
            final(app).wf(),
            final(app).engine_kind == self.spec_kind(),
            final(app).flags == self.spec_flags(),
            final(app).show_whitespace == self.show_whitespace,
            final(app).text_view() == self.test_string@,
            final(app).template_view() == if self.replacement@.len() > 0 {
                self.replacement@
            } else {
                old(app).template_view()
            },
            final(app).regex_editor == old(app).regex_editor,
    {
        let kind = engine_by_name(self.engine.as_str());
        if app.engine_kind != kind {
            app.engine_kind = kind;
            app.switch_engine_to(kind);
        }
        app.flags.case_insensitive = self.case_insensitive;
        app.flags.multi_line = self.multiline;
        app.flags.dot_matches_newline = self.dotall;
        app.flags.unicode = self.unicode;
        app.flags.extended = self.extended;
        app.show_whitespace = self.show_whitespace;
        app.set_test_string(self.test_string.as_str());
        if self.replacement.unicode_len() > 0 {
            app.set_replacement(self.replacement.as_str());
        }
    }

    /// Runs the workspace's tests: compiles the pattern on its engine with
    /// its flags, then checks each input. A pattern that does not compile
    /// gives the compile error's message. The linked PCRE2 is taken to be
    /// the release the `pcre2` crate reports; `run_tests_linked` is told it.
    pub fn run_tests(&self) -> (r: Result<Vec<TestResult>, String>)
        ensures
            exists|env: Pcre2Env| #[trigger] tests_outcome_ok(*self, r, env) && env_fits(
                self.spec_kind(),
                env,
                is_blocked_version(),
            ),
            self.spec_kind() != EngineKind::Pcre2 ==> tests_outcome_ok(*self, r, default_env()),
    {
        self.run_tests_linked(is_pcre2_10_45())
    }

    /// Runs the workspace's tests as `run_tests` does, on a linked PCRE2 that
    /// is release 10.45 (`linked_10_45`) or not.
    pub fn run_tests_linked(&self, linked_10_45: bool) -> (r: Result<Vec<TestResult>, String>)
        ensures
            exists|env: Pcre2Env| #[trigger] tests_outcome_ok(*self, r, env) && env_fits(self.spec_kind(), env, linked_10_45),
            self.spec_kind() != EngineKind::Pcre2 ==> tests_outcome_ok(*self, r, default_env()),
    {
        let kind = engine_by_name(self.engine.as_str());
        let flags = EngineFlags {
            case_insensitive: self.case_insensitive,
            multi_line: self.multiline,
            dot_matches_newline: self.dotall,
            unicode: self.unicode,
            extended: self.extended,
        };
        let eng = create_engine_linked(kind, linked_10_45);
        let res = eng.compile(self.pattern.as_str(), &flags);
        let ghost env = if kind == EngineKind::Pcre2 {
            choose|env: Pcre2Env| #[trigger] compile_explained(res, kind, self.pattern@, flags, linked_10_45, env)
        } else {
            default_env()
        };
        let compiled = match res {
            Ok(c) => c,
            Err(e) => {
                let r = Err(e.message());
                assert(tests_outcome_ok(*self, r, env));
                return r;
            },
        };
        let mut results: Vec<TestResult> = Vec::new();
        let mut i: usize = 0;
        while i < self.tests.len()
            invariant
                i <= self.tests@.len(),
                results@.len() == i,
                compiled.searches_as(kind, self.pattern@, flags, env),
                kind == self.spec_kind(),
                flags == self.spec_flags(),
                forall|j: int| 0 <= j < i ==> test_result_ok(#[trigger] results@[j], self.tests@[j], kind, self.pattern@, flags, env),
            decreases self.tests.len() - i,
        {
            let tc = &self.tests[i];
            let did_match = match compiled.find_matches(tc.input.as_str()) {
                Ok(m) => m.len() > 0,
                Err(_) => false,
            };
            assert(compiled.spec_find(tc.input@) == spec_find(kind, self.pattern@, flags, tc.input@, env));
            results.push(
                TestResult {
                    input: tc.input.clone(),
                    should_match: tc.should_match,
                    did_match,
                    passed: did_match == tc.should_match,
                },
            );
            i = i + 1;
        }
        let r = Ok(results);
        assert(tests_outcome_ok(*self, r, env));
        r
    }
}

/// One test result reports its input, its expectation, whether the pattern
/// matched, and whether that is what was expected.
pub open spec fn test_result_ok(r: TestResult, tc: TestCase, kind: EngineKind, pattern: Seq<char>, flags: EngineFlags, env: Pcre2Env) -> bool {
    &&& r.input@ == tc.input@
    &&& r.should_match == tc.should_match
    &&& r.did_match == found_match(spec_find(kind, pattern, flags, tc.input@, env))
    &&& r.passed == (r.did_match == r.should_match)
}

/// The outcome of running a workspace's tests: the compile error's message
/// when the pattern does not compile, one result per test otherwise.
pub open spec fn tests_outcome_ok(ws: Workspace, r: Result<Vec<TestResult>, String>, env: Pcre2Env) -> bool {
    match spec_compile(ws.spec_kind(), ws.pattern@, ws.spec_flags(), env) {
        Err(m) => r matches Err(e) && e@ == "Compile error: "@ + m,
        Ok(()) => r matches Ok(rs) && rs@.len() == ws.tests@.len() && forall|j: int| 0 <= j < rs@.len() ==> test_result_ok(
            #[trigger] rs@[j],
            ws.tests@[j],
            ws.spec_kind(),
            ws.pattern@,
            ws.spec_flags(),
            env,
        ),
    }
}

pub const ANSI_GREEN: &'static str = "\x1b[32m";

pub const ANSI_RED: &'static str = "\x1b[31m";

pub const ANSI_BOLD: &'static str = "\x1b[1m";

pub const ANSI_RESET: &'static str = "\x1b[0m";

/// A label, bold when colored.
pub open spec fn bold_label(label: Seq<char>, color: bool) -> Seq<char> {
    if color {
        ANSI_BOLD@ + label + ANSI_RESET@
    } else {
        label
    }
}

/// A number right-aligned in two columns.
pub open spec fn pad2(d: Seq<char>) -> Seq<char> {
    if d.len() < 2 {
        " "@ + d
    } else {
        d
    }
}

/// `PASS` in green or `FAIL` in red, when colored.
pub open spec fn status_text(passed: bool, color: bool) -> Seq<char> {
    if passed {
        if color {
            ANSI_GREEN@ + "PASS"@ + ANSI_RESET@
        } else {
            "PASS"@
        }
    } else if color {
        ANSI_RED@ + "FAIL"@ + ANSI_RESET@
    } else {
        "FAIL"@
    }
}

/// The report line of the result numbered `n` (from 1).
pub open spec fn result_line(n: nat, r: TestResult, color: bool) -> Seq<char> {
    "  "@ + status_text(r.passed, color) + " ["@ + pad2(decimal(n)) + "] "@ + str_debug_text(r.input@)
        + " (expect "@ + (if r.should_match {
        "match"@
    } else {
        "no match"@
    }) + ", got "@ + (if r.did_match {
        "matched"@
    } else {
        "no match"@
    }) + ")\n"@
}

/// The report lines of the first `k` results.
pub open spec fn result_lines(rs: Seq<TestResult>, color: bool, k: int) -> Seq<char>
    decreases k,
{
    if k <= 0 {
        Seq::empty()
    } else {
        result_lines(rs, color, k - 1) + result_line(k as nat, rs[k - 1], color)
    }
}

/// How many of the first `k` results passed.
pub open spec fn passed_count(rs: Seq<TestResult>, k: int) -> nat
    decreases k,
{
    if k <= 0 {
        0
    } else {
        passed_count(rs, k - 1) + if rs[k - 1].passed {
            1nat
        } else {
            0nat
        }
    }
}

/// The closing line: how many passed, or how many failed.
pub open spec fn summary_line(passed: nat, total: nat, color: bool) -> Seq<char> {
    if passed == total {
        if color {
            ANSI_GREEN@ + ANSI_BOLD@ + decimal(passed) + "/"@ + decimal(total) + " passed"@ + ANSI_RESET@
        } else {
            decimal(passed) + "/"@ + decimal(total) + " passed"@
        }
    } else if color {
        ANSI_RED@ + ANSI_BOLD@ + decimal((total - passed) as nat) + "/"@ + decimal(total) + " failed"@ + ANSI_RESET@
    } else {
        decimal((total - passed) as nat) + "/"@ + decimal(total) + " failed"@
    }
}

/// The whole report of a test file.
pub open spec fn spec_test_report(path: Seq<char>, pattern: Seq<char>, rs: Seq<TestResult>, color: bool) -> Seq<char> {
    bold_label("Testing:"@, color) + " "@ + path + "\n"@ + bold_label("Pattern:"@, color) + " "@ + pattern + "\n\n"@
        + result_lines(rs, color, rs.len() as int) + "\n"@ + summary_line(passed_count(rs, rs.len() as int), rs.len(), color)
        + "\n"@
}

proof fn lemma_decimal_short(n: nat)
    ensures
        (decimal(n).len() < 2) == (n < 10),
{
    if n >= 10 {
        assert(decimal(n / 10).len() >= 1);
    }
}

fn push_bold_label(out: &mut String, label: &str, color: bool)
    ensures
        final(out)@ == old(out)@ + bold_label(label@, color),
{
    if color {
        push_str(out, ANSI_BOLD);
        push_str(out, label);
        push_str(out, ANSI_RESET);
    } else {
        push_str(out, label);
    }
}

fn push_status(out: &mut String, passed: bool, color: bool)
    ensures
        final(out)@ == old(out)@ + status_text(passed, color),
{
    if passed {
        if color {
            push_str(out, ANSI_GREEN);
            push_str(out, "PASS");
            push_str(out, ANSI_RESET);
        } else {
            push_str(out, "PASS");
        }
    } else if color {
        push_str(out, ANSI_RED);
        push_str(out, "FAIL");
        push_str(out, ANSI_RESET);
    } else {
        push_str(out, "FAIL");
    }
}

fn push_padded(out: &mut String, n: usize)
    ensures
        final(out)@ == old(out)@ + pad2(decimal(n as nat)),
{
    if n < 10 {
        push_str(out, " ");
    }
    push_decimal(out, n);
    proof {
        lemma_decimal_short(n as nat);
    }
}

fn push_choice(out: &mut String, which: bool, yes: &str, no: &str)
    ensures
        final(out)@ == old(out)@ + (if which {
            yes@
        } else {
            no@
        }),
{
    if which {
        push_str(out, yes);
    } else {
        push_str(out, no);
    }
}

fn push_result_line(out: &mut String, n: usize, r: &TestResult, color: bool)
    ensures
        final(out)@ == old(out)@ + result_line(n as nat, *r, color),
{
    push_str(out, "  ");
    push_status(out, r.passed, color);
    push_str(out, " [");
    push_padded(out, n);
    push_str(out, "] ");
    let d = str_debug(r.input.as_str());
    push_str(out, d.as_str());
    push_str(out, " (expect ");
    push_choice(out, r.should_match, "match", "no match");
    push_str(out, ", got ");
    push_choice(out, r.did_match, "matched", "no match");
    push_str(out, ")\n");
    assert(out@ =~= old(out)@ + result_line(n as nat, *r, color));
}

fn push_summary(out: &mut String, passed: usize, total: usize, color: bool)
    requires
        passed <= total,
    ensures
        final(out)@ == old(out)@ + summary_line(passed as nat, total as nat, color),
{
    if passed == total {
        if color {
            push_str(out, ANSI_GREEN);
            push_str(out, ANSI_BOLD);
        }
        push_decimal(out, passed);
        push_str(out, "/");
        push_decimal(out, total);
        push_str(out, " passed");
    } else {
        if color {
            push_str(out, ANSI_RED);
            push_str(out, ANSI_BOLD);
        }
        push_decimal(out, total - passed);
        push_str(out, "/");
        push_decimal(out, total);
        push_str(out, " failed");
    }
    if color {
        push_str(out, ANSI_RESET);
    }
    assert(out@ =~= old(out)@ + summary_line(passed as nat, total as nat, color));
}

/// The report of a test file's results, and whether every test passed.
pub fn test_report(path: &str, pattern: &str, results: &[TestResult], color: bool) -> (r: (String, bool))
    ensures
        r.0@ == spec_test_report(path@, pattern@, results@, color),
        r.1 == (passed_count(results@, results@.len() as int) == results@.len()),
{
    let mut out = String::new();
    push_bold_label(&mut out, "Testing:", color);
    push_str(&mut out, " ");
    push_str(&mut out, path);
    push_str(&mut out, "\n");
    push_bold_label(&mut out, "Pattern:", color);
    push_str(&mut out, " ");
    push_str(&mut out, pattern);
    push_str(&mut out, "\n\n");
    let ghost header = out@;
    let mut passed: usize = 0;
    let mut i: usize = 0;
    while i < results.len()
        invariant
            i <= results@.len(),
            passed == passed_count(results@, i as int),
            passed <= i,
            out@ == header + result_lines(results@, color, i as int),
        decreases results.len() - i,
    {
        push_result_line(&mut out, i + 1, &results[i], color);
        if results[i].passed {
            passed = passed + 1;
        }
        i = i + 1;
        assert(out@ =~= header + result_lines(results@, color, i as int));
    }
    let total = results.len();
    push_str(&mut out, "\n");
    push_summary(&mut out, passed, total, color);
    push_str(&mut out, "\n");
    assert(out@ =~= spec_test_report(path@, pattern@, results@, color));
    (out, passed == results.len())
}

} // verus!
