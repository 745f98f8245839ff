use rgx::app::{App, DebugStart};
use rgx::engine::pcre2_debug::DebugTrace;
use rgx::codegen::{generate_code, Language};
use rgx::engine::{EngineFlags, EngineKind};
use rgx::input::editor::{EditOp, Motion};

#[test]
fn engine_switching() {
    let mut app = App::new(EngineKind::RustRegex, EngineFlags::default());
    app.set_test_string("hello 123");
    app.set_pattern(r"\d+");
    assert_eq!(app.matches.len(), 1);

    app.switch_engine();
    assert_eq!(app.engine_kind, EngineKind::FancyRegex);
    assert_eq!(app.matches.len(), 1);
}

#[test]
fn flag_toggles() {
    let mut app = App::new(EngineKind::RustRegex, EngineFlags::default());
    app.set_test_string("Hello HELLO hello");
    app.set_pattern("hello");
    assert_eq!(app.matches.len(), 1); // only lowercase match

    app.flags.toggle_case_insensitive();
    app.recompute();
    assert_eq!(app.matches.len(), 3); // all match now
}

#[test]
fn render_empty_replacement() {
    let mut app = App::new(EngineKind::RustRegex, EngineFlags::default());
    app.set_test_string("hello 123");
    app.set_pattern(r"\d+");
    // No replacement set
    assert!(app.replace_result.is_none());
}

#[test]
fn panel_cycling_includes_replace() {
    let mut app = App::new(EngineKind::RustRegex, EngineFlags::default());
    assert_eq!(app.focused_panel, 0);
    app.focused_panel = (app.focused_panel + 1) % 5;
    assert_eq!(app.focused_panel, 1);
    app.focused_panel = (app.focused_panel + 1) % 5;
    assert_eq!(app.focused_panel, 2); // replace panel
    app.focused_panel = (app.focused_panel + 1) % 5;
    assert_eq!(app.focused_panel, 3); // matches
    app.focused_panel = (app.focused_panel + 1) % 5;
    assert_eq!(app.focused_panel, 4); // explanation
    app.focused_panel = (app.focused_panel + 1) % 5;
    assert_eq!(app.focused_panel, 0); // back to regex
}

#[test]
fn replacement_with_named_groups() {
    let mut app = App::new(EngineKind::RustRegex, EngineFlags::default());
    app.set_test_string("2024-01");
    app.set_pattern(r"(?P<y>\d{4})-(?P<m>\d{2})");
    app.set_replacement("${m}/${y}");

    assert!(app.replace_result.is_some());
    let result = app.replace_result.as_ref().unwrap();
    assert_eq!(result.output, "01/2024");
}

#[test]
fn replacement_clears_on_empty_template() {
    let mut app = App::new(EngineKind::RustRegex, EngineFlags::default());
    app.set_test_string("hello 123");
    app.set_pattern(r"\d+");
    app.set_replacement("[NUM]");
    assert!(app.replace_result.is_some());

    app.set_replacement("");
    assert!(app.replace_result.is_none());
}

#[test]
fn replacement_output_and_segments() {
    let mut app = App::new(EngineKind::RustRegex, EngineFlags::default());
    app.set_test_string("hello 123 world 456");
    app.set_pattern(r"\d+");
    app.set_replacement("[NUM]");
    let result = app.replace_result.as_ref().unwrap();
    assert_eq!(result.output, "hello [NUM] world [NUM]");
    let pieces: Vec<(usize, usize, bool)> = result
        .segments
        .iter()
        .map(|s| (s.start, s.end, s.is_replacement))
        .collect();
    assert_eq!(
        pieces,
        vec![(0, 6, false), (6, 11, true), (11, 18, false), (18, 23, true)]
    );
}

#[test]
fn invalid_pattern_sets_error() {
    let mut app = App::new(EngineKind::RustRegex, EngineFlags::default());
    app.set_pattern(r"(unclosed");
    assert!(app.error.as_deref().unwrap().starts_with("Compile error: "));
    assert!(app.matches.is_empty());
    assert!(app.error_offset.is_some());
}

#[test]
fn captures_are_collected() {
    let mut app = App::new(EngineKind::RustRegex, EngineFlags::default());
    app.set_test_string("user@example.com");
    app.set_pattern(r"(\w+)@(\w+)\.(\w+)");
    assert_eq!(app.matches.len(), 1);
    assert_eq!(app.matches[0].captures.len(), 3);
}

#[test]
fn empty_pattern_clears_results() {
    let mut app = App::new(EngineKind::RustRegex, EngineFlags::default());
    app.set_test_string("abc");
    app.set_pattern("b");
    assert_eq!(app.matches.len(), 1);
    app.set_pattern("");
    assert!(app.matches.is_empty());
    assert!(app.error.is_none());
    assert!(app.compile_time.is_none());
}

#[test]
fn lookahead_upgrades_engine_and_says_so() {
    let mut app = App::new(EngineKind::RustRegex, EngineFlags::default());
    app.set_test_string("foobar foobaz");
    app.set_pattern("foo(?=bar)");
    assert_eq!(app.engine_kind, EngineKind::FancyRegex);
    assert_eq!(app.matches.len(), 1);
    assert_eq!(
        app.clipboard_status.as_deref(),
        Some("Auto-switched Rust regex \u{2192} fancy-regex for this pattern")
    );
}

#[test]
fn engine_is_never_downgraded() {
    let mut app = App::new(EngineKind::Pcre2, EngineFlags::default());
    app.set_test_string("abc");
    app.set_pattern("b");
    assert_eq!(app.engine_kind, EngineKind::Pcre2);
    assert!(app.clipboard_status.is_none());
}

#[test]
fn history_commits_dedups_and_browses() {
    let mut app = App::new(EngineKind::RustRegex, EngineFlags::default());
    app.set_pattern("a");
    app.commit_pattern_to_history();
    app.commit_pattern_to_history();
    assert_eq!(app.pattern_history.len(), 1);
    app.set_pattern("b");
    app.commit_pattern_to_history();
    app.set_pattern("draft");
    app.history_prev();
    assert_eq!(app.regex_editor.content(), "b");
    app.history_prev();
    assert_eq!(app.regex_editor.content(), "a");
    app.history_prev();
    assert_eq!(app.regex_editor.content(), "a");
    app.history_next();
    assert_eq!(app.regex_editor.content(), "b");
    app.history_next();
    assert_eq!(app.regex_editor.content(), "draft");
    assert_eq!(app.history_index, None);
}

#[test]
fn history_keeps_the_newest_hundred() {
    let mut app = App::new(EngineKind::RustRegex, EngineFlags::default());
    for i in 0..105 {
        app.set_pattern(&format!("p{i}"));
        app.commit_pattern_to_history();
    }
    assert_eq!(app.pattern_history.len(), 100);
    assert_eq!(app.pattern_history[0], "p5");
    assert_eq!(app.pattern_history[99], "p104");
}

#[test]
fn selection_walks_matches_and_captures() {
    let mut app = App::new(EngineKind::RustRegex, EngineFlags::default());
    app.set_test_string("a1 b2");
    app.set_pattern(r"(\w)(\d)");
    assert_eq!(app.matches.len(), 2);
    app.select_match_next();
    assert_eq!((app.selected_match, app.selected_capture), (0, Some(0)));
    app.select_match_next();
    assert_eq!((app.selected_match, app.selected_capture), (0, Some(1)));
    app.select_match_next();
    assert_eq!((app.selected_match, app.selected_capture), (1, None));
    assert_eq!(app.match_scroll, 3);
    app.select_match_prev();
    assert_eq!((app.selected_match, app.selected_capture), (0, Some(1)));
    assert_eq!(app.match_scroll, 2);
}

#[test]
fn status_message_ticks_down_and_clears() {
    let mut app = App::new(EngineKind::RustRegex, EngineFlags::default());
    app.set_status_message("hi".to_string());
    for _ in 0..40 {
        assert!(!app.tick_clipboard_status());
    }
    assert!(app.tick_clipboard_status());
    assert!(app.clipboard_status.is_none());
    assert!(!app.tick_clipboard_status());
}

#[test]
fn regex101_url_encodes_state() {
    let mut app = App::new(EngineKind::RustRegex, EngineFlags { case_insensitive: true, ..Default::default() });
    app.set_test_string("a b");
    app.set_pattern(r"\d+");
    assert_eq!(
        app.regex101_url(),
        "https://regex101.com/?regex=%5Cd%2B&testString=a%20b&flags=gi&flavor=ecmascript"
    );
    app.switch_engine_to(EngineKind::Pcre2);
    assert!(app.regex101_url().ends_with("&flavor=pcre2"));
}

#[test]
fn benchmark_runs_every_engine() {
    let mut app = App::new(EngineKind::RustRegex, EngineFlags::default());
    app.set_test_string("a1 b2 c3");
    app.set_pattern(r"\d");
    app.run_benchmark();
    assert!(app.show_benchmark);
    let kinds: Vec<EngineKind> = app.benchmark_results.iter().map(|r| r.engine).collect();
    assert_eq!(kinds, vec![EngineKind::RustRegex, EngineKind::FancyRegex, EngineKind::Pcre2]);
    assert!(app.benchmark_results.iter().all(|r| r.match_count == 3 && r.error.is_none()));
}

#[test]
fn edits_on_focused_panels_recompute() {
    let mut app = App::new(EngineKind::RustRegex, EngineFlags::default());
    app.set_test_string("aaa");
    app.focused_panel = 0;
    app.edit_focused(EditOp::InsertChar('a'));
    assert_eq!(app.matches.len(), 3);
    app.edit_focused(EditOp::InsertChar('a'));
    assert_eq!(app.matches.len(), 1);
    app.move_focused(Motion::Home);
    app.edit_focused(EditOp::DeleteForward);
    assert_eq!(app.regex_editor.content(), "a");
    assert_eq!(app.matches.len(), 3);
    app.focused_panel = 1;
    app.edit_focused(EditOp::DeleteBack);
    assert_eq!(app.matches.len(), 2);
}

#[test]
fn generate_code_needs_a_pattern() {
    let mut app = App::new(EngineKind::RustRegex, EngineFlags::default());
    app.generate_code(&Language::Python);
    assert_eq!(app.clipboard_status.as_deref(), Some("No pattern to generate code for"));
}

#[test]
fn codegen_python_with_flags() {
    let flags = EngineFlags { case_insensitive: true, multi_line: true, ..Default::default() };
    assert_eq!(
        generate_code(&Language::Python, r#"a"b\d"#, &flags),
        "import re\n\npattern = re.compile(\"a\\\"b\\\\d\", re.IGNORECASE | re.MULTILINE)\nmatches = pattern.findall(text)\n"
    );
}

#[test]
fn codegen_go_and_javascript() {
    let flags = EngineFlags { unicode: true, ..Default::default() };
    assert_eq!(
        generate_code(&Language::Go, "a`b", &flags),
        "import \"regexp\"\n\nre := regexp.MustCompile(`(?U)a`+\"`\"+`b`)\nmatches := re.FindAllString(text, -1)\n"
    );
    assert_eq!(
        generate_code(&Language::JavaScript, "a/b", &flags),
        "const regex = /a\\/b/gu;\nconst matches = [...text.matchAll(regex)];\n"
    );
}

#[test]
fn codegen_rust_without_flags() {
    assert_eq!(
        generate_code(&Language::Rust, r"\d+", &EngineFlags::default()),
        "use regex::Regex;\n\nlet re = Regex::new(r\"\\d+\").unwrap();\nlet matches: Vec<&str> = re.find_iter(text).map(|m| m.as_str()).collect();\n"
    );
}

#[test]
fn codegen_raw_strings_hold_the_pattern_as_is() {
    assert!(generate_code(&Language::Rust, r"\d+", &EngineFlags::default()).contains(r#"Regex::new(r"\d+")"#));
    assert!(generate_code(&Language::Python, r"\d+\.\w", &EngineFlags::default()).contains(r#"re.compile(r"\d+\.\w")"#));
    let flags = EngineFlags { case_insensitive: true, ..Default::default() };
    assert!(generate_code(&Language::Rust, r#"say "\w+""#, &flags).contains(r#"RegexBuilder::new("say \"\\w+\"")"#));
    assert!(generate_code(&Language::Python, r"a\\", &EngineFlags::default()).contains(r#"re.compile("a\\\\")"#));
}

#[test]
fn codegen_php_ruby_csharp_java() {
    let flags = EngineFlags { case_insensitive: true, extended: true, ..Default::default() };
    assert_eq!(
        generate_code(&Language::Php, "it's/x", &flags),
        "$pattern = '/it\\'s\\/x/ix';\npreg_match_all($pattern, $text, $matches);\n"
    );
    assert_eq!(
        generate_code(&Language::Ruby, "a/b", &flags),
        "pattern = /a\\/b/ix\nmatches = text.scan(pattern)\n"
    );
    assert_eq!(
        generate_code(&Language::CSharp, "say \"hi\"", &EngineFlags::default()),
        "using System.Text.RegularExpressions;\n\nvar regex = new Regex(@\"say \"\"hi\"\"\");\nvar matches = regex.Matches(text);\n"
    );
    assert!(generate_code(&Language::Java, "x", &flags)
        .contains("Pattern.compile(\"x\", Pattern.CASE_INSENSITIVE | Pattern.COMMENTS);\n"));
}

#[test]
fn languages_in_menu_order() {
    let names: Vec<String> = Language::all().into_iter().map(|l| l.label()).collect();
    assert_eq!(names, vec!["Rust", "Python", "JavaScript", "Go", "Java", "C#", "PHP", "Ruby"]);
}

#[test]
fn explanation_panel_follows_pattern() {
    let mut app = App::new(EngineKind::RustRegex, EngineFlags::default());
    app.set_pattern(r"\d+");
    assert!(app.explanation.iter().any(|n| n.description.contains("digit")));
    assert!(app.explanation.iter().any(|n| n.description == "One or more times" && n.depth == 0));
    app.set_pattern("(unclosed");
    assert!(app.explanation.is_empty());
    assert!(app.error.is_some());
    assert_eq!(app.error_offset, Some(0));
    app.set_pattern("");
    assert!(app.explanation.is_empty());
}

#[test]
fn whole_match_replacement_previews_the_text() {
    for template in ["$0", "$&"] {
        let mut app = App::new(EngineKind::RustRegex, EngineFlags::default());
        app.set_test_string("naïve café, 12 ünïcödé words");
        app.set_pattern(r"\w+");
        app.set_replacement(template);
        assert_eq!(app.replace_result.as_ref().unwrap().output, "naïve café, 12 ünïcödé words");
    }
}

#[test]
fn history_back_and_forth_restores_edited_pattern() {
    let mut app = App::new(EngineKind::RustRegex, EngineFlags::default());
    app.set_pattern("first");
    app.commit_pattern_to_history();
    app.set_pattern("second");
    app.commit_pattern_to_history();
    app.set_pattern("in progress");
    app.history_prev();
    assert_eq!(app.regex_editor.content(), "second");
    app.history_next();
    assert_eq!(app.regex_editor.content(), "in progress");
    assert!(app.history_index.is_none());
}

#[test]
fn start_debug_needs_pattern_and_text() {
    let mut app = App::new(EngineKind::RustRegex, EngineFlags::default());
    assert_eq!(app.start_debug(), DebugStart::Done);
    assert_eq!(app.clipboard_status.as_deref(), Some("Debugger needs both a pattern and test string"));
    assert!(app.debug_session.is_none());
}

#[test]
fn start_debug_moves_to_pcre2_and_asks_for_a_trace() {
    let mut app = App::new(EngineKind::RustRegex, EngineFlags::default());
    app.set_test_string("xx ab ab");
    app.set_pattern("ab");
    app.select_match_next();
    assert_eq!(app.selected_match, 1);
    // Moving to PCRE2 recomputes, which selects the first match again.
    assert_eq!(app.start_debug(), DebugStart::Record(3));
    assert_eq!(app.engine_kind, EngineKind::Pcre2);
    app.select_match_next();
    assert_eq!(app.start_debug(), DebugStart::Record(6));
    app.finish_debug(Err("no trace".to_string()));
    assert_eq!(app.clipboard_status.as_deref(), Some("Debugger error: no trace"));
}

#[test]
fn start_debug_reopens_the_closed_session() {
    let mut app = App::new(EngineKind::Pcre2, EngineFlags::default());
    app.set_test_string("ab");
    app.set_pattern("b");
    assert_eq!(app.start_debug(), DebugStart::Record(1));
    let trace = DebugTrace { steps: vec![], truncated: false, offset_map: vec![], heatmap: vec![], match_attempts: 0 };
    app.finish_debug(Ok(trace));
    assert!(app.debug_session.is_some());
    app.close_debug();
    assert!(app.debug_session.is_none());
    assert_eq!(app.start_debug(), DebugStart::Done);
    assert!(app.debug_session.is_some());
    assert!(app.debug_cache.is_none());
}

#[test]
fn linked_pcre2_release_decides_the_cve_guard() {
    let mut app = App::new(EngineKind::Pcre2, EngineFlags::default());
    app.set_linked_pcre2(Some((10, 46)));
    assert!(!app.engine.pcre2_10_45);
    assert_eq!(app.engine.kind, EngineKind::Pcre2);
    app.set_linked_pcre2(Some((10, 45)));
    assert!(app.engine.pcre2_10_45);
    app.set_pattern(r"(*scs:(1)x)");
    assert!(app.error.as_deref().unwrap_or("").contains("CVE-2025-58050"));
    app.set_linked_pcre2(None);
    assert!(!app.engine.pcre2_10_45);
}
