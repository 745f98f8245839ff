use rgx::app::App;
use rgx::config::cli::{use_color, ColorMode};
use rgx::config::settings::Settings;
use rgx::config::workspace::{test_report, TestCase, TestResult, Workspace};
use rgx::engine::{EngineFlags, EngineKind};
use rgx::grex_integration::{generate, GrexOptions};
use rgx::recipe::recipes;
use rgx::ui::grex_overlay::GrexOverlayState;

#[test]
fn test_settings_defaults() {
    let settings = Settings::default();
    assert_eq!(settings.default_engine, "rust");
    assert!(!settings.case_insensitive);
    assert!(!settings.multiline);
    assert!(!settings.dotall);
    assert!(settings.unicode); // default true
    assert!(!settings.extended);
    assert!(!settings.show_whitespace);
}

#[test]
fn test_settings_parse_engine() {
    let settings = Settings {
        default_engine: "rust".to_string(),
        ..Default::default()
    };
    assert_eq!(settings.parse_engine(), EngineKind::RustRegex);

    let settings = Settings {
        default_engine: "fancy".to_string(),
        ..Default::default()
    };
    assert_eq!(settings.parse_engine(), EngineKind::FancyRegex);

    let settings = Settings {
        default_engine: "unknown".to_string(),
        ..Default::default()
    };
    assert_eq!(settings.parse_engine(), EngineKind::RustRegex);
}

#[test]
fn test_workspace_apply_restores_state() {
    let flags = EngineFlags::default();
    let mut app = App::new(EngineKind::RustRegex, flags);

    let ws = Workspace {
        pattern: "hello+".to_string(),
        test_string: "hellooo world".to_string(),
        replacement: "".to_string(),
        engine: "fancy".to_string(),
        case_insensitive: true,
        multiline: false,
        dotall: false,
        unicode: true,
        extended: false,
        show_whitespace: true,
        tests: Vec::new(),
    };
    ws.apply(&mut app);

    assert_eq!(app.regex_editor.content(), "hello+");
    assert_eq!(app.test_editor.content(), "hellooo world");
    assert_eq!(app.engine_kind, EngineKind::FancyRegex);
    assert!(app.flags.case_insensitive);
    assert!(app.show_whitespace);
}

#[test]
fn workspace_from_app_captures_session() {
    let flags = EngineFlags {
        case_insensitive: true,
        multi_line: false,
        dot_matches_newline: true,
        unicode: true,
        extended: false,
    };
    let mut app = App::new(EngineKind::FancyRegex, flags);
    app.set_pattern(r"\d{3}-\d{4}");
    app.set_test_string("Call 555-1234 today");
    app.set_replacement("XXX-XXXX");

    let ws = Workspace::from_app(&app);
    assert_eq!(ws.pattern, r"\d{3}-\d{4}");
    assert_eq!(ws.test_string, "Call 555-1234 today");
    assert_eq!(ws.replacement, "XXX-XXXX");
    assert_eq!(ws.engine, "fancy");
    assert!(ws.case_insensitive);
    assert!(!ws.multiline);
    assert!(ws.dotall);
    assert!(ws.unicode);
    assert!(!ws.extended);

    let mut other = App::new(EngineKind::RustRegex, EngineFlags::default());
    ws.apply(&mut other);
    assert_eq!(other.engine_kind, EngineKind::FancyRegex);
    assert_eq!(other.flags, flags);
    assert_eq!(other.matches.len(), 1);
    assert_eq!(other.replace_result.as_ref().unwrap().output, "Call XXX-XXXX today");
}

#[test]
fn workspace_tests_report_each_case() {
    let ws = Workspace {
        pattern: r"^\d+$".to_string(),
        test_string: String::new(),
        replacement: String::new(),
        engine: "rust".to_string(),
        case_insensitive: false,
        multiline: false,
        dotall: false,
        unicode: true,
        extended: false,
        show_whitespace: false,
        tests: vec![
            TestCase { input: "123".to_string(), should_match: true },
            TestCase { input: "12a".to_string(), should_match: true },
            TestCase { input: "abc".to_string(), should_match: false },
        ],
    };
    let results = ws.run_tests().unwrap();
    let summary: Vec<(bool, bool)> = results.iter().map(|r| (r.did_match, r.passed)).collect();
    assert_eq!(summary, vec![(true, true), (false, false), (false, true)]);
}

#[test]
fn workspace_tests_report_compile_errors() {
    let ws = Workspace {
        pattern: "(".to_string(),
        test_string: String::new(),
        replacement: String::new(),
        engine: "rust".to_string(),
        case_insensitive: false,
        multiline: false,
        dotall: false,
        unicode: false,
        extended: false,
        show_whitespace: false,
        tests: vec![TestCase { input: "x".to_string(), should_match: true }],
    };
    assert!(ws.run_tests().unwrap_err().starts_with("Compile error: "));
}

#[test]
fn default_options_match_spec_defaults() {
    let opts = GrexOptions::default();
    assert!(opts.digit);
    assert!(opts.anchors);
    assert!(!opts.case_insensitive);
}

#[test]
fn empty_input_returns_empty_string() {
    let result = generate(&[], GrexOptions::default());
    assert_eq!(result, "");
}

#[test]
fn grex_generates_a_matching_pattern() {
    let examples = vec!["a1".to_string(), "b2".to_string()];
    let pattern = generate(&examples, GrexOptions::default());
    assert!(pattern.starts_with('^') && pattern.ends_with('$'));
    assert!(pattern.contains("\\d"));
}

#[test]
fn grex_overlay_starts_empty() {
    let state = GrexOverlayState::default();
    assert_eq!(state.editor.content(), "");
    assert_eq!(state.options, GrexOptions::default());
    assert!(state.generated_pattern.is_none());
    assert_eq!(state.generation_counter, 0);
}

#[test]
fn recipes_all_compile_and_match_their_examples() {
    let list = recipes();
    assert_eq!(list.len(), 18);
    // line anchors (the Markdown heading recipe) need multi-line mode
    let flags = EngineFlags { multi_line: true, ..Default::default() };
    for r in &list {
        let mut app = App::new(EngineKind::RustRegex, flags);
        app.set_test_string(r.test_string);
        app.set_pattern(r.pattern);
        // look-around compiles (on fancy-regex) but the syntax checker of the
        // explanation panel does not know it
        if let Some(e) = &app.error {
            assert!(e.starts_with("Parse error: "), "{}: {}", r.name, e);
        }
        assert!(!app.matches.is_empty(), "{}", r.name);
    }
}

#[test]
fn color_mode_decides_coloring() {
    assert!(use_color(ColorMode::Always, false));
    assert!(!use_color(ColorMode::Never, true));
    assert!(use_color(ColorMode::Auto, true));
    assert!(!use_color(ColorMode::Auto, false));
}

fn result(input: &str, should_match: bool, did_match: bool) -> TestResult {
    TestResult { input: input.to_string(), should_match, did_match, passed: should_match == did_match }
}

#[test]
fn test_report_all_passed_plain() {
    let results = vec![result("visit https://example.com today", true, true), result("no url here", false, false)];
    let (text, ok) = test_report("tests/urls.toml", r"https?://[^\s]+", &results, false);
    assert!(ok);
    assert_eq!(
        text,
        "Testing: tests/urls.toml\nPattern: https?://[^\\s]+\n\n  PASS [ 1] \"visit https://example.com today\" (expect match, got matched)\n  PASS [ 2] \"no url here\" (expect no match, got no match)\n\n2/2 passed\n"
    );
}

#[test]
fn test_report_failure_colored() {
    let results = vec![result("a\"b", true, false)];
    let (text, ok) = test_report("t.toml", "x", &results, true);
    assert!(!ok);
    assert_eq!(
        text,
        "\x1b[1mTesting:\x1b[0m t.toml\n\x1b[1mPattern:\x1b[0m x\n\n  \x1b[31mFAIL\x1b[0m [ 1] \"a\\\"b\" (expect match, got no match)\n\n\x1b[31m\x1b[1m1/1 failed\x1b[0m\n"
    );
}

#[test]
fn test_report_pads_two_digit_numbers() {
    let results: Vec<TestResult> = (0..10).map(|i| result(&i.to_string(), true, true)).collect();
    let (text, ok) = test_report("p", "q", &results, false);
    assert!(ok);
    assert!(text.contains("  PASS [ 9] \"8\""));
    assert!(text.contains("  PASS [10] \"9\""));
    assert!(text.ends_with("\n10/10 passed\n"));
}

#[test]
fn workspace_tests_report_end_to_end() {
    let ws = Workspace {
        pattern: r"\d+".to_string(),
        test_string: String::new(),
        replacement: String::new(),
        engine: "rust".to_string(),
        case_insensitive: false,
        multiline: false,
        dotall: false,
        unicode: true,
        extended: false,
        show_whitespace: false,
        tests: vec![
            TestCase { input: "abc 123".to_string(), should_match: true },
            TestCase { input: "abc".to_string(), should_match: true },
        ],
    };
    let results = ws.run_tests().unwrap();
    let (text, ok) = test_report("w.toml", &ws.pattern, &results, false);
    assert!(!ok);
    assert!(text.ends_with("\n1/2 failed\n"));
}

#[test]
fn workspace_round_trip_restores_session() {
    let flags = EngineFlags { case_insensitive: true, ..Default::default() };
    let mut a = App::new(EngineKind::FancyRegex, flags);
    a.set_test_string("Hello hello");
    a.set_pattern("hello");
    a.set_replacement("[$0]");
    a.show_whitespace = true;
    let ws = Workspace::from_app(&a);
    let mut b = App::new(EngineKind::RustRegex, EngineFlags::default());
    ws.apply(&mut b);
    assert_eq!(b.regex_editor.content(), "hello");
    assert_eq!(b.test_editor.content(), "Hello hello");
    assert_eq!(b.replace_editor.content(), "[$0]");
    assert_eq!(b.engine_kind, EngineKind::FancyRegex);
    assert!(b.flags.case_insensitive);
    assert!(b.show_whitespace);
    assert_eq!(b.matches.len(), 2);
    assert_eq!(b.replace_result.as_ref().unwrap().output, "[Hello] [hello]");
}

#[test]
fn workspace_tests_refuse_the_scs_verb_only_on_10_45() {
    let ws = Workspace {
        pattern: "(*scs:(1)x)".to_string(),
        test_string: String::new(),
        replacement: String::new(),
        engine: "pcre2".to_string(),
        case_insensitive: false,
        multiline: false,
        dotall: false,
        unicode: false,
        extended: false,
        show_whitespace: false,
        tests: vec![],
    };
    let refused = ws.run_tests_linked(true).unwrap_err();
    assert!(refused.contains("CVE-2025-58050"));
    match ws.run_tests_linked(false) {
        Ok(_) => {}
        Err(e) => assert!(!e.contains("CVE-2025-58050")),
    }
}

#[test]
fn grex_outline_follows_the_options() {
    let examples = vec!["abc".to_string(), "abd".to_string()];
    let anchored = generate(&examples, GrexOptions::default());
    assert!(anchored.starts_with('^') && anchored.ends_with('$'));
    let loose = generate(&examples, GrexOptions { digit: false, anchors: false, case_insensitive: true });
    assert!(loose.starts_with("(?i)"));
    assert!(!loose.contains('^') && !loose.ends_with('$'));
    assert_eq!(generate(&[], GrexOptions::default()), "");
}

#[test]
fn grex_result_matches_its_examples() {
    let examples = vec!["a1".to_string(), "b22".to_string(), "xyz".to_string()];
    let pattern = generate(&examples, GrexOptions::default());
    let re = regex::Regex::new(&pattern).unwrap();
    for e in &examples {
        let m = re.find(e).unwrap();
        assert_eq!((m.start(), m.end()), (0, e.len()));
    }
    // digits converted: other digits in place of an example's digits match too
    assert!(re.is_match("a7"));
    assert!(re.is_match("b90"));
    let loose = generate(&examples, GrexOptions { digit: false, anchors: false, case_insensitive: true });
    let re = regex::Regex::new(&loose).unwrap();
    for e in &examples {
        assert!(re.is_match(e));
    }
    assert!(re.is_match("XYZ"));
}

#[test]
fn workspace_save_apply_save_is_stable() {
    let mut a = App::new(EngineKind::FancyRegex, EngineFlags { multi_line: true, ..Default::default() });
    a.set_test_string("ab\ncd");
    a.set_pattern("^c");
    let ws = Workspace::from_app(&a);
    let mut b = App::new(EngineKind::RustRegex, EngineFlags::default());
    ws.apply(&mut b);
    let again = Workspace::from_app(&b);
    assert_eq!(again.pattern, ws.pattern);
    assert_eq!(again.test_string, ws.test_string);
    assert_eq!(again.replacement, ws.replacement);
    assert_eq!(again.engine, "fancy");
    assert_eq!(again.engine, ws.engine);
    assert_eq!((again.case_insensitive, again.multiline, again.dotall, again.unicode, again.extended),
               (ws.case_insensitive, ws.multiline, ws.dotall, ws.unicode, ws.extended));
    assert_eq!(again.show_whitespace, ws.show_whitespace);
    assert!(again.tests.is_empty() && ws.tests.is_empty());
}

#[test]
fn status_message_law_forty_ticks_then_clear() {
    let mut app = App::new(EngineKind::RustRegex, EngineFlags::default());
    assert!(!app.tick_clipboard_status());
    assert!(app.clipboard_status.is_none());
    app.set_status_message("saved".to_string());
    for _ in 0..40 {
        assert!(!app.tick_clipboard_status());
        assert_eq!(app.clipboard_status.as_deref(), Some("saved"));
    }
    assert!(app.tick_clipboard_status());
    assert!(app.clipboard_status.is_none());
}
