use rgx::app::App;
use rgx::dispatch::{route, Route, RECIPE_COUNT};
use rgx::engine::{EngineFlags, EngineKind};
use rgx::filter::{count_text, emitted_text};
use rgx::input::{Action, Key, KeyPress};

fn tester(pattern: &str, text: &str) -> App {
    let mut app = App::new(EngineKind::RustRegex, EngineFlags::default());
    app.set_test_string(text);
    app.set_pattern(pattern);
    app
}

fn plain(code: Key) -> KeyPress {
    KeyPress { code, ctrl: false, alt: false, other_modifiers: false }
}

fn alt(c: char) -> KeyPress {
    KeyPress { code: Key::Char(c), ctrl: false, alt: true, other_modifiers: false }
}

#[test]
fn output_count_prints_number_of_matches() {
    let app = tester(r"\d+", "a1 b22 c333");
    let (out, err) = app.output_text(None, true, false);
    assert_eq!(out, "3\n");
    assert_eq!(err, "");
}

#[test]
fn output_plain_matches_one_per_line() {
    let app = tester(r"\d+", "a1 b22 c333");
    let (out, err) = app.output_text(None, false, false);
    assert_eq!(out, "1\n22\n333\n");
    assert_eq!(err, "");
}

#[test]
fn output_no_matches_is_empty() {
    let app = tester(r"\d+", "no digits");
    let (out, _) = app.output_text(None, false, false);
    assert_eq!(out, "");
    let (count, _) = app.output_text(None, true, false);
    assert_eq!(count, "0\n");
}

#[test]
fn output_colored_matches_wrap_each_match() {
    let app = tester(r"\d+", "a1 b22");
    let (out, _) = app.output_text(None, false, true);
    assert_eq!(out, "a\x1b[1;31m1\x1b[0m b\x1b[1;31m22\x1b[0m\n");
}

#[test]
fn output_colored_matches_keep_final_newline() {
    let app = tester("b", "ab\n");
    let (out, _) = app.output_text(None, false, true);
    assert_eq!(out, "a\x1b[1;31mb\x1b[0m\n");
}

#[test]
fn output_replacement_plain() {
    let mut app = tester(r"(\w+)@(\w+)", "me@home you@work");
    app.set_replacement("$2:$1");
    let (out, err) = app.output_text(None, false, false);
    assert_eq!(out, "home:me work:you");
    assert_eq!(err, "");
}

#[test]
fn output_replacement_colored() {
    let mut app = tester(r"\d", "a1b");
    app.set_replacement("<$0>");
    let (out, _) = app.output_text(None, false, true);
    assert_eq!(out, "a\x1b[1;32m<1>\x1b[0mb\n");
}

#[test]
fn output_colored_replacement_skips_empty_pieces() {
    let mut app = tester(r"\d", "a1b");
    app.set_replacement("$9");
    let (out, _) = app.output_text(None, false, true);
    assert_eq!(out, "ab\n");
}

#[test]
fn output_group_by_number_and_name() {
    let app = tester(r"(?P<key>\w+)=(\d+)", "a=1 b=22");
    let (out, err) = app.output_text(Some("2"), false, false);
    assert_eq!(out, "1\n22\n");
    assert_eq!(err, "");
    let (out, _) = app.output_text(Some("key"), false, false);
    assert_eq!(out, "a\nb\n");
    let (out, _) = app.output_text(Some("key"), false, true);
    assert_eq!(out, "\x1b[1;31ma\x1b[0m\n\x1b[1;31mb\x1b[0m\n");
}

#[test]
fn output_missing_group_goes_to_error_stream() {
    let app = tester(r"(\d)", "1 2");
    let (out, err) = app.output_text(Some("nope"), false, false);
    assert_eq!(out, "");
    assert_eq!(err, "rgx: group 'nope' not found in match\nrgx: group 'nope' not found in match\n");
}

#[test]
fn emitted_text_with_and_without_numbers() {
    let lines: Vec<String> = vec!["alpha".to_string(), "beta".to_string(), "gamma".to_string()];
    assert_eq!(emitted_text(&lines, &[0, 2], false), "alpha\ngamma\n");
    assert_eq!(emitted_text(&lines, &[0, 2], true), "1:alpha\n3:gamma\n");
    assert_eq!(emitted_text(&lines, &[], true), "");
}

#[test]
fn count_text_formats_number() {
    assert_eq!(count_text(0), "0\n");
    assert_eq!(count_text(42), "42\n");
}

#[test]
fn key_quit_sets_should_quit() {
    let mut app = tester("a", "a");
    app.handle_key(plain(Key::Esc));
    assert!(app.should_quit);
}

#[test]
fn key_tab_cycles_panels() {
    let mut app = tester("a", "a");
    let start = app.focused_panel;
    for _ in 0..5 {
        app.handle_key(plain(Key::Tab));
    }
    assert_eq!(app.focused_panel, start);
    app.handle_key(plain(Key::Tab));
    assert_eq!(app.focused_panel, (start + 1) % 5);
}

#[test]
fn key_typing_in_pattern_recompiles() {
    let mut app = tester("", "abc abd");
    app.focused_panel = 0;
    app.handle_key(plain(Key::Char('a')));
    app.handle_key(plain(Key::Char('b')));
    app.handle_key(plain(Key::Char('d')));
    assert_eq!(app.regex_editor.content(), "abd");
    assert_eq!(app.matches.len(), 1);
    app.handle_key(plain(Key::Backspace));
    assert_eq!(app.matches.len(), 2);
}

#[test]
fn key_alt_i_toggles_case_and_recompiles() {
    let mut app = tester("hello", "Hello hello");
    assert_eq!(app.matches.len(), 1);
    app.handle_key(alt('i'));
    assert!(app.flags.case_insensitive);
    assert_eq!(app.matches.len(), 2);
}

#[test]
fn key_help_overlay_opens_pages_and_closes() {
    let mut app = tester("a", "a");
    app.handle_key(plain(Key::Char('?')));
    assert!(app.show_help);
    app.handle_key(plain(Key::Right));
    assert_eq!(app.help_page, 0);
    app.handle_key(plain(Key::Left));
    assert_eq!(app.help_page, 0);
    app.handle_key(plain(Key::Char('x')));
    assert!(!app.show_help);
    assert_eq!(app.regex_editor.content(), "a");
}

#[test]
fn key_recipe_overlay_moves_and_loads() {
    let mut app = tester("a", "a");
    app.show_recipes = true;
    app.handle_key(plain(Key::Up));
    assert_eq!(app.recipe_index, 0);
    for _ in 0..RECIPE_COUNT + 3 {
        app.handle_key(plain(Key::Down));
    }
    assert_eq!(app.recipe_index, RECIPE_COUNT - 1);
    app.recipe_index = 0;
    app.handle_key(plain(Key::Enter));
    assert!(!app.show_recipes);
    assert_eq!(app.regex_editor.content(), r"[a-zA-Z0-9._%+-]+@[a-zA-Z0-9.-]+\.[a-zA-Z]{2,}");
    assert_eq!(app.matches.len(), 2);
}

#[test]
fn key_overlays_take_keys_first() {
    let mut app = tester("a", "a");
    app.show_benchmark = true;
    assert_eq!(route(&app, plain(Key::Char('z'))), Route::BenchmarkClose);
    app.handle_key(plain(Key::Char('z')));
    assert!(!app.show_benchmark);
    assert_eq!(app.regex_editor.content(), "a");
    assert_eq!(route(&app, plain(Key::Char('z'))), Route::Act(Action::InsertChar('z')));
}

#[test]
fn key_codegen_overlay_generates_code() {
    let mut app = tester(r"\d+", "12");
    app.show_codegen = true;
    app.handle_key(plain(Key::Down));
    assert_eq!(app.codegen_language_index, 1);
    app.handle_key(plain(Key::Up));
    app.handle_key(plain(Key::Up));
    assert_eq!(app.codegen_language_index, 0);
    app.handle_key(plain(Key::Esc));
    assert!(!app.show_codegen);
}

fn ctrl(c: char) -> KeyPress {
    KeyPress { code: Key::Char(c), ctrl: true, alt: false, other_modifiers: false }
}

#[test]
fn key_ctrl_e_switches_engine_and_recompiles() {
    let mut app = tester(r"\d", "a1");
    app.handle_key(ctrl('e'));
    assert_eq!(app.engine_kind, EngineKind::FancyRegex);
    assert_eq!(app.matches.len(), 1);
}

#[test]
fn key_scroll_moves_match_selection_and_explanation() {
    let mut app = tester(r"\d", "1 2 3");
    app.focused_panel = 3;
    app.handle_key(plain(Key::Down));
    assert_eq!(app.selected_match, 1);
    app.handle_key(plain(Key::Up));
    assert_eq!(app.selected_match, 0);
    app.focused_panel = 4;
    app.handle_key(plain(Key::Down));
    app.handle_key(plain(Key::Down));
    assert_eq!(app.explain_scroll, 2);
    app.handle_key(plain(Key::Up));
    assert_eq!(app.explain_scroll, 1);
}

#[test]
fn key_enter_inserts_newline_only_in_test_text() {
    let mut app = tester("b", "ab");
    app.focused_panel = 1;
    app.handle_key(plain(Key::Enter));
    assert_eq!(app.test_editor.content(), "ab\n");
    app.focused_panel = 0;
    app.handle_key(plain(Key::Enter));
    assert_eq!(app.regex_editor.content(), "b");
}

#[test]
fn key_typing_in_replacement_reapplies_it() {
    let mut app = tester(r"\d", "a1");
    app.focused_panel = 2;
    app.handle_key(plain(Key::Char('#')));
    assert_eq!(app.replace_result.as_ref().unwrap().output, "a#");
}
