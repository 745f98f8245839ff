use rgx::filter::run::handle_key;
use rgx::filter::{FilterApp, FilterOptions, Outcome};
use rgx::input::{key_to_action, Action, Key, KeyPress};

fn to_lines(strs: &[&str]) -> Vec<String> {
    strs.iter().map(|s| s.to_string()).collect()
}

fn plain(code: Key) -> KeyPress {
    KeyPress { code, ctrl: false, alt: false, other_modifiers: false }
}

fn alt(c: char) -> KeyPress {
    KeyPress { code: Key::Char(c), ctrl: false, alt: true, other_modifiers: false }
}

fn ctrl(c: char) -> KeyPress {
    KeyPress { code: Key::Char(c), ctrl: true, alt: false, other_modifiers: false }
}

#[test]
fn handle_key_enter_sets_emit() {
    let lines = to_lines(&["x"]);
    let mut app = FilterApp::new(lines, "x", FilterOptions::default());
    handle_key(&mut app, plain(Key::Enter));
    assert_eq!(app.outcome, Outcome::Emit);
    assert!(app.should_quit);
}

#[test]
fn handle_key_esc_sets_discard() {
    let lines = to_lines(&["x"]);
    let mut app = FilterApp::new(lines, "x", FilterOptions::default());
    handle_key(&mut app, plain(Key::Esc));
    assert_eq!(app.outcome, Outcome::Discard);
    assert!(app.should_quit);
}

#[test]
fn handle_key_alt_v_toggles_invert() {
    let lines = to_lines(&["error", "ok"]);
    let mut app = FilterApp::new(lines, "error", FilterOptions::default());
    assert_eq!(app.matched, vec![0]);
    handle_key(&mut app, alt('v'));
    assert_eq!(app.matched, vec![1]);
}

#[test]
fn handle_key_alt_i_toggles_case() {
    let lines = to_lines(&["ERROR", "ok"]);
    let mut app = FilterApp::new(lines, "error", FilterOptions::default());
    assert!(app.matched.is_empty());
    handle_key(&mut app, alt('i'));
    assert_eq!(app.matched, vec![0]);
}

#[test]
fn handle_key_typing_refilters() {
    let lines = to_lines(&["alpha", "beta", "gamma"]);
    let mut app = FilterApp::new(lines, "", FilterOptions::default());
    assert_eq!(app.matched.len(), 3);
    handle_key(&mut app, plain(Key::Char('a')));
    // Pattern is now "a" — matches alpha, beta, gamma all contain 'a'.
    assert_eq!(app.matched.len(), 3);
    handle_key(&mut app, plain(Key::Char('l')));
    // Pattern is "al" — only alpha matches.
    assert_eq!(app.matched, vec![0]);
}

#[test]
fn handle_key_backspace_refilters() {
    let lines = to_lines(&["alpha", "beta", "gamma"]);
    let mut app = FilterApp::new(lines, "al", FilterOptions::default());
    assert_eq!(app.matched, vec![0]);
    handle_key(&mut app, plain(Key::Backspace));
    // Back to "a" — all three match.
    assert_eq!(app.matched.len(), 3);
}

#[test]
fn handle_key_q_discards_only_without_modifiers() {
    let lines = to_lines(&["x"]);
    let mut app = FilterApp::new(lines.clone(), "", FilterOptions::default());
    handle_key(&mut app, alt('q'));
    assert_eq!(app.pattern(), "q");
    assert!(!app.should_quit);
    handle_key(&mut app, plain(Key::Char('q')));
    assert_eq!(app.outcome, Outcome::Discard);
    let mut app = FilterApp::new(lines, "", FilterOptions::default());
    handle_key(&mut app, ctrl('c'));
    assert_eq!(app.outcome, Outcome::Discard);
}

#[test]
fn keys_map_to_actions() {
    assert_eq!(key_to_action(ctrl('c')), Action::Quit);
    assert_eq!(key_to_action(ctrl('q')), Action::Quit);
    assert_eq!(key_to_action(plain(Key::Esc)), Action::Quit);
    assert_eq!(key_to_action(plain(Key::Tab)), Action::SwitchPanel);
    assert_eq!(key_to_action(ctrl('e')), Action::SwitchEngine);
    assert_eq!(key_to_action(alt('i')), Action::ToggleCaseInsensitive);
    assert_eq!(key_to_action(alt('x')), Action::ToggleExtended);
    assert_eq!(key_to_action(plain(Key::Char('?'))), Action::ShowHelp);
    assert_eq!(key_to_action(plain(Key::Char('z'))), Action::InsertChar('z'));
    assert_eq!(key_to_action(plain(Key::Up)), Action::ScrollUp);
    assert_eq!(key_to_action(plain(Key::Other)), Action::NoOp);
}
