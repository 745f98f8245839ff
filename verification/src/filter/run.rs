//! How the interactive filter reacts to a key press.

use vstd::prelude::*;

use super::app::{clamped, FilterApp, Outcome};
use super::FilterOptions;
use crate::input::editor::{edit_fits, spec_after_edit, spec_after_motion, EditOp, Motion};
use crate::input::{Key, KeyPress};

verus! {

/// What a key press does in the filter.
#[derive(Debug, Clone, Copy, PartialEq, Eq, Structural)]
pub enum FilterKeyEffect {
    Discard,
    Emit,
    SelectPrev,
    SelectNext,
    ToggleCase,
    ToggleInvert,
    Edit(EditOp),
    Move(Motion),
    Ignore,
}

/// Esc, plain `q` and Ctrl+C discard; Enter emits; Up and Down move the
/// selection; Alt+i and Alt+v toggle case and inversion; Backspace deletes;
/// arrows, Home and End move the cursor; other characters without Ctrl are
/// typed.
pub open spec fn spec_filter_key(key: KeyPress) -> FilterKeyEffect {
    match key.code {
        Key::Esc => FilterKeyEffect::Discard,
        Key::Char(c) => if c == 'q' && key.spec_plain() {
            FilterKeyEffect::Discard
        } else if c == 'c' && key.ctrl {
            FilterKeyEffect::Discard
        } else if c == 'i' && key.alt {
            FilterKeyEffect::ToggleCase
        } else if c == 'v' && key.alt {
            FilterKeyEffect::ToggleInvert
        } else if !key.ctrl {
            FilterKeyEffect::Edit(EditOp::InsertChar(c))
        } else {
            FilterKeyEffect::Ignore
        },
        Key::Enter => FilterKeyEffect::Emit,
        Key::Up => FilterKeyEffect::SelectPrev,
        Key::Down => FilterKeyEffect::SelectNext,
        Key::Backspace => FilterKeyEffect::Edit(EditOp::DeleteBack),
        Key::Left => FilterKeyEffect::Move(Motion::Left),
        Key::Right => FilterKeyEffect::Move(Motion::Right),
        Key::Home => FilterKeyEffect::Move(Motion::Home),
        Key::End => FilterKeyEffect::Move(Motion::End),
        _ => FilterKeyEffect::Ignore,
    }
}

/// What a key press does in the filter.
pub fn filter_key_effect(key: KeyPress) -> (r: FilterKeyEffect)
    ensures
        r == spec_filter_key(key),
{
    match key.code {
        Key::Esc => FilterKeyEffect::Discard,
        Key::Char(c) => {
            if c == 'q' && !key.ctrl && !key.alt && !key.other_modifiers {
                FilterKeyEffect::Discard
            } else if c == 'c' && key.ctrl {
                FilterKeyEffect::Discard
            } else if c == 'i' && key.alt {
                FilterKeyEffect::ToggleCase
            } else if c == 'v' && key.alt {
                FilterKeyEffect::ToggleInvert
            } else if !key.ctrl {
                FilterKeyEffect::Edit(EditOp::InsertChar(c))
            } else {
                FilterKeyEffect::Ignore
            }
        },
        Key::Enter => FilterKeyEffect::Emit,
        Key::Up => FilterKeyEffect::SelectPrev,
        Key::Down => FilterKeyEffect::SelectNext,
        Key::Backspace => FilterKeyEffect::Edit(EditOp::DeleteBack),
        Key::Left => FilterKeyEffect::Move(Motion::Left),
        Key::Right => FilterKeyEffect::Move(Motion::Right),
        Key::Home => FilterKeyEffect::Move(Motion::Home),
        Key::End => FilterKeyEffect::Move(Motion::End),
        _ => FilterKeyEffect::Ignore,
    }
}

/// Applies a key press to the filter.
pub fn handle_key(app: &mut FilterApp, key: KeyPress)
    requires
        old(app).wf(),
        spec_filter_key(key) matches FilterKeyEffect::Edit(op) ==> edit_fits(old(app).pattern_editor@, op),
    ensures
        final(app).wf(),
        (match spec_filter_key(key) {
            FilterKeyEffect::Discard => *final(app) == (FilterApp {
                outcome: Outcome::Discard,
                should_quit: true,
                ..*old(app)
            }),
            FilterKeyEffect::Emit => *final(app) == (FilterApp {
                outcome: Outcome::Emit,
                should_quit: true,
                ..*old(app)
            }),
            FilterKeyEffect::SelectPrev => *final(app) == (FilterApp {
                selected: if old(app).selected > 0 {
                    (old(app).selected - 1) as usize
                } else {
                    0
                },
                ..*old(app)
            }),
            FilterKeyEffect::SelectNext => *final(app) == (FilterApp {
                selected: if old(app).matched@.len() > 0 && old(app).selected < old(app).matched@.len() - 1 {
                    (old(app).selected + 1) as usize
                } else {
                    old(app).selected
                },
                ..*old(app)
            }),
            FilterKeyEffect::ToggleCase => final(app).results_current() && final(app).options == (FilterOptions {
                case_insensitive: !old(app).options.case_insensitive,
                ..old(app).options
            }) && final(app).flags().case_insensitive == final(app).options.case_insensitive
                && final(app).pattern_editor == old(app).pattern_editor,
            FilterKeyEffect::ToggleInvert => final(app).results_current() && final(app).options == (FilterOptions {
                invert: !old(app).options.invert,
                ..old(app).options
            }) && final(app).flags() == old(app).flags() && final(app).pattern_editor == old(app).pattern_editor,
            FilterKeyEffect::Edit(op) => final(app).results_current() && final(app).pattern_editor@ == spec_after_edit(
                old(app).pattern_editor@,
                op,
            ) && final(app).options == old(app).options && final(app).flags() == old(app).flags()
                && final(app).outcome == old(app).outcome && final(app).should_quit == old(app).should_quit
                && (!final(app).compile_failed() ==> (final(app).selected, final(app).scroll) == clamped(
                old(app).selected,
                old(app).scroll,
                final(app).matched@.len(),
            )),
            FilterKeyEffect::Move(m) => *final(app) == (FilterApp { pattern_editor: final(app).pattern_editor, ..*old(app) })
                && final(app).pattern_editor@ == spec_after_motion(old(app).pattern_editor@, m),
            FilterKeyEffect::Ignore => *final(app) == *old(app),
        }),
{
    match filter_key_effect(key) {
        FilterKeyEffect::Discard => {
            app.outcome = Outcome::Discard;
            app.should_quit = true;
        },
        FilterKeyEffect::Emit => {
            app.outcome = Outcome::Emit;
            app.should_quit = true;
        },
        FilterKeyEffect::SelectPrev => app.select_prev(),
        FilterKeyEffect::SelectNext => app.select_next(),
        FilterKeyEffect::ToggleCase => app.toggle_case_insensitive(),
        FilterKeyEffect::ToggleInvert => app.toggle_invert(),
        FilterKeyEffect::Edit(op) => {
            app.pattern_editor.apply_edit(op);
            app.recompute();
        },
        FilterKeyEffect::Move(m) => app.pattern_editor.apply_motion(m),
        FilterKeyEffect::Ignore => {},
    }
}

} // verus!
