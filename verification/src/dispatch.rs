//! How the tester reacts to a key press: open overlays take the key first
//! (help, recipes, benchmark results, code generation, the debugger), then
//! the key's action applies to the focused panel.

use vstd::prelude::*;

use crate::app::{
    current_attempt, first_backtrack, first_later_attempt, history_committed, next_selection, prev_selection, recompute_post,
    rematch_post, replace_view, selection_line, spec_replace_result, App, PANEL_COUNT, PANEL_EXPLAIN, PANEL_MATCHES, PANEL_REGEX, PANEL_REPLACE,
    PANEL_TEST,
};
use crate::codegen::Language;
use crate::engine::pcre2_debug::DebugSession;
use crate::engine::RegexEngine;
use crate::input::editor::spec_after_motion;
use crate::engine::EngineFlags;
use crate::input::editor::{edit_fits, spec_after_edit, EditOp, Motion};
use crate::input::{key_to_action, spec_key_to_action, Action, Key, KeyPress};
use crate::recipe::{recipes, spec_recipes};

verus! {

/// The number of pages of the help overlay.
pub const HELP_PAGE_COUNT: usize = 1;

/// The number of built-in recipes.
pub const RECIPE_COUNT: usize = 18;

/// The number of languages code can be generated for.
pub const LANGUAGE_COUNT: usize = 8;

/// Where a key press goes.
#[derive(Debug, Clone, Copy, PartialEq, Eq, Structural)]
pub enum Route {
    HelpPrev,
    HelpNext,
    HelpClose,
    RecipeUp,
    RecipeDown,
    RecipeLoad,
    RecipeClose,
    BenchmarkClose,
    CodegenUp,
    CodegenDown,
    CodegenRun,
    CodegenClose,
    DebugForward,
    DebugBack,
    DebugStart,
    DebugEnd,
    DebugNextMatch,
    DebugNextBacktrack,
    DebugHeatmap,
    DebugClose,
    DebugIgnore,
    Act(Action),
}

/// Where a key press goes: to the first open overlay, or to its action.
pub open spec fn spec_route(app: App, key: KeyPress) -> Route {
    if app.show_help {
        match key.code {
            Key::Left => Route::HelpPrev,
            Key::Right => Route::HelpNext,
            _ => Route::HelpClose,
        }
    } else if app.show_recipes {
        match key.code {
            Key::Up => Route::RecipeUp,
            Key::Down => Route::RecipeDown,
            Key::Enter => Route::RecipeLoad,
            _ => Route::RecipeClose,
        }
    } else if app.show_benchmark {
        Route::BenchmarkClose
    } else if app.show_codegen {
        match key.code {
            Key::Up => Route::CodegenUp,
            Key::Down => Route::CodegenDown,
            Key::Enter => Route::CodegenRun,
            _ => Route::CodegenClose,
        }
    } else if app.debug_session is Some {
        match key.code {
            Key::Right => Route::DebugForward,
            Key::Left => Route::DebugBack,
            Key::Home => Route::DebugStart,
            Key::End => Route::DebugEnd,
            Key::Esc => Route::DebugClose,
            Key::Char(c) => if c == 'l' {
                Route::DebugForward
            } else if c == 'h' {
                Route::DebugBack
            } else if c == 'G' {
                Route::DebugEnd
            } else if c == 'g' {
                Route::DebugStart
            } else if c == 'm' {
                Route::DebugNextMatch
            } else if c == 'f' {
                Route::DebugNextBacktrack
            } else if c == 'H' {
                Route::DebugHeatmap
            } else if c == 'q' {
                Route::DebugClose
            } else {
                Route::DebugIgnore
            },
            _ => Route::DebugIgnore,
        }
    } else {
        Route::Act(spec_key_to_action(key))
    }
}

/// Where a key press goes.
pub fn route(app: &App, key: KeyPress) -> (r: Route)
    ensures
        r == spec_route(*app, key),
{
    if app.show_help {
        match key.code {
            Key::Left => Route::HelpPrev,
            Key::Right => Route::HelpNext,
            _ => Route::HelpClose,
        }
    } else if app.show_recipes {
        match key.code {
            Key::Up => Route::RecipeUp,
            Key::Down => Route::RecipeDown,
            Key::Enter => Route::RecipeLoad,
            _ => Route::RecipeClose,
        }
    } else if app.show_benchmark {
        Route::BenchmarkClose
    } else if app.show_codegen {
        match key.code {
            Key::Up => Route::CodegenUp,
            Key::Down => Route::CodegenDown,
            Key::Enter => Route::CodegenRun,
            _ => Route::CodegenClose,
        }
    } else if app.debug_session.is_some() {
        match key.code {
            Key::Right => Route::DebugForward,
            Key::Left => Route::DebugBack,
            Key::Home => Route::DebugStart,
            Key::End => Route::DebugEnd,
            Key::Esc => Route::DebugClose,
            Key::Char(c) => {
                if c == 'l' {
                    Route::DebugForward
                } else if c == 'h' {
                    Route::DebugBack
                } else if c == 'G' {
                    Route::DebugEnd
                } else if c == 'g' {
                    Route::DebugStart
                } else if c == 'm' {
                    Route::DebugNextMatch
                } else if c == 'f' {
                    Route::DebugNextBacktrack
                } else if c == 'H' {
                    Route::DebugHeatmap
                } else if c == 'q' {
                    Route::DebugClose
                } else {
                    Route::DebugIgnore
                }
            },
            _ => Route::DebugIgnore,
        }
    } else {
        Route::Act(key_to_action(key))
    }
}

/// The editor edit an action stands for, if it is one.
pub open spec fn action_edit(a: Action) -> Option<EditOp> {
    match a {
        Action::InsertChar(c) => Some(EditOp::InsertChar(c)),
        Action::DeleteBack => Some(EditOp::DeleteBack),
        Action::DeleteForward => Some(EditOp::DeleteForward),
        _ => None,
    }
}

/// The cursor move an action stands for, if it is one.
pub open spec fn action_motion(a: Action) -> Option<Motion> {
    match a {
        Action::MoveCursorLeft => Some(Motion::Left),
        Action::MoveCursorRight => Some(Motion::Right),
        Action::MoveCursorHome => Some(Motion::Home),
        Action::MoveCursorEnd => Some(Motion::End),
        _ => None,
    }
}

/// The flags after a toggle action.
pub open spec fn toggled_flags(f: EngineFlags, a: Action) -> EngineFlags {
    match a {
        Action::ToggleCaseInsensitive => EngineFlags { case_insensitive: !f.case_insensitive, ..f },
        Action::ToggleMultiLine => EngineFlags { multi_line: !f.multi_line, ..f },
        Action::ToggleDotAll => EngineFlags { dot_matches_newline: !f.dot_matches_newline, ..f },
        Action::ToggleUnicode => EngineFlags { unicode: !f.unicode, ..f },
        Action::ToggleExtended => EngineFlags { extended: !f.extended, ..f },
        _ => f,
    }
}

pub open spec fn is_toggle(a: Action) -> bool {
    a is ToggleCaseInsensitive || a is ToggleMultiLine || a is ToggleDotAll || a is ToggleUnicode || a is ToggleExtended
}

/// The text fields have room for one more character.
pub open spec fn room_to_type(app: App) -> bool {
    &&& app.regex_editor@.content.len() + 1 < usize::MAX
    &&& app.test_editor@.content.len() + 1 < usize::MAX
    &&& app.replace_editor@.content.len() + 1 < usize::MAX
}

/// What the simple routes do to the state; the routes that recompile,
/// search or use the clipboard are described by the functions they call.
pub open spec fn simple_route_effect(pre: App, post: App, r: Route) -> bool {
    match r {
        Route::HelpPrev => post == (App {
            help_page: if pre.help_page > 0 {
                (pre.help_page - 1) as usize
            } else {
                0
            },
            ..pre
        }),
        Route::HelpNext => post == (App {
            help_page: if pre.help_page + 1 < HELP_PAGE_COUNT {
                (pre.help_page + 1) as usize
            } else {
                pre.help_page
            },
            ..pre
        }),
        Route::HelpClose => post == (App { show_help: false, help_page: 0, ..pre }),
        Route::RecipeUp => post == (App {
            recipe_index: if pre.recipe_index > 0 {
                (pre.recipe_index - 1) as usize
            } else {
                0
            },
            ..pre
        }),
        Route::RecipeDown => post == (App {
            recipe_index: if pre.recipe_index + 1 < RECIPE_COUNT {
                (pre.recipe_index + 1) as usize
            } else {
                pre.recipe_index
            },
            ..pre
        }),
        Route::RecipeClose => post == (App { show_recipes: false, ..pre }),
        Route::BenchmarkClose => post == (App { show_benchmark: false, ..pre }),
        Route::CodegenUp => post == (App {
            codegen_language_index: if pre.codegen_language_index > 0 {
                (pre.codegen_language_index - 1) as usize
            } else {
                0
            },
            ..pre
        }),
        Route::CodegenDown => post == (App {
            codegen_language_index: if pre.codegen_language_index + 1 < LANGUAGE_COUNT {
                (pre.codegen_language_index + 1) as usize
            } else {
                pre.codegen_language_index
            },
            ..pre
        }),
        Route::CodegenClose => post == (App { show_codegen: false, ..pre }),
        Route::DebugIgnore => post == pre,
        Route::Act(Action::Quit) => post == (App { should_quit: true, ..pre }),
        Route::Act(Action::ShowHelp) => post == (App { show_help: true, ..pre }),
        Route::Act(Action::NoOp) => post == pre,
        _ => true,
    }
}

/// What an edit does to the focused field: the pattern is recompiled, the
/// text searched again, the replacement applied again; other panels do not
/// take edits.
pub open spec fn edit_effect(pre: App, post: App, op: EditOp) -> bool {
    &&& pre.focused_panel == PANEL_REGEX ==> post.regex_editor@ == spec_after_edit(pre.regex_editor@, op)
        && recompute_post(App { regex_editor: post.regex_editor, ..pre }, post)
    &&& pre.focused_panel == PANEL_TEST ==> post.test_editor@ == spec_after_edit(pre.test_editor@, op)
        && rematch_post(App { test_editor: post.test_editor, ..pre }, post)
    &&& pre.focused_panel == PANEL_REPLACE ==> post.replace_editor@ == spec_after_edit(pre.replace_editor@, op)
        && replace_view(post.replace_result) == spec_replace_result(
        post.template_view(),
        pre.text_view(),
        pre.matches_view(),
    ) && post == (App { replace_editor: post.replace_editor, replace_result: post.replace_result, ..pre })
    &&& pre.focused_panel > PANEL_REPLACE ==> post == pre
}

/// What a cursor move does to the focused field; nothing else changes.
pub open spec fn motion_effect(pre: App, post: App, m: Motion) -> bool {
    &&& pre.focused_panel == PANEL_REGEX ==> post == (App { regex_editor: post.regex_editor, ..pre })
        && post.regex_editor@ == spec_after_motion(pre.regex_editor@, m)
    &&& pre.focused_panel == PANEL_TEST ==> post == (App { test_editor: post.test_editor, ..pre })
        && post.test_editor@ == spec_after_motion(pre.test_editor@, m)
    &&& pre.focused_panel == PANEL_REPLACE ==> post == (App { replace_editor: post.replace_editor, ..pre })
        && post.replace_editor@ == spec_after_motion(pre.replace_editor@, m)
    &&& pre.focused_panel > PANEL_REPLACE ==> post == pre
}

/// What scrolling does: the match list moves its selection, the
/// explanation its view, the test text its cursor by a line; other panels
/// do not scroll.
pub open spec fn scroll_effect(pre: App, post: App, up: bool) -> bool {
    &&& pre.focused_panel == PANEL_MATCHES && pre.matches@.len() > 0 ==> {
        let (sel, cap) = if up {
            prev_selection(pre.matches_view(), pre.selected_match, pre.selected_capture)
        } else {
            next_selection(pre.matches_view(), pre.selected_match, pre.selected_capture)
        };
        post == (App {
            selected_match: sel,
            selected_capture: cap,
            match_scroll: selection_line(pre.matches_view(), sel, cap),
            ..pre
        })
    }
    &&& pre.focused_panel == PANEL_EXPLAIN ==> post == (App {
        explain_scroll: if up {
            if pre.explain_scroll > 0 {
                (pre.explain_scroll - 1) as u16
            } else {
                0
            }
        } else if pre.explain_scroll < u16::MAX {
            (pre.explain_scroll + 1) as u16
        } else {
            pre.explain_scroll
        },
        ..pre
    })
    &&& pre.focused_panel == PANEL_TEST ==> post == (App { test_editor: post.test_editor, ..pre })
        && post.test_editor@.content == pre.test_editor@.content
    &&& (pre.focused_panel == PANEL_REGEX || pre.focused_panel == PANEL_REPLACE || (pre.focused_panel == PANEL_MATCHES
        && pre.matches@.len() == 0) || pre.focused_panel > PANEL_EXPLAIN) ==> post == pre
}

/// What the actions that neither toggle, edit nor move a cursor do beyond
/// the simple routes: switching the engine recompiles on the next engine,
/// a new line goes into the test text, scrolling scrolls.
pub open spec fn other_action_effect(pre: App, post: App, a: Action) -> bool {
    match a {
        Action::SwitchEngine => recompute_post(
            App {
                engine_kind: pre.engine_kind.spec_next(),
                engine: RegexEngine { kind: pre.engine_kind.spec_next(), pcre2_10_45: pre.engine.pcre2_10_45 },
                ..pre
            },
            post,
        ),
        Action::InsertNewline => if pre.focused_panel == PANEL_TEST {
            post.test_editor@ == spec_after_edit(pre.test_editor@, EditOp::InsertNewline) && rematch_post(
                App { test_editor: post.test_editor, ..pre },
                post,
            )
        } else {
            post == pre
        },
        Action::SwitchPanel => {
            let committed = App { focused_panel: pre.focused_panel, ..post };
            &&& post.focused_panel == (pre.focused_panel + 1) % (PANEL_COUNT as int)
            &&& pre.focused_panel == PANEL_REGEX ==> history_committed(pre, committed)
            &&& pre.focused_panel != PANEL_REGEX ==> committed == pre
        },
        Action::ScrollUp => scroll_effect(pre, post, true),
        Action::ScrollDown => scroll_effect(pre, post, false),
        _ => true,
    }
}

/// What an action does to the tester: a toggle recompiles with the toggled
/// flag; edits, cursor moves and the other actions as described above.
pub open spec fn action_effect(pre: App, post: App, a: Action) -> bool {
    if is_toggle(a) {
        recompute_post(App { flags: toggled_flags(pre.flags, a), ..pre }, post)
    } else {
        match action_edit(a) {
            Some(op) => edit_effect(pre, post, op),
            None => match action_motion(a) {
                Some(m) => motion_effect(pre, post, m),
                None => other_action_effect(pre, post, a),
            },
        }
    }
}

/// Where a debugger key moves the session.
pub open spec fn debug_session_after(s: DebugSession, r: Route) -> DebugSession {
    let n = s.trace.steps@.len();
    match r {
        Route::DebugForward => DebugSession {
            step: if s.step + 1 < n {
                (s.step + 1) as usize
            } else {
                s.step
            },
            ..s
        },
        Route::DebugBack => DebugSession {
            step: if s.step > 0 {
                (s.step - 1) as usize
            } else {
                0
            },
            ..s
        },
        Route::DebugStart => DebugSession { step: 0, ..s },
        Route::DebugEnd => DebugSession {
            step: if n > 0 {
                (n - 1) as usize
            } else {
                s.step
            },
            ..s
        },
        Route::DebugNextMatch => DebugSession {
            step: match first_later_attempt(s.trace.steps@, s.step + 1, current_attempt(s)) {
                Some(i) => i,
                None => s.step,
            },
            ..s
        },
        Route::DebugNextBacktrack => DebugSession {
            step: match first_backtrack(s.trace.steps@, s.step + 1) {
                Some(i) => i,
                None => s.step,
            },
            ..s
        },
        Route::DebugHeatmap => DebugSession { show_heatmap: !s.show_heatmap, ..s },
        _ => s,
    }
}

/// What the debugger keys do: move within the session (or close it,
/// keeping it to reopen); nothing else changes.
pub open spec fn debug_route_effect(pre: App, post: App, r: Route) -> bool {
    match r {
        Route::DebugClose => post == (App { debug_session: None, debug_cache: pre.debug_session, ..pre }),
        Route::DebugForward | Route::DebugBack | Route::DebugStart | Route::DebugEnd | Route::DebugNextMatch
        | Route::DebugNextBacktrack | Route::DebugHeatmap => post == (App {
            debug_session: match pre.debug_session {
                Some(s) => Some(debug_session_after(s, r)),
                None => None,
            },
            ..pre
        }),
        _ => true,
    }
}

/// The selected recipe's text and pattern are in the tester.
pub open spec fn recipe_loaded(pre: App, post: App) -> bool {
    let rc = spec_recipes()[pre.recipe_index as int];
    rc.test_string@.len() < usize::MAX && rc.pattern@.len() < usize::MAX ==> post.text_view() == rc.test_string@
        && post.pattern_view() == rc.pattern@
}

pub open spec fn is_simple_route(r: Route) -> bool {
    !(r is RecipeLoad || r is CodegenRun || r is Act || r is DebugForward || r is DebugBack || r is DebugStart
        || r is DebugEnd || r is DebugNextMatch || r is DebugNextBacktrack || r is DebugHeatmap || r is DebugClose)
}

impl App {
    /// Reacts to a key press.
    pub fn handle_key(&mut self, key: KeyPress)
        requires
            old(self).wf(),
            room_to_type(*old(self)),
        ensures
            final(self).wf(),
            simple_route_effect(*old(self), *final(self), spec_route(*old(self), key)),
            (match spec_route(*old(self), key) {
                Route::Act(a) => action_effect(*old(self), *final(self), a),
                _ => true,
            }),
            spec_route(*old(self), key) == Route::Act(Action::SwitchPanel) ==> final(self).focused_panel == (
            old(self).focused_panel + 1) % (PANEL_COUNT as int),
            debug_route_effect(*old(self), *final(self), spec_route(*old(self), key)),
            spec_route(*old(self), key) == Route::RecipeLoad ==> !final(self).show_recipes && recipe_loaded(
                *old(self),
                *final(self),
            ),
            spec_route(*old(self), key) == Route::CodegenRun ==> *final(self) == (App {
                clipboard_status: final(self).clipboard_status,
                clipboard_status_ticks: final(self).clipboard_status_ticks,
                show_codegen: old(self).pattern_view().len() == 0,
                ..*old(self)
            }),
    {
        let r = route(self, key);
        match r {
            Route::Act(a) => self.apply_action(a),
            Route::RecipeLoad => self.load_recipe(),
            Route::CodegenRun => {
                let langs = Language::all();
                let lang = langs[self.codegen_language_index];
                self.generate_code(&lang);
            },
            Route::DebugForward => self.debug_step_forward(),
            Route::DebugBack => self.debug_step_back(),
            Route::DebugStart => self.debug_jump_start(),
            Route::DebugEnd => self.debug_jump_end(),
            Route::DebugNextMatch => self.debug_next_match(),
            Route::DebugNextBacktrack => self.debug_next_backtrack(),
            Route::DebugHeatmap => self.debug_toggle_heatmap(),
            Route::DebugClose => self.close_debug(),
            _ => self.apply_simple_route(r),
        }
    }

    /// The routes that only move a cursor or close an overlay.
    #[verifier::rlimit(30)]
    fn apply_simple_route(&mut self, r: Route)
        requires
            old(self).wf(),
            is_simple_route(r),
        ensures
            final(self).wf(),
            simple_route_effect(*old(self), *final(self), r),
    {
        match r {
            Route::HelpPrev => {
                self.help_page = self.help_page.saturating_sub(1);
            },
            Route::HelpNext => {
                if self.help_page < HELP_PAGE_COUNT - 1 {
                    self.help_page = self.help_page + 1;
                }
            },
            Route::HelpClose => {
                self.show_help = false;
                self.help_page = 0;
            },
            Route::RecipeUp => {
                self.recipe_index = self.recipe_index.saturating_sub(1);
            },
            Route::RecipeDown => {
                if self.recipe_index < RECIPE_COUNT - 1 {
                    self.recipe_index = self.recipe_index + 1;
                }
            },
            Route::RecipeClose => {
                self.show_recipes = false;
            },
            Route::BenchmarkClose => {
                self.show_benchmark = false;
            },
            Route::CodegenUp => {
                self.codegen_language_index = self.codegen_language_index.saturating_sub(1);
            },
            Route::CodegenDown => {
                if self.codegen_language_index < LANGUAGE_COUNT - 1 {
                    self.codegen_language_index = self.codegen_language_index + 1;
                }
            },
            Route::CodegenClose => {
                self.show_codegen = false;
            },
            _ => {},
        }
    }

    /// Loads the selected recipe: its text, then its pattern, and closes
    /// the recipe list.
    fn load_recipe(&mut self)
        requires
            old(self).wf(),
            old(self).recipe_index < RECIPE_COUNT,
        ensures
            final(self).wf(),
            !final(self).show_recipes,
            recipe_loaded(*old(self), *final(self)),
    {
        let list = recipes();
        let recipe = list[self.recipe_index];
        // a text of usize::MAX characters cannot exist; this comparison only
        // tells the verifier so
        if recipe.test_string.unicode_len() < usize::MAX && recipe.pattern.unicode_len() < usize::MAX {
            self.load_texts(recipe.test_string, recipe.pattern);
        }
        self.show_recipes = false;
    }

    /// Puts a text and a pattern into the tester.
    fn load_texts(&mut self, text: &str, pattern: &str)
        requires
            old(self).wf(),
            text@.len() < usize::MAX,
            pattern@.len() < usize::MAX,
        ensures
            final(self).wf(),
            final(self).text_view() == text@,
            final(self).pattern_view() == pattern@,
    {
        self.set_test_string(text);
        self.set_pattern(pattern);
    }

    /// Applies a key's action to the focused panel.
    fn apply_action(&mut self, a: Action)
        requires
            old(self).wf(),
            room_to_type(*old(self)),
            old(self).focused_panel < u8::MAX,
        ensures
            final(self).wf(),
            simple_route_effect(*old(self), *final(self), Route::Act(a)),
            action_effect(*old(self), *final(self), a),
            a == Action::SwitchPanel ==> final(self).focused_panel == (old(self).focused_panel + 1) % (PANEL_COUNT as int),
    {
        if is_toggle_action(a) {
            self.apply_toggle(a);
        } else {
            match edit_of(a) {
                Some(op) => self.apply_edit(a, op),
                None => match motion_of(a) {
                    Some(m) => self.apply_motion(a, m),
                    None => self.apply_other(a),
                },
            }
        }
    }

    /// An action that edits the focused field.
    fn apply_edit(&mut self, a: Action, op: EditOp)
        requires
            old(self).wf(),
            room_to_type(*old(self)),
            !is_toggle(a),
            action_edit(a) == Some(op),
        ensures
            final(self).wf(),
            simple_route_effect(*old(self), *final(self), Route::Act(a)),
            action_effect(*old(self), *final(self), a),
    {
        self.edit_focused(op);
    }

    /// An action that moves the cursor of the focused field.
    fn apply_motion(&mut self, a: Action, m: Motion)
        requires
            old(self).wf(),
            !is_toggle(a),
            action_edit(a) is None,
            action_motion(a) == Some(m),
        ensures
            final(self).wf(),
            simple_route_effect(*old(self), *final(self), Route::Act(a)),
            action_effect(*old(self), *final(self), a),
    {
        self.move_focused(m);
    }

    /// The actions that neither toggle a flag, edit nor move a cursor.
    fn apply_other(&mut self, a: Action)
        requires
            old(self).wf(),
            room_to_type(*old(self)),
            old(self).focused_panel < u8::MAX,
            !is_toggle(a),
            action_edit(a) is None,
            action_motion(a) is None,
        ensures
            final(self).wf(),
            simple_route_effect(*old(self), *final(self), Route::Act(a)),
            other_action_effect(*old(self), *final(self), a),
            a == Action::SwitchPanel ==> final(self).focused_panel == (old(self).focused_panel + 1) % (PANEL_COUNT as int),
    {
        match a {
            Action::Quit => {
                self.should_quit = true;
            },
            Action::SwitchPanel => self.switch_panel(),
            Action::SwitchEngine => self.switch_engine(),
            Action::ShowHelp => {
                self.show_help = true;
            },
            Action::InsertNewline => self.insert_newline(),
            Action::ScrollUp => self.scroll_focused(true),
            Action::ScrollDown => self.scroll_focused(false),
            _ => {},
        }
    }

    /// Moves the focus to the next panel, committing the pattern to the
    /// history when leaving the pattern field.
    fn switch_panel(&mut self)
        requires
            old(self).wf(),
            old(self).focused_panel < u8::MAX,
        ensures
            final(self).wf(),
            other_action_effect(*old(self), *final(self), Action::SwitchPanel),
            final(self).focused_panel == (old(self).focused_panel + 1) % (PANEL_COUNT as int),
    {
        if self.focused_panel == PANEL_REGEX {
            self.commit_pattern_to_history();
        }
        self.focused_panel = (self.focused_panel + 1) % PANEL_COUNT;
    }

    /// A new line goes into the test text when it has the focus.
    fn insert_newline(&mut self)
        requires
            old(self).wf(),
            room_to_type(*old(self)),
        ensures
            final(self).wf(),
            other_action_effect(*old(self), *final(self), Action::InsertNewline),
    {
        if self.focused_panel == PANEL_TEST {
            self.test_editor.insert_newline();
            self.rematch();
        }
    }

    /// Toggles the flag an action names and recompiles.
    fn apply_toggle(&mut self, a: Action)
        requires
            old(self).wf(),
            is_toggle(a),
        ensures
            final(self).wf(),
            recompute_post(App { flags: toggled_flags(old(self).flags, a), ..*old(self) }, *final(self)),
            simple_route_effect(*old(self), *final(self), Route::Act(a)),
            action_effect(*old(self), *final(self), a),
    {
        let flags = toggle_flag(self.flags, a);
        self.flags = flags;
        self.recompute();
    }

    /// Scrolls the focused panel up or down: the test text moves its cursor
    /// a line, the match list its selection, the explanation its view.
    fn scroll_focused(&mut self, up: bool)
        requires
            old(self).wf(),
        ensures
            final(self).wf(),
            scroll_effect(*old(self), *final(self), up),
    {
        if self.focused_panel == PANEL_TEST {
            if up {
                self.test_editor.move_up();
            } else {
                self.test_editor.move_down();
            }
        } else if self.focused_panel == PANEL_MATCHES {
            if up {
                self.select_match_prev();
            } else {
                self.select_match_next();
            }
        } else if self.focused_panel == PANEL_EXPLAIN {
            if up {
                self.scroll_explain_up();
            } else {
                self.scroll_explain_down();
            }
        }
    }
}

fn toggle_flag(f: EngineFlags, a: Action) -> (r: EngineFlags)
    ensures
        r == toggled_flags(f, a),
{
    let mut r = f;
    match a {
        Action::ToggleCaseInsensitive => r.toggle_case_insensitive(),
        Action::ToggleMultiLine => r.toggle_multi_line(),
        Action::ToggleDotAll => r.toggle_dot_matches_newline(),
        Action::ToggleUnicode => r.toggle_unicode(),
        Action::ToggleExtended => r.toggle_extended(),
        _ => {},
    }
    r
}

fn edit_of(a: Action) -> (r: Option<EditOp>)
    ensures
        r == action_edit(a),
{
    match a {
        Action::InsertChar(c) => Some(EditOp::InsertChar(c)),
        Action::DeleteBack => Some(EditOp::DeleteBack),
        Action::DeleteForward => Some(EditOp::DeleteForward),
        _ => None,
    }
}

fn motion_of(a: Action) -> (r: Option<Motion>)
    ensures
        r == action_motion(a),
{
    match a {
        Action::MoveCursorLeft => Some(Motion::Left),
        Action::MoveCursorRight => Some(Motion::Right),
        Action::MoveCursorHome => Some(Motion::Home),
        Action::MoveCursorEnd => Some(Motion::End),
        _ => None,
    }
}

fn is_toggle_action(a: Action) -> (r: bool)
    ensures
        r == is_toggle(a),
{
    match a {
        Action::ToggleCaseInsensitive | Action::ToggleMultiLine | Action::ToggleDotAll | Action::ToggleUnicode
        | Action::ToggleExtended => true,
        _ => false,
    }
}

/// A rectangle of the screen, in cells.
#[derive(Debug, Clone, Copy, PartialEq, Eq, Structural)]
pub struct Cells {
    pub x: u16,
    pub y: u16,
    pub width: u16,
    pub height: u16,
}

pub open spec fn cells_contain(r: Cells, col: u16, row: u16) -> bool {
    r.x <= col < r.x + r.width && r.y <= row < r.y + r.height
}

fn contains(r: Cells, col: u16, row: u16) -> (b: bool)
    ensures
        b == cells_contain(r, col, row),
{
    col >= r.x && (col as u32) < (r.x as u32) + (r.width as u32) && row >= r.y && (row as u32) < (r.y as u32) + (
    r.height as u32)
}

/// Where the panels of the tester are on the screen.
#[derive(Debug, Clone, Copy, PartialEq, Eq, Structural)]
pub struct PanelAreas {
    pub regex: Cells,
    pub test: Cells,
    pub replace: Cells,
    pub matches: Cells,
    pub explain: Cells,
}

/// A mouse event, as far as the tester reads it.
#[derive(Debug, Clone, Copy, PartialEq, Eq, Structural)]
pub enum MouseInput {
    LeftClick,
    ScrollUp,
    ScrollDown,
    Other,
}

/// What a mouse event does.
#[derive(Debug, Clone, Copy, PartialEq, Eq, Structural)]
pub enum MouseEffect {
    /// Focus the panel.
    Focus(u8),
    /// Move the test text's cursor a line up or down.
    TestLineUp,
    TestLineDown,
    /// Select the previous or next match or capture.
    PreviousMatch,
    NextMatch,
    /// Scroll the explanation.
    ExplainUp,
    ExplainDown,
    Nothing,
}

/// A left click focuses the panel under the pointer (the pattern, the test
/// text, the replacement, the matches, the explanation, in that order of
/// precedence); the wheel moves the cursor of the test text, the selection
/// of the matches, or the explanation, whichever is under the pointer.
pub open spec fn spec_mouse_effect(a: PanelAreas, input: MouseInput, col: u16, row: u16) -> MouseEffect {
    match input {
        MouseInput::LeftClick => if cells_contain(a.regex, col, row) {
            MouseEffect::Focus(PANEL_REGEX)
        } else if cells_contain(a.test, col, row) {
            MouseEffect::Focus(PANEL_TEST)
        } else if cells_contain(a.replace, col, row) {
            MouseEffect::Focus(PANEL_REPLACE)
        } else if cells_contain(a.matches, col, row) {
            MouseEffect::Focus(PANEL_MATCHES)
        } else if cells_contain(a.explain, col, row) {
            MouseEffect::Focus(PANEL_EXPLAIN)
        } else {
            MouseEffect::Nothing
        },
        MouseInput::ScrollUp => if cells_contain(a.test, col, row) {
            MouseEffect::TestLineUp
        } else if cells_contain(a.matches, col, row) {
            MouseEffect::PreviousMatch
        } else if cells_contain(a.explain, col, row) {
            MouseEffect::ExplainUp
        } else {
            MouseEffect::Nothing
        },
        MouseInput::ScrollDown => if cells_contain(a.test, col, row) {
            MouseEffect::TestLineDown
        } else if cells_contain(a.matches, col, row) {
            MouseEffect::NextMatch
        } else if cells_contain(a.explain, col, row) {
            MouseEffect::ExplainDown
        } else {
            MouseEffect::Nothing
        },
        MouseInput::Other => MouseEffect::Nothing,
    }
}

/// What a mouse event at a cell does.
pub fn mouse_effect(a: &PanelAreas, input: MouseInput, col: u16, row: u16) -> (r: MouseEffect)
    ensures
        r == spec_mouse_effect(*a, input, col, row),
{
    match input {
        MouseInput::LeftClick => if contains(a.regex, col, row) {
            MouseEffect::Focus(PANEL_REGEX)
        } else if contains(a.test, col, row) {
            MouseEffect::Focus(PANEL_TEST)
        } else if contains(a.replace, col, row) {
            MouseEffect::Focus(PANEL_REPLACE)
        } else if contains(a.matches, col, row) {
            MouseEffect::Focus(PANEL_MATCHES)
        } else if contains(a.explain, col, row) {
            MouseEffect::Focus(PANEL_EXPLAIN)
        } else {
            MouseEffect::Nothing
        },
        MouseInput::ScrollUp => if contains(a.test, col, row) {
            MouseEffect::TestLineUp
        } else if contains(a.matches, col, row) {
            MouseEffect::PreviousMatch
        } else if contains(a.explain, col, row) {
            MouseEffect::ExplainUp
        } else {
            MouseEffect::Nothing
        },
        MouseInput::ScrollDown => if contains(a.test, col, row) {
            MouseEffect::TestLineDown
        } else if contains(a.matches, col, row) {
            MouseEffect::NextMatch
        } else if contains(a.explain, col, row) {
            MouseEffect::ExplainDown
        } else {
            MouseEffect::Nothing
        },
        MouseInput::Other => MouseEffect::Nothing,
    }
}

} // verus!
