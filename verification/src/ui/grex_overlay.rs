//! The overlay that generates a regex from example strings.

use std::time::Instant;

use vstd::prelude::*;

use crate::grex_integration::GrexOptions;
use crate::input::editor::Editor;

verus! {

/// The examples being typed, the options, and the last generated pattern.
pub struct GrexOverlayState {
    pub editor: Editor,
    pub options: GrexOptions,
    pub generated_pattern: Option<String>,
    /// Counts generations, so that a late result of an older one can be
    /// told apart.
    pub generation_counter: u64,
    /// When to generate next, once typing pauses.
    pub debounce_deadline: Option<Instant>,
}

impl Default for GrexOverlayState {
    fn default() -> (r: GrexOverlayState)
        ensures
            r.editor.wf(),
            r.editor@.content.len() == 0,
            r.options == (GrexOptions { digit: true, anchors: true, case_insensitive: false }),
            r.generated_pattern is None,
            r.generation_counter == 0,
            r.debounce_deadline is None,
    {
        GrexOverlayState {
            editor: Editor::new(),
            options: GrexOptions::default(),
            generated_pattern: None,
            generation_counter: 0,
            debounce_deadline: None,
        }
    }
}

} // verus!
