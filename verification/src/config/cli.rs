//! What the command line asks for, as plain values. Parsing the command
//! line itself is the binary's business.

use vstd::prelude::*;

verus! {

/// A subcommand.
#[derive(Debug, Clone)]
pub enum Command {
    /// Live-filter stdin or a file through a regex.
    Filter(FilterArgs),
}

/// The options of the `filter` subcommand.
#[derive(Debug, Clone)]
pub struct FilterArgs {
    /// The pattern to filter with; the interactive filter starts empty
    /// without one.
    pub pattern: Option<String>,
    /// The file to read instead of stdin.
    pub file: Option<String>,
    /// Emit the lines that do not match.
    pub invert: bool,
    /// Emit only the number of matching lines.
    pub count: bool,
    /// Prefix each emitted line with its line number.
    pub line_number: bool,
    /// Match case-insensitively.
    pub case_insensitive: bool,
    /// Read at most this many lines (0: no cap).
    pub max_lines: usize,
    /// A JSON path to extract from each line before matching.
    pub json: Option<String>,
}

/// When to color output.
#[derive(Debug, Clone, Copy, PartialEq, Eq, Structural)]
pub enum ColorMode {
    Auto,
    Always,
    Never,
}

/// Whether output is colored: always, never, or when writing to a
/// terminal.
pub fn use_color(mode: ColorMode, is_terminal: bool) -> (r: bool)
    ensures
        r == match mode {
            ColorMode::Auto => is_terminal,
            ColorMode::Always => true,
            ColorMode::Never => false,
        },
{
    match mode {
        ColorMode::Auto => is_terminal,
        ColorMode::Always => true,
        ColorMode::Never => false,
    }
}

} // verus!
