# rgx

A terminal regex tester: three engines (the `regex` crate, `fancy-regex` and
PCRE2), capture groups, replacement with `$N` / `${name}` templates,
plain-English explanations of patterns, a batch mode for pipelines, a test
runner for workspace files and a grep-like `filter` subcommand.

The library in `src/` is written in Verus and verified: its public functions
state in `requires` / `ensures`, over spec functions and the views of its
types, what they return or change, and the laws of the library are public
proof functions (`lemma_*`). Calls into outside crates go through small
trusted wrappers whose contracts say what the crates document. Where an
outside result is a function of its arguments (what `regex-syntax` parses a
pattern into, node by node) it has a name, and the library's contracts are
exact over it. Where it depends on more (the PCRE2 build in use, the
regex grex builds, the clock, the clipboard), contracts say what holds of
every outcome and how the library uses the one it got.

- `src/engine/` — the three engines, matches and their layout, substitution
  (`replace.rs`), engine detection, the debugger's token map
- `src/explain/` — the syntax tree of a pattern and its explanation
- `src/input/` — keys, actions and the text field
- `src/filter/` — the `filter` subcommand: line filtering, its interactive
  state, JSON field paths
- `src/app.rs`, `src/dispatch.rs`, `src/output.rs` — the tester's state, how it
  reacts to keys, and what batch mode prints
- `src/config/` — command-line options as plain values, settings,
  workspaces and their tests
- `src/ui/` — how the test text is cut into highlighted pieces, and the
  state of the grex overlay
- `app/` — the program: command line (clap), files (TOML, JSON), terminal
  drawing and event loops (ratatui, crossterm)
- `tests/` — tests of the library
