//! Saved user settings.

use vstd::prelude::*;

use crate::engine::EngineKind;
use crate::text::owned;

verus! {

/// Colors of the interface.
#[derive(Debug, Clone, Copy)]
pub struct ThemeSettings {
    pub catppuccin: bool,
}

impl Default for ThemeSettings {
    fn default() -> (r: ThemeSettings)
        ensures
            !r.catppuccin,
    {
        ThemeSettings { catppuccin: false }
    }
}

/// Settings read from the configuration file; missing entries take their
/// defaults.
#[derive(Debug, Clone)]
pub struct Settings {
    pub default_engine: String,
    pub case_insensitive: bool,
    pub multiline: bool,
    pub dotall: bool,
    pub unicode: bool,
    pub extended: bool,
    pub show_whitespace: bool,
    pub rounded_borders: bool,
    pub vim_mode: bool,
    pub theme: ThemeSettings,
}

/// The engine a name selects: `fancy`, `pcre2`, or the Rust engine for any
/// other name.
pub open spec fn spec_engine_by_name(name: Seq<char>) -> EngineKind {
    if name == "fancy"@ {
        EngineKind::FancyRegex
    } else if name == "pcre2"@ {
        EngineKind::Pcre2
    } else {
        EngineKind::RustRegex
    }
}

/// The engine a name selects: `fancy`, `pcre2`, or the Rust engine for any
/// other name.
pub fn engine_by_name(name: &str) -> (r: EngineKind)
    ensures
        r == spec_engine_by_name(name@),
{
    if crate::text::str_eq(name, "fancy") {
        EngineKind::FancyRegex
    } else if crate::text::str_eq(name, "pcre2") {
        EngineKind::Pcre2
    } else {
        EngineKind::RustRegex
    }
}

/// The name an engine is saved under.
pub open spec fn spec_engine_name(k: EngineKind) -> Seq<char> {
    match k {
        EngineKind::RustRegex => "rust"@,
        EngineKind::FancyRegex => "fancy"@,
        EngineKind::Pcre2 => "pcre2"@,
    }
}

/// The name an engine is saved under.
pub fn engine_name(k: EngineKind) -> (r: String)
    ensures
        r@ == spec_engine_name(k),
{
    match k {
        EngineKind::RustRegex => owned("rust"),
        EngineKind::FancyRegex => owned("fancy"),
        EngineKind::Pcre2 => owned("pcre2"),
    }
}

impl Default for Settings {
    fn default() -> (r: Settings)
        ensures
            r.default_engine@ == "rust"@,
            !r.case_insensitive && !r.multiline && !r.dotall && !r.extended,
            r.unicode,
            !r.show_whitespace && !r.rounded_borders && !r.vim_mode,
            !r.theme.catppuccin,
    {
        Settings {
            default_engine: owned("rust"),
            case_insensitive: false,
            multiline: false,
            dotall: false,
            unicode: true,
            extended: false,
            show_whitespace: false,
            rounded_borders: false,
            vim_mode: false,
            theme: ThemeSettings::default(),
        }
    }
}

impl Settings {
    /// The engine the settings select.
    pub fn parse_engine(&self) -> (r: EngineKind)
        ensures
            r == spec_engine_by_name(self.default_engine@),
    {
        engine_by_name(self.default_engine.as_str())
    }
}

/// An engine's saved name selects that engine again.
pub proof fn lemma_engine_name_round_trip(k: EngineKind)
    ensures
        spec_engine_by_name(spec_engine_name(k)) == k,
{
    reveal_strlit("rust");
    reveal_strlit("fancy");
    reveal_strlit("pcre2");
    assert("rust"@.len() != "fancy"@.len());
    assert("rust"@.len() != "pcre2"@.len());
    assert("pcre2"@[0] != "fancy"@[0]);
}

} // verus!
