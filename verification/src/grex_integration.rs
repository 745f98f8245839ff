//! Building a regex from example strings with `grex`.

use vstd::prelude::*;

use grex::RegExpBuilder;

use crate::engine::rust_regex::{rust_regex_captures, rust_regex_new};
use crate::engine::text_bytes;

verus! {

/// `grex::RegExpBuilder`, carried through as an opaque value.
#[verifier::external_type_specification]
#[verifier::external_body]
pub struct ExRegExpBuilder(RegExpBuilder);

/// What grex puts before the regex it builds: the `(?i)` flag for
/// case-insensitive matching, then `^` when anchored.
pub open spec fn grex_head(anchors: bool, case_insensitive: bool) -> Seq<char> {
    (if case_insensitive {
        "(?i)"@
    } else {
        Seq::empty()
    }) + if anchors {
        "^"@
    } else {
        Seq::empty()
    }
}

/// The outline every regex grex builds has: it begins with the head
/// (`grex_head`) and, when anchored, ends with a `$` of its own.
pub open spec fn grex_outline(r: Seq<char>, anchors: bool, case_insensitive: bool) -> bool {
    let head = grex_head(anchors, case_insensitive);
    &&& r.len() >= head.len() + if anchors {
        1int
    } else {
        0int
    }
    &&& r.subrange(0, head.len() as int) == head
    &&& anchors ==> r[r.len() - 1] == '$'
}

/// What a builder holds: its examples and its options.
pub struct GrexSettings {
    pub examples: Seq<Seq<char>>,
    pub digits: bool,
    pub anchors: bool,
    pub case_insensitive: bool,
}

pub open spec fn examples_view(v: Seq<String>) -> Seq<Seq<char>> {
    v.map_values(|s: String| s@)
}

/// The `regex` crate compiles `r` and finds a match of it in `t`; with
/// `whole`, the first match spans all of `t`.
pub open spec fn regex_matches(r: Seq<char>, t: Seq<char>, whole: bool) -> bool {
    &&& rust_regex_new(r) is Ok
    &&& rust_regex_captures(r, t).len() > 0
    &&& whole ==> rust_regex_captures(r, t)[0].len() > 0 && rust_regex_captures(r, t)[0][0] == Some(
        (0usize, text_bytes(t).len() as usize, t),
    )
}

/// `t` is `e` with any of its ASCII digits replaced by ASCII digits.
pub open spec fn digit_variant(e: Seq<char>, t: Seq<char>) -> bool {
    &&& e.len() == t.len()
    &&& forall|i: int| 0 <= i < e.len() ==> if '0' <= #[trigger] e[i] <= '9' {
        '0' <= t[i] <= '9'
    } else {
        t[i] == e[i]
    }
}

/// What holds of every regex grex builds for the settings: its outline
/// (`grex_outline`); it matches each example, in full when anchored; and
/// when anchored with digits converted to `\d`, it matches in full each
/// example with other digits in place of its digits.
pub open spec fn grex_outcome(r: Seq<char>, s: GrexSettings) -> bool {
    &&& grex_outline(r, s.anchors, s.case_insensitive)
    &&& forall|k: int| 0 <= k < s.examples.len() ==> regex_matches(r, #[trigger] s.examples[k], s.anchors)
    &&& s.digits && s.anchors ==> forall|k: int, t: Seq<char>|
        0 <= k < s.examples.len() && #[trigger] digit_variant(s.examples[k], t) ==> regex_matches(r, t, true)
}

/// The settings `generate` hands to grex.
pub open spec fn settings_for(examples: Seq<String>, options: GrexOptions) -> GrexSettings {
    GrexSettings {
        examples: examples_view(examples),
        digits: options.digit,
        anchors: options.anchors,
        case_insensitive: options.case_insensitive,
    }
}

/// A `grex::RegExpBuilder`, with a record of the settings it was given.
/// Values are only made by `grex_builder`, and only the wrappers below
/// change them.
pub struct GrexBuilder {
    inner: RegExpBuilder,
    settings: Ghost<GrexSettings>,
}

impl GrexBuilder {
    pub closed spec fn settings(&self) -> GrexSettings {
        self.settings@
    }
}

/// Starts a builder with `RegExpBuilder::from`, which panics on an empty
/// list (hence the precondition). Trusted: the builder holds the examples
/// and grex's defaults (digits kept, anchors on, case-sensitive), as
/// `RegExpConfig::new` sets them.
#[verifier::external_body]
fn grex_builder(examples: &[String]) -> (r: GrexBuilder)
    requires
        examples@.len() > 0,
    ensures
        r.settings() == (GrexSettings {
            examples: examples_view(examples@),
            digits: false,
            anchors: true,
            case_insensitive: false,
        }),
{
    GrexBuilder {
        inner: RegExpBuilder::from(examples),
        settings: Ghost(
            GrexSettings { examples: examples_view(examples@), digits: false, anchors: true, case_insensitive: false },
        ),
    }
}

/// `RegExpBuilder::with_conversion_of_digits`: digits become `\d`. Trusted:
/// it sets that option and nothing else.
#[verifier::external_body]
fn grex_convert_digits(b: &mut GrexBuilder)
    ensures
        final(b).settings() == (GrexSettings { digits: true, ..old(b).settings() }),
{
    b.inner.with_conversion_of_digits();
    b.settings = Ghost(GrexSettings { digits: true, ..b.settings@ });
}

/// `RegExpBuilder::without_anchors`: no `^` and `$` around the result.
/// Trusted: it clears that option and nothing else.
#[verifier::external_body]
fn grex_without_anchors(b: &mut GrexBuilder)
    ensures
        final(b).settings() == (GrexSettings { anchors: false, ..old(b).settings() }),
{
    b.inner.without_anchors();
    b.settings = Ghost(GrexSettings { anchors: false, ..b.settings@ });
}

/// `RegExpBuilder::with_case_insensitive_matching`. Trusted: it sets that
/// option and nothing else.
#[verifier::external_body]
fn grex_case_insensitive(b: &mut GrexBuilder)
    ensures
        final(b).settings() == (GrexSettings { case_insensitive: true, ..old(b).settings() }),
{
    b.inner.with_case_insensitive_matching();
    b.settings = Ghost(GrexSettings { case_insensitive: true, ..b.settings@ });
}

/// `RegExpBuilder::build`: the regex grex builds from the builder's
/// examples and settings. Trusted: as `RegExp`'s `Display` writes it
/// (verbose mode and colours off, as this builder leaves them), the regex
/// is the `(?i)` flag when case-insensitive, `^` when anchored, the
/// expression, and `$` when anchored; as grex documents, the regex is one
/// the `regex` crate accepts and it matches the examples it was built from
/// (anchored, the language of the examples, with `\d` for each digit when
/// digits are converted). The expression itself comes from an automaton
/// whose minimisation walks hash sets, so it is not named.
#[verifier::external_body]
fn grex_build(b: &mut GrexBuilder) -> (r: String)
    ensures
        grex_outcome(r@, old(b).settings()),
{
    b.inner.build()
}

/// How to generalize the examples.
#[derive(Debug, Clone, Copy, PartialEq, Eq, Structural)]
pub struct GrexOptions {
    /// Turn digits into `\d`.
    pub digit: bool,
    /// Anchor the result with `^` and `$`.
    pub anchors: bool,
    /// Match letters in either case.
    pub case_insensitive: bool,
}

impl Default for GrexOptions {
    fn default() -> (r: GrexOptions)
        ensures
            r == (GrexOptions { digit: true, anchors: true, case_insensitive: false }),
    {
        GrexOptions { digit: true, anchors: true, case_insensitive: false }
    }
}

/// A grex builder holding the examples, configured with the options.
pub fn configured_builder(examples: &[String], options: GrexOptions) -> (b: GrexBuilder)
    requires
        examples@.len() > 0,
    ensures
        b.settings() == settings_for(examples@, options),
{
    let mut builder = grex_builder(examples);
    if options.digit {
        grex_convert_digits(&mut builder);
    }
    if !options.anchors {
        grex_without_anchors(&mut builder);
    }
    if options.case_insensitive {
        grex_case_insensitive(&mut builder);
    }
    builder
}

/// A regex matching the examples, built by grex with the given options; the
/// empty string when there are no examples. The regex begins with `(?i)`
/// when case-insensitive and with `^` when anchored, and then ends with
/// `$`; it matches every example (in full when anchored, and then also with
/// other digits in place of an example's digits when digits are converted).
pub fn generate(examples: &[String], options: GrexOptions) -> (r: String)
    ensures
        examples@.len() == 0 ==> r@ == Seq::<char>::empty(),
        examples@.len() > 0 ==> grex_outcome(r@, settings_for(examples@, options)),
{
    if examples.len() == 0 {
        return String::new();
    }
    let mut builder = configured_builder(examples, options);
    grex_build(&mut builder)
}

} // verus!
