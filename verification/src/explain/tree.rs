//! The syntax tree of a pattern as the explanation reads it, and the
//! plain-English line each element gets.

use vstd::prelude::*;

use crate::text::{char_debug, char_debug_text, decimal, owned, push_decimal, push_str};

verus! {

/// A zero-width assertion.
#[derive(Debug, Clone, Copy, PartialEq, Eq, Structural)]
pub enum Anchor {
    StartLine,
    EndLine,
    StartText,
    EndText,
    WordBoundary,
    NotWordBoundary,
    WordStart,
    WordEnd,
    WordStartAngle,
    WordEndAngle,
    WordStartHalf,
    WordEndHalf,
}

/// A Perl character class: `\d`, `\s` or `\w`.
#[derive(Debug, Clone, Copy, PartialEq, Eq, Structural)]
pub enum PerlClass {
    Digit,
    Space,
    Word,
}

/// How often a repeated element may occur.
#[derive(Debug, Clone, Copy, PartialEq, Eq, Structural)]
pub enum Repeat {
    ZeroOrOne,
    ZeroOrMore,
    OneOrMore,
    Exactly(u32),
    AtLeast(u32),
    Bounded(u32, u32),
}

/// The kind of a group.
#[derive(Debug, Clone)]
pub enum GroupType {
    Capture(u32),
    Named(String, u32),
    NonCapturing,
}

/// The byte range of the pattern an element was read from.
#[derive(Debug, Clone, Copy, PartialEq, Eq, Structural)]
pub struct Span {
    pub start: usize,
    pub end: usize,
}

/// A pattern's syntax tree. Flag settings and classes that are only
/// described by their source keep that source text; every element that
/// stands for characters keeps where it stands in the pattern.
#[derive(Debug)]
pub enum RegexAst {
    Empty,
    Flags(String, Span),
    Literal(char, Span),
    Dot(Span),
    Assertion(Anchor, Span),
    ClassUnicode(String, Span),
    ClassPerl(PerlClass, bool, Span),
    ClassBracketed(String, Span),
    Repetition(Repeat, bool, Box<RegexAst>),
    Group(GroupType, Box<RegexAst>),
    Alternation(Vec<RegexAst>),
    Concat(Vec<RegexAst>),
}

/// One more level of nesting (stays at the largest depth).
pub open spec fn deeper(depth: usize) -> usize {
    if depth < usize::MAX {
        (depth + 1) as usize
    } else {
        depth
    }
}

pub open spec fn anchor_text(a: Anchor) -> Seq<char> {
    match a {
        Anchor::StartLine => "Start of line"@,
        Anchor::EndLine => "End of line"@,
        Anchor::StartText => "Start of text"@,
        Anchor::EndText => "End of text"@,
        Anchor::WordBoundary => "Word boundary"@,
        Anchor::NotWordBoundary => "Not a word boundary"@,
        Anchor::WordStart => "Start of a word"@,
        Anchor::WordEnd => "End of a word"@,
        Anchor::WordStartAngle => "Start of a word (\\<)"@,
        Anchor::WordEndAngle => "End of a word (\\>)"@,
        Anchor::WordStartHalf => "Start-of-word half boundary"@,
        Anchor::WordEndHalf => "End-of-word half boundary"@,
    }
}

pub open spec fn perl_text(k: PerlClass, negated: bool) -> Seq<char> {
    match k {
        PerlClass::Digit => if negated {
            "Any non-digit character"@
        } else {
            "Any digit character"@
        },
        PerlClass::Space => if negated {
            "Any non-whitespace character"@
        } else {
            "Any whitespace character"@
        },
        PerlClass::Word => if negated {
            "Any non-word character"@
        } else {
            "Any word character (letter, digit or underscore)"@
        },
    }
}

pub open spec fn repeat_base(r: Repeat) -> Seq<char> {
    match r {
        Repeat::ZeroOrOne => "Optional (zero or one time)"@,
        Repeat::ZeroOrMore => "Zero or more times"@,
        Repeat::OneOrMore => "One or more times"@,
        Repeat::Exactly(n) => "Exactly "@ + decimal(n as nat) + " times"@,
        Repeat::AtLeast(n) => "At least "@ + decimal(n as nat) + " times"@,
        Repeat::Bounded(m, n) => "Between "@ + decimal(m as nat) + " and "@ + decimal(n as nat) + " times"@,
    }
}

pub open spec fn repeat_text(r: Repeat, greedy: bool) -> Seq<char> {
    repeat_base(r) + if greedy {
        Seq::empty()
    } else {
        " (lazy)"@
    }
}

pub open spec fn group_text(g: GroupType) -> Seq<char> {
    match g {
        GroupType::Capture(i) => "Capture group #"@ + decimal(i as nat),
        GroupType::Named(name, i) => "Named capture group '"@ + name@ + "' (#"@ + decimal(i as nat) + ")"@,
        GroupType::NonCapturing => "Non-capturing group"@,
    }
}

/// The line an element gets, for the elements that get one of their own.
pub open spec fn element_text(t: RegexAst) -> Seq<char> {
    match t {
        RegexAst::Flags(text, _) => "Set flags "@ + text@,
        RegexAst::Literal(c, _) => "Literal "@ + char_debug_text(c),
        RegexAst::Dot(_) => "Any character (except newline by default)"@,
        RegexAst::Assertion(a, _) => anchor_text(a),
        RegexAst::ClassUnicode(text, _) => "Unicode class "@ + text@,
        RegexAst::ClassPerl(k, negated, _) => perl_text(k, negated),
        RegexAst::ClassBracketed(text, _) => "Character class "@ + text@,
        RegexAst::Repetition(r, greedy, _) => repeat_text(r, greedy),
        RegexAst::Group(g, _) => group_text(g),
        RegexAst::Alternation(_) => "Either:"@,
        _ => Seq::empty(),
    }
}

/// The explanation of a tree whose root is at `depth`: one line per
/// element, the contents of repetitions, groups and alternations one level
/// deeper; the branches of an alternation separated by `Or:`, a
/// concatenation's parts one after another, nothing for the empty pattern.
pub open spec fn explain_nodes(t: RegexAst, depth: usize) -> Seq<(usize, Seq<char>)>
    decreases t, 0int,
{
    match t {
        RegexAst::Empty => Seq::empty(),
        RegexAst::Repetition(_, _, inner) => seq![(depth, element_text(t))] + explain_nodes(*inner, deeper(depth)),
        RegexAst::Group(_, inner) => seq![(depth, element_text(t))] + explain_nodes(*inner, deeper(depth)),
        RegexAst::Alternation(items) => seq![(depth, element_text(t))] + items_nodes(items@, deeper(depth), true, items@.len() as int),
        RegexAst::Concat(items) => items_nodes(items@, depth, false, items@.len() as int),
        _ => seq![(depth, element_text(t))],
    }
}

/// The explanation of the first `k` items of a sequence at `depth`, with
/// `Or:` before every branch but the first when `alternation` holds.
pub open spec fn items_nodes(items: Seq<RegexAst>, depth: usize, alternation: bool, k: int) -> Seq<(usize, Seq<char>)>
    decreases items, k,
{
    if k <= 0 || k > items.len() {
        Seq::empty()
    } else {
        items_nodes(items, depth, alternation, k - 1) + (if alternation && k > 1 {
            seq![(depth, "Or:"@)]
        } else {
            Seq::empty()
        }) + explain_nodes(items[k - 1], depth)
    }
}

fn anchor_string(a: Anchor) -> (r: String)
    ensures
        r@ == anchor_text(a),
{
    match a {
        Anchor::StartLine => owned("Start of line"),
        Anchor::EndLine => owned("End of line"),
        Anchor::StartText => owned("Start of text"),
        Anchor::EndText => owned("End of text"),
        Anchor::WordBoundary => owned("Word boundary"),
        Anchor::NotWordBoundary => owned("Not a word boundary"),
        Anchor::WordStart => owned("Start of a word"),
        Anchor::WordEnd => owned("End of a word"),
        Anchor::WordStartAngle => owned("Start of a word (\\<)"),
        Anchor::WordEndAngle => owned("End of a word (\\>)"),
        Anchor::WordStartHalf => owned("Start-of-word half boundary"),
        Anchor::WordEndHalf => owned("End-of-word half boundary"),
    }
}

fn perl_string(k: PerlClass, negated: bool) -> (r: String)
    ensures
        r@ == perl_text(k, negated),
{
    match k {
        PerlClass::Digit => if negated {
            owned("Any non-digit character")
        } else {
            owned("Any digit character")
        },
        PerlClass::Space => if negated {
            owned("Any non-whitespace character")
        } else {
            owned("Any whitespace character")
        },
        PerlClass::Word => if negated {
            owned("Any non-word character")
        } else {
            owned("Any word character (letter, digit or underscore)")
        },
    }
}

fn repeat_string(r: Repeat, greedy: bool) -> (s: String)
    ensures
        s@ == repeat_text(r, greedy),
{
    let mut s = match r {
        Repeat::ZeroOrOne => owned("Optional (zero or one time)"),
        Repeat::ZeroOrMore => owned("Zero or more times"),
        Repeat::OneOrMore => owned("One or more times"),
        Repeat::Exactly(n) => {
            let mut s = owned("Exactly ");
            push_decimal(&mut s, n as usize);
            push_str(&mut s, " times");
            s
        },
        Repeat::AtLeast(n) => {
            let mut s = owned("At least ");
            push_decimal(&mut s, n as usize);
            push_str(&mut s, " times");
            s
        },
        Repeat::Bounded(m, n) => {
            let mut s = owned("Between ");
            push_decimal(&mut s, m as usize);
            push_str(&mut s, " and ");
            push_decimal(&mut s, n as usize);
            push_str(&mut s, " times");
            s
        },
    };
    let ghost base = s@;
    if !greedy {
        push_str(&mut s, " (lazy)");
    }
    assert(s@ =~= repeat_text(r, greedy));
    s
}

fn group_string(g: &GroupType) -> (s: String)
    ensures
        s@ == group_text(*g),
{
    match g {
        GroupType::Capture(i) => {
            let mut s = owned("Capture group #");
            push_decimal(&mut s, *i as usize);
            s
        },
        GroupType::Named(name, i) => {
            let mut s = owned("Named capture group '");
            push_str(&mut s, name.as_str());
            push_str(&mut s, "' (#");
            push_decimal(&mut s, *i as usize);
            push_str(&mut s, ")");
            s
        },
        GroupType::NonCapturing => owned("Non-capturing group"),
    }
}

/// The line an element gets.
pub fn element_string(t: &RegexAst) -> (s: String)
    ensures
        s@ == element_text(*t),
{
    match t {
        RegexAst::Flags(text, _) => {
            let mut s = owned("Set flags ");
            push_str(&mut s, text.as_str());
            s
        },
        RegexAst::Literal(c, _) => {
            let mut s = owned("Literal ");
            let d = char_debug(*c);
            push_str(&mut s, d.as_str());
            s
        },
        RegexAst::Dot(_) => owned("Any character (except newline by default)"),
        RegexAst::Assertion(a, _) => anchor_string(*a),
        RegexAst::ClassUnicode(text, _) => {
            let mut s = owned("Unicode class ");
            push_str(&mut s, text.as_str());
            s
        },
        RegexAst::ClassPerl(k, negated, _) => perl_string(*k, *negated),
        RegexAst::ClassBracketed(text, _) => {
            let mut s = owned("Character class ");
            push_str(&mut s, text.as_str());
            s
        },
        RegexAst::Repetition(r, greedy, _) => repeat_string(*r, *greedy),
        RegexAst::Group(g, _) => group_string(g),
        RegexAst::Alternation(_) => owned("Either:"),
        _ => String::new(),
    }
}

proof fn lemma_items_nodes_prefix(a: Seq<RegexAst>, b: Seq<RegexAst>, depth: usize, alternation: bool, k: int)
    requires
        0 <= k <= a.len(),
        k <= b.len(),
        forall|i: int| 0 <= i < k ==> a[i] == b[i],
    ensures
        items_nodes(a, depth, alternation, k) == items_nodes(b, depth, alternation, k),
    decreases k,
{
    if k > 0 {
        lemma_items_nodes_prefix(a, b, depth, alternation, k - 1);
    }
}

/// An alternation of one branch reads `Either:` and then that branch, one
/// level deeper.
pub proof fn lemma_alternation_single_branch(v: Vec<RegexAst>, depth: usize)
    requires
        v@.len() == 1,
    ensures
        explain_nodes(RegexAst::Alternation(v), depth) == seq![(depth, "Either:"@)] + explain_nodes(
            v@[0],
            deeper(depth),
        ),
{
    assert(items_nodes(v@, deeper(depth), true, 0) == Seq::<(usize, Seq<char>)>::empty());
    assert(items_nodes(v@, deeper(depth), true, 1) =~= explain_nodes(v@[0], deeper(depth)));
}

/// Adding a branch to an alternation adds an `Or:` line at the branches'
/// depth and then the new branch's explanation, leaving what came before
/// unchanged: the branches of an alternation are each introduced by `Or:`
/// but the first.
pub proof fn lemma_alternation_adds_or(v1: Vec<RegexAst>, v2: Vec<RegexAst>, x: RegexAst, depth: usize)
    requires
        v1@.len() > 0,
        v2@ == v1@.push(x),
    ensures
        explain_nodes(RegexAst::Alternation(v2), depth) == explain_nodes(RegexAst::Alternation(v1), depth) + seq![
            (deeper(depth), "Or:"@),
        ] + explain_nodes(x, deeper(depth)),
{
    let n = v1@.len() as int;
    let d = deeper(depth);
    lemma_items_nodes_prefix(v2@, v1@, d, true, n);
    assert(v2@[n] == x);
    assert(items_nodes(v2@, d, true, n + 1) == items_nodes(v2@, d, true, n) + seq![(d, "Or:"@)] + explain_nodes(x, d));
    assert(explain_nodes(RegexAst::Alternation(v2), depth) =~= seq![(depth, "Either:"@)] + items_nodes(v2@, d, true, n + 1));
    assert(explain_nodes(RegexAst::Alternation(v1), depth) =~= seq![(depth, "Either:"@)] + items_nodes(v1@, d, true, n));
    assert(seq![(depth, "Either:"@)] + (items_nodes(v1@, d, true, n) + seq![(d, "Or:"@)] + explain_nodes(x, d)) =~= seq![
        (depth, "Either:"@),
    ] + items_nodes(v1@, d, true, n) + seq![(d, "Or:"@)] + explain_nodes(x, d));
}

} // verus!
