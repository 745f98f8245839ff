//! Reading the syntax tree that `regex-syntax` builds into the library's
//! own tree, one level at a time.
//!
//! A node of the parsed tree is reached from the root by a path of child
//! positions (the inner node of a repetition or group is child 0, the parts
//! of an alternation or concatenation are children 0, 1, ...). What the
//! parser gives at each node is named by the pattern and the path.

use vstd::prelude::*;

use regex_syntax::ast::{AssertionKind, Ast, ClassPerlKind, GroupKind, RepetitionKind, RepetitionRange};

use super::ast_parse_outcome;
use super::tree::{Anchor, GroupType, PerlClass, RegexAst, Repeat, Span};
use vstd::utf8::{encode_utf8, is_char_boundary};

verus! {

#[verifier::external_type_specification]
#[verifier::external_body]
pub struct ExAst(Ast);

#[verifier::external_type_specification]
pub struct ExAssertionKind(AssertionKind);

#[verifier::external_type_specification]
pub struct ExClassPerlKind(ClassPerlKind);

#[verifier::external_type_specification]
pub struct ExRepetitionKind(RepetitionKind);

#[verifier::external_type_specification]
pub struct ExRepetitionRange(RepetitionRange);

/// What kind of node the parser gives, with the plain values the library
/// reads from it (a literal's character, an assertion's kind, a Perl
/// class and its negation, a repetition's range and greediness, the number
/// of parts of an alternation or concatenation).
pub enum NodeShape {
    Empty,
    Flags,
    Literal(char),
    Dot,
    Assertion(Anchor),
    ClassUnicode,
    ClassPerl(PerlClass, bool),
    ClassBracketed,
    Repetition(Repeat, bool),
    Group,
    Alternation(usize),
    Concat(usize),
}

/// A group's kind by its contents.
pub enum GroupShape {
    Capture(u32),
    Named(Seq<char>, u32),
    NonCapturing,
}

pub open spec fn group_shape(g: GroupType) -> GroupShape {
    match g {
        GroupType::Capture(i) => GroupShape::Capture(i),
        GroupType::Named(name, i) => GroupShape::Named(name@, i),
        GroupType::NonCapturing => GroupShape::NonCapturing,
    }
}

/// The shape of the node at `path` in the tree `regex-syntax` parses
/// `pattern` into.
pub uninterp spec fn ast_shape(pattern: Seq<char>, path: Seq<int>) -> NodeShape;

/// The kind of the group at `path` in the parse of `pattern`.
pub uninterp spec fn ast_group(pattern: Seq<char>, path: Seq<int>) -> GroupShape;

/// The byte range of the pattern that the node at `path` was parsed from.
pub uninterp spec fn ast_span_at(pattern: Seq<char>, path: Seq<int>) -> Span;

/// The source text of the node at `path`, as `regex-syntax` prints it back.
pub uninterp spec fn ast_text_at(pattern: Seq<char>, path: Seq<int>) -> Seq<char>;

/// A pattern parsed by `regex-syntax`, kept with the pattern.
pub struct ParsedAst {
    ast: Ast,
    pattern: Ghost<Seq<char>>,
}

impl ParsedAst {
    pub closed spec fn pattern(&self) -> Seq<char> {
        self.pattern@
    }
}

/// A node of a parsed pattern, with the pattern and the path it was reached
/// by. Values are only made by `root` (the parsed tree itself, at the empty
/// path) and by `ast_inner` and `ast_part` (a node's children).
pub struct AstRef<'a> {
    node: &'a Ast,
    pattern: Ghost<Seq<char>>,
    path: Ghost<Seq<int>>,
}

impl<'a> AstRef<'a> {
    pub closed spec fn pattern(&self) -> Seq<char> {
        self.pattern@
    }

    pub closed spec fn path(&self) -> Seq<int> {
        self.path@
    }
}

/// Runs `regex_syntax::ast::parse::Parser` on the pattern. Trusted: the
/// outcome depends only on the pattern (named `ast_parse_outcome`); as the
/// crate documents, an error's span is a valid range of the pattern, so its
/// start is a character boundary within it.
#[verifier::external_body]
pub(crate) fn ast_parse(pattern: &str) -> (r: Result<ParsedAst, (String, usize)>)
    ensures
        (match r {
            Ok(p) => ast_parse_outcome(pattern@) == Ok::<(), (Seq<char>, usize)>(()) && p.pattern() == pattern@,
            Err((m, off)) => ast_parse_outcome(pattern@) == Err::<(), (Seq<char>, usize)>((m@, off))
                && off <= encode_utf8(pattern@).len() && is_char_boundary(encode_utf8(pattern@), off as int),
        }),
{
    match regex_syntax::ast::parse::Parser::new().parse(pattern) {
        Ok(ast) => Ok(ParsedAst { ast, pattern: Ghost(pattern@) }),
        Err(e) => Err((e.to_string(), e.span().start.offset)),
    }
}

/// The root of a parsed pattern.
pub(crate) fn root(p: &ParsedAst) -> (r: AstRef<'_>)
    ensures
        r.pattern() == p.pattern(),
        r.path() == Seq::<int>::empty(),
{
    AstRef { node: &p.ast, pattern: p.pattern, path: Ghost(Seq::empty()) }
}

/// The top level of a `regex-syntax` node: its variant, the plain values it
/// holds, and references to what the library reads further.
pub enum AstNode<'a> {
    Empty,
    Flags,
    Literal(char),
    Dot,
    Assertion(&'a AssertionKind),
    ClassUnicode,
    ClassPerl(&'a ClassPerlKind, bool),
    ClassBracketed,
    Repetition(&'a RepetitionKind, bool),
    Group,
    Alternation(usize),
    Concat(usize),
}

pub open spec fn anchor_spec(k: AssertionKind) -> Anchor {
    match k {
        AssertionKind::StartLine => Anchor::StartLine,
        AssertionKind::EndLine => Anchor::EndLine,
        AssertionKind::StartText => Anchor::StartText,
        AssertionKind::EndText => Anchor::EndText,
        AssertionKind::WordBoundary => Anchor::WordBoundary,
        AssertionKind::NotWordBoundary => Anchor::NotWordBoundary,
        AssertionKind::WordBoundaryStart => Anchor::WordStart,
        AssertionKind::WordBoundaryEnd => Anchor::WordEnd,
        AssertionKind::WordBoundaryStartAngle => Anchor::WordStartAngle,
        AssertionKind::WordBoundaryEndAngle => Anchor::WordEndAngle,
        AssertionKind::WordBoundaryStartHalf => Anchor::WordStartHalf,
        AssertionKind::WordBoundaryEndHalf => Anchor::WordEndHalf,
    }
}

pub open spec fn perl_spec(k: ClassPerlKind) -> PerlClass {
    match k {
        ClassPerlKind::Digit => PerlClass::Digit,
        ClassPerlKind::Space => PerlClass::Space,
        ClassPerlKind::Word => PerlClass::Word,
    }
}

pub open spec fn repeat_spec(k: RepetitionKind) -> Repeat {
    match k {
        RepetitionKind::ZeroOrOne => Repeat::ZeroOrOne,
        RepetitionKind::ZeroOrMore => Repeat::ZeroOrMore,
        RepetitionKind::OneOrMore => Repeat::OneOrMore,
        RepetitionKind::Range(RepetitionRange::Exactly(n)) => Repeat::Exactly(n),
        RepetitionKind::Range(RepetitionRange::AtLeast(n)) => Repeat::AtLeast(n),
        RepetitionKind::Range(RepetitionRange::Bounded(m, n)) => Repeat::Bounded(m, n),
    }
}

/// The shape a node hands out says what the parser gave at its place.
pub open spec fn node_agrees(r: AstNode, shape: NodeShape) -> bool {
    match r {
        AstNode::Empty => shape == NodeShape::Empty,
        AstNode::Flags => shape == NodeShape::Flags,
        AstNode::Literal(c) => shape == NodeShape::Literal(c),
        AstNode::Dot => shape == NodeShape::Dot,
        AstNode::Assertion(k) => shape == NodeShape::Assertion(anchor_spec(*k)),
        AstNode::ClassUnicode => shape == NodeShape::ClassUnicode,
        AstNode::ClassPerl(k, negated) => shape == NodeShape::ClassPerl(perl_spec(*k), negated),
        AstNode::ClassBracketed => shape == NodeShape::ClassBracketed,
        AstNode::Repetition(k, greedy) => shape == NodeShape::Repetition(repeat_spec(*k), greedy),
        AstNode::Group => shape == NodeShape::Group,
        AstNode::Alternation(n) => shape == NodeShape::Alternation(n),
        AstNode::Concat(n) => shape == NodeShape::Concat(n),
    }
}

/// Tells the variants of `regex_syntax::ast::Ast` apart, handing out the
/// literal's character, the kinds, a Perl class's negation, a repetition's
/// greediness and the number of parts of an alternation or concatenation.
/// Trusted: what it hands out is what the parser gave at the node's place
/// (`ast_shape`).
#[verifier::external_body]
fn ast_node<'a>(n: &AstRef<'a>) -> (r: AstNode<'a>)
    ensures
        node_agrees(r, ast_shape(n.pattern(), n.path())),
{
    match n.node {
        Ast::Empty(_) => AstNode::Empty,
        Ast::Flags(_) => AstNode::Flags,
        Ast::Literal(l) => AstNode::Literal(l.c),
        Ast::Dot(_) => AstNode::Dot,
        Ast::Assertion(a) => AstNode::Assertion(&a.kind),
        Ast::ClassUnicode(_) => AstNode::ClassUnicode,
        Ast::ClassPerl(c) => AstNode::ClassPerl(&c.kind, c.negated),
        Ast::ClassBracketed(_) => AstNode::ClassBracketed,
        Ast::Repetition(r) => AstNode::Repetition(&r.op.kind, r.greedy),
        Ast::Group(_) => AstNode::Group,
        Ast::Alternation(a) => AstNode::Alternation(a.asts.len()),
        Ast::Concat(c) => AstNode::Concat(c.asts.len()),
    }
}

/// The node a repetition repeats, or a group holds (`Repetition::ast`,
/// `Group::ast`). Trusted: it is the node at the place one step further,
/// child 0.
#[verifier::external_body]
fn ast_inner<'a>(n: &AstRef<'a>) -> (r: AstRef<'a>)
    requires
        ast_shape(n.pattern(), n.path()) is Repetition || ast_shape(n.pattern(), n.path()) is Group,
    ensures
        r.pattern() == n.pattern(),
        r.path() == n.path().push(0),
{
    let inner: &'a Ast = match n.node {
        Ast::Repetition(r) => &r.ast,
        Ast::Group(g) => &g.ast,
        other => other,
    };
    AstRef { node: inner, pattern: n.pattern, path: Ghost(n.path@.push(0)) }
}

/// Part `i` of an alternation or a concatenation (`Alternation::asts`,
/// `Concat::asts`). Trusted: it is the node at the place one step further,
/// child `i`.
#[verifier::external_body]
fn ast_part<'a>(n: &AstRef<'a>, i: usize) -> (r: AstRef<'a>)
    requires
        (ast_shape(n.pattern(), n.path()) matches NodeShape::Alternation(k) && i < k)
            || (ast_shape(n.pattern(), n.path()) matches NodeShape::Concat(k) && i < k),
    ensures
        r.pattern() == n.pattern(),
        r.path() == n.path().push(i as int),
{
    let part: &'a Ast = match n.node {
        Ast::Alternation(a) => &a.asts[i],
        Ast::Concat(c) => &c.asts[i],
        other => other,
    };
    AstRef { node: part, pattern: n.pattern, path: Ghost(n.path@.push(i as int)) }
}

fn anchor_of(k: &AssertionKind) -> (r: Anchor)
    ensures
        r == anchor_spec(*k),
{
    match k {
        AssertionKind::StartLine => Anchor::StartLine,
        AssertionKind::EndLine => Anchor::EndLine,
        AssertionKind::StartText => Anchor::StartText,
        AssertionKind::EndText => Anchor::EndText,
        AssertionKind::WordBoundary => Anchor::WordBoundary,
        AssertionKind::NotWordBoundary => Anchor::NotWordBoundary,
        AssertionKind::WordBoundaryStart => Anchor::WordStart,
        AssertionKind::WordBoundaryEnd => Anchor::WordEnd,
        AssertionKind::WordBoundaryStartAngle => Anchor::WordStartAngle,
        AssertionKind::WordBoundaryEndAngle => Anchor::WordEndAngle,
        AssertionKind::WordBoundaryStartHalf => Anchor::WordStartHalf,
        AssertionKind::WordBoundaryEndHalf => Anchor::WordEndHalf,
    }
}

fn perl_class_of(k: &ClassPerlKind) -> (r: PerlClass)
    ensures
        r == perl_spec(*k),
{
    match k {
        ClassPerlKind::Digit => PerlClass::Digit,
        ClassPerlKind::Space => PerlClass::Space,
        ClassPerlKind::Word => PerlClass::Word,
    }
}

fn repeat_of(k: &RepetitionKind) -> (r: Repeat)
    ensures
        r == repeat_spec(*k),
{
    match k {
        RepetitionKind::ZeroOrOne => Repeat::ZeroOrOne,
        RepetitionKind::ZeroOrMore => Repeat::ZeroOrMore,
        RepetitionKind::OneOrMore => Repeat::OneOrMore,
        RepetitionKind::Range(RepetitionRange::Exactly(n)) => Repeat::Exactly(*n),
        RepetitionKind::Range(RepetitionRange::AtLeast(n)) => Repeat::AtLeast(*n),
        RepetitionKind::Range(RepetitionRange::Bounded(m, n)) => Repeat::Bounded(*m, *n),
    }
}

/// The kind of a group node: the capture index, or the capture name and
/// index; a non-capturing group's flags are dropped. Trusted: it is what the
/// parser gave at the node's place (`ast_group`).
#[verifier::external_body]
fn group_type_of(n: &AstRef) -> (r: GroupType)
    requires
        ast_shape(n.pattern(), n.path()) == NodeShape::Group,
    ensures
        group_shape(r) == ast_group(n.pattern(), n.path()),
{
    match n.node {
        Ast::Group(g) => match &g.kind {
            GroupKind::CaptureIndex(i) => GroupType::Capture(*i),
            GroupKind::CaptureName { name, .. } => GroupType::Named(name.name.clone(), name.index),
            GroupKind::NonCapturing(_) => GroupType::NonCapturing,
        },
        _ => GroupType::NonCapturing,
    }
}

/// The byte range of the pattern a node was parsed from (`Ast::span`, the
/// offsets of its start and end positions). Trusted: named `ast_span_at`.
#[verifier::external_body]
fn ast_span(n: &AstRef) -> (r: Span)
    ensures
        r == ast_span_at(n.pattern(), n.path()),
{
    let span = n.node.span();
    Span { start: span.start.offset, end: span.end.offset }
}

/// The source text of a node, as `regex-syntax` prints it back (`Display`).
/// Trusted: named `ast_text_at`.
#[verifier::external_body]
fn ast_text(n: &AstRef) -> (r: String)
    ensures
        r@ == ast_text_at(n.pattern(), n.path()),
{
    n.node.to_string()
}

/// How deep the library reads a tree: far deeper than the parser's default
/// nesting limit lets a tree grow.
pub const TREE_DEPTH_LIMIT: usize = 4096;

/// `t` is the library's tree of the node at `path` of the parse of
/// `pattern`, read down to `budget` levels (anything deeper reads as
/// empty).
pub open spec fn node_tree(pattern: Seq<char>, path: Seq<int>, budget: nat, t: RegexAst) -> bool
    decreases budget, 0int,
{
    if budget == 0 {
        t is Empty
    } else {
        let span = ast_span_at(pattern, path);
        let text = ast_text_at(pattern, path);
        let b = (budget - 1) as nat;
        match ast_shape(pattern, path) {
            NodeShape::Empty => t is Empty,
            NodeShape::Flags => t matches RegexAst::Flags(s, sp) && s@ == text && sp == span,
            NodeShape::Literal(c) => t == RegexAst::Literal(c, span),
            NodeShape::Dot => t == RegexAst::Dot(span),
            NodeShape::Assertion(a) => t == RegexAst::Assertion(a, span),
            NodeShape::ClassUnicode => t matches RegexAst::ClassUnicode(s, sp) && s@ == text && sp == span,
            NodeShape::ClassPerl(k, negated) => t == RegexAst::ClassPerl(k, negated, span),
            NodeShape::ClassBracketed => t matches RegexAst::ClassBracketed(s, sp) && s@ == text && sp == span,
            NodeShape::Repetition(r, greedy) => t matches RegexAst::Repetition(r2, g2, inner) && r2 == r && g2 == greedy
                && node_tree(pattern, path.push(0), b, *inner),
            NodeShape::Group => t matches RegexAst::Group(g, inner) && group_shape(g) == ast_group(pattern, path)
                && node_tree(pattern, path.push(0), b, *inner),
            NodeShape::Alternation(n) => t matches RegexAst::Alternation(items) && items_tree(pattern, path, b, items@, n as int),
            NodeShape::Concat(n) => t matches RegexAst::Concat(items) && items_tree(pattern, path, b, items@, n as int),
        }
    }
}

/// The trees are those of the `n` children of the node at `path`.
pub open spec fn items_tree(pattern: Seq<char>, path: Seq<int>, budget: nat, items: Seq<RegexAst>, n: int) -> bool
    decreases budget, 1int,
{
    &&& items.len() == n
    &&& forall|i: int| 0 <= i < n ==> node_tree(pattern, path.push(i), budget, #[trigger] items[i])
}

/// The tree `regex-syntax` parses `pattern` into, as the library reads it.
pub open spec fn pattern_tree(pattern: Seq<char>, t: RegexAst) -> bool {
    node_tree(pattern, Seq::empty(), TREE_DEPTH_LIMIT as nat, t)
}

/// The library's tree of a node, read down to `budget` levels; anything
/// deeper reads as empty.
pub(crate) fn convert(n: &AstRef, budget: usize) -> (r: RegexAst)
    ensures
        node_tree(n.pattern(), n.path(), budget as nat, r),
    decreases budget, 0int,
{
    if budget == 0 {
        return RegexAst::Empty;
    }
    let node = ast_node(n);
    match node {
        AstNode::Empty => RegexAst::Empty,
        AstNode::Flags => RegexAst::Flags(ast_text(n), ast_span(n)),
        AstNode::Literal(c) => RegexAst::Literal(c, ast_span(n)),
        AstNode::Dot => RegexAst::Dot(ast_span(n)),
        AstNode::Assertion(k) => RegexAst::Assertion(anchor_of(k), ast_span(n)),
        AstNode::ClassUnicode => RegexAst::ClassUnicode(ast_text(n), ast_span(n)),
        AstNode::ClassPerl(k, negated) => RegexAst::ClassPerl(perl_class_of(k), negated, ast_span(n)),
        AstNode::ClassBracketed => RegexAst::ClassBracketed(ast_text(n), ast_span(n)),
        AstNode::Repetition(k, greedy) => {
            let sub = convert(&ast_inner(n), budget - 1);
            RegexAst::Repetition(repeat_of(k), greedy, Box::new(sub))
        },
        AstNode::Group => {
            let g = group_type_of(n);
            let sub = convert(&ast_inner(n), budget - 1);
            RegexAst::Group(g, Box::new(sub))
        },
        AstNode::Alternation(count) => RegexAst::Alternation(convert_all(n, count, budget - 1)),
        AstNode::Concat(count) => RegexAst::Concat(convert_all(n, count, budget - 1)),
    }
}

fn convert_all(n: &AstRef, count: usize, budget: usize) -> (r: Vec<RegexAst>)
    requires
        ast_shape(n.pattern(), n.path()) == NodeShape::Alternation(count)
            || ast_shape(n.pattern(), n.path()) == NodeShape::Concat(count),
    ensures
        items_tree(n.pattern(), n.path(), budget as nat, r@, count as int),
    decreases budget, 1int,
{
    let mut out: Vec<RegexAst> = Vec::new();
    let mut i: usize = 0;
    while i < count
        invariant
            i <= count,
            out@.len() == i,
            ast_shape(n.pattern(), n.path()) == NodeShape::Alternation(count)
                || ast_shape(n.pattern(), n.path()) == NodeShape::Concat(count),
            forall|j: int| 0 <= j < i ==> node_tree(n.pattern(), n.path().push(j), budget as nat, #[trigger] out@[j]),
        decreases count - i,
    {
        let t = convert(&ast_part(n, i), budget);
        out.push(t);
        i = i + 1;
    }
    out
}

} // verus!
