//! Data of the step-through debugger, and the lookup of pattern tokens.

use vstd::prelude::*;

use crate::explain::syntax::{convert, pattern_tree, root, TREE_DEPTH_LIMIT};
use crate::explain::tree::{Anchor, PerlClass, RegexAst, Span};
use crate::explain::{ast_parse, ast_parse_outcome};
use crate::text::{owned, push_char, push_str};

verus! {

/// A single step in the regex engine's execution trace.
#[derive(Debug, Clone)]
pub struct DebugStep {
    pub index: usize,
    pub pattern_offset: usize,
    pub pattern_item_length: usize,
    pub subject_offset: usize,
    pub is_backtrack: bool,
    pub captures: Vec<Option<(usize, usize)>>,
    pub match_attempt: usize,
}

/// A piece of the pattern, by byte range, with what it stands for.
#[derive(Debug, Clone)]
pub struct PatternToken {
    pub start: usize,
    pub end: usize,
    pub description: String,
}

/// A recorded execution trace.
#[derive(Debug, Clone)]
pub struct DebugTrace {
    pub steps: Vec<DebugStep>,
    pub truncated: bool,
    pub offset_map: Vec<PatternToken>,
    pub heatmap: Vec<u32>,
    pub match_attempts: usize,
}

/// A debugger session: the trace of one pattern on one subject, and where
/// the user is in it.
#[derive(Debug, Clone)]
pub struct DebugSession {
    pub trace: DebugTrace,
    pub step: usize,
    pub show_heatmap: bool,
    pub pattern: String,
    pub subject: String,
}

/// The token covers the offset.
pub open spec fn token_covers(t: PatternToken, offset: usize) -> bool {
    t.start <= offset < t.end
}

/// How far the offset lies from a token that does not cover it.
pub open spec fn token_distance(t: PatternToken, offset: usize) -> int {
    if offset < t.start {
        t.start - offset
    } else {
        offset - t.end
    }
}

/// The index of the first token covering `offset`; when none does, the first
/// of the tokens nearest to it; `None` when there are no tokens.
pub fn find_token_at_offset(offset_map: &[PatternToken], offset: usize) -> (r: Option<usize>)
    ensures
        offset_map@.len() == 0 <==> r is None,
        r matches Some(i) ==> i < offset_map@.len(),
        r matches Some(i) ==> (exists|j: int| 0 <= j < offset_map@.len() && token_covers(#[trigger] offset_map@[j], offset)) ==> (
            token_covers(offset_map@[i as int], offset)
            && forall|j: int| 0 <= j < i ==> !token_covers(#[trigger] offset_map@[j], offset)),
        r matches Some(i) ==> (forall|j: int| 0 <= j < offset_map@.len() ==> !token_covers(#[trigger] offset_map@[j], offset)) ==> (
            (forall|j: int| 0 <= j < offset_map@.len() ==> token_distance(offset_map@[i as int], offset) <= token_distance(#[trigger] offset_map@[j], offset))
            && (forall|j: int| 0 <= j < i ==> token_distance(offset_map@[i as int], offset) < token_distance(#[trigger] offset_map@[j], offset))),
{
    let mut i: usize = 0;
    while i < offset_map.len()
        invariant
            i <= offset_map@.len(),
            forall|j: int| 0 <= j < i ==> !token_covers(#[trigger] offset_map@[j], offset),
        decreases offset_map.len() - i,
    {
        if offset >= offset_map[i].start && offset < offset_map[i].end {
            return Some(i);
        }
        i = i + 1;
    }
    if offset_map.len() == 0 {
        return None;
    }
    let mut best: usize = 0;
    let mut best_dist: usize = usize::MAX;
    let mut k: usize = 0;
    while k < offset_map.len()
        invariant
            k <= offset_map@.len(),
            offset_map@.len() > 0,
            best < offset_map@.len(),
            forall|j: int| 0 <= j < offset_map@.len() ==> !token_covers(#[trigger] offset_map@[j], offset),
            k == 0 ==> best == 0 && best_dist == usize::MAX,
            k > 0 ==> best < k && best_dist == token_distance(offset_map@[best as int], offset),
            forall|j: int| 0 <= j < k ==> best_dist <= token_distance(#[trigger] offset_map@[j], offset),
            forall|j: int| 0 <= j < best ==> best_dist < token_distance(#[trigger] offset_map@[j], offset),
        decreases offset_map.len() - k,
    {
        let t = &offset_map[k];
        let dist = if offset < t.start {
            t.start - offset
        } else {
            offset - t.end
        };
        if dist < best_dist {
            best_dist = dist;
            best = k;
        } else if k == 0 {
            best = 0;
        }
        k = k + 1;
    }
    proof {
        if token_distance(offset_map@[0], offset) == usize::MAX {
        }
    }
    Some(best)
}

/// A token by its contents.
pub struct TokenView {
    pub start: usize,
    pub end: usize,
    pub description: Seq<char>,
}

impl View for PatternToken {
    type V = TokenView;

    open spec fn view(&self) -> TokenView {
        TokenView { start: self.start, end: self.end, description: self.description@ }
    }
}

pub open spec fn tokens_view(ts: Seq<PatternToken>) -> Seq<TokenView> {
    ts.map_values(|t: PatternToken| t@)
}

/// No earlier token starts where token `k` starts.
pub open spec fn first_at_start(ts: Seq<TokenView>, k: int) -> bool {
    forall|j: int| 0 <= j < k ==> #[trigger] ts[j].start != ts[k].start
}

/// Token `k` of `ts` is `x`, and no earlier token starts where it does.
pub open spec fn is_origin(ts: Seq<TokenView>, k: int, x: TokenView) -> bool {
    0 <= k < ts.len() && first_at_start(ts, k) && ts[k] == x
}

/// Entry `i` of `m` starts at `start`.
pub open spec fn starts_at(m: Seq<TokenView>, i: int, start: usize) -> bool {
    0 <= i < m.len() && m[i].start == start
}

/// The entries are ordered by strictly increasing start.
pub open spec fn map_sorted(m: Seq<TokenView>) -> bool {
    forall|i: int, j: int| 0 <= i < j < m.len() ==> #[trigger] m[i].start < #[trigger] m[j].start
}

/// `x` is a token of `ts` that no earlier token shares its start with.
pub open spec fn has_origin(ts: Seq<TokenView>, x: TokenView) -> bool {
    exists|k: int| #[trigger] is_origin(ts, k, x)
}

/// Some entry of `m` starts at `start`.
pub open spec fn has_entry(m: Seq<TokenView>, start: usize) -> bool {
    exists|i: int| #[trigger] starts_at(m, i, start)
}

/// Every entry is a token that no earlier token shares its start with.
pub open spec fn map_origins(ts: Seq<TokenView>, m: Seq<TokenView>) -> bool {
    forall|i: int| 0 <= i < m.len() ==> #[trigger] has_origin(ts, m[i])
}

/// Every token's start has an entry.
pub open spec fn map_covers(ts: Seq<TokenView>, m: Seq<TokenView>) -> bool {
    forall|k: int| 0 <= k < ts.len() ==> #[trigger] has_entry(m, ts[k].start)
}

/// `m` is the offset map of the tokens `ts`: ordered by start, one token per
/// start offset, namely the first of the tokens with that start.
pub open spec fn is_offset_map(ts: Seq<TokenView>, m: Seq<TokenView>) -> bool {
    &&& map_sorted(m)
    &&& map_origins(ts, m)
    &&& map_covers(ts, m)
}

fn copy_token(t: &PatternToken) -> (r: PatternToken)
    ensures
        r@ == t@,
{
    PatternToken { start: t.start, end: t.end, description: owned(t.description.as_str()) }
}

proof fn lemma_first_push(pre: Seq<TokenView>, t: TokenView, k: int)
    requires
        0 <= k < pre.len(),
    ensures
        first_at_start(pre.push(t), k) == first_at_start(pre, k),
{
    let post = pre.push(t);
    assert(post[k] == pre[k]);
    if first_at_start(pre, k) {
        assert forall|j: int| 0 <= j < k implies #[trigger] post[j].start != post[k].start by {
            assert(post[j] == pre[j]);
        }
    } else {
        let j = choose|j: int| 0 <= j < k && #[trigger] pre[j].start == pre[k].start;
        assert(post[j] == pre[j]);
        assert(post[j].start == post[k].start);
    }
}

/// An origin in the tokens stays one when a token is added.
proof fn lemma_origin_push(pre: Seq<TokenView>, t: TokenView, k: int, x: TokenView)
    requires
        is_origin(pre, k, x),
    ensures
        is_origin(pre.push(t), k, x),
{
    lemma_first_push(pre, t, k);
}

proof fn lemma_origins_push(pre: Seq<TokenView>, t: TokenView, m: Seq<TokenView>)
    requires
        map_origins(pre, m),
    ensures
        map_origins(pre.push(t), m),
{
    assert forall|i: int| 0 <= i < m.len() implies #[trigger] has_origin(pre.push(t), m[i]) by {
        assert(has_origin(pre, m[i]));
        let k = choose|k: int| #[trigger] is_origin(pre, k, m[i]);
        lemma_origin_push(pre, t, k, m[i]);
    }
}

/// A token whose start is already in the map leaves the map as it is.
proof fn lemma_map_skip(pre: Seq<TokenView>, t: TokenView, m: Seq<TokenView>, p: int)
    requires
        map_sorted(m),
        map_origins(pre, m),
        map_covers(pre, m),
        0 <= p < m.len(),
        m[p].start == t.start,
    ensures
        is_offset_map(pre.push(t), m),
{
    let post = pre.push(t);
    lemma_origins_push(pre, t, m);
    assert forall|k: int| 0 <= k < post.len() implies #[trigger] has_entry(m, post[k].start) by {
        if k < pre.len() {
            assert(post[k] == pre[k]);
            assert(has_entry(m, pre[k].start));
        } else {
            assert(starts_at(m, p, post[k].start));
        }
    }
}

proof fn lemma_sorted_insert(m: Seq<TokenView>, t: TokenView, p: int)
    requires
        map_sorted(m),
        0 <= p <= m.len(),
        forall|i: int| 0 <= i < p ==> #[trigger] m[i].start < t.start,
        p < m.len() ==> m[p].start > t.start,
    ensures
        map_sorted(m.insert(p, t)),
{
    let m2 = m.insert(p, t);
    assert forall|i: int, j: int| 0 <= i < j < m2.len() implies #[trigger] m2[i].start < #[trigger] m2[j].start by {
        if j < p {
            assert(m2[i] == m[i] && m2[j] == m[j]);
        } else if j == p {
            assert(m2[i] == m[i]);
        } else if i == p {
            assert(m2[j] == m[j - 1]);
            if j - 1 > p {
                assert(m[p].start < m[j - 1].start);
            }
        } else if i < p {
            assert(m2[i] == m[i] && m2[j] == m[j - 1]);
        } else {
            assert(m2[i] == m[i - 1] && m2[j] == m[j - 1]);
        }
    }
}

proof fn lemma_origins_insert(pre: Seq<TokenView>, t: TokenView, m: Seq<TokenView>, p: int)
    requires
        map_origins(pre, m),
        map_covers(pre, m),
        map_sorted(m),
        0 <= p <= m.len(),
        forall|i: int| 0 <= i < p ==> #[trigger] m[i].start < t.start,
        p < m.len() ==> m[p].start > t.start,
    ensures
        map_origins(pre.push(t), m.insert(p, t)),
{
    let post = pre.push(t);
    let m2 = m.insert(p, t);
    let k = pre.len() as int;
    assert(first_at_start(post, k)) by {
        assert forall|j: int| 0 <= j < k implies #[trigger] post[j].start != post[k].start by {
            assert(post[j] == pre[j]);
            assert(has_entry(m, pre[j].start));
            let i = choose|i: int| #[trigger] starts_at(m, i, pre[j].start);
            if i > p {
                assert(m[p].start < m[i].start);
            }
        }
    }
    assert(is_origin(post, k, t));
    lemma_origins_push(pre, t, m);
    assert forall|i: int| 0 <= i < m2.len() implies #[trigger] has_origin(post, m2[i]) by {
        if i == p {
            assert(is_origin(post, k, m2[i]));
        } else {
            let i0 = if i < p { i } else { i - 1 };
            assert(m2[i] == m[i0]);
            assert(has_origin(post, m[i0]));
        }
    }
}

proof fn lemma_covers_insert(pre: Seq<TokenView>, t: TokenView, m: Seq<TokenView>, p: int)
    requires
        map_covers(pre, m),
        0 <= p <= m.len(),
    ensures
        map_covers(pre.push(t), m.insert(p, t)),
{
    let post = pre.push(t);
    let m2 = m.insert(p, t);
    assert forall|k2: int| 0 <= k2 < post.len() implies #[trigger] has_entry(m2, post[k2].start) by {
        if k2 < pre.len() {
            assert(post[k2] == pre[k2]);
            assert(has_entry(m, pre[k2].start));
            let i = choose|i: int| #[trigger] starts_at(m, i, pre[k2].start);
            if i < p {
                assert(m2[i] == m[i]);
                assert(starts_at(m2, i, post[k2].start));
            } else {
                assert(m2[i + 1] == m[i]);
                assert(starts_at(m2, i + 1, post[k2].start));
            }
        } else {
            assert(starts_at(m2, p, post[k2].start));
        }
    }
}

/// A token with a new start goes in at its place in the order.
proof fn lemma_map_insert(pre: Seq<TokenView>, t: TokenView, m: Seq<TokenView>, p: int)
    requires
        map_sorted(m),
        map_origins(pre, m),
        map_covers(pre, m),
        0 <= p <= m.len(),
        forall|i: int| 0 <= i < p ==> #[trigger] m[i].start < t.start,
        p < m.len() ==> m[p].start > t.start,
    ensures
        is_offset_map(pre.push(t), m.insert(p, t)),
{
    lemma_sorted_insert(m, t, p);
    lemma_origins_insert(pre, t, m, p);
    lemma_covers_insert(pre, t, m, p);
}

/// Orders tokens by start offset, keeping the first token of each start
/// (a stable sort followed by removing later tokens with the same start).
pub fn offset_map_of(tokens: &Vec<PatternToken>) -> (r: Vec<PatternToken>)
    ensures
        is_offset_map(tokens_view(tokens@), tokens_view(r@)),
{
    let ghost ts = tokens_view(tokens@);
    let mut out: Vec<PatternToken> = Vec::new();
    let mut k: usize = 0;
    while k < tokens.len()
        invariant
            ts == tokens_view(tokens@),
            k <= tokens@.len(),
            is_offset_map(ts.take(k as int), tokens_view(out@)),
        decreases tokens.len() - k,
    {
        let start = tokens[k].start;
        let mut p: usize = 0;
        while p < out.len() && out[p].start < start
            invariant
                p <= out@.len(),
                forall|i: int| 0 <= i < p ==> #[trigger] out@[i].start < start,
            decreases out.len() - p,
        {
            p = p + 1;
        }
        let ghost m = tokens_view(out@);
        proof {
            assert(ts.take(k + 1) =~= ts.take(k as int).push(ts[k as int]));
            assert forall|i: int| 0 <= i < p implies #[trigger] m[i].start < ts[k as int].start by {
                assert(m[i] == out@[i]@);
            }
        }
        if p < out.len() && out[p].start == start {
            proof {
                lemma_map_skip(ts.take(k as int), ts[k as int], m, p as int);
            }
        } else {
            let t = copy_token(&tokens[k]);
            out.insert(p, t);
            proof {
                assert(tokens_view(out@) =~= m.insert(p as int, ts[k as int]));
                lemma_map_insert(ts.take(k as int), ts[k as int], m, p as int);
            }
        }
        k = k + 1;
    }
    assert(ts.take(tokens@.len() as int) =~= ts);
    out
}

/// The text a pattern token shows for an assertion: the name of its kind.
pub open spec fn anchor_name(a: Anchor) -> Seq<char> {
    match a {
        Anchor::StartLine => "StartLine"@,
        Anchor::EndLine => "EndLine"@,
        Anchor::StartText => "StartText"@,
        Anchor::EndText => "EndText"@,
        Anchor::WordBoundary => "WordBoundary"@,
        Anchor::NotWordBoundary => "NotWordBoundary"@,
        Anchor::WordStart => "WordBoundaryStart"@,
        Anchor::WordEnd => "WordBoundaryEnd"@,
        Anchor::WordStartAngle => "WordBoundaryStartAngle"@,
        Anchor::WordEndAngle => "WordBoundaryEndAngle"@,
        Anchor::WordStartHalf => "WordBoundaryStartHalf"@,
        Anchor::WordEndHalf => "WordBoundaryEndHalf"@,
    }
}

fn anchor_name_string(a: Anchor) -> (r: String)
    ensures
        r@ == anchor_name(a),
{
    match a {
        Anchor::StartLine => owned("StartLine"),
        Anchor::EndLine => owned("EndLine"),
        Anchor::StartText => owned("StartText"),
        Anchor::EndText => owned("EndText"),
        Anchor::WordBoundary => owned("WordBoundary"),
        Anchor::NotWordBoundary => owned("NotWordBoundary"),
        Anchor::WordStart => owned("WordBoundaryStart"),
        Anchor::WordEnd => owned("WordBoundaryEnd"),
        Anchor::WordStartAngle => owned("WordBoundaryStartAngle"),
        Anchor::WordEndAngle => owned("WordBoundaryEndAngle"),
        Anchor::WordStartHalf => owned("WordBoundaryStartHalf"),
        Anchor::WordEndHalf => owned("WordBoundaryEndHalf"),
    }
}

/// The text a pattern token shows for a Perl class (negated or not).
pub open spec fn perl_token_text(k: PerlClass) -> Seq<char> {
    match k {
        PerlClass::Digit => "Digit (\\d)"@,
        PerlClass::Space => "Whitespace (\\s)"@,
        PerlClass::Word => "Word char (\\w)"@,
    }
}

fn perl_token_string(k: PerlClass) -> (r: String)
    ensures
        r@ == perl_token_text(k),
{
    match k {
        PerlClass::Digit => owned("Digit (\\d)"),
        PerlClass::Space => owned("Whitespace (\\s)"),
        PerlClass::Word => owned("Word char (\\w)"),
    }
}

/// The text a pattern token shows for a literal: `Literal '` the character `'`.
pub open spec fn literal_token_text(c: char) -> Seq<char> {
    "Literal '"@ + seq![c] + "'"@
}

/// The token of an element at `span` with the given description.
pub open spec fn span_token(span: Span, description: Seq<char>) -> TokenView {
    TokenView { start: span.start, end: span.end, description }
}

/// The tokens of a tree, in pattern order: one for every element that stands
/// for characters (flags, literals, the dot, assertions, classes), with its
/// span; repetitions and groups give the tokens of their contents,
/// alternations and concatenations those of their parts one after another.
pub open spec fn tree_tokens(t: RegexAst) -> Seq<TokenView>
    decreases t, 0int,
{
    match t {
        RegexAst::Empty => Seq::empty(),
        RegexAst::Flags(_, span) => seq![span_token(span, "Flags"@)],
        RegexAst::Literal(c, span) => seq![span_token(span, literal_token_text(c))],
        RegexAst::Dot(span) => seq![span_token(span, "Any character"@)],
        RegexAst::Assertion(a, span) => seq![span_token(span, anchor_name(a))],
        RegexAst::ClassUnicode(_, span) => seq![span_token(span, "Unicode class"@)],
        RegexAst::ClassPerl(k, _, span) => seq![span_token(span, perl_token_text(k))],
        RegexAst::ClassBracketed(_, span) => seq![span_token(span, "Character class"@)],
        RegexAst::Repetition(_, _, inner) => tree_tokens(*inner),
        RegexAst::Group(_, inner) => tree_tokens(*inner),
        RegexAst::Alternation(items) => items_tokens(items@, items@.len() as int),
        RegexAst::Concat(items) => items_tokens(items@, items@.len() as int),
    }
}

/// The tokens of the first `k` trees of a sequence, one tree after another.
pub open spec fn items_tokens(items: Seq<RegexAst>, k: int) -> Seq<TokenView>
    decreases items, k,
{
    if k <= 0 || k > items.len() {
        Seq::empty()
    } else {
        items_tokens(items, k - 1) + tree_tokens(items[k - 1])
    }
}

fn push_token(tokens: &mut Vec<PatternToken>, span: Span, description: String)
    ensures
        tokens_view(final(tokens)@) == tokens_view(old(tokens)@).push(span_token(span, description@)),
{
    tokens.push(PatternToken { start: span.start, end: span.end, description });
    assert(tokens_view(tokens@) =~= tokens_view(old(tokens)@).push(span_token(span, description@)));
}

/// Appends the tokens of the tree: a token for every element that stands
/// for characters (literals, classes, the dot, assertions, flags), in
/// pattern order; repetitions, groups, alternations and concatenations only
/// pass on to their parts.
fn collect_tokens(t: &RegexAst, tokens: &mut Vec<PatternToken>)
    ensures
        tokens_view(final(tokens)@) == tokens_view(old(tokens)@) + tree_tokens(*t),
    decreases t, 0int,
{
    let ghost start = tokens_view(tokens@);
    match t {
        RegexAst::Empty => {
            assert(tokens_view(tokens@) =~= start + tree_tokens(*t));
        },
        RegexAst::Flags(_, span) => push_token(tokens, *span, owned("Flags")),
        RegexAst::Literal(c, span) => {
            let mut d = owned("Literal '");
            push_char(&mut d, *c);
            push_str(&mut d, "'");
            assert(d@ =~= literal_token_text(*c));
            push_token(tokens, *span, d);
        },
        RegexAst::Dot(span) => push_token(tokens, *span, owned("Any character")),
        RegexAst::Assertion(a, span) => push_token(tokens, *span, anchor_name_string(*a)),
        RegexAst::ClassUnicode(_, span) => push_token(tokens, *span, owned("Unicode class")),
        RegexAst::ClassPerl(k, _, span) => push_token(tokens, *span, perl_token_string(*k)),
        RegexAst::ClassBracketed(_, span) => push_token(tokens, *span, owned("Character class")),
        RegexAst::Repetition(_, _, inner) => collect_tokens(inner, tokens),
        RegexAst::Group(_, inner) => collect_tokens(inner, tokens),
        RegexAst::Alternation(items) => {
            proof {
                assert(decreases_to!(*t => (*t)->Alternation_0));
            }
            collect_all(items, tokens);
        },
        RegexAst::Concat(items) => {
            proof {
                assert(decreases_to!(*t => (*t)->Concat_0));
            }
            collect_all(items, tokens);
        },
    }
}

/// Appends the tokens of each tree in turn.
fn collect_all(items: &Vec<RegexAst>, tokens: &mut Vec<PatternToken>)
    ensures
        tokens_view(final(tokens)@) == tokens_view(old(tokens)@) + items_tokens(items@, items@.len() as int),
    decreases *items, 1int,
{
    let ghost start = tokens_view(tokens@);
    let mut i: usize = 0;
    while i < items.len()
        invariant
            i <= items@.len(),
            tokens_view(tokens@) == start + items_tokens(items@, i as int),
        decreases items.len() - i,
    {
        proof {
            assert(decreases_to!(*items => items@));
            assert(decreases_to!(items@ => items@[i as int]));
        }
        collect_tokens(&items[i], tokens);
        i = i + 1;
        assert(tokens_view(tokens@) =~= start + items_tokens(items@, i as int));
    }
}

/// The tokens of a pattern, ordered by start offset with one token per
/// start; none when the pattern does not parse.
pub fn build_offset_map(pattern: &str) -> (r: Vec<PatternToken>)
    ensures
        ast_parse_outcome(pattern@) is Err ==> r@.len() == 0,
        ast_parse_outcome(pattern@) is Ok ==> exists|t: RegexAst|
            #[trigger] pattern_tree(pattern@, t) && is_offset_map(tree_tokens(t), tokens_view(r@)),
{
    match ast_parse(pattern) {
        Ok(parsed) => {
            let r0 = root(&parsed);
            let t = convert(&r0, TREE_DEPTH_LIMIT);
            assert(pattern_tree(pattern@, t));
            let mut tokens: Vec<PatternToken> = Vec::new();
            collect_tokens(&t, &mut tokens);
            assert(tokens_view(tokens@) =~= tree_tokens(t));
            let r = offset_map_of(&tokens);
            r
        },
        Err(_) => Vec::new(),
    }
}

} // verus!
