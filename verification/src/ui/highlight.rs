//! How the test text is cut into pieces for highlighting: plain text,
//! matched text, and the text of each capture group.

use vstd::prelude::*;

use crate::engine::{matches_laid_out, matches_view, text_bytes, CaptureGroup, CaptureView, Match, MatchView};

verus! {

/// How a piece of the test text is shown.
#[derive(Debug, Clone, Copy, PartialEq, Eq, Structural)]
pub enum SegmentKind {
    /// Outside every match.
    Plain,
    /// Inside a match, outside its capture groups.
    Match,
    /// Inside the capture group with this index.
    Capture(usize),
}

/// A byte range of the test text and how it is shown.
#[derive(Debug, Clone, Copy, PartialEq, Eq, Structural)]
pub struct HighlightSegment {
    pub start: usize,
    pub end: usize,
    pub kind: SegmentKind,
}

pub open spec fn seg(start: usize, end: usize, kind: SegmentKind) -> HighlightSegment {
    HighlightSegment { start, end, kind }
}

/// `x` brought into `[lo, hi]` (`lo` when the range is empty).
pub open spec fn clamp_to(x: usize, lo: usize, hi: usize) -> usize {
    if x < lo {
        lo
    } else if x > hi {
        if hi < lo {
            lo
        } else {
            hi
        }
    } else {
        x
    }
}

/// Where the piece of group `k - 1` may end: its own end, or the start of
/// the group after it when that comes first (a nested group takes over).
pub open spec fn capture_stop(caps: Seq<CaptureView>, k: int) -> usize {
    let c = caps[k - 1];
    if k < caps.len() && caps[k].start < c.end {
        caps[k].start
    } else {
        c.end
    }
}

/// The pieces of a match from its start up to the end of its `k`-th
/// capture group, and where they stop. Each group is shown from where the
/// previous one stopped (or its own start, when later) to its end, or to
/// where the next group starts when that group lies inside it, all kept
/// inside the match; matched text between groups is shown as the match.
pub open spec fn capture_sweep(caps: Seq<CaptureView>, start: usize, end: usize, k: int) -> (Seq<HighlightSegment>, usize)
    decreases k,
{
    if k <= 0 || k > caps.len() {
        (Seq::empty(), start)
    } else {
        let prev = capture_sweep(caps, start, end, k - 1);
        let inner = prev.1;
        let c = caps[k - 1];
        let s = clamp_to(c.start, inner, end);
        let e = clamp_to(capture_stop(caps, k), s, end);
        let gap = if s > inner {
            seq![seg(inner, s, SegmentKind::Match)]
        } else {
            Seq::empty()
        };
        (prev.0 + gap + seq![seg(s, e, SegmentKind::Capture(c.index))], e)
    }
}

/// The pieces of one match: the whole match when it has no capture groups,
/// else its groups with the matched text around them.
pub open spec fn match_segments(m: MatchView) -> Seq<HighlightSegment> {
    if m.captures.len() == 0 {
        seq![seg(m.start, m.end, SegmentKind::Match)]
    } else {
        let sweep = capture_sweep(m.captures, m.start, m.end, m.captures.len() as int);
        sweep.0 + if sweep.1 < m.end {
            seq![seg(sweep.1, m.end, SegmentKind::Match)]
        } else {
            Seq::empty()
        }
    }
}

/// The pieces of the text up to the end of its `k`-th match, and where they
/// stop: plain text before each match, then the match's pieces.
pub open spec fn text_sweep(ms: Seq<MatchView>, k: int) -> (Seq<HighlightSegment>, usize)
    decreases k,
{
    if k <= 0 || k > ms.len() {
        (Seq::empty(), 0)
    } else {
        let prev = text_sweep(ms, k - 1);
        let m = ms[k - 1];
        let gap = if m.start > prev.1 {
            seq![seg(prev.1, m.start, SegmentKind::Plain)]
        } else {
            Seq::empty()
        };
        (prev.0 + gap + match_segments(m), m.end)
    }
}

/// The pieces of a text of `len` bytes with the given matches: the whole
/// text as plain text when there is no match or no text; else the pieces of
/// every match with plain text between them and after the last.
pub open spec fn spec_highlight_segments(len: nat, ms: Seq<MatchView>) -> Seq<HighlightSegment> {
    if ms.len() == 0 || len == 0 {
        seq![seg(0, len as usize, SegmentKind::Plain)]
    } else {
        let sweep = text_sweep(ms, ms.len() as int);
        sweep.0 + if sweep.1 < len {
            seq![seg(sweep.1, len as usize, SegmentKind::Plain)]
        } else {
            Seq::empty()
        }
    }
}

fn clamp_exec(x: usize, lo: usize, hi: usize) -> (r: usize)
    ensures
        r == clamp_to(x, lo, hi),
{
    if x < lo {
        lo
    } else if x > hi {
        if hi < lo {
            lo
        } else {
            hi
        }
    } else {
        x
    }
}

fn push_match_segments(out: &mut Vec<HighlightSegment>, m: &Match)
    ensures
        final(out)@ == old(out)@ + match_segments(m@),
{
    let ghost caps = m@.captures;
    if m.captures.len() == 0 {
        out.push(HighlightSegment { start: m.start, end: m.end, kind: SegmentKind::Match });
        return;
    }
    let ghost base = out@;
    let mut inner = m.start;
    let mut k: usize = 0;
    while k < m.captures.len()
        invariant
            caps == m@.captures,
            caps.len() == m.captures@.len(),
            k <= caps.len(),
            (out@, inner) == (base + capture_sweep(caps, m.start, m.end, k as int).0, capture_sweep(
                caps,
                m.start,
                m.end,
                k as int,
            ).1),
        decreases m.captures.len() - k,
    {
        let c: &CaptureGroup = &m.captures[k];
        assert(caps[k as int] == c@);
        let stop = if k + 1 < m.captures.len() && m.captures[k + 1].start < c.end {
            m.captures[k + 1].start
        } else {
            c.end
        };
        assert(k + 1 < caps.len() ==> caps[k + 1] == m.captures@[k + 1]@);
        assert(stop == capture_stop(caps, k + 1));
        let s = clamp_exec(c.start, inner, m.end);
        let e = clamp_exec(stop, s, m.end);
        let ghost before = out@;
        if s > inner {
            out.push(HighlightSegment { start: inner, end: s, kind: SegmentKind::Match });
        }
        out.push(HighlightSegment { start: s, end: e, kind: SegmentKind::Capture(c.index) });
        inner = e;
        k = k + 1;
        proof {
            let prev = capture_sweep(caps, m.start, m.end, k - 1);
            let gap = if s > prev.1 {
                seq![seg(prev.1, s, SegmentKind::Match)]
            } else {
                Seq::empty()
            };
            assert(out@ =~= before + gap + seq![seg(s, e, SegmentKind::Capture(c.index))]);
            assert(base + capture_sweep(caps, m.start, m.end, k as int).0 =~= (base + prev.0) + gap + seq![
                seg(s, e, SegmentKind::Capture(c.index)),
            ]);
        }
    }
    if inner < m.end {
        out.push(HighlightSegment { start: inner, end: m.end, kind: SegmentKind::Match });
    }
    assert(out@ =~= base + match_segments(m@));
}

/// Cuts the test text into the pieces that highlighting shows, in order:
/// plain text, matched text, and the text of each capture group.
pub fn highlight_segments(text: &str, matches: &Vec<Match>) -> (r: Vec<HighlightSegment>)
    ensures
        r@ == spec_highlight_segments(text_bytes(text@).len(), matches_view(matches@)),
{
    let ghost ms = matches_view(matches@);
    let n = text.as_bytes().len();
    assert(n == text_bytes(text@).len());
    let mut out: Vec<HighlightSegment> = Vec::new();
    if matches.len() == 0 || n == 0 {
        out.push(HighlightSegment { start: 0, end: n, kind: SegmentKind::Plain });
        assert(out@ =~= spec_highlight_segments(text_bytes(text@).len(), ms));
        return out;
    }
    let mut pos: usize = 0;
    let mut k: usize = 0;
    while k < matches.len()
        invariant
            ms == matches_view(matches@),
            ms.len() == matches@.len(),
            k <= ms.len(),
            out@ == text_sweep(ms, k as int).0,
            pos == text_sweep(ms, k as int).1,
        decreases matches.len() - k,
    {
        let m = &matches[k];
        assert(ms[k as int] == m@);
        let ghost before = out@;
        if m.start > pos {
            out.push(HighlightSegment { start: pos, end: m.start, kind: SegmentKind::Plain });
        }
        push_match_segments(&mut out, m);
        pos = m.end;
        k = k + 1;
        proof {
            let prev = text_sweep(ms, k - 1);
            let gap = if m.start > prev.1 {
                seq![seg(prev.1, m.start, SegmentKind::Plain)]
            } else {
                Seq::empty()
            };
            assert(out@ =~= before + gap + match_segments(m@));
        }
    }
    if pos < n {
        out.push(HighlightSegment { start: pos, end: n, kind: SegmentKind::Plain });
    }
    assert(out@ =~= spec_highlight_segments(text_bytes(text@).len(), ms));
    out
}

/// The segments run from `a` to `b` without gaps or overlaps: each starts
/// where the one before ended, none runs backwards (no segments: `a == b`).
pub open spec fn chain(segs: Seq<HighlightSegment>, a: int, b: int) -> bool {
    if segs.len() == 0 {
        a == b
    } else {
        &&& segs[0].start == a
        &&& segs[segs.len() - 1].end == b
        &&& forall|i: int| 0 <= i < segs.len() ==> (#[trigger] segs[i]).start <= segs[i].end
        &&& forall|i: int| 0 <= i < segs.len() - 1 ==> (#[trigger] segs[i]).end == segs[i + 1].start
    }
}

proof fn lemma_chain_concat(x: Seq<HighlightSegment>, y: Seq<HighlightSegment>, a: int, b: int, c: int)
    requires
        chain(x, a, b),
        chain(y, b, c),
    ensures
        chain(x + y, a, c),
{
    let z = x + y;
    if x.len() == 0 {
        assert(z =~= y);
    } else if y.len() == 0 {
        assert(z =~= x);
    } else {
        assert forall|i: int| 0 <= i < z.len() implies (#[trigger] z[i]).start <= z[i].end by {
            if i < x.len() {
                assert(z[i] == x[i]);
            } else {
                assert(z[i] == y[i - x.len()]);
            }
        }
        assert forall|i: int| 0 <= i < z.len() - 1 implies (#[trigger] z[i]).end == z[i + 1].start by {
            if i < x.len() - 1 {
                assert(z[i] == x[i] && z[i + 1] == x[i + 1]);
            } else if i == x.len() - 1 {
                assert(z[i] == x[i] && z[i + 1] == y[0]);
            } else {
                assert(z[i] == y[i - x.len()] && z[i + 1] == y[i + 1 - x.len()]);
            }
        }
    }
}

proof fn lemma_chain_one(a: usize, b: usize, k: SegmentKind)
    requires
        a <= b,
    ensures
        chain(seq![seg(a, b, k)], a as int, b as int),
{
}

proof fn lemma_capture_sweep_chain(caps: Seq<CaptureView>, start: usize, end: usize, k: int)
    requires
        start <= end,
    ensures
        start <= capture_sweep(caps, start, end, k).1 <= end,
        chain(capture_sweep(caps, start, end, k).0, start as int, capture_sweep(caps, start, end, k).1 as int),
    decreases k,
{
    if k <= 0 || k > caps.len() {
    } else {
        lemma_capture_sweep_chain(caps, start, end, k - 1);
        let prev = capture_sweep(caps, start, end, k - 1);
        let inner = prev.1;
        let c = caps[k - 1];
        let s = clamp_to(c.start, inner, end);
        let e = clamp_to(capture_stop(caps, k), s, end);
        let gap = if s > inner {
            seq![seg(inner, s, SegmentKind::Match)]
        } else {
            Seq::empty()
        };
        if s > inner {
            lemma_chain_one(inner, s, SegmentKind::Match);
        }
        assert(chain(gap, inner as int, s as int));
        lemma_chain_concat(prev.0, gap, start as int, inner as int, s as int);
        lemma_chain_one(s, e, SegmentKind::Capture(c.index));
        lemma_chain_concat(prev.0 + gap, seq![seg(s, e, SegmentKind::Capture(c.index))], start as int, s as int, e as int);
    }
}

proof fn lemma_match_segments_chain(m: MatchView)
    requires
        m.start <= m.end,
    ensures
        chain(match_segments(m), m.start as int, m.end as int),
{
    if m.captures.len() == 0 {
        lemma_chain_one(m.start, m.end, SegmentKind::Match);
    } else {
        lemma_capture_sweep_chain(m.captures, m.start, m.end, m.captures.len() as int);
        let sweep = capture_sweep(m.captures, m.start, m.end, m.captures.len() as int);
        let tail = if sweep.1 < m.end {
            seq![seg(sweep.1, m.end, SegmentKind::Match)]
        } else {
            Seq::empty()
        };
        if sweep.1 < m.end {
            lemma_chain_one(sweep.1, m.end, SegmentKind::Match);
        }
        assert(chain(tail, sweep.1 as int, m.end as int));
        lemma_chain_concat(sweep.0, tail, m.start as int, sweep.1 as int, m.end as int);
    }
}

proof fn lemma_text_sweep_chain(ms: Seq<MatchView>, text: Seq<char>, k: int)
    requires
        matches_laid_out(ms, text),
        0 <= k <= ms.len(),
    ensures
        chain(text_sweep(ms, k).0, 0, text_sweep(ms, k).1 as int),
        k > 0 ==> text_sweep(ms, k).1 == ms[k - 1].end,
        text_sweep(ms, k).1 <= text_bytes(text).len(),
    decreases k,
{
    if k > 0 {
        lemma_text_sweep_chain(ms, text, k - 1);
        let prev = text_sweep(ms, k - 1);
        let m = ms[k - 1];
        assert(crate::engine::span_ok(text_bytes(text), m.start, m.end));
        if k > 1 {
            assert(ms[k - 2].end <= ms[k - 1].start);
        }
        let gap = if m.start > prev.1 {
            seq![seg(prev.1, m.start, SegmentKind::Plain)]
        } else {
            Seq::empty()
        };
        if m.start > prev.1 {
            lemma_chain_one(prev.1, m.start, SegmentKind::Plain);
        }
        assert(chain(gap, prev.1 as int, m.start as int));
        lemma_chain_concat(prev.0, gap, 0, prev.1 as int, m.start as int);
        lemma_match_segments_chain(m);
        lemma_chain_concat(prev.0 + gap, match_segments(m), 0, m.start as int, m.end as int);
    }
}

/// The highlighted pieces cover the whole text in order, each starting
/// where the one before ends: for matches laid out in the text, the
/// segments run from byte 0 to the end of the text without gaps or
/// overlaps.
pub proof fn lemma_segments_tile_text(text: Seq<char>, ms: Seq<MatchView>)
    requires
        matches_laid_out(ms, text),
        text_bytes(text).len() <= usize::MAX,
    ensures
        chain(spec_highlight_segments(text_bytes(text).len(), ms), 0, text_bytes(text).len() as int),
{
    let len = text_bytes(text).len();
    if ms.len() == 0 || len == 0 {
        lemma_chain_one(0, len as usize, SegmentKind::Plain);
    } else {
        lemma_text_sweep_chain(ms, text, ms.len() as int);
        let sweep = text_sweep(ms, ms.len() as int);
        let tail = if sweep.1 < len {
            seq![seg(sweep.1, len as usize, SegmentKind::Plain)]
        } else {
            Seq::empty()
        };
        if sweep.1 < len {
            lemma_chain_one(sweep.1, len as usize, SegmentKind::Plain);
        }
        assert(chain(tail, sweep.1 as int, len as int));
        lemma_chain_concat(sweep.0, tail, 0, sweep.1 as int, len as int);
    }
}

} // verus!
