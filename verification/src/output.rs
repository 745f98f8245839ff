//! What batch mode prints: the count, the replacement, a capture group of
//! each match, or the matches, optionally colored.

use vstd::prelude::*;
use vstd::utf8::decode_utf8;

use crate::app::App;
use crate::engine::replace::{expand_replacement, lookup_capture, literal_piece, prev_end, spec_expand, spec_lookup};
use crate::engine::{matches_laid_out, matches_view, span_ok, text_bytes, Match, MatchView};
use crate::text::{decimal, push_decimal, push_str, substring_bytes, suffix_from};

verus! {

pub const ANSI_RED_BOLD: &'static str = "\x1b[1;31m";

pub const ANSI_GREEN_BOLD: &'static str = "\x1b[1;32m";

pub const ANSI_RESET: &'static str = "\x1b[0m";

/// A newline unless the text already ends with one.
pub open spec fn closing_newline(t: Seq<char>) -> Seq<char> {
    if t.len() > 0 && t.last() == '\n' {
        Seq::empty()
    } else {
        "\n"@
    }
}

/// The text with the first `k` matches wrapped in red.
pub open spec fn colored_matches_upto(text: Seq<char>, ms: Seq<MatchView>, k: int) -> Seq<char>
    decreases k,
{
    if k <= 0 {
        Seq::empty()
    } else {
        let m = ms[k - 1];
        colored_matches_upto(text, ms, k - 1) + literal_piece(text_bytes(text), prev_end(ms, k - 1) as int, m.start as int)
            + ANSI_RED_BOLD@ + decode_utf8(text_bytes(text).subrange(m.start as int, m.end as int)) + ANSI_RESET@
    }
}

/// The text with every match wrapped in red, ending with a newline.
pub open spec fn spec_colored_matches(text: Seq<char>, ms: Seq<MatchView>) -> Seq<char> {
    colored_matches_upto(text, ms, ms.len() as int) + literal_piece(
        text_bytes(text),
        prev_end(ms, ms.len() as int) as int,
        text_bytes(text).len() as int,
    ) + closing_newline(text)
}

/// A piece in green, unless it is empty.
pub open spec fn green(piece: Seq<char>) -> Seq<char> {
    if piece.len() == 0 {
        Seq::empty()
    } else {
        ANSI_GREEN_BOLD@ + piece + ANSI_RESET@
    }
}

/// The substitution with the first `k` replacements in green.
pub open spec fn colored_replace_upto(text: Seq<char>, ms: Seq<MatchView>, template: Seq<char>, k: int) -> Seq<char>
    decreases k,
{
    if k <= 0 {
        Seq::empty()
    } else {
        let m = ms[k - 1];
        colored_replace_upto(text, ms, template, k - 1) + literal_piece(
            text_bytes(text),
            prev_end(ms, k - 1) as int,
            m.start as int,
        ) + green(spec_expand(template, m))
    }
}

/// The substitution with every replacement in green, ending with a
/// newline.
pub open spec fn spec_colored_replace(text: Seq<char>, ms: Seq<MatchView>, template: Seq<char>, output: Seq<char>) -> Seq<
    char,
> {
    colored_replace_upto(text, ms, template, ms.len() as int) + literal_piece(
        text_bytes(text),
        prev_end(ms, ms.len() as int) as int,
        text_bytes(text).len() as int,
    ) + closing_newline(output)
}

/// One line per match: the text of the group, red when colored; a match
/// without the group gives a line on the error stream instead.
pub open spec fn group_lines(ms: Seq<MatchView>, group: Seq<char>, color: bool, k: int) -> (Seq<char>, Seq<char>)
    decreases k,
{
    if k <= 0 {
        (Seq::empty(), Seq::empty())
    } else {
        let (out, err) = group_lines(ms, group, color, k - 1);
        match spec_lookup(ms[k - 1], group) {
            Some(t) => (out + if color {
                ANSI_RED_BOLD@ + t + ANSI_RESET@ + "\n"@
            } else {
                t + "\n"@
            }, err),
            None => (out, err + "rgx: group '"@ + group + "' not found in match\n"@),
        }
    }
}

/// One line per match with its text.
pub open spec fn match_lines(ms: Seq<MatchView>, k: int) -> Seq<char>
    decreases k,
{
    if k <= 0 {
        Seq::empty()
    } else {
        match_lines(ms, k - 1) + ms[k - 1].text + "\n"@
    }
}

/// What batch mode prints on the output and error streams.
pub open spec fn spec_output(app: App, group: Option<Seq<char>>, count: bool, color: bool) -> (Seq<char>, Seq<char>) {
    let ms = app.matches_view();
    if count {
        (decimal(ms.len()) + "\n"@, Seq::empty())
    } else if app.replace_result is Some {
        let output = app.replace_result->Some_0.output@;
        if color {
            (spec_colored_replace(app.text_view(), ms, app.template_view(), output), Seq::empty())
        } else {
            (output, Seq::empty())
        }
    } else if group is Some {
        group_lines(ms, group->Some_0, color, ms.len() as int)
    } else if color {
        (spec_colored_matches(app.text_view(), ms), Seq::empty())
    } else {
        (match_lines(ms, ms.len() as int), Seq::empty())
    }
}

fn ends_with_newline(s: &str) -> (r: bool)
    ensures
        r == (s@.len() > 0 && s@.last() == '\n'),
{
    let n = s.unicode_len();
    n > 0 && s.get_char(n - 1) == '\n'
}

fn colored_matches(text: &str, matches: &Vec<Match>) -> (r: String)
    requires
        matches_laid_out(matches_view(matches@), text@),
    ensures
        r@ == spec_colored_matches(text@, matches_view(matches@)),
{
    let ghost ms = matches_view(matches@);
    let ghost b = text_bytes(text@);
    let mut out = String::new();
    let mut pos: usize = 0;
    let mut k: usize = 0;
    proof {
        vstd::utf8::encode_utf8_valid_utf8(text@);
        vstd::utf8::is_char_boundary_start_end_of_seq(b);
    }
    while k < matches.len()
        invariant
            ms == matches_view(matches@),
            b == text_bytes(text@),
            vstd::utf8::valid_utf8(b),
            matches_laid_out(ms, text@),
            k <= matches.len(),
            pos == prev_end(ms, k as int),
            pos <= b.len(),
            vstd::utf8::is_char_boundary(b, pos as int),
            out@ == colored_matches_upto(text@, ms, k as int),
        decreases matches.len() - k,
    {
        let m = &matches[k];
        assert(ms[k as int] == m@);
        assert(span_ok(b, ms[k as int].start, ms[k as int].end));
        if k > 0 {
            assert(ms[k - 1].end <= ms[k as int].start);
        }
        let ghost before = out@;
        if m.start > pos {
            let lit = substring_bytes(text, pos, m.start);
            push_str(&mut out, lit.as_str());
        }
        push_str(&mut out, ANSI_RED_BOLD);
        let hit = substring_bytes(text, m.start, m.end);
        push_str(&mut out, hit.as_str());
        push_str(&mut out, ANSI_RESET);
        pos = m.end;
        k = k + 1;
        proof {
            if !(ms[k - 1].start > prev_end(ms, k - 1)) {
                assert(literal_piece(b, prev_end(ms, k - 1) as int, ms[k - 1].start as int) =~= Seq::<char>::empty());
            }
            assert(out@ =~= colored_matches_upto(text@, ms, k as int));
        }
    }
    let rest = suffix_from(text, pos);
    push_str(&mut out, rest.as_str());
    proof {
        if pos as int == b.len() {
            assert(literal_piece(b, pos as int, b.len() as int) =~= Seq::<char>::empty());
        }
    }
    if !ends_with_newline(text) {
        push_str(&mut out, "\n");
    }
    assert(out@ =~= spec_colored_matches(text@, ms));
    out
}

fn colored_replace(text: &str, matches: &Vec<Match>, template: &str, output: &str) -> (r: String)
    requires
        matches_laid_out(matches_view(matches@), text@),
    ensures
        r@ == spec_colored_replace(text@, matches_view(matches@), template@, output@),
{
    let ghost ms = matches_view(matches@);
    let ghost b = text_bytes(text@);
    let mut out = String::new();
    let mut pos: usize = 0;
    let mut k: usize = 0;
    proof {
        vstd::utf8::encode_utf8_valid_utf8(text@);
        vstd::utf8::is_char_boundary_start_end_of_seq(b);
    }
    while k < matches.len()
        invariant
            ms == matches_view(matches@),
            b == text_bytes(text@),
            vstd::utf8::valid_utf8(b),
            matches_laid_out(ms, text@),
            k <= matches.len(),
            pos == prev_end(ms, k as int),
            pos <= b.len(),
            vstd::utf8::is_char_boundary(b, pos as int),
            out@ == colored_replace_upto(text@, ms, template@, k as int),
        decreases matches.len() - k,
    {
        let m = &matches[k];
        assert(ms[k as int] == m@);
        assert(span_ok(b, ms[k as int].start, ms[k as int].end));
        if k > 0 {
            assert(ms[k - 1].end <= ms[k as int].start);
        }
        if m.start > pos {
            let lit = substring_bytes(text, pos, m.start);
            push_str(&mut out, lit.as_str());
        }
        let expanded = expand_replacement(template, m);
        if expanded.unicode_len() > 0 {
            push_str(&mut out, ANSI_GREEN_BOLD);
            push_str(&mut out, expanded.as_str());
            push_str(&mut out, ANSI_RESET);
        }
        pos = m.end;
        k = k + 1;
        proof {
            if !(ms[k - 1].start > prev_end(ms, k - 1)) {
                assert(literal_piece(b, prev_end(ms, k - 1) as int, ms[k - 1].start as int) =~= Seq::<char>::empty());
            }
            assert(out@ =~= colored_replace_upto(text@, ms, template@, k as int));
        }
    }
    let rest = suffix_from(text, pos);
    push_str(&mut out, rest.as_str());
    proof {
        if pos as int == b.len() {
            assert(literal_piece(b, pos as int, b.len() as int) =~= Seq::<char>::empty());
        }
    }
    if !ends_with_newline(output) {
        push_str(&mut out, "\n");
    }
    assert(out@ =~= spec_colored_replace(text@, ms, template@, output@));
    out
}

fn group_output(matches: &Vec<Match>, group: &str, color: bool) -> (r: (String, String))
    ensures
        (r.0@, r.1@) == group_lines(matches_view(matches@), group@, color, matches@.len() as int),
{
    let ghost ms = matches_view(matches@);
    let mut out = String::new();
    let mut err = String::new();
    let mut k: usize = 0;
    while k < matches.len()
        invariant
            ms == matches_view(matches@),
            k <= matches.len(),
            (out@, err@) == group_lines(ms, group@, color, k as int),
        decreases matches.len() - k,
    {
        assert(ms[k as int] == matches@[k as int]@);
        match lookup_capture(&matches[k], group) {
            Some(t) => {
                if color {
                    push_str(&mut out, ANSI_RED_BOLD);
                    push_str(&mut out, t.as_str());
                    push_str(&mut out, ANSI_RESET);
                    push_str(&mut out, "\n");
                } else {
                    push_str(&mut out, t.as_str());
                    push_str(&mut out, "\n");
                }
            },
            None => {
                push_str(&mut err, "rgx: group '");
                push_str(&mut err, group);
                push_str(&mut err, "' not found in match\n");
            },
        }
        k = k + 1;
        proof {
            let (o, e) = group_lines(ms, group@, color, k - 1);
            assert(group_lines(ms, group@, color, k as int).0 =~= out@);
            assert(group_lines(ms, group@, color, k as int).1 =~= err@);
        }
    }
    (out, err)
}

fn plain_matches(matches: &Vec<Match>) -> (r: String)
    ensures
        r@ == match_lines(matches_view(matches@), matches@.len() as int),
{
    let ghost ms = matches_view(matches@);
    let mut out = String::new();
    let mut k: usize = 0;
    while k < matches.len()
        invariant
            ms == matches_view(matches@),
            k <= matches.len(),
            out@ == match_lines(ms, k as int),
        decreases matches.len() - k,
    {
        assert(ms[k as int] == matches@[k as int]@);
        push_str(&mut out, matches[k].text.as_str());
        push_str(&mut out, "\n");
        k = k + 1;
        assert(out@ =~= match_lines(ms, k as int));
    }
    out
}

impl App {
    /// What batch mode prints: on the output stream and on the error
    /// stream.
    pub fn output_text(&self, group: Option<&str>, count: bool, color: bool) -> (r: (String, String))
        requires
            self.wf(),
        ensures
            (r.0@, r.1@) == spec_output(
                *self,
                match group {
                    Some(g) => Some(g@),
                    None => None,
                },
                count,
                color,
            ),
    {
        if count {
            let mut out = String::new();
            push_decimal(&mut out, self.matches.len());
            push_str(&mut out, "\n");
            return (out, String::new());
        }
        match &self.replace_result {
            Some(result) => {
                if color {
                    let text = self.test_editor.content();
                    let template = self.replace_editor.content();
                    let out = colored_replace(text.as_str(), &self.matches, template.as_str(), result.output.as_str());
                    return (out, String::new());
                } else {
                    return (result.output.clone(), String::new());
                }
            },
            None => {},
        }
        match group {
            Some(g) => group_output(&self.matches, g, color),
            None => {
                if color {
                    let text = self.test_editor.content();
                    (colored_matches(text.as_str(), &self.matches), String::new())
                } else {
                    (plain_matches(&self.matches), String::new())
                }
            },
        }
    }
}

} // verus!
