//! Filtering lines through a regex (the `filter` subcommand).

pub mod app;
pub mod run;
pub mod json_path;

use vstd::prelude::*;

use crate::engine::rust_regex::{rust_regex_new, spec_rust_find};
use crate::engine::pcre2::default_env;
use crate::engine::{create_engine, EngineFlags, EngineKind};

pub use app::{FilterApp, Outcome};

verus! {

/// Options of a filter run.
#[derive(Debug, Clone, Copy)]
pub struct FilterOptions {
    pub invert: bool,
    pub case_insensitive: bool,
}

impl Default for FilterOptions {
    fn default() -> (r: FilterOptions)
        ensures
            r == (FilterOptions { invert: false, case_insensitive: false }),
    {
        FilterOptions { invert: false, case_insensitive: false }
    }
}

impl FilterOptions {
    pub open spec fn spec_flags(self) -> EngineFlags {
        EngineFlags { case_insensitive: self.case_insensitive, ..EngineFlags::spec_none() }
    }

    /// The engine flags the options stand for.
    fn flags(&self) -> (r: EngineFlags)
        ensures
            r == self.spec_flags(),
    {
        EngineFlags {
            case_insensitive: self.case_insensitive,
            multi_line: false,
            dot_matches_newline: false,
            unicode: false,
            extended: false,
        }
    }
}

/// The Rust engine finds at least one match of the pattern in the line.
pub open spec fn line_hit(pattern: Seq<char>, flags: EngineFlags, line: Seq<char>) -> bool {
    spec_rust_find(flags.spec_wrap(pattern), line).len() > 0
}

/// The indices `i < n` for which `keep(i)` holds, in increasing order.
pub open spec fn kept_indices(keep: spec_fn(int) -> bool, n: int) -> Seq<usize>
    decreases n,
{
    if n <= 0 {
        Seq::empty()
    } else if keep(n - 1) {
        kept_indices(keep, n - 1).push((n - 1) as usize)
    } else {
        kept_indices(keep, n - 1)
    }
}

/// The lines `filter_lines` keeps: with an empty pattern every line unless
/// inverted; otherwise those whose hit status differs from `invert`.
pub open spec fn filter_keep(lines: Seq<Seq<char>>, pattern: Seq<char>, options: FilterOptions) -> spec_fn(int) -> bool {
    |i: int| if pattern.len() == 0 {
        !options.invert
    } else {
        line_hit(pattern, options.spec_flags(), lines[i]) != options.invert
    }
}

pub proof fn lemma_kept_indices_members(keep: spec_fn(int) -> bool, n: int)
    requires
        n <= usize::MAX,
    ensures
        forall|j: int| 0 <= j < kept_indices(keep, n).len() ==> {
            &&& 0 <= #[trigger] kept_indices(keep, n)[j] < n
            &&& keep(kept_indices(keep, n)[j] as int)
        },
        forall|i: int| 0 <= i < n && #[trigger] keep(i) ==> kept_indices(keep, n).contains(i as usize),
        forall|j: int, k: int| 0 <= j < k < kept_indices(keep, n).len() ==> kept_indices(keep, n)[j] < kept_indices(keep, n)[k],
        kept_indices(keep, n).len() <= if n < 0 { 0 } else { n },
    decreases n,
{
    if n > 0 {
        lemma_kept_indices_members(keep, n - 1);
        let prev = kept_indices(keep, n - 1);
        let cur = kept_indices(keep, n);
        if keep(n - 1) {
            assert(cur == prev.push((n - 1) as usize));
            assert forall|j: int| 0 <= j < cur.len() implies {
                &&& 0 <= #[trigger] cur[j] < n
                &&& keep(cur[j] as int)
            } by {
                if j < prev.len() {
                    assert(cur[j] == prev[j]);
                }
            }
            assert forall|j: int, k: int| 0 <= j < k < cur.len() implies cur[j] < cur[k] by {
                assert(cur[j] == prev[j]);
                if k < prev.len() {
                    assert(cur[k] == prev[k]);
                }
            }
            assert forall|i: int| 0 <= i < n && #[trigger] keep(i) implies cur.contains(i as usize) by {
                if i < n - 1 {
                    let j = choose|j: int| 0 <= j < prev.len() && prev[j] == i as usize;
                    assert(cur[j] == i as usize);
                } else {
                    assert(cur[prev.len() as int] == i as usize);
                }
            }
        }
    }
}

/// Runs the pattern over each line and returns the (0-based) indices of the
/// lines whose match status differs from `options.invert`. An empty pattern
/// lets every line through unless inverted. A pattern that does not compile
/// gives the engine's error message.
pub fn filter_lines(lines: &[String], pattern: &str, options: FilterOptions) -> (r: Result<Vec<usize>, String>)
    ensures
        pattern@.len() == 0 ==> r is Ok,
        pattern@.len() > 0 ==> (r is Err <==> rust_regex_new(options.spec_flags().spec_wrap(pattern@)) is Err),
        r matches Err(m) ==> (rust_regex_new(options.spec_flags().spec_wrap(pattern@)) matches Err(e) && m@ == "Compile error: "@ + e),
        r matches Ok(v) ==> v@ == kept_indices(filter_keep(lines.deep_view(), pattern@, options), lines@.len() as int),
{
    let ghost keep = filter_keep(lines.deep_view(), pattern@, options);
    if pattern.unicode_len() == 0 {
        let mut all: Vec<usize> = Vec::new();
        if !options.invert {
            let mut i: usize = 0;
            while i < lines.len()
                invariant
                    i <= lines@.len(),
                    keep == filter_keep(lines.deep_view(), pattern@, options),
                    pattern@.len() == 0,
                    !options.invert,
                    all@ == kept_indices(keep, i as int),
                decreases lines.len() - i,
            {
                all.push(i);
                i = i + 1;
            }
        } else {
            proof {
                lemma_nothing_kept(keep, lines@.len() as int);
            }
        }
        return Ok(all);
    }
    let engine = create_engine(EngineKind::RustRegex);
    let compiled = match engine.compile(pattern, &options.flags()) {
        Ok(c) => c,
        Err(e) => {
            let m = e.message();
            return Err(m);
        },
    };
    let mut indices: Vec<usize> = Vec::new();
    let mut idx: usize = 0;
    while idx < lines.len()
        invariant
            idx <= lines@.len(),
            keep == filter_keep(lines.deep_view(), pattern@, options),
            pattern@.len() > 0,
            compiled.searches_as(EngineKind::RustRegex, pattern@, options.spec_flags(), default_env()),
            indices@ == kept_indices(keep, idx as int),
        decreases lines.len() - idx,
    {
        let found = compiled.find_matches(lines[idx].as_str());
        let matched = match found {
            Ok(v) => v.len() > 0,
            Err(_) => false,
        };
        proof {
            assert(lines.deep_view()[idx as int] == lines@[idx as int]@);
            assert(compiled.spec_find(lines@[idx as int]@) == crate::engine::spec_find(EngineKind::RustRegex, pattern@, options.spec_flags(), lines@[idx as int]@, default_env()));
        }
        if matched != options.invert {
            indices.push(idx);
        }
        idx = idx + 1;
    }
    Ok(indices)
}

pub proof fn lemma_nothing_kept(keep: spec_fn(int) -> bool, n: int)
    requires
        forall|i: int| !#[trigger] keep(i),
    ensures
        kept_indices(keep, n) == Seq::<usize>::empty(),
    decreases n,
{
    if n > 0 {
        lemma_nothing_kept(keep, n - 1);
    }
}

/// Two tests that agree on `[0, n)` keep the same indices.
pub proof fn lemma_kept_indices_agree(a: spec_fn(int) -> bool, b: spec_fn(int) -> bool, n: int)
    requires
        forall|i: int| 0 <= i < n ==> #[trigger] a(i) == b(i),
    ensures
        kept_indices(a, n) == kept_indices(b, n),
    decreases n,
{
    if n > 0 {
        lemma_kept_indices_agree(a, b, n - 1);
    }
}

/// An empty pattern keeps every line, in order (`0, 1, ...`), and with the
/// filter inverted keeps none.
pub proof fn lemma_empty_pattern_keeps_every_line(lines: Seq<Seq<char>>, options: FilterOptions, n: int)
    requires
        0 <= n <= usize::MAX,
    ensures
        !options.invert ==> kept_indices(filter_keep(lines, Seq::empty(), options), n) == Seq::new(
            n as nat,
            |i: int| i as usize,
        ),
        options.invert ==> kept_indices(filter_keep(lines, Seq::empty(), options), n) == Seq::<usize>::empty(),
    decreases n,
{
    let keep = filter_keep(lines, Seq::empty(), options);
    if options.invert {
        lemma_nothing_kept(keep, n);
    } else if n > 0 {
        lemma_empty_pattern_keeps_every_line(lines, options, n - 1);
        assert(keep(n - 1));
        assert(kept_indices(keep, n) =~= Seq::new(n as nat, |i: int| i as usize));
    } else {
        assert(kept_indices(keep, n) =~= Seq::new(n as nat, |i: int| i as usize));
    }
}

/// Inverting the filter keeps exactly the lines the plain filter drops: for
/// a pattern that compiles, every line index is in one of the two results
/// and in only one.
pub proof fn lemma_invert_partitions_lines(lines: Seq<Seq<char>>, pattern: Seq<char>, case_insensitive: bool, i: int)
    requires
        0 <= i < lines.len(),
        lines.len() <= usize::MAX,
    ensures
        kept_indices(filter_keep(lines, pattern, FilterOptions { invert: false, case_insensitive }), lines.len() as int).contains(i as usize)
            != kept_indices(filter_keep(lines, pattern, FilterOptions { invert: true, case_insensitive }), lines.len() as int).contains(i as usize),
{
    let plain = filter_keep(lines, pattern, FilterOptions { invert: false, case_insensitive });
    let inverted = filter_keep(lines, pattern, FilterOptions { invert: true, case_insensitive });
    lemma_kept_indices_members(plain, lines.len() as int);
    lemma_kept_indices_members(inverted, lines.len() as int);
    let a = kept_indices(plain, lines.len() as int);
    let b = kept_indices(inverted, lines.len() as int);
    assert(plain(i) != inverted(i));
    if a.contains(i as usize) && b.contains(i as usize) {
        let j = choose|j: int| 0 <= j < a.len() && a[j] == i as usize;
        let k = choose|k: int| 0 <= k < b.len() && b[k] == i as usize;
        assert(plain(a[j] as int));
        assert(inverted(b[k] as int));
    }
}

/// The finished lines and the line in progress after reading `t`: a newline
/// ends a line, and a carriage return just before it is dropped.
pub open spec fn line_state(t: Seq<char>) -> (Seq<Seq<char>>, Seq<char>)
    decreases t.len(),
{
    if t.len() == 0 {
        (Seq::empty(), Seq::empty())
    } else {
        let (done, cur) = line_state(t.drop_last());
        if t.last() == '\n' {
            (done.push(strip_cr(cur)), Seq::empty())
        } else {
            (done, cur.push(t.last()))
        }
    }
}

/// A line without its closing carriage return, if it has one.
pub open spec fn strip_cr(l: Seq<char>) -> Seq<char> {
    if l.len() > 0 && l.last() == '\r' {
        l.drop_last()
    } else {
        l
    }
}

/// The lines of a text: each newline (or carriage return and newline)
/// ends a line; a last line without a newline counts when it is not empty.
pub open spec fn spec_lines(t: Seq<char>) -> Seq<Seq<char>> {
    let (done, cur) = line_state(t);
    if cur.len() == 0 {
        done
    } else {
        done.push(cur)
    }
}

/// The first `max_lines` lines of a text, or all of them when `max_lines`
/// is 0.
pub open spec fn spec_capped_lines(t: Seq<char>, max_lines: nat) -> Seq<Seq<char>> {
    let all = spec_lines(t);
    if max_lines > 0 && all.len() > max_lines {
        all.take(max_lines as int)
    } else {
        all
    }
}

/// Splits the input of the filter into lines, keeping at most `max_lines`
/// of them (all of them when `max_lines` is 0).
pub fn split_lines(text: &str, max_lines: usize) -> (r: Vec<String>)
    ensures
        r.deep_view() == spec_capped_lines(text@, max_lines as nat),
{
    let cs = crate::text::chars_of(text);
    let mut lines: Vec<String> = Vec::new();
    let mut cur: Vec<char> = Vec::new();
    let mut i: usize = 0;
    while i < cs.len()
        invariant
            cs@ == text@,
            i <= cs@.len(),
            (lines.deep_view(), cur@) == line_state(cs@.take(i as int)),
        decreases cs.len() - i,
    {
        let c = cs[i];
        let ghost before = lines.deep_view();
        let ghost cur_before = cur@;
        proof {
            assert(cs@.take(i + 1).drop_last() =~= cs@.take(i as int));
        }
        if c == '\n' {
            let n = cur.len();
            if n > 0 && cur[n - 1] == '\r' {
                cur.pop();
                assert(cur@ =~= strip_cr(cur_before));
            }
            let line = crate::text::string_from_chars(&cur);
            lines.push(line);
            cur = Vec::new();
            assert(lines.deep_view() =~= before.push(strip_cr(cur_before)));
        } else {
            cur.push(c);
        }
        i = i + 1;
    }
    proof {
        assert(cs@.take(cs@.len() as int) =~= cs@);
    }
    if cur.len() > 0 {
        let ghost before = lines.deep_view();
        let line = crate::text::string_from_chars(&cur);
        lines.push(line);
        assert(lines.deep_view() =~= before.push(cur@));
    }
    if max_lines > 0 && lines.len() > max_lines {
        let ghost before = lines.deep_view();
        lines.truncate(max_lines);
        assert(lines.deep_view() =~= before.take(max_lines as int));
    }
    lines
}

/// The text the filter emits: each selected line (optionally prefixed with
/// its 1-based number and `:`), each followed by a newline.
pub open spec fn spec_emitted(lines: Seq<Seq<char>>, matched: Seq<usize>, line_number: bool) -> Seq<char>
    decreases matched.len(),
{
    if matched.len() == 0 {
        Seq::empty()
    } else {
        let i = matched.last();
        let prefix = if line_number {
            crate::text::decimal((i + 1) as nat) + ":"@
        } else {
            Seq::empty()
        };
        spec_emitted(lines, matched.drop_last(), line_number) + prefix + lines[i as int] + "\n"@
    }
}

/// The text the filter emits for the selected lines.
pub fn emitted_text(lines: &[String], matched: &[usize], line_number: bool) -> (r: String)
    requires
        forall|k: int| 0 <= k < matched@.len() ==> #[trigger] matched@[k] < lines@.len() && matched@[k] < usize::MAX,
    ensures
        r@ == spec_emitted(lines.deep_view(), matched@, line_number),
{
    let mut out = String::new();
    let mut k: usize = 0;
    while k < matched.len()
        invariant
            k <= matched@.len(),
            forall|k: int| 0 <= k < matched@.len() ==> #[trigger] matched@[k] < lines@.len() && matched@[k] < usize::MAX,
            out@ == spec_emitted(lines.deep_view(), matched@.take(k as int), line_number),
        decreases matched.len() - k,
    {
        let i = matched[k];
        let ghost before = out@;
        if line_number {
            crate::text::push_decimal(&mut out, i + 1);
            crate::text::push_str(&mut out, ":");
        }
        crate::text::push_str(&mut out, lines[i].as_str());
        crate::text::push_str(&mut out, "\n");
        proof {
            assert(matched@.take(k + 1).drop_last() =~= matched@.take(k as int));
            assert(lines.deep_view()[i as int] == lines@[i as int]@);
        }
        k = k + 1;
        assert(out@ =~= spec_emitted(lines.deep_view(), matched@.take(k as int), line_number));
    }
    assert(matched@.take(k as int) =~= matched@);
    out
}

/// The count the filter emits: the number and a newline.
pub fn count_text(n: usize) -> (r: String)
    ensures
        r@ == crate::text::decimal(n as nat) + "\n"@,
{
    let mut out = crate::text::decimal_string(n);
    crate::text::push_str(&mut out, "\n");
    out
}

} // verus!
