//! A text field: its content, a cursor, and scroll positions.

use vstd::prelude::*;

use crate::text::{chars_of, string_from_chars};

verus! {

/// Display width in columns of a character, as `UnicodeWidthChar::width`
/// gives it (`None` for control characters).
pub uninterp spec fn char_width(c: char) -> Option<usize>;

/// Display width in columns of a text, as `UnicodeWidthStr::width` gives it.
pub uninterp spec fn str_width(s: Seq<char>) -> usize;

/// Calls `UnicodeWidthChar::width`. Trusted: the width depends only on the
/// character (named `char_width`).
#[verifier::external_body]
fn char_display_width(c: char) -> (r: Option<usize>)
    ensures
        r == char_width(c),
{
    unicode_width::UnicodeWidthChar::width(c)
}

/// Calls `UnicodeWidthStr::width`. Trusted: the width depends only on the
/// text (named `str_width`).
#[verifier::external_body]
fn str_display_width(s: &str) -> (r: usize)
    ensures
        r == str_width(s@),
{
    unicode_width::UnicodeWidthStr::width(s)
}

/// The width a character adds to a line (control characters add none).
pub open spec fn width_of(c: char) -> usize {
    match char_width(c) {
        Some(w) => w,
        None => 0,
    }
}

/// How many times `c` occurs in `s`.
pub open spec fn count_char(s: Seq<char>, c: char) -> nat
    decreases s.len(),
{
    if s.len() == 0 {
        0
    } else {
        count_char(s.drop_last(), c) + if s.last() == c { 1nat } else { 0nat }
    }
}

/// Index just after the last newline of `s`, or 0 when there is none.
pub open spec fn last_line_start(s: Seq<char>) -> int
    decreases s.len(),
{
    if s.len() == 0 {
        0
    } else if s.last() == '\n' {
        s.len() as int
    } else {
        last_line_start(s.drop_last())
    }
}

/// Index of the first newline at or after `p`, or the length when there is
/// none.
pub open spec fn next_newline(s: Seq<char>, p: int) -> int
    decreases s.len() - p,
{
    if p < 0 || p >= s.len() {
        s.len() as int
    } else if s[p] == '\n' {
        p
    } else {
        next_newline(s, p + 1)
    }
}

/// Index of the first character of line `n` (counting from 0), or the length
/// when the text has fewer lines.
pub open spec fn line_start(s: Seq<char>, n: nat) -> int
    decreases n,
{
    if n == 0 {
        0
    } else {
        let q = next_newline(s, line_start(s, (n - 1) as nat));
        if q >= s.len() {
            s.len() as int
        } else {
            q + 1
        }
    }
}

/// Index just past the last character of line `n` (before its newline).
pub open spec fn line_end(s: Seq<char>, n: nat) -> int {
    next_newline(s, line_start(s, n))
}

/// The characters of line `n`.
pub open spec fn line_of(s: Seq<char>, n: nat) -> Seq<char> {
    s.subrange(line_start(s, n), line_end(s, n))
}

/// The line of the cursor and its column as a display width.
pub open spec fn line_col(s: Seq<char>, cursor: int) -> (nat, usize) {
    let before = s.take(cursor);
    (count_char(before, '\n'), str_width(s.subrange(last_line_start(before), cursor)))
}

/// Index in `line` of the first character at which the widths of the
/// characters before it, summed from index `i` on with `width` so far, reach
/// `target`; the length when they never do.
pub open spec fn offset_at_width_from(line: Seq<char>, target: usize, i: int, width: usize) -> int
    decreases line.len() - i,
{
    if i < 0 || i >= line.len() {
        line.len() as int
    } else if width >= target {
        i
    } else {
        offset_at_width_from(line, target, i + 1, sat_add(width, width_of(line[i])))
    }
}

pub open spec fn sat_add(a: usize, b: usize) -> usize {
    if a + b > usize::MAX { usize::MAX } else { (a + b) as usize }
}

/// The index in `line` that lies at display column `target`.
pub open spec fn offset_at_width(line: Seq<char>, target: usize) -> int {
    offset_at_width_from(line, target, 0, 0)
}

/// A text field. The cursor is a position between characters.
#[derive(Debug, Clone)]
pub struct Editor {
    content: Vec<char>,
    cursor: usize,
    scroll_offset: usize,
    vertical_scroll: usize,
}

/// The abstract state of a text field.
pub struct EditorView {
    pub content: Seq<char>,
    pub cursor: nat,
    pub scroll_offset: usize,
    pub vertical_scroll: usize,
}

impl View for Editor {
    type V = EditorView;

    closed spec fn view(&self) -> EditorView {
        EditorView {
            content: self.content@,
            cursor: self.cursor as nat,
            scroll_offset: self.scroll_offset,
            vertical_scroll: self.vertical_scroll,
        }
    }
}

impl Editor {
    /// The cursor lies within the content, whose length leaves room to count.
    pub open spec fn wf(&self) -> bool {
        self@.cursor <= self@.content.len() && self@.content.len() < usize::MAX
    }

    /// An empty field.
    pub fn new() -> (r: Editor)
        ensures
            r.wf(),
            r@.content == Seq::<char>::empty(),
            r@.cursor == 0,
            r@.scroll_offset == 0,
            r@.vertical_scroll == 0,
    {
        Editor { content: Vec::new(), cursor: 0, scroll_offset: 0, vertical_scroll: 0 }
    }

    /// A field holding `content`, with the cursor at its end.
    pub fn with_content(content: String) -> (r: Editor)
        requires
            content@.len() < usize::MAX,
        ensures
            r.wf(),
            r@.content == content@,
            r@.cursor == content@.len(),
            r@.scroll_offset == 0,
            r@.vertical_scroll == 0,
    {
        let chars = chars_of(content.as_str());
        let cursor = chars.len();
        Editor { content: chars, cursor, scroll_offset: 0, vertical_scroll: 0 }
    }

    /// The text of the field.
    pub fn content(&self) -> (r: String)
        ensures
            r@ == self@.content,
    {
        string_from_chars(&self.content)
    }

    /// The cursor as a byte offset into the text.
    pub fn cursor(&self) -> (r: usize)
        requires
            self.wf(),
            vstd::utf8::encode_utf8(self@.content.take(self@.cursor as int)).len() <= usize::MAX,
        ensures
            r == vstd::utf8::encode_utf8(self@.content.take(self@.cursor as int)).len(),
    {
        crate::text::utf8_len_prefix(&self.content, self.cursor)
    }

    pub fn scroll_offset(&self) -> (r: usize)
        ensures
            r == self@.scroll_offset,
    {
        self.scroll_offset
    }

    pub fn vertical_scroll(&self) -> (r: usize)
        ensures
            r == self@.vertical_scroll,
    {
        self.vertical_scroll
    }
}

impl Default for Editor {
    fn default() -> (r: Editor)
        ensures
            r.wf(),
            r@.content == Seq::<char>::empty(),
            r@.cursor == 0,
            r@.scroll_offset == 0,
            r@.vertical_scroll == 0,
    {
        Editor::new()
    }
}

pub proof fn lemma_next_newline_bounds(s: Seq<char>, p: int)
    requires
        0 <= p <= s.len(),
    ensures
        p <= next_newline(s, p) <= s.len(),
        next_newline(s, p) < s.len() ==> s[next_newline(s, p)] == '\n',
    decreases s.len() - p,
{
    if p < s.len() && s[p] != '\n' {
        lemma_next_newline_bounds(s, p + 1);
    }
}

pub proof fn lemma_line_start_bounds(s: Seq<char>, n: nat)
    ensures
        0 <= line_start(s, n) <= s.len(),
        line_start(s, n) <= line_end(s, n) <= s.len(),
    decreases n,
{
    if n > 0 {
        lemma_line_start_bounds(s, (n - 1) as nat);
        lemma_next_newline_bounds(s, line_start(s, (n - 1) as nat));
    }
    lemma_next_newline_bounds(s, line_start(s, n));
}

/// Past the end of the text every further line starts at its end.
pub proof fn lemma_line_start_stays_at_end(s: Seq<char>, k: nat, n: nat)
    requires
        k <= n,
        line_start(s, k) == s.len(),
    ensures
        line_start(s, n) == s.len(),
    decreases n - k,
{
    if k < n {
        lemma_line_start_stays_at_end(s, k, (n - 1) as nat);
    }
}

pub proof fn lemma_offset_at_width_bounds(line: Seq<char>, target: usize, i: int, width: usize)
    requires
        0 <= i <= line.len(),
    ensures
        i <= offset_at_width_from(line, target, i, width) <= line.len(),
    decreases line.len() - i,
{
    if i < line.len() && width < target {
        lemma_offset_at_width_bounds(line, target, i + 1, sat_add(width, width_of(line[i])));
    }
}

impl Editor {
    /// Number of newlines among the first `end` characters.
    fn count_newlines_before(&self, end: usize) -> (r: usize)
        requires
            end <= self@.content.len(),
        ensures
            r == count_char(self@.content.take(end as int), '\n'),
            r <= end,
    {
        let mut n: usize = 0;
        let mut i: usize = 0;
        assert(self@.content.take(0) =~= Seq::<char>::empty());
        while i < end
            invariant
                i <= end <= self@.content.len(),
                n == count_char(self@.content.take(i as int), '\n'),
                n <= i,
            decreases end - i,
        {
            assert(self@.content.take(i + 1).drop_last() =~= self@.content.take(i as int));
            if self.content[i] == '\n' {
                n = n + 1;
            }
            i = i + 1;
        }
        n
    }

    /// Index just after the last newline among the first `end` characters.
    fn last_line_start_before(&self, end: usize) -> (r: usize)
        requires
            end <= self@.content.len(),
        ensures
            r == last_line_start(self@.content.take(end as int)),
            r <= end,
    {
        let mut k = end;
        while k > 0 && self.content[k - 1] != '\n'
            invariant
                k <= end <= self@.content.len(),
                last_line_start(self@.content.take(end as int)) == last_line_start(self@.content.take(k as int)),
            decreases k,
        {
            assert(self@.content.take(k as int).drop_last() =~= self@.content.take(k - 1));
            k = k - 1;
        }
        if k > 0 {
            assert(self@.content.take(k as int).last() == self@.content[k - 1]);
        } else {
            assert(self@.content.take(0).len() == 0);
        }
        k
    }

    /// Index of the first newline at or after `p`, or the length.
    fn next_newline_from(&self, p: usize) -> (r: usize)
        requires
            p <= self@.content.len(),
        ensures
            r == next_newline(self@.content, p as int),
    {
        let mut q = p;
        while q < self.content.len() && self.content[q] != '\n'
            invariant
                p <= q <= self@.content.len(),
                next_newline(self@.content, p as int) == next_newline(self@.content, q as int),
            decreases self@.content.len() - q,
        {
            q = q + 1;
        }
        q
    }

    /// Index of the first character of line `n`.
    fn line_start(&self, n: usize) -> (r: usize)
        ensures
            r == line_start(self@.content, n as nat),
    {
        let len = self.content.len();
        let mut p: usize = 0;
        let mut k: usize = 0;
        while k < n
            invariant
                k <= n,
                len == self@.content.len(),
                p == line_start(self@.content, k as nat),
                p <= len,
            decreases n - k,
        {
            if p == len {
                proof {
                    lemma_line_start_stays_at_end(self@.content, k as nat, n as nat);
                }
                return len;
            }
            let q = self.next_newline_from(p);
            proof {
                lemma_next_newline_bounds(self@.content, p as int);
            }
            if q >= len {
                p = len;
            } else {
                p = q + 1;
            }
            k = k + 1;
        }
        p
    }

    /// Index just past the last character of line `n`.
    fn line_end(&self, n: usize) -> (r: usize)
        ensures
            r == line_end(self@.content, n as nat),
    {
        let start = self.line_start(n);
        proof {
            lemma_line_start_bounds(self@.content, n as nat);
        }
        self.next_newline_from(start)
    }

    /// The text of line `n` (counting from 0).
    pub fn line_content(&self, n: usize) -> (r: String)
        ensures
            r@ == line_of(self@.content, n as nat),
    {
        let start = self.line_start(n);
        let end = self.line_end(n);
        proof {
            lemma_line_start_bounds(self@.content, n as nat);
        }
        let mut cs: Vec<char> = Vec::new();
        let mut i = start;
        while i < end
            invariant
                start <= i <= end <= self@.content.len(),
                cs@ == self@.content.subrange(start as int, i as int),
            decreases end - i,
        {
            cs.push(self.content[i]);
            i = i + 1;
            assert(cs@ =~= self@.content.subrange(start as int, i as int));
        }
        string_from_chars(&cs)
    }

    /// The characters `[a, b)` as a string.
    fn text_between(&self, a: usize, b: usize) -> (r: String)
        requires
            a <= b <= self@.content.len(),
        ensures
            r@ == self@.content.subrange(a as int, b as int),
    {
        let mut cs: Vec<char> = Vec::new();
        let mut i = a;
        while i < b
            invariant
                a <= i <= b <= self@.content.len(),
                cs@ == self@.content.subrange(a as int, i as int),
            decreases b - i,
        {
            cs.push(self.content[i]);
            i = i + 1;
            assert(cs@ =~= self@.content.subrange(a as int, i as int));
        }
        string_from_chars(&cs)
    }

    /// The line of the cursor and its column as a display width.
    pub fn cursor_line_col(&self) -> (r: (usize, usize))
        requires
            self.wf(),
        ensures
            (r.0 as nat, r.1) == line_col(self@.content, self@.cursor as int),
    {
        let line = self.count_newlines_before(self.cursor);
        let start = self.last_line_start_before(self.cursor);
        let before = self.text_between(start, self.cursor);
        let col = str_display_width(before.as_str());
        (line, col)
    }

    /// Number of lines of the text.
    pub fn line_count(&self) -> (r: usize)
        requires
            self.wf(),
        ensures
            r == count_char(self@.content, '\n') + 1,
    {
        assert(self@.content.take(self@.content.len() as int) =~= self@.content);
        self.count_newlines_before(self.content.len()) + 1
    }

    /// The cursor's column on screen, after horizontal scrolling.
    pub fn visual_cursor(&self) -> (r: usize)
        requires
            self.wf(),
        ensures
            r == if line_col(self@.content, self@.cursor as int).1 >= self@.scroll_offset {
                line_col(self@.content, self@.cursor as int).1 - self@.scroll_offset
            } else {
                0
            },
    {
        let (_, col) = self.cursor_line_col();
        col.saturating_sub(self.scroll_offset)
    }

    /// Inserts a character at the cursor and moves the cursor past it.
    pub fn insert_char(&mut self, c: char)
        requires
            old(self).wf(),
            old(self)@.content.len() + 1 < usize::MAX,
        ensures
            final(self).wf(),
            final(self)@.content == old(self)@.content.insert(old(self)@.cursor as int, c),
            final(self)@.cursor == old(self)@.cursor + 1,
            final(self)@.scroll_offset == old(self)@.scroll_offset,
            final(self)@.vertical_scroll == old(self)@.vertical_scroll,
    {
        self.content.insert(self.cursor, c);
        self.cursor = self.cursor + 1;
    }

    /// Inserts a newline at the cursor and moves the cursor past it.
    pub fn insert_newline(&mut self)
        requires
            old(self).wf(),
            old(self)@.content.len() + 1 < usize::MAX,
        ensures
            final(self).wf(),
            final(self)@.content == old(self)@.content.insert(old(self)@.cursor as int, '\n'),
            final(self)@.cursor == old(self)@.cursor + 1,
            final(self)@.scroll_offset == old(self)@.scroll_offset,
            final(self)@.vertical_scroll == old(self)@.vertical_scroll,
    {
        self.content.insert(self.cursor, '\n');
        self.cursor = self.cursor + 1;
    }

    /// The position before the cursor.
    fn prev_char_boundary(&self) -> (r: usize)
        requires
            self@.cursor > 0,
        ensures
            r == self@.cursor - 1,
    {
        self.cursor - 1
    }

    /// The position after the cursor.
    fn next_char_boundary(&self) -> (r: usize)
        requires
            self.wf(),
            self@.cursor < self@.content.len(),
        ensures
            r == self@.cursor + 1,
    {
        self.cursor + 1
    }

    /// Deletes the character before the cursor, if any.
    pub fn delete_back(&mut self)
        requires
            old(self).wf(),
        ensures
            final(self).wf(),
            old(self)@.cursor > 0 ==> final(self)@.content == old(self)@.content.remove(old(self)@.cursor - 1)
                && final(self)@.cursor == old(self)@.cursor - 1,
            old(self)@.cursor == 0 ==> final(self)@ == old(self)@,
            final(self)@.scroll_offset == old(self)@.scroll_offset,
            final(self)@.vertical_scroll == old(self)@.vertical_scroll,
    {
        if self.cursor > 0 {
            let prev = self.prev_char_boundary();
            self.cursor = prev;
            self.content.remove(prev);
        }
    }

    /// Deletes the character after the cursor, if any.
    pub fn delete_forward(&mut self)
        requires
            old(self).wf(),
        ensures
            final(self).wf(),
            old(self)@.cursor < old(self)@.content.len() ==> final(self)@.content == old(self)@.content.remove(old(self)@.cursor as int),
            old(self)@.cursor == old(self)@.content.len() ==> final(self)@.content == old(self)@.content,
            final(self)@.cursor == old(self)@.cursor,
            final(self)@.scroll_offset == old(self)@.scroll_offset,
            final(self)@.vertical_scroll == old(self)@.vertical_scroll,
    {
        if self.cursor < self.content.len() {
            self.content.remove(self.cursor);
        }
    }

    /// Moves the cursor one character left, if it can.
    pub fn move_left(&mut self)
        requires
            old(self).wf(),
        ensures
            final(self).wf(),
            final(self)@ == (EditorView {
                cursor: if old(self)@.cursor > 0 { (old(self)@.cursor - 1) as nat } else { 0 },
                ..old(self)@
            }),
    {
        if self.cursor > 0 {
            self.cursor = self.prev_char_boundary();
        }
    }

    /// Moves the cursor one character right, if it can.
    pub fn move_right(&mut self)
        requires
            old(self).wf(),
        ensures
            final(self).wf(),
            final(self)@ == (EditorView {
                cursor: if old(self)@.cursor < old(self)@.content.len() { old(self)@.cursor + 1 } else { old(self)@.cursor },
                ..old(self)@
            }),
    {
        if self.cursor < self.content.len() {
            self.cursor = self.next_char_boundary();
        }
    }

    /// Index within `[start, end)` of the character at display column
    /// `target`, counted from `start`.
    fn offset_at_width_in(&self, start: usize, end: usize, target: usize) -> (r: usize)
        requires
            start <= end <= self@.content.len(),
        ensures
            r == offset_at_width(self@.content.subrange(start as int, end as int), target),
            r <= end - start,
    {
        let ghost line = self@.content.subrange(start as int, end as int);
        let mut width: usize = 0;
        let mut i: usize = 0;
        while i < end - start
            invariant
                start <= end <= self@.content.len(),
                line == self@.content.subrange(start as int, end as int),
                i <= end - start,
                offset_at_width(line, target) == offset_at_width_from(line, target, i as int, width),
            decreases end - start - i,
        {
            if width >= target {
                proof {
                    lemma_offset_at_width_bounds(line, target, i as int, width);
                }
                return i;
            }
            let w = match char_display_width(self.content[start + i]) {
                Some(w) => w,
                None => 0,
            };
            assert(line[i as int] == self@.content[start + i]);
            width = width.saturating_add(w);
            i = i + 1;
        }
        i
    }

    /// Moves the cursor to the line above, keeping its display column as far
    /// as that line is long.
    pub fn move_up(&mut self)
        requires
            old(self).wf(),
        ensures
            final(self).wf(),
            ({
                let (line, col) = line_col(old(self)@.content, old(self)@.cursor as int);
                final(self)@ == (EditorView {
                    cursor: if line > 0 {
                        (line_start(old(self)@.content, (line - 1) as nat)
                            + offset_at_width(line_of(old(self)@.content, (line - 1) as nat), col)) as nat
                    } else {
                        old(self)@.cursor
                    },
                    ..old(self)@
                })
            }),
    {
        let (line, col) = self.cursor_line_col();
        if line > 0 {
            let target_start = self.line_start(line - 1);
            let target_end = self.line_end(line - 1);
            proof {
                lemma_line_start_bounds(self@.content, (line - 1) as nat);
            }
            let off = self.offset_at_width_in(target_start, target_end, col);
            self.cursor = target_start + off;
        }
    }

    /// Moves the cursor to the line below, keeping its display column as far
    /// as that line is long.
    pub fn move_down(&mut self)
        requires
            old(self).wf(),
        ensures
            final(self).wf(),
            ({
                let (line, col) = line_col(old(self)@.content, old(self)@.cursor as int);
                final(self)@ == (EditorView {
                    cursor: if line + 1 < count_char(old(self)@.content, '\n') + 1 {
                        (line_start(old(self)@.content, (line + 1) as nat)
                            + offset_at_width(line_of(old(self)@.content, (line + 1) as nat), col)) as nat
                    } else {
                        old(self)@.cursor
                    },
                    ..old(self)@
                })
            }),
    {
        let (line, col) = self.cursor_line_col();
        let count = self.line_count();
        proof {
            crate::input::editor::lemma_count_prefix_le(self@.content, self@.cursor as int);
        }
        if line + 1 < count {
            let target_start = self.line_start(line + 1);
            let target_end = self.line_end(line + 1);
            proof {
                lemma_line_start_bounds(self@.content, (line + 1) as nat);
            }
            let off = self.offset_at_width_in(target_start, target_end, col);
            self.cursor = target_start + off;
        }
    }

    /// Moves the cursor to the start of its line and scrolls back to the
    /// first column.
    pub fn move_home(&mut self)
        requires
            old(self).wf(),
        ensures
            final(self).wf(),
            final(self)@ == (EditorView {
                cursor: line_start(old(self)@.content, line_col(old(self)@.content, old(self)@.cursor as int).0) as nat,
                scroll_offset: 0,
                ..old(self)@
            }),
    {
        let (line, _) = self.cursor_line_col();
        proof {
            lemma_line_start_bounds(self@.content, line as nat);
        }
        self.cursor = self.line_start(line);
        self.scroll_offset = 0;
    }

    /// Moves the cursor to the end of its line.
    pub fn move_end(&mut self)
        requires
            old(self).wf(),
        ensures
            final(self).wf(),
            final(self)@ == (EditorView {
                cursor: line_end(old(self)@.content, line_col(old(self)@.content, old(self)@.cursor as int).0) as nat,
                ..old(self)@
            }),
    {
        let (line, _) = self.cursor_line_col();
        proof {
            lemma_line_start_bounds(self@.content, line as nat);
        }
        self.cursor = self.line_end(line);
    }

    /// Scrolls horizontally so that the cursor's column is visible in
    /// `visible_width` columns.
    pub fn update_scroll(&mut self, visible_width: usize)
        requires
            old(self).wf(),
        ensures
            final(self).wf(),
            ({
                let col = line_col(old(self)@.content, old(self)@.cursor as int).1;
                let so = old(self)@.scroll_offset;
                final(self)@ == (EditorView {
                    scroll_offset: if col < so {
                        col
                    } else if col - so >= visible_width {
                        sat_add((col - visible_width) as usize, 1)
                    } else {
                        so
                    },
                    ..old(self)@
                })
            }),
    {
        let (_, col) = self.cursor_line_col();
        if col < self.scroll_offset {
            self.scroll_offset = col;
        } else if col - self.scroll_offset >= visible_width {
            self.scroll_offset = (col - visible_width).saturating_add(1);
        }
    }

    /// Scrolls vertically so that the cursor's line is visible in
    /// `visible_height` lines.
    pub fn update_vertical_scroll(&mut self, visible_height: usize)
        requires
            old(self).wf(),
        ensures
            final(self).wf(),
            ({
                let line = line_col(old(self)@.content, old(self)@.cursor as int).0;
                let vs = old(self)@.vertical_scroll;
                final(self)@ == (EditorView {
                    vertical_scroll: if line < vs {
                        line as usize
                    } else if line - vs >= visible_height {
                        sat_add((line - visible_height) as usize, 1)
                    } else {
                        vs
                    },
                    ..old(self)@
                })
            }),
    {
        let (line, _) = self.cursor_line_col();
        if line < self.vertical_scroll {
            self.vertical_scroll = line;
        } else if line - self.vertical_scroll >= visible_height {
            self.vertical_scroll = (line - visible_height).saturating_add(1);
        }
    }
}

/// A prefix holds no more newlines than the whole text.
pub proof fn lemma_count_prefix_le(s: Seq<char>, k: int)
    requires
        0 <= k <= s.len(),
    ensures
        count_char(s.take(k), '\n') <= count_char(s, '\n'),
    decreases s.len() - k,
{
    if k < s.len() {
        lemma_count_prefix_le(s, k + 1);
        assert(s.take(k + 1).drop_last() =~= s.take(k));
    } else {
        assert(s.take(k) =~= s);
    }
}

/// An edit of a text field's content at its cursor.
#[derive(Debug, Clone, Copy, PartialEq, Eq, Structural)]
pub enum EditOp {
    InsertChar(char),
    InsertNewline,
    DeleteBack,
    DeleteForward,
}

/// A move of a text field's cursor.
#[derive(Debug, Clone, Copy, PartialEq, Eq, Structural)]
pub enum Motion {
    Left,
    Right,
    Up,
    Down,
    Home,
    End,
}

/// The field after an edit.
pub open spec fn spec_after_edit(e: EditorView, op: EditOp) -> EditorView {
    match op {
        EditOp::InsertChar(c) => EditorView {
            content: e.content.insert(e.cursor as int, c),
            cursor: e.cursor + 1,
            ..e
        },
        EditOp::InsertNewline => EditorView {
            content: e.content.insert(e.cursor as int, '\n'),
            cursor: e.cursor + 1,
            ..e
        },
        EditOp::DeleteBack => if e.cursor > 0 {
            EditorView { content: e.content.remove(e.cursor - 1), cursor: (e.cursor - 1) as nat, ..e }
        } else {
            e
        },
        EditOp::DeleteForward => if e.cursor < e.content.len() {
            EditorView { content: e.content.remove(e.cursor as int), ..e }
        } else {
            e
        },
    }
}

/// The field after a cursor move.
pub open spec fn spec_after_motion(e: EditorView, m: Motion) -> EditorView {
    let (line, col) = line_col(e.content, e.cursor as int);
    match m {
        Motion::Left => EditorView { cursor: if e.cursor > 0 { (e.cursor - 1) as nat } else { 0 }, ..e },
        Motion::Right => EditorView {
            cursor: if e.cursor < e.content.len() { e.cursor + 1 } else { e.cursor },
            ..e
        },
        Motion::Up => EditorView {
            cursor: if line > 0 {
                (line_start(e.content, (line - 1) as nat) + offset_at_width(line_of(e.content, (line - 1) as nat), col)) as nat
            } else {
                e.cursor
            },
            ..e
        },
        Motion::Down => EditorView {
            cursor: if line + 1 < count_char(e.content, '\n') + 1 {
                (line_start(e.content, (line + 1) as nat) + offset_at_width(line_of(e.content, (line + 1) as nat), col)) as nat
            } else {
                e.cursor
            },
            ..e
        },
        Motion::Home => EditorView { cursor: line_start(e.content, line) as nat, scroll_offset: 0, ..e },
        Motion::End => EditorView { cursor: line_end(e.content, line) as nat, ..e },
    }
}

/// An edit fits: inserting leaves room to count.
pub open spec fn edit_fits(e: EditorView, op: EditOp) -> bool {
    match op {
        EditOp::InsertChar(_) | EditOp::InsertNewline => e.content.len() + 1 < usize::MAX,
        _ => true,
    }
}

impl Editor {
    /// Applies an edit.
    pub fn apply_edit(&mut self, op: EditOp)
        requires
            old(self).wf(),
            edit_fits(old(self)@, op),
        ensures
            final(self).wf(),
            final(self)@ == spec_after_edit(old(self)@, op),
    {
        match op {
            EditOp::InsertChar(c) => self.insert_char(c),
            EditOp::InsertNewline => self.insert_newline(),
            EditOp::DeleteBack => self.delete_back(),
            EditOp::DeleteForward => self.delete_forward(),
        }
    }

    /// Applies a cursor move; the content stays as it is.
    pub fn apply_motion(&mut self, m: Motion)
        requires
            old(self).wf(),
        ensures
            final(self).wf(),
            final(self)@ == spec_after_motion(old(self)@, m),
            final(self)@.content == old(self)@.content,
    {
        match m {
            Motion::Left => self.move_left(),
            Motion::Right => self.move_right(),
            Motion::Up => self.move_up(),
            Motion::Down => self.move_down(),
            Motion::Home => self.move_home(),
            Motion::End => self.move_end(),
        }
    }
}

/// Typing a character and deleting it again restores the field.
pub proof fn lemma_insert_then_delete_back(e: EditorView, c: char)
    requires
        e.cursor <= e.content.len(),
    ensures
        spec_after_edit(spec_after_edit(e, EditOp::InsertChar(c)), EditOp::DeleteBack) == e,
{
    let i = spec_after_edit(e, EditOp::InsertChar(c));
    assert(i.content.remove(e.cursor as int) =~= e.content);
}

/// Cursor moves never change the text.
pub proof fn lemma_motion_keeps_content(e: EditorView, m: Motion)
    ensures
        spec_after_motion(e, m).content == e.content,
{
}

} // verus!
