use vstd::prelude::*;
use crate::chars::{matches_at, contains_seq, subvec, push_range, push_all, chars_match_at, chars_contain, chars_contain_char, join_with, join_lines, line_views};
use crate::text::{chars_of, string_of_chars};

verus! {

/// The text of a note being edited, with its cursor (the `insert` mark) and the
/// other end of its selection (the `bound` mark). There is a selection when the
/// two marks differ.
pub struct NoteEditBuffer {
    text: Vec<char>,
    insert: usize,
    bound: usize,
}

/// A note being edited, as seen in specifications.
pub struct EditView {
    pub text: Seq<char>,
    pub insert: int,
    pub bound: int,
}

impl View for NoteEditBuffer {
    type V = EditView;

    closed spec fn view(&self) -> EditView {
        EditView { text: self.text@, insert: self.insert as int, bound: self.bound as int }
    }
}

impl NoteEditBuffer {
    #[verifier::type_invariant]
    spec fn marks_in_text(&self) -> bool {
        &&& self.insert <= self.text@.len()
        &&& self.bound <= self.text@.len()
    }
}

pub open spec fn view_wf(v: EditView) -> bool {
    &&& 0 <= v.insert <= v.text.len()
    &&& 0 <= v.bound <= v.text.len()
}

pub open spec fn min_of(a: int, b: int) -> int {
    if a <= b { a } else { b }
}

pub open spec fn max_of(a: int, b: int) -> int {
    if a <= b { b } else { a }
}

/// The start of the selection, or the cursor.
pub open spec fn sel_start(v: EditView) -> int {
    min_of(v.insert, v.bound)
}

/// The end of the selection, or the cursor.
pub open spec fn sel_end(v: EditView) -> int {
    max_of(v.insert, v.bound)
}

pub open spec fn has_selection(v: EditView) -> bool {
    v.insert != v.bound
}

/// The selected text.
pub open spec fn selected_text(v: EditView) -> Seq<char> {
    v.text.subrange(sel_start(v), sel_end(v))
}

/// Where a mark goes when `k` characters are inserted at `at`: marks keep to the
/// right of inserted text.
pub open spec fn mark_after_insert(m: int, at: int, k: int) -> int {
    if m >= at { m + k } else { m }
}

/// Where a mark goes when the characters `a..b` are deleted.
pub open spec fn mark_after_delete(m: int, a: int, b: int) -> int {
    if m <= a { m } else if m <= b { a } else { m - (b - a) }
}

/// Whether `toggle_snippet` removes `before` and `after` around the selection
/// (or the cursor) rather than adding them.
pub open spec fn is_untoggle(v: EditView, before: Seq<char>, after: Seq<char>) -> bool {
    let s = sel_start(v);
    let e = sel_end(v);
    &&& s >= before.len()
    &&& matches_at(v.text, e, after)
    &&& matches_at(v.text, s - before.len(), before)
}

/// Wraps the selection (or the cursor) in `before` and `after`, or removes them
/// when they already surround it. The selection, or the cursor, then stays on the
/// same characters.
pub open spec fn toggle_snippet_view(v: EditView, before: Seq<char>, after: Seq<char>) -> EditView {
    let s = sel_start(v);
    let e = sel_end(v);
    let bl = before.len() as int;
    let al = after.len() as int;
    if is_untoggle(v, before, after) {
        EditView {
            text: v.text.subrange(0, s - bl) + v.text.subrange(s, e) + v.text.subrange(e + al, v.text.len() as int),
            insert: s - bl,
            bound: e - bl,
        }
    } else {
        EditView {
            text: v.text.subrange(0, s) + before + v.text.subrange(s, e) + after + v.text.subrange(e, v.text.len() as int),
            insert: s + bl,
            bound: if s < e { e + bl } else { s + bl },
        }
    }
}

pub struct NoteEdit {}

impl NoteEditBuffer {
    /// A buffer holding a text, with the cursor at its start.
    pub fn new(text: &str) -> (r: NoteEditBuffer)
        ensures
            r@.text == text@,
            r@.insert == 0,
            r@.bound == 0,
    {
        NoteEditBuffer { text: chars_of(text), insert: 0, bound: 0 }
    }

    /// A buffer holding a text, with the cursor at a character offset (the end of
    /// the text if the offset lies beyond it).
    pub fn with_cursor(text: &str, pos: usize) -> (r: NoteEditBuffer)
        ensures
            r@.text == text@,
            r@.insert == min_of(pos as int, text@.len() as int),
            r@.bound == r@.insert,
    {
        let t = chars_of(text);
        let p = if pos <= t.len() { pos } else { t.len() };
        NoteEditBuffer { text: t, insert: p, bound: p }
    }

    /// A buffer holding a text, with the cursor at `insert` and the selection
    /// running to `bound` (each clamped to the end of the text).
    pub fn with_selection(text: &str, insert: usize, bound: usize) -> (r: NoteEditBuffer)
        ensures
            r@.text == text@,
            r@.insert == min_of(insert as int, text@.len() as int),
            r@.bound == min_of(bound as int, text@.len() as int),
    {
        let t = chars_of(text);
        let i = if insert <= t.len() { insert } else { t.len() };
        let b = if bound <= t.len() { bound } else { t.len() };
        NoteEditBuffer { text: t, insert: i, bound: b }
    }

    /// The text of the buffer.
    pub fn text(&self) -> (r: String)
        ensures
            r@ == self@.text,
    {
        string_of_chars(&self.text)
    }

    /// The character offset of the cursor.
    pub fn cursor_position(&self) -> (r: usize)
        ensures
            r == self@.insert,
    {
        self.insert
    }

    /// The start and end of the selection, if there is one.
    pub fn selection_bounds(&self) -> (r: Option<(usize, usize)>)
        ensures
            has_selection(self@) ==> r == Some((sel_start(self@) as usize, sel_end(self@) as usize)),
            !has_selection(self@) ==> r is None,
    {
        if self.insert < self.bound {
            Some((self.insert, self.bound))
        } else if self.bound < self.insert {
            Some((self.bound, self.insert))
        } else {
            None
        }
    }

    fn sel_range(&self) -> (r: (usize, usize))
        ensures
            r.0 == sel_start(self@),
            r.1 == sel_end(self@),
            r.0 <= r.1 <= self@.text.len(),
    {
        proof {
            use_type_invariant(self);
        }
        if self.insert <= self.bound {
            (self.insert, self.bound)
        } else {
            (self.bound, self.insert)
        }
    }
}

impl NoteEdit {
    fn toggle_snippet_chars(buf: &mut NoteEditBuffer, before: &Vec<char>, after: &Vec<char>)
        ensures
            final(buf)@ == toggle_snippet_view(old(buf)@, before@, after@),
    {
        proof {
            use_type_invariant(&*buf);
        }
        let (s, e) = buf.sel_range();
        let bl = before.len();
        let al = after.len();
        let n = buf.text.len();
        let untoggle = s >= bl && chars_match_at(&buf.text, e, after) && chars_match_at(&buf.text, s - bl, before);
        let mut t: Vec<char> = Vec::new();
        if untoggle {
            push_range(&mut t, &buf.text, 0, s - bl);
            push_range(&mut t, &buf.text, s, e);
            push_range(&mut t, &buf.text, e + al, n);
            *buf = NoteEditBuffer { text: t, insert: s - bl, bound: e - bl };
        } else {
            push_range(&mut t, &buf.text, 0, s);
            push_all(&mut t, before);
            push_range(&mut t, &buf.text, s, e);
            push_all(&mut t, after);
            push_range(&mut t, &buf.text, e, n);
            let tn = t.len();
            assert(tn == n + bl + al);
            if s < e {
                *buf = NoteEditBuffer { text: t, insert: s + bl, bound: e + bl };
            } else {
                *buf = NoteEditBuffer { text: t, insert: s + bl, bound: s + bl };
            }
        }
    }

    /// Wraps the selection (or the cursor) in `before` and `after`, or removes them
    /// when they already surround it; the selection, or the cursor, stays on the
    /// same characters.
    pub fn toggle_snippet(buf: &mut NoteEditBuffer, before: &str, after: &str)
        ensures
            final(buf)@ == toggle_snippet_view(old(buf)@, before@, after@),
    {
        let b = chars_of(before);
        let a = chars_of(after);
        Self::toggle_snippet_chars(buf, &b, &a);
    }
}


pub open spec fn is_line_break(c: char) -> bool {
    c == '\n' || c == '\r' || c == '\u{2029}'
}

/// The offset at which the line holding `pos` starts: just after the last line
/// break (`\n`, `\r` or U+2029) before `pos`, or 0.
pub open spec fn line_start(t: Seq<char>, pos: int) -> int
    decreases pos,
{
    if pos <= 0 {
        0
    } else if is_line_break(t[pos - 1]) {
        pos
    } else {
        line_start(t, pos - 1)
    }
}

proof fn lemma_line_start_bounds(t: Seq<char>, pos: int)
    requires
        0 <= pos,
    ensures
        0 <= line_start(t, pos) <= pos,
    decreases pos,
{
    if pos > 0 && !is_line_break(t[pos - 1]) {
        lemma_line_start_bounds(t, pos - 1);
    }
}

fn line_start_of(t: &Vec<char>, pos: usize) -> (r: usize)
    requires
        pos <= t@.len(),
    ensures
        r == line_start(t@, pos as int),
        r <= pos,
{
    let mut p = pos;
    while p > 0 && !(t[p - 1] == '\n' || t[p - 1] == '\r' || t[p - 1] == '\u{2029}')
        invariant
            p <= pos <= t@.len(),
            line_start(t@, p as int) == line_start(t@, pos as int),
        decreases p,
    {
        p = p - 1;
    }
    proof {
        lemma_line_start_bounds(t@, pos as int);
    }
    p
}

/// The first of `starts`, from index `j` on, that the text holds at `at`.
pub open spec fn first_match(t: Seq<char>, at: int, starts: Seq<Seq<char>>, j: int) -> Option<int>
    decreases starts.len() - j,
{
    if j < 0 || j >= starts.len() {
        None
    } else if matches_at(t, at, starts[j]) {
        Some(j)
    } else {
        first_match(t, at, starts, j + 1)
    }
}

/// Cycles the start of the cursor's line through `starts`: the first of them that
/// the line starts with is replaced by the next one (by nothing after the last);
/// when it starts with none of them, the first one is inserted.
pub open spec fn toggle_line_start_view(v: EditView, starts: Seq<Seq<char>>) -> EditView {
    let ls = line_start(v.text, v.insert);
    let found = first_match(v.text, ls, starts, 0);
    let to_insert = match found {
        Some(i) => if i + 1 >= starts.len() { Seq::empty() } else { starts[i + 1] },
        None => starts[0],
    };
    let clear = match found {
        Some(i) => starts[i].len() as int,
        None => 0,
    };
    EditView {
        text: v.text.subrange(0, ls) + to_insert + v.text.subrange(ls + clear, v.text.len() as int),
        insert: mark_after_insert(mark_after_delete(v.insert, ls, ls + clear), ls, to_insert.len() as int),
        bound: mark_after_insert(mark_after_delete(v.bound, ls, ls + clear), ls, to_insert.len() as int),
    }
}

pub open spec fn header_cycle() -> Seq<Seq<char>> {
    seq![" # "@, " ## "@, " ### "@, " - "@]
}

pub open spec fn str_views(starts: Seq<&str>) -> Seq<Seq<char>> {
    Seq::new(starts.len(), |i: int| starts[i]@)
}

} // verus!

verus! {

impl NoteEdit {
    /// Cycles the start of the cursor's line through `starts` (see `toggle_line_start_view`).
    pub fn toggle_line_start(buf: &mut NoteEditBuffer, starts: &[&str])
        requires
            starts@.len() > 0,
        ensures
            final(buf)@ == toggle_line_start_view(old(buf)@, str_views(starts@)),
    {
        proof {
            use_type_invariant(&*buf);
        }
        let ghost sv = str_views(starts@);
        let n = buf.text.len();
        let ls = line_start_of(&buf.text, buf.insert);
        let mut to_insert = chars_of(starts[0]);
        let mut clear: usize = 0;
        let mut i: usize = 0;
        let mut found = false;
        while i < starts.len() && !found
            invariant
                i <= starts@.len(),
                sv == str_views(starts@),
                ls <= buf@.text.len(),
                n == buf@.text.len(),
                !found ==> first_match(buf@.text, ls as int, sv, 0) == first_match(buf@.text, ls as int, sv, i as int),
                !found ==> to_insert@ == sv[0],
                !found ==> clear == 0,
                found ==> i < sv.len() && first_match(buf@.text, ls as int, sv, 0) == Some(i as int),
                found ==> clear == sv[i as int].len(),
                found ==> matches_at(buf@.text, ls as int, sv[i as int]),
                found ==> to_insert@ == (if i + 1 >= sv.len() { Seq::empty() } else { sv[i + 1] }),
            decreases starts@.len() - i, (if found { 0int } else { 1int }),
        {
            let h = chars_of(starts[i]);
            if chars_match_at(&buf.text, ls, &h) {
                to_insert = if i + 1 >= starts.len() { Vec::new() } else { chars_of(starts[i + 1]) };
                clear = h.len();
                found = true;
            } else {
                i = i + 1;
            }
        }
        let ghost f = first_match(buf@.text, ls as int, sv, 0);
        assert(found ==> f == Some(i as int));
        assert(!found ==> f is None);
        assert(to_insert@ == (match f {
            Some(i) => if i + 1 >= sv.len() { Seq::empty() } else { sv[i + 1] },
            None => sv[0],
        }));
        let mut t: Vec<char> = Vec::new();
        push_range(&mut t, &buf.text, 0, ls);
        push_all(&mut t, &to_insert);
        push_range(&mut t, &buf.text, ls + clear, n);
        let tn = t.len();
        let k = to_insert.len();
        let ins = Self::mark_moved(buf.insert, ls, clear, k, n);
        let bnd = Self::mark_moved(buf.bound, ls, clear, k, n);
        *buf = NoteEditBuffer { text: t, insert: ins, bound: bnd };
    }

    /// Where a mark goes when `clear` characters at `at` are replaced by `k` others.
    fn mark_moved(m: usize, at: usize, clear: usize, k: usize, n: usize) -> (r: usize)
        requires
            m <= n,
            at + clear <= n,
            n - clear + k <= usize::MAX,
        ensures
            r == mark_after_insert(mark_after_delete(m as int, at as int, at + clear), at as int, k as int),
            r <= n - clear + k,
    {
        let d = if m <= at { m } else if m <= at + clear { at } else { m - clear };
        if d >= at { d + k } else { d }
    }

    /// Cycles the cursor's line through the headings ` # `, ` ## `, ` ### `, ` - `
    /// and no heading.
    pub fn toggle_heading(buf: &mut NoteEditBuffer)
        ensures
            final(buf)@ == toggle_line_start_view(old(buf)@, header_cycle()),
    {
        let starts: [&str; 4] = [" # ", " ## ", " ### ", " - "];
        Self::toggle_line_start(buf, &starts);
        assert(str_views(starts@) =~= header_cycle());
    }

    /// Starts the cursor's line with a bullet ` * `, or removes it.
    pub fn toggle_ul(buf: &mut NoteEditBuffer)
        ensures
            final(buf)@ == toggle_line_start_view(old(buf)@, seq![" * "@]),
    {
        let starts: [&str; 1] = [" * "];
        Self::toggle_line_start(buf, &starts);
        assert(str_views(starts@) =~= seq![" * "@]);
    }

    /// Starts the cursor's line with a number `1. `, or removes it.
    pub fn toggle_ol(buf: &mut NoteEditBuffer)
        ensures
            final(buf)@ == toggle_line_start_view(old(buf)@, seq!["1. "@]),
    {
        let starts: [&str; 1] = ["1. "];
        Self::toggle_line_start(buf, &starts);
        assert(str_views(starts@) =~= seq!["1. "@]);
    }
}

} // verus!

verus! {

/// The offset of the first `\n` in `s`, or its length when there is none.
pub open spec fn newline_index(s: Seq<char>) -> int
    decreases s.len(),
{
    if s.len() == 0 {
        0
    } else if s[0] == '\n' {
        0
    } else {
        1 + newline_index(s.drop_first())
    }
}

pub proof fn lemma_newline_index(s: Seq<char>)
    ensures
        0 <= newline_index(s) <= s.len(),
        newline_index(s) < s.len() ==> s[newline_index(s)] == '\n',
        forall|j: int| 0 <= j < newline_index(s) ==> s[j] != '\n',
    decreases s.len(),
{
    if s.len() > 0 && s[0] != '\n' {
        lemma_newline_index(s.drop_first());
        assert forall|j: int| 0 <= j < newline_index(s) implies s[j] != '\n' by {
            if j > 0 {
                assert(s[j] == s.drop_first()[j - 1]);
            }
        }
    }
}

proof fn lemma_newline_index_is(s: Seq<char>, m: int)
    requires
        0 <= m <= s.len(),
        m < s.len() ==> s[m] == '\n',
        forall|j: int| 0 <= j < m ==> s[j] != '\n',
    ensures
        newline_index(s) == m,
    decreases s.len(),
{
    if s.len() > 0 && s[0] != '\n' {
        assert forall|j: int| 0 <= j < m - 1 implies s.drop_first()[j] != '\n' by {
            assert(s.drop_first()[j] == s[j + 1]);
        }
        lemma_newline_index_is(s.drop_first(), m - 1);
    }
}

/// A line without the `\r` of a `\r\n` line ending.
pub open spec fn strip_cr(l: Seq<char>) -> Seq<char> {
    if l.len() > 0 && l.last() == '\r' { l.drop_last() } else { l }
}

/// The lines of a text as Rust's `str::lines` gives them: split at `\n` or
/// `\r\n`, line endings left out, no line after a final line ending.
pub open spec fn lines_of(s: Seq<char>) -> Seq<Seq<char>>
    decreases s.len(),
{
    if s.len() == 0 {
        Seq::empty()
    } else {
        let k = newline_index(s);
        proof {
            lemma_newline_index(s);
        }
        if k >= s.len() {
            seq![s]
        } else {
            seq![strip_cr(s.subrange(0, k))] + lines_of(s.subrange(k + 1, s.len() as int))
        }
    }
}

pub open spec fn all_quoted(lines: Seq<Seq<char>>) -> bool {
    forall|i: int| 0 <= i < lines.len() ==> matches_at(#[trigger] lines[i], 0, "> "@)
}

pub open spec fn unquoted(lines: Seq<Seq<char>>) -> Seq<Seq<char>> {
    Seq::new(lines.len(), |i: int| lines[i].subrange(2, lines[i].len() as int))
}

pub open spec fn quoted(lines: Seq<Seq<char>>) -> Seq<Seq<char>> {
    Seq::new(lines.len(), |i: int| "> "@ + lines[i])
}

/// What the blockquote toggle makes of a selected text: when each of its lines
/// starts with `> `, the lines without it; otherwise each line behind `> `.
pub open spec fn blockquote_selection(sel: Seq<char>) -> Seq<char> {
    let lines = lines_of(sel);
    if all_quoted(lines) {
        join_with(unquoted(lines), "\n"@)
    } else {
        join_with(quoted(lines), "\n"@)
    }
}

/// Toggles a blockquote: on the selected lines, which stay selected, or on the
/// line of the cursor.
pub open spec fn toggle_blockquote_view(v: EditView) -> EditView {
    let s = sel_start(v);
    let e = sel_end(v);
    if s != e {
        let new = blockquote_selection(v.text.subrange(s, e));
        EditView {
            text: v.text.subrange(0, s) + new + v.text.subrange(e, v.text.len() as int),
            insert: s,
            bound: s + new.len(),
        }
    } else {
        let ls = line_start(v.text, e);
        if matches_at(v.text, ls, "> "@) {
            EditView {
                text: v.text.subrange(0, ls) + v.text.subrange(ls + 2, v.text.len() as int),
                insert: mark_after_delete(v.insert, ls, ls + 2),
                bound: mark_after_delete(v.bound, ls, ls + 2),
            }
        } else {
            EditView {
                text: v.text.subrange(0, ls) + "> "@ + v.text.subrange(ls, v.text.len() as int),
                insert: mark_after_insert(v.insert, ls, 2),
                bound: mark_after_insert(v.bound, ls, 2),
            }
        }
    }
}

/// The lines of a text (see `lines_of`).
fn lines_in(t: &Vec<char>) -> (r: Vec<Vec<char>>)
    ensures
        line_views(r@) == lines_of(t@),
{
    let n = t.len();
    let mut out: Vec<Vec<char>> = Vec::new();
    let mut pos: usize = 0;
    assert(t@.subrange(0, n as int) =~= t@);
    assert(line_views(out@) =~= Seq::<Seq<char>>::empty());
    while pos < n
        invariant
            pos <= n,
            n == t@.len(),
            lines_of(t@) == line_views(out@) + lines_of(t@.subrange(pos as int, n as int)),
        decreases n - pos,
    {
        let ghost rest = t@.subrange(pos as int, n as int);
        let mut j = pos;
        while j < n && t[j] != '\n'
            invariant
                pos <= j <= n,
                n == t@.len(),
                forall|q: int| pos <= q < j ==> t@[q] != '\n',
            decreases n - j,
        {
            j = j + 1;
        }
        proof {
            assert forall|q: int| 0 <= q < j - pos implies rest[q] != '\n' by {
                assert(rest[q] == t@[pos + q]);
            }
            lemma_newline_index_is(rest, j - pos);
        }
        let ghost prev = out@;
        if j == n {
            let line = subvec(t, pos, n);
            out.push(line);
            proof {
                assert(line_views(out@) =~= line_views(prev).push(line@));
                assert(line@ =~= rest);
                assert(t@.subrange(n as int, n as int) =~= Seq::<char>::empty());
                assert(lines_of(rest) == seq![rest]);
                assert(line_views(prev) + lines_of(rest) =~= line_views(out@) + lines_of(t@.subrange(n as int, n as int)));
            }
            pos = n;
        } else {
            let mut end = j;
            if end > pos && t[end - 1] == '\r' {
                end = end - 1;
            }
            let line = subvec(t, pos, end);
            out.push(line);
            proof {
                assert(line_views(out@) =~= line_views(prev).push(line@));
                let k = j - pos;
                assert(rest.subrange(0, k) =~= t@.subrange(pos as int, j as int));
                assert(line@ =~= strip_cr(rest.subrange(0, k)));
                assert(rest.subrange(k + 1, rest.len() as int) =~= t@.subrange(j + 1, n as int));
                assert(lines_of(rest) == seq![strip_cr(rest.subrange(0, k))] + lines_of(rest.subrange(k + 1, rest.len() as int)));
                assert(line_views(prev) + lines_of(rest) =~= line_views(out@) + lines_of(t@.subrange(j + 1, n as int)));
            }
            pos = j + 1;
        }
    }
    assert(t@.subrange(n as int, n as int) =~= Seq::<char>::empty());
    assert(line_views(out@) + Seq::<Seq<char>>::empty() =~= line_views(out@));
    out
}


fn quote_prefix() -> (r: Vec<char>)
    ensures
        r@ == "> "@,
{
    chars_of("> ")
}

/// What the blockquote toggle makes of a selected text (see `blockquote_selection`).
fn blockquote_chars(sel: &Vec<char>) -> (r: Vec<char>)
    ensures
        r@ == blockquote_selection(sel@),
{
    let lines = lines_in(sel);
    let ghost lv = line_views(lines@);
    let qp = quote_prefix();
    let mut all = true;
    let mut i: usize = 0;
    while i < lines.len()
        invariant
            i <= lines@.len(),
            lv == line_views(lines@),
            qp@ == "> "@,
            all == (forall|j: int| 0 <= j < i ==> matches_at(#[trigger] lv[j], 0, "> "@)),
        decreases lines@.len() - i,
    {
        assert(lv[i as int] == lines@[i as int]@);
        if !chars_match_at(&lines[i], 0, &qp) {
            all = false;
        }
        i = i + 1;
    }
    assert(all == all_quoted(lv));
    let mut mapped: Vec<Vec<char>> = Vec::new();
    let mut i: usize = 0;
    while i < lines.len()
        invariant
            i <= lines@.len(),
            lv == line_views(lines@),
            qp@ == "> "@,
            all == all_quoted(lv),
            line_views(mapped@) =~= (if all { unquoted(lv) } else { quoted(lv) }).take(i as int),
        decreases lines@.len() - i,
    {
        let line = &lines[i];
        proof {
            reveal_strlit("> ");
        }
        assert(lv[i as int] == line@);
        let ghost before = line_views(mapped@);
        let m = if all {
            assert(matches_at(lv[i as int], 0, "> "@));
            subvec(line, 2, line.len())
        } else {
            let mut q = quote_prefix();
            push_all(&mut q, line);
            q
        };
        mapped.push(m);
        assert(line_views(mapped@) =~= before.push(m@));
        i = i + 1;
    }
    let nl = chars_of("\n");
    let r = join_lines(&mapped, &nl);
    assert(line_views(mapped@) =~= (if all { unquoted(lv) } else { quoted(lv) }));
    r
}

impl NoteEdit {
    /// Toggles a blockquote (`> `) on the selected lines, which stay selected, or
    /// on the line of the cursor.
    pub fn toggle_blockquote(buf: &mut NoteEditBuffer)
        ensures
            final(buf)@ == toggle_blockquote_view(old(buf)@),
    {
        proof {
            use_type_invariant(&*buf);
        }
        let (s, e) = buf.sel_range();
        let n = buf.text.len();
        let mut t: Vec<char> = Vec::new();
        if s != e {
            let sel = subvec(&buf.text, s, e);
            let new = blockquote_chars(&sel);
            push_range(&mut t, &buf.text, 0, s);
            push_all(&mut t, &new);
            push_range(&mut t, &buf.text, e, n);
            let tn = t.len();
            let nl = new.len();
            *buf = NoteEditBuffer { text: t, insert: s, bound: s + nl };
        } else {
            let ls = line_start_of(&buf.text, e);
            let qp = quote_prefix();
            proof {
                reveal_strlit("> ");
            }
            if chars_match_at(&buf.text, ls, &qp) {
                push_range(&mut t, &buf.text, 0, ls);
                push_range(&mut t, &buf.text, ls + 2, n);
                let ins = Self::mark_moved(buf.insert, ls, 2, 0, n);
                let bnd = Self::mark_moved(buf.bound, ls, 2, 0, n);
                *buf = NoteEditBuffer { text: t, insert: ins, bound: bnd };
            } else {
                push_range(&mut t, &buf.text, 0, ls);
                push_all(&mut t, &qp);
                push_range(&mut t, &buf.text, ls, n);
                let tn = t.len();
                let ins = Self::mark_moved(buf.insert, ls, 0, 2, n);
                let bnd = Self::mark_moved(buf.bound, ls, 0, 2, n);
                *buf = NoteEditBuffer { text: t, insert: ins, bound: bnd };
            }
        }
    }
}


/// A run of `k` backticks.
pub open spec fn backticks(k: nat) -> Seq<char> {
    Seq::new(k, |i: int| '`')
}

pub proof fn lemma_contains_bounds(t: Seq<char>, pat: Seq<char>)
    requires
        contains_seq(t, pat),
    ensures
        pat.len() <= t.len(),
{
    let i = choose|i: int| 0 <= i <= t.len() - pat.len() && #[trigger] matches_at(t, i, pat);
}

/// The length of the shortest run of backticks, `k` long or more, that does not
/// occur in `t`.
pub open spec fn separator_len_from(t: Seq<char>, k: nat) -> nat
    decreases t.len() + 1 - k,
{
    if !contains_seq(t, backticks(k)) {
        k
    } else {
        proof {
            lemma_contains_bounds(t, backticks(k));
        }
        separator_len_from(t, k + 1)
    }
}

/// The run of backticks that delimits a selected password: the shortest one,
/// of one backtick or more, that does not occur in it.
pub open spec fn password_separator(sel: Seq<char>) -> Seq<char> {
    backticks(separator_len_from(sel, 1))
}

/// A space between the backticks and a password that starts or ends with one.
pub open spec fn password_padding(sel: Seq<char>) -> Seq<char> {
    if sel.len() > 0 && (sel[0] == '`' || sel.last() == '`') { " "@ } else { Seq::empty() }
}

/// Toggles the password markup `[pass`…`]` around the selection, or at the cursor.
pub open spec fn toggle_password_view(v: EditView) -> EditView {
    if !has_selection(v) {
        toggle_snippet_view(v, "[pass`"@, "`]"@)
    } else {
        let sel = selected_text(v);
        let sep = password_separator(sel);
        let pad = password_padding(sel);
        toggle_snippet_view(v, "[pass"@ + sep + pad, pad + sep + "]"@)
    }
}

/// Toggles inline code around the selection or at the cursor, or a code block
/// around a selection that spans several lines.
pub open spec fn toggle_preformat_view(v: EditView) -> EditView {
    if has_selection(v) && selected_text(v).contains('\n') {
        toggle_snippet_view(v, "\n```\n"@, "\n```\n"@)
    } else {
        toggle_snippet_view(v, "`"@, "`"@)
    }
}

proof fn lemma_separator_len(t: Seq<char>, k: nat)
    requires
        k >= 1,
        forall|j: nat| 1 <= j < k ==> contains_seq(t, #[trigger] backticks(j)),
    ensures
        separator_len_from(t, k) >= k,
        !contains_seq(t, backticks(separator_len_from(t, k))),
        forall|j: nat| 1 <= j < separator_len_from(t, k) ==> contains_seq(t, #[trigger] backticks(j)),
    decreases t.len() + 1 - k,
{
    if contains_seq(t, backticks(k)) {
        lemma_contains_bounds(t, backticks(k));
        assert forall|j: nat| 1 <= j < k + 1 implies contains_seq(t, #[trigger] backticks(j)) by {
        }
        lemma_separator_len(t, k + 1);
    }
}

/// The separator of a selected password is a run of backticks that does not occur
/// in it, and every shorter run of backticks does.
pub proof fn law_password_separator_shortest(sel: Seq<char>)
    ensures
        password_separator(sel).len() >= 1,
        !contains_seq(sel, password_separator(sel)),
        forall|j: nat| 1 <= j < password_separator(sel).len() ==> contains_seq(sel, #[trigger] backticks(j)),
{
    lemma_separator_len(sel, 1);
}

/// The run of backticks that delimits a selected password.
fn separator_for(sel: &Vec<char>) -> (r: Vec<char>)
    ensures
        r@ == password_separator(sel@),
{
    let mut sep: Vec<char> = Vec::new();
    sep.push('`');
    assert(sep@ =~= backticks(1));
    while chars_contain(sel, &sep)
        invariant
            sep@ == backticks(sep@.len()),
            sep@.len() >= 1,
            separator_len_from(sel@, 1) == separator_len_from(sel@, sep@.len()),
        decreases sel@.len() + 1 - sep@.len(),
    {
        proof {
            lemma_contains_bounds(sel@, sep@);
        }
        sep.push('`');
        assert(sep@ =~= backticks(sep@.len()));
    }
    sep
}

impl NoteEdit {
    /// Toggles the password markup `[pass`…`]` around the selection, or at the cursor.
    pub fn toggle_password(buf: &mut NoteEditBuffer)
        ensures
            final(buf)@ == toggle_password_view(old(buf)@),
    {
        let (s, e) = buf.sel_range();
        if s == e {
            Self::toggle_snippet(buf, "[pass`", "`]");
            return;
        }
        let sel = subvec(&buf.text, s, e);
        let sep = separator_for(&sel);
        let padded = sel.len() > 0 && (sel[0] == '`' || sel[sel.len() - 1] == '`');
        let mut before = chars_of("[pass");
        push_all(&mut before, &sep);
        let mut after: Vec<char> = Vec::new();
        if padded {
            before.push(' ');
            after.push(' ');
        }
        push_all(&mut after, &sep);
        after.push(']');
        proof {
            reveal_strlit(" ");
            reveal_strlit("]");
            assert(before@ =~= "[pass"@ + password_separator(sel@) + password_padding(sel@));
            assert(after@ =~= password_padding(sel@) + password_separator(sel@) + "]"@);
        }
        Self::toggle_snippet_chars(buf, &before, &after);
    }

    /// Toggles inline code around the selection or at the cursor, or a code block
    /// around a selection that spans several lines.
    pub fn toggle_preformat(buf: &mut NoteEditBuffer)
        ensures
            final(buf)@ == toggle_preformat_view(old(buf)@),
    {
        let (s, e) = buf.sel_range();
        if s == e {
            Self::toggle_snippet(buf, "`", "`");
            return;
        }
        let sel = subvec(&buf.text, s, e);
        if chars_contain_char(&sel, '\n') {
            Self::toggle_snippet(buf, "\n```\n", "\n```\n");
        } else {
            Self::toggle_snippet(buf, "`", "`");
        }
    }
}


/// Toggling a snippet on and toggling it again gives back the text and the
/// selection (or the cursor) as they were.
pub proof fn law_toggle_snippet_undone(v: EditView, before: Seq<char>, after: Seq<char>)
    requires
        view_wf(v),
        !is_untoggle(v, before, after),
    ensures
        toggle_snippet_view(toggle_snippet_view(v, before, after), before, after).text == v.text,
        sel_start(toggle_snippet_view(toggle_snippet_view(v, before, after), before, after)) == sel_start(v),
        sel_end(toggle_snippet_view(toggle_snippet_view(v, before, after), before, after)) == sel_end(v),
{
    let w = toggle_snippet_view(v, before, after);
    let s = sel_start(v);
    let e = sel_end(v);
    let bl = before.len() as int;
    let al = after.len() as int;
    let t = v.text;
    assert(sel_start(w) == s + bl);
    assert(sel_end(w) == e + bl);
    assert(w.text.subrange(e + bl, e + bl + al) =~= after);
    assert(w.text.subrange(s, s + bl) =~= before);
    assert(is_untoggle(w, before, after));
    let u = toggle_snippet_view(w, before, after);
    assert(u.text =~= t);
}

/// Toggling the password markup on a selection and toggling it again gives back
/// the text and the selection as they were.
pub proof fn law_toggle_password_undone(v: EditView)
    requires
        view_wf(v),
        has_selection(v),
        !is_untoggle(v, "[pass"@ + password_separator(selected_text(v)) + password_padding(selected_text(v)),
            password_padding(selected_text(v)) + password_separator(selected_text(v)) + "]"@),
    ensures
        toggle_password_view(toggle_password_view(v)).text == v.text,
        sel_start(toggle_password_view(toggle_password_view(v))) == sel_start(v),
        sel_end(toggle_password_view(toggle_password_view(v))) == sel_end(v),
{
    let sel = selected_text(v);
    let before = "[pass"@ + password_separator(sel) + password_padding(sel);
    let after = password_padding(sel) + password_separator(sel) + "]"@;
    let w = toggle_snippet_view(v, before, after);
    assert(selected_text(w) =~= sel);
    assert(has_selection(w));
    law_toggle_snippet_undone(v, before, after);
}

/// What characterizes the start of the line holding `p`.
proof fn lemma_line_start_char(t: Seq<char>, p: int)
    requires
        0 <= p <= t.len(),
    ensures
        0 <= line_start(t, p) <= p,
        line_start(t, p) == 0 || is_line_break(t[line_start(t, p) - 1]),
        forall|q: int| line_start(t, p) <= q < p ==> !is_line_break(#[trigger] t[q]),
    decreases p,
{
    if p > 0 && !is_line_break(t[p - 1]) {
        lemma_line_start_char(t, p - 1);
    }
}

proof fn lemma_line_start_is(t: Seq<char>, p: int, ls: int)
    requires
        0 <= ls <= p <= t.len(),
        ls == 0 || is_line_break(t[ls - 1]),
        forall|q: int| ls <= q < p ==> !is_line_break(#[trigger] t[q]),
    ensures
        line_start(t, p) == ls,
    decreases p,
{
    if p > ls {
        assert(!is_line_break(t[p - 1]));
        lemma_line_start_is(t, p - 1, ls);
    }
}

/// Toggling a blockquote on the line of the cursor and toggling it again gives
/// back the text and the cursor as they were.
pub proof fn law_toggle_blockquote_line_undone(v: EditView)
    requires
        view_wf(v),
        !has_selection(v),
        !matches_at(v.text, line_start(v.text, v.insert), "> "@),
    ensures
        toggle_blockquote_view(toggle_blockquote_view(v)).text == v.text,
        toggle_blockquote_view(toggle_blockquote_view(v)).insert == v.insert,
        toggle_blockquote_view(toggle_blockquote_view(v)).bound == v.bound,
{
    reveal_strlit("> ");
    let t = v.text;
    let c = v.insert;
    let ls = line_start(t, c);
    lemma_line_start_char(t, c);
    let w = toggle_blockquote_view(v);
    assert(w.text =~= t.subrange(0, ls) + "> "@ + t.subrange(ls, t.len() as int));
    assert(w.insert == c + 2);
    assert forall|q: int| ls <= q < c + 2 implies !is_line_break(#[trigger] w.text[q]) by {
        if q >= ls + 2 {
            assert(w.text[q] == t[q - 2]);
        }
    }
    if ls > 0 {
        assert(w.text[ls - 1] == t[ls - 1]);
    }
    lemma_line_start_is(w.text, c + 2, ls);
    assert(w.text.subrange(ls, ls + 2) =~= "> "@);
    let u = toggle_blockquote_view(w);
    assert(u.text =~= t);
}

/// The start that the heading cycle has put on a line after `k` toggles, from a
/// line with none.
pub open spec fn heading_prefix(k: int) -> Seq<char> {
    if k == 1 {
        " # "@
    } else if k == 2 {
        " ## "@
    } else if k == 3 {
        " ### "@
    } else if k == 4 {
        " - "@
    } else {
        Seq::empty()
    }
}

/// Where a mark is after `k` toggles of the heading on the line starting at `ls`.
pub open spec fn heading_mark(m: int, ls: int, k: int) -> int {
    if m >= ls { m + heading_prefix(k).len() } else { m }
}

/// The note after `k` toggles of the heading on the line starting at `a.len()`,
/// from the text `a + b` with its marks at `ins` and `bnd`.
pub open spec fn heading_state(a: Seq<char>, b: Seq<char>, ins: int, bnd: int, k: int) -> EditView {
    EditView {
        text: a + heading_prefix(k) + b,
        insert: heading_mark(ins, a.len() as int, k),
        bound: heading_mark(bnd, a.len() as int, k),
    }
}

proof fn lemma_heading_line_start(a: Seq<char>, p: Seq<char>, b: Seq<char>, ins: int)
    requires
        a.len() <= ins <= a.len() + p.len() + b.len(),
        a.len() == 0 || is_line_break(a.last()),
        forall|q: int| 0 <= q < p.len() ==> !is_line_break(#[trigger] p[q]),
        forall|q: int| 0 <= q < ins - a.len() - p.len() ==> !is_line_break(#[trigger] b[q]),
    ensures
        line_start(a + p + b, ins) == a.len(),
        (a + p + b).subrange(0, a.len() as int) == a,
        (a + p + b).subrange(a.len() as int, (a.len() + p.len()) as int) == p,
        (a + p + b).subrange((a.len() + p.len()) as int, (a + p + b).len() as int) == b,
{
    let t = a + p + b;
    let ls = a.len() as int;
    assert forall|q: int| ls <= q < ins implies !is_line_break(#[trigger] t[q]) by {
        if q < ls + p.len() {
            assert(t[q] == p[q - ls]);
        } else {
            assert(t[q] == b[q - ls - p.len()]);
        }
    }
    if ls > 0 {
        assert(t[ls - 1] == a.last());
    }
    lemma_line_start_is(t, ins, ls);
    assert(t.subrange(0, ls) =~= a);
    assert(t.subrange(ls, ls + p.len()) =~= p);
    assert(t.subrange(ls + p.len(), t.len() as int) =~= b);
}

#[verifier::spinoff_prover]
proof fn lemma_heading_step(a: Seq<char>, b: Seq<char>, ins: int, bnd: int, k: int)
    requires
        0 <= k <= 4,
        a.len() <= ins <= a.len() + b.len(),
        0 <= bnd <= a.len() + b.len(),
        a.len() == 0 || is_line_break(a.last()),
        forall|q: int| 0 <= q < ins - a.len() ==> !is_line_break(#[trigger] b[q]),
        k == 0 ==> first_match(a + b, a.len() as int, header_cycle(), 0) is None,
    ensures
        toggle_line_start_view(heading_state(a, b, ins, bnd, k), header_cycle()) == heading_state(a, b, ins, bnd, k + 1),
{
    reveal_strlit(" # ");
    reveal_strlit(" ## ");
    reveal_strlit(" ### ");
    reveal_strlit(" - ");
    let v = heading_state(a, b, ins, bnd, k);
    let t = v.text;
    let ls = a.len() as int;
    let p = heading_prefix(k);
    let h = header_cycle();
    assert(t == a + p + b);
    assert forall|q: int| 0 <= q < p.len() implies !is_line_break(#[trigger] p[q]) by {
        assert(p[q] == ' ' || p[q] == '#' || p[q] == '-');
    }
    lemma_heading_line_start(a, p, b, v.insert);
    assert(h[0] == " # "@ && h[1] == " ## "@ && h[2] == " ### "@ && h[3] == " - "@);
    if k == 0 {
        assert(t =~= a + b);
    } else if k == 1 {
        assert(matches_at(t, ls, h[0]));
        assert(first_match(t, ls, h, 0) == Some(0int));
    } else if k == 2 {
        assert(t[ls + 2] != h[0][2]);
        assert(t.subrange(ls, ls + 3)[2] != h[0][2]);
        assert(!matches_at(t, ls, h[0]));
        assert(matches_at(t, ls, h[1]));
        assert(first_match(t, ls, h, 1) == Some(1int));
        assert(first_match(t, ls, h, 0) == Some(1int));
    } else if k == 3 {
        assert(t.subrange(ls, ls + 3)[2] != h[0][2]);
        assert(!matches_at(t, ls, h[0]));
        assert(t.subrange(ls, ls + 4)[3] != h[1][3]);
        assert(!matches_at(t, ls, h[1]));
        assert(matches_at(t, ls, h[2]));
        assert(first_match(t, ls, h, 2) == Some(2int));
        assert(first_match(t, ls, h, 1) == Some(2int));
        assert(first_match(t, ls, h, 0) == Some(2int));
    } else {
        assert(t.subrange(ls, ls + 3)[1] != h[0][1]);
        assert(!matches_at(t, ls, h[0]));
        if ls + 4 <= t.len() {
            assert(t.subrange(ls, ls + 4)[1] != h[1][1]);
        }
        assert(!matches_at(t, ls, h[1]));
        if ls + 5 <= t.len() {
            assert(t.subrange(ls, ls + 5)[1] != h[2][1]);
        }
        assert(!matches_at(t, ls, h[2]));
        assert(matches_at(t, ls, h[3]));
        assert(first_match(t, ls, h, 3) == Some(3int));
        assert(first_match(t, ls, h, 2) == Some(3int));
        assert(first_match(t, ls, h, 1) == Some(3int));
        assert(first_match(t, ls, h, 0) == Some(3int));
    }
    let w = toggle_line_start_view(v, h);
    let n = heading_state(a, b, ins, bnd, k + 1);
    assert(w.text =~= n.text);
}

/// Toggling the heading five times on a line that has none gives back the text
/// and the marks as they were: the line goes through ` # `, ` ## `, ` ### `,
/// ` - ` and back to no heading.
pub proof fn law_toggle_heading_cycles(v: EditView)
    requires
        view_wf(v),
        first_match(v.text, line_start(v.text, v.insert), header_cycle(), 0) is None,
    ensures
        toggle_line_start_view(toggle_line_start_view(toggle_line_start_view(toggle_line_start_view(
            toggle_line_start_view(v, header_cycle()), header_cycle()), header_cycle()), header_cycle()),
            header_cycle()) == v,
{
    let t = v.text;
    let ls = line_start(t, v.insert);
    lemma_line_start_char(t, v.insert);
    let a = t.subrange(0, ls);
    let b = t.subrange(ls, t.len() as int);
    assert(a + b =~= t);
    assert forall|q: int| 0 <= q < v.insert - a.len() implies !is_line_break(#[trigger] b[q]) by {
        assert(b[q] == t[ls + q]);
    }
    if ls > 0 {
        assert(a.last() == t[ls - 1]);
    }
    let s0 = heading_state(a, b, v.insert, v.bound, 0);
    assert(s0.text =~= t);
    assert(s0 == v);
    lemma_heading_step(a, b, v.insert, v.bound, 0);
    lemma_heading_step(a, b, v.insert, v.bound, 1);
    lemma_heading_step(a, b, v.insert, v.bound, 2);
    lemma_heading_step(a, b, v.insert, v.bound, 3);
    lemma_heading_step(a, b, v.insert, v.bound, 4);
    let s5 = heading_state(a, b, v.insert, v.bound, 5);
    assert(s5.text =~= t);
    assert(s5 == v);
}

/// Toggling a single line start twice, on a line that does not start with it,
/// gives back the text and the marks as they were.
#[verifier::spinoff_prover]
proof fn lemma_toggle_single_start_undone(v: EditView, p: Seq<char>)
    requires
        view_wf(v),
        p.len() > 0,
        forall|q: int| 0 <= q < p.len() ==> !is_line_break(#[trigger] p[q]),
        !matches_at(v.text, line_start(v.text, v.insert), p),
    ensures
        toggle_line_start_view(toggle_line_start_view(v, seq![p]), seq![p]) == v,
{
    let t = v.text;
    let ls = line_start(t, v.insert);
    lemma_line_start_char(t, v.insert);
    let a = t.subrange(0, ls);
    let b = t.subrange(ls, t.len() as int);
    assert(a + b =~= t);
    let sp = seq![p];
    assert(first_match(t, ls, sp, 1) is None);
    assert(first_match(t, ls, sp, 0) is None);
    let w = toggle_line_start_view(v, sp);
    assert(w.text =~= a + p + b);
    assert forall|q: int| 0 <= q < w.insert - a.len() - p.len() implies !is_line_break(#[trigger] b[q]) by {
        assert(b[q] == t[ls + q]);
    }
    if ls > 0 {
        assert(a.last() == t[ls - 1]);
    }
    lemma_heading_line_start(a, p, b, w.insert);
    assert(line_start(w.text, w.insert) == ls);
    assert(matches_at(w.text, ls, p));
    assert(first_match(w.text, ls, sp, 0) == Some(0int));
    let z = toggle_line_start_view(w, sp);
    assert(z.text =~= t);
}

/// Toggling the bullet ` * ` twice on a line that does not start with it gives
/// back the text and the marks as they were.
pub proof fn law_toggle_ul_undone(v: EditView)
    requires
        view_wf(v),
        !matches_at(v.text, line_start(v.text, v.insert), " * "@),
    ensures
        toggle_line_start_view(toggle_line_start_view(v, seq![" * "@]), seq![" * "@]) == v,
{
    reveal_strlit(" * ");
    assert forall|q: int| 0 <= q < " * "@.len() implies !is_line_break(#[trigger] " * "@[q]) by {}
    lemma_toggle_single_start_undone(v, " * "@);
}

/// Toggling the number `1. ` twice on a line that does not start with it gives
/// back the text and the marks as they were.
pub proof fn law_toggle_ol_undone(v: EditView)
    requires
        view_wf(v),
        !matches_at(v.text, line_start(v.text, v.insert), "1. "@),
    ensures
        toggle_line_start_view(toggle_line_start_view(v, seq!["1. "@]), seq!["1. "@]) == v,
{
    reveal_strlit("1. ");
    assert forall|q: int| 0 <= q < "1. "@.len() implies !is_line_break(#[trigger] "1. "@[q]) by {}
    lemma_toggle_single_start_undone(v, "1. "@);
}

/// The formatting commands of the note editor's toolbar.
#[derive(PartialEq, Eq, Structural, Debug, Clone, Copy)]
pub enum NoteEditCommand {
    ListUl,
    ListOl,
    TextBold,
    TextItalic,
    TextStrikethrough,
    TextHeading,
    TextLink,
    TextPassword,
    TextPreformat,
    TextBlockquote,
}

/// What a formatting command does to the note: bold, italics, strikethrough and
/// links wrap the selection (or the cursor) in their markup, or remove it; the
/// others are the toggles of their name.
pub open spec fn command_view(v: EditView, cmd: NoteEditCommand) -> EditView {
    match cmd {
        NoteEditCommand::ListUl => toggle_line_start_view(v, seq![" * "@]),
        NoteEditCommand::ListOl => toggle_line_start_view(v, seq!["1. "@]),
        NoteEditCommand::TextBold => toggle_snippet_view(v, "**"@, "**"@),
        NoteEditCommand::TextItalic => toggle_snippet_view(v, "*"@, "*"@),
        NoteEditCommand::TextStrikethrough => toggle_snippet_view(v, "~~"@, "~~"@),
        NoteEditCommand::TextHeading => toggle_line_start_view(v, header_cycle()),
        NoteEditCommand::TextLink => toggle_snippet_view(v, "["@, "](url)"@),
        NoteEditCommand::TextPassword => toggle_password_view(v),
        NoteEditCommand::TextPreformat => toggle_preformat_view(v),
        NoteEditCommand::TextBlockquote => toggle_blockquote_view(v),
    }
}

/// The bold button wraps the selection (or the cursor) in `**` on both sides,
/// keeping the selection on the same characters; when `**` already stands on both
/// sides, it removes exactly those four characters.
pub proof fn law_bold_wraps_in_double_stars(v: EditView)
    requires
        view_wf(v),
    ensures
        ({
            let s = sel_start(v);
            let e = sel_end(v);
            let t = v.text;
            let r = command_view(v, NoteEditCommand::TextBold);
            if s >= 2 && matches_at(t, s - 2, "**"@) && matches_at(t, e, "**"@) {
                &&& r.text == t.subrange(0, s - 2) + t.subrange(s, e) + t.subrange(e + 2, t.len() as int)
                &&& r.insert == s - 2
                &&& r.bound == e - 2
            } else {
                &&& r.text == t.subrange(0, s) + "**"@ + t.subrange(s, e) + "**"@ + t.subrange(e, t.len() as int)
                &&& r.insert == s + 2
                &&& r.bound == e + 2
            }
        }),
{
    reveal_strlit("**");
}

/// The italics button wraps the selection (or the cursor) in a single `*` on
/// both sides, or removes them when they stand there.
pub proof fn law_italic_wraps_in_single_stars(v: EditView)
    requires
        view_wf(v),
    ensures
        ({
            let s = sel_start(v);
            let e = sel_end(v);
            let t = v.text;
            let r = command_view(v, NoteEditCommand::TextItalic);
            if s >= 1 && matches_at(t, s - 1, "*"@) && matches_at(t, e, "*"@) {
                r.text == t.subrange(0, s - 1) + t.subrange(s, e) + t.subrange(e + 1, t.len() as int)
            } else {
                r.text == t.subrange(0, s) + "*"@ + t.subrange(s, e) + "*"@ + t.subrange(e, t.len() as int)
            }
        }),
{
    reveal_strlit("*");
}

/// The markup that the wrapping buttons put around the selection: `**` for bold,
/// `*` for italics, `~~` for strikethrough, and `[` ... `](url)` for a link.
pub open spec fn wrapping_markup(cmd: NoteEditCommand) -> Option<(Seq<char>, Seq<char>)> {
    match cmd {
        NoteEditCommand::TextBold => Some(("**"@, "**"@)),
        NoteEditCommand::TextItalic => Some(("*"@, "*"@)),
        NoteEditCommand::TextStrikethrough => Some(("~~"@, "~~"@)),
        NoteEditCommand::TextLink => Some(("["@, "](url)"@)),
        _ => None,
    }
}

/// Each wrapping button puts its own markup around the selection (or the cursor)
/// when that markup is not already there, and takes exactly it away when it is.
pub proof fn law_wrapping_buttons(v: EditView, cmd: NoteEditCommand)
    requires
        view_wf(v),
        wrapping_markup(cmd) is Some,
    ensures
        ({
            let (b, a) = wrapping_markup(cmd).unwrap();
            let s = sel_start(v);
            let e = sel_end(v);
            let t = v.text;
            let r = command_view(v, cmd);
            if s >= b.len() && matches_at(t, s - b.len(), b) && matches_at(t, e, a) {
                r.text == t.subrange(0, s - b.len()) + t.subrange(s, e) + t.subrange(e + a.len(), t.len() as int)
            } else {
                r.text == t.subrange(0, s) + b + t.subrange(s, e) + a + t.subrange(e, t.len() as int)
            }
        }),
{
}

impl NoteEdit {
    /// Applies a formatting command of the toolbar to the note (see `command_view`).
    pub fn apply_command(buf: &mut NoteEditBuffer, cmd: NoteEditCommand)
        ensures
            final(buf)@ == command_view(old(buf)@, cmd),
    {
        match cmd {
            NoteEditCommand::ListUl => Self::toggle_ul(buf),
            NoteEditCommand::ListOl => Self::toggle_ol(buf),
            NoteEditCommand::TextBold => Self::toggle_snippet(buf, "**", "**"),
            NoteEditCommand::TextItalic => Self::toggle_snippet(buf, "*", "*"),
            NoteEditCommand::TextStrikethrough => Self::toggle_snippet(buf, "~~", "~~"),
            NoteEditCommand::TextHeading => Self::toggle_heading(buf),
            NoteEditCommand::TextLink => Self::toggle_snippet(buf, "[", "](url)"),
            NoteEditCommand::TextPassword => Self::toggle_password(buf),
            NoteEditCommand::TextPreformat => Self::toggle_preformat(buf),
            NoteEditCommand::TextBlockquote => Self::toggle_blockquote(buf),
        }
    }
}

/// A key released in the note editor, as its handling tells them apart.
#[derive(PartialEq, Eq, Structural, Debug, Clone, Copy)]
pub enum NoteKey {
    Escape,
    Enter,
    Char(char),
    Other,
}

/// What a key does in the note editor's search.
#[derive(PartialEq, Eq, Structural, Debug, Clone, Copy)]
pub enum NoteSearchAction {
    HideSearchBar,
    ShowSearchBar,
    SearchNext,
    SearchPrevious,
}

/// The search shortcuts of the note editor, all with Ctrl: Escape hides the
/// search bar, F shows it, Enter and N find the next match, P the previous one.
pub open spec fn note_key_action_of(ctrl: bool, key: NoteKey) -> Option<NoteSearchAction> {
    if !ctrl {
        None
    } else {
        match key {
            NoteKey::Escape => Some(NoteSearchAction::HideSearchBar),
            NoteKey::Enter => Some(NoteSearchAction::SearchNext),
            NoteKey::Char(c) => if c == 'f' {
                Some(NoteSearchAction::ShowSearchBar)
            } else if c == 'n' {
                Some(NoteSearchAction::SearchNext)
            } else if c == 'p' {
                Some(NoteSearchAction::SearchPrevious)
            } else {
                None
            },
            NoteKey::Other => None,
        }
    }
}

/// What a released key does in the note editor's search (see
/// `note_key_action_of`).
pub fn note_key_action(ctrl: bool, key: NoteKey) -> (r: Option<NoteSearchAction>)
    ensures
        r == note_key_action_of(ctrl, key),
{
    if !ctrl {
        return None;
    }
    match key {
        NoteKey::Escape => Some(NoteSearchAction::HideSearchBar),
        NoteKey::Enter => Some(NoteSearchAction::SearchNext),
        NoteKey::Char(c) => {
            if c == 'f' {
                Some(NoteSearchAction::ShowSearchBar)
            } else if c == 'n' {
                Some(NoteSearchAction::SearchNext)
            } else if c == 'p' {
                Some(NoteSearchAction::SearchPrevious)
            } else {
                None
            }
        },
        NoteKey::Other => None,
    }
}

} // verus!
