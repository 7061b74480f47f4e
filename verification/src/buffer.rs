//! One open document: its text, its cursor ("point"), and its optional
//! association with a backing file.

use vstd::prelude::*;

use crate::key::Key;
use crate::text::content_len;
use crate::text::down_place;
use crate::text::join_text;
use crate::text::left_place;
use crate::text::lemma_first_newline_at;
use crate::text::lemma_join_text_push;
use crate::text::lemma_loaded_lines_wf;
use crate::text::lemma_offset_at_in_content;
use crate::text::lemma_place_of_offset_from_valid;
use crate::text::lemma_start_of_line_join;
use crate::text::lemma_start_of_line_lb;
use crate::text::lemma_start_of_line_mono;
use crate::text::lemma_start_of_line_split;
use crate::text::lemma_start_of_line_update;
use crate::text::loaded_lines;
use crate::text::no_newline;
use crate::text::offset_at;
use crate::text::place_of_offset;
use crate::text::place_of_offset_from;
use crate::text::read_lines;
use crate::text::right_place;
use crate::text::slice_text;
use crate::text::start_of_line;
use crate::text::up_place;
use crate::text::valid_place;
use crate::text::wf_lines;

verus! {

/// One document being edited: newline-free lines, a cursor, and the optional
/// backing file.  The cursor column may equal the line length, meaning
/// "after the last character"; an empty document is one empty line.
#[derive(Debug, Clone)]
pub struct Buffer {
    /// The document's lines.  Always at least one; none contains a newline.
    pub lines: Vec<Vec<char>>,
    /// The line the cursor is on.
    pub line: usize,
    /// The column the cursor is at on that line.
    pub col: usize,
    /// Name displayed for the buffer once it is associated with a file.
    pub filename: Option<String>,
    /// Path of the backing file; `None` for an unsaved buffer.
    pub path: Option<String>,
}

impl Buffer {
    /// The line structure as mathematical sequences.
    pub open spec fn lines_view(&self) -> Seq<Seq<char>> {
        self.lines.deep_view()
    }

    /// The backing path as a character sequence.
    pub open spec fn path_view(&self) -> Option<Seq<char>> {
        match self.path {
            Some(p) => Some(p@),
            None => None,
        }
    }

    /// The display name as a character sequence.
    pub open spec fn filename_view(&self) -> Option<Seq<char>> {
        match self.filename {
            Some(f) => Some(f@),
            None => None,
        }
    }

    /// Well-formed: proper line structure, the cursor on a valid place, and
    /// a total size whose offsets fit in a `usize`.
    pub open spec fn wf(&self) -> bool {
        &&& wf_lines(self.lines_view())
        &&& valid_place(self.lines_view(), self.line as int, self.col as int)
        &&& content_len(self.lines_view()) < usize::MAX
    }

    /// The point: the cursor as a flat offset into the joined text.
    pub open spec fn point_view(&self) -> int {
        offset_at(self.lines_view(), self.line as int, self.col as int)
    }

    /// True when the edited text is unchanged between `self` and `other`
    /// (the cursor may differ).
    pub open spec fn same_doc(&self, other: &Buffer) -> bool {
        &&& self.lines_view() == other.lines_view()
        &&& self.path == other.path
        &&& self.filename == other.filename
    }

    /// Makes a buffer over already split lines — none may contain a newline
    /// — with the cursor at the start; no lines at all become one empty
    /// line, so an empty document is a single empty line.
    pub fn new(input: Vec<Vec<char>>, path: Option<String>) -> (r: Buffer)
        requires
            forall|i: int| 0 <= i < input.deep_view().len() ==> no_newline(
                #[trigger] input.deep_view()[i],
            ),
            content_len(input.deep_view()) < usize::MAX,
        ensures
            r.wf(),
            input.deep_view().len() == 0 ==> r.lines_view() == seq![Seq::<char>::empty()],
            input.deep_view().len() > 0 ==> r.lines_view() == input.deep_view(),
            r.line == 0,
            r.col == 0,
            r.filename is None,
            r.path == path,
    {
        let mut lines = input;
        if lines.len() == 0 {
            lines.push(Vec::new());
            proof {
                assert(lines.deep_view() =~~= seq![Seq::<char>::empty()]);
                assert(start_of_line(lines.deep_view(), 1)
                    == start_of_line(lines.deep_view(), 0) + 1);
            }
        }
        Buffer { lines, line: 0, col: 0, filename: None, path }
    }

    /// Number of lines of the document; at least one.
    pub fn line_count(&self) -> (r: usize)
        ensures
            r == self.lines_view().len(),
    {
        self.lines.len()
    }

    /// Length of the given line: the largest column the cursor can take on
    /// it, the place just after its last character.
    pub fn last_column_of(&self, line: usize) -> (r: usize)
        requires
            line < self.lines_view().len(),
        ensures
            r == self.lines_view()[line as int].len(),
    {
        self.lines[line].len()
    }

    /// The cursor as a `(line, column)` pair.
    pub fn cursor(&self) -> (r: (usize, usize))
        ensures
            r == (self.line, self.col),
    {
        (self.line, self.col)
    }

    /// Length of the joined text (each line plus one newline between
    /// consecutive lines).
    pub fn content_length(&self) -> (r: usize)
        requires
            self.wf(),
        ensures
            r == content_len(self.lines_view()),
    {
        let ghost lv = self.lines_view();
        let mut acc: usize = 0;
        let mut k: usize = 0;
        while k < self.lines.len()
            invariant
                self.wf(),
                lv == self.lines_view(),
                0 <= k <= self.lines.len(),
                acc == start_of_line(lv, k as int),
            decreases self.lines.len() - k,
        {
            proof {
                lemma_start_of_line_mono(lv, k + 1, lv.len() as int);
            }
            acc = acc + self.lines[k].len() + 1;
            k = k + 1;
        }
        proof {
            lemma_start_of_line_mono(lv, 0, lv.len() - 1);
            assert(start_of_line(lv, lv.len() as int)
                == start_of_line(lv, lv.len() - 1) + lv[lv.len() - 1].len() + 1);
        }
        acc - 1
    }

    /// Flat offset of the place `(line, col)`, the column clamped to the
    /// line length; `None` exactly when the line does not exist.
    pub fn offset_of(&self, line: usize, col: usize) -> (r: Option<usize>)
        requires
            self.wf(),
        ensures
            line < self.lines_view().len() ==> r == Some(
                offset_at(self.lines_view(), line as int, col as int) as usize,
            ),
            line >= self.lines_view().len() ==> r is None,
    {
        let ghost lv = self.lines_view();
        if line >= self.lines.len() {
            return None;
        }
        let mut acc: usize = 0;
        let mut k: usize = 0;
        while k < line
            invariant
                self.wf(),
                lv == self.lines_view(),
                0 <= k <= line < self.lines.len(),
                acc == start_of_line(lv, k as int),
            decreases line - k,
        {
            proof {
                lemma_start_of_line_mono(lv, k + 1, lv.len() as int);
            }
            acc = acc + self.lines[k].len() + 1;
            k = k + 1;
        }
        let ll = self.lines[line].len();
        let c = if col < ll {
            col
        } else {
            ll
        };
        proof {
            lemma_offset_at_in_content(lv, line as int, col as int);
        }
        Some(acc + c)
    }

    /// The `(line, column)` place of a flat offset; an offset past the end
    /// of the text clamps to the end of the last line.
    pub fn line_col_of(&self, offset: usize) -> (r: (usize, usize))
        requires
            self.wf(),
        ensures
            (r.0 as int, r.1 as int) == place_of_offset(self.lines_view(), offset as int),
            valid_place(self.lines_view(), r.0 as int, r.1 as int),
    {
        let ghost lv = self.lines_view();
        let mut l: usize = 0;
        let mut rem: usize = offset;
        while l < self.lines.len() - 1 && rem > self.lines[l].len()
            invariant
                self.wf(),
                lv == self.lines_view(),
                0 <= l < self.lines.len(),
                place_of_offset_from(lv, l as int, rem as int) == place_of_offset(
                    lv,
                    offset as int,
                ),
            decreases self.lines.len() - l,
        {
            rem = rem - (self.lines[l].len() + 1);
            l = l + 1;
        }
        let ll = self.lines[l].len();
        let c = if rem < ll {
            rem
        } else {
            ll
        };
        proof {
            lemma_place_of_offset_from_valid(lv, 0, offset as int);
        }
        (l, c)
    }

    /// The point as a flat offset.
    pub fn point(&self) -> (r: usize)
        requires
            self.wf(),
        ensures
            r as int == self.point_view(),
    {
        proof {
            lemma_offset_at_in_content(self.lines_view(), self.line as int, self.col as int);
        }
        match self.offset_of(self.line, self.col) {
            Some(o) => o,
            None => 0,
        }
    }

    /// Recomputes the point from a `(line, column)` target, clamping the
    /// column to the target line's length; a line past the end of the
    /// document leaves the cursor where it was.
    pub fn move_point_to(&mut self, line: usize, col: usize)
        requires
            old(self).wf(),
        ensures
            final(self).wf(),
            final(self).same_doc(old(self)),
            line < old(self).lines_view().len() ==> (final(self).line == line
                && final(self).col as int == vstd::math::min(
                col as int,
                old(self).lines_view()[line as int].len() as int,
            )),
            line >= old(self).lines_view().len() ==> (final(self).line == old(self).line
                && final(self).col == old(self).col),
    {
        if line < self.lines.len() {
            let ll = self.lines[line].len();
            self.line = line;
            self.col = if col < ll {
                col
            } else {
                ll
            };
        }
    }

    /// One place left: back a column, to the end of the previous line at a
    /// line start, and a no-op at the very start of the text.
    pub fn move_left(&mut self)
        requires
            old(self).wf(),
        ensures
            final(self).wf(),
            final(self).same_doc(old(self)),
            (final(self).line as int, final(self).col as int) == left_place(
                old(self).lines_view(),
                old(self).line as int,
                old(self).col as int,
            ),
    {
        if self.col > 0 {
            self.col = self.col - 1;
        } else if self.line > 0 {
            self.line = self.line - 1;
            self.col = self.lines[self.line].len();
        }
    }

    /// One place right: forward a column, to the start of the next line at
    /// a line end, and a no-op at the very end of the text.
    pub fn move_right(&mut self)
        requires
            old(self).wf(),
        ensures
            final(self).wf(),
            final(self).same_doc(old(self)),
            (final(self).line as int, final(self).col as int) == right_place(
                old(self).lines_view(),
                old(self).line as int,
                old(self).col as int,
            ),
    {
        let n = self.lines.len();
        assert(self.line < n);
        if self.col < self.lines[self.line].len() {
            self.col = self.col + 1;
        } else if self.line + 1 < n {
            self.line = self.line + 1;
            self.col = 0;
        }
    }

    /// One line up, the column clamped to that line's length; a no-op on
    /// the first line.
    pub fn move_up(&mut self)
        requires
            old(self).wf(),
        ensures
            final(self).wf(),
            final(self).same_doc(old(self)),
            (final(self).line as int, final(self).col as int) == up_place(
                old(self).lines_view(),
                old(self).line as int,
                old(self).col as int,
            ),
    {
        if self.line > 0 {
            self.line = self.line - 1;
            let ll = self.lines[self.line].len();
            if self.col > ll {
                self.col = ll;
            }
        }
    }

    /// One line down, the column clamped to that line's length; a no-op on
    /// the last line.
    pub fn move_down(&mut self)
        requires
            old(self).wf(),
        ensures
            final(self).wf(),
            final(self).same_doc(old(self)),
            (final(self).line as int, final(self).col as int) == down_place(
                old(self).lines_view(),
                old(self).line as int,
                old(self).col as int,
            ),
    {
        let n = self.lines.len();
        assert(self.line < n);
        if self.line + 1 < n {
            self.line = self.line + 1;
            let ll = self.lines[self.line].len();
            if self.col > ll {
                self.col = ll;
            }
        }
    }
}

impl Buffer {
    /// Inserts `c` at the point and advances the point by one.  An ordinary
    /// character goes into the current line before the cursor; a newline
    /// splits the current line at the cursor, which moves to column 0 of
    /// the new next line.
    pub fn insert_char(&mut self, c: char)
        requires
            old(self).wf(),
            content_len(old(self).lines_view()) + 1 < usize::MAX,
        ensures
            final(self).wf(),
            final(self).path == old(self).path,
            final(self).filename == old(self).filename,
            c != '\n' ==> final(self).lines_view() == old(self).lines_view().update(
                old(self).line as int,
                old(self).lines_view()[old(self).line as int].insert(old(self).col as int, c),
            ) && final(self).line == old(self).line && final(self).col == old(self).col + 1,
            c == '\n' ==> final(self).lines_view() == old(self).lines_view().update(
                old(self).line as int,
                old(self).lines_view()[old(self).line as int].take(old(self).col as int),
            ).insert(
                old(self).line + 1,
                old(self).lines_view()[old(self).line as int].skip(old(self).col as int),
            ) && final(self).line == old(self).line + 1 && final(self).col == 0,
            final(self).point_view() == old(self).point_view() + 1,
            content_len(final(self).lines_view()) == content_len(old(self).lines_view()) + 1,
    {
        let ghost a = self.lines_view();
        let ghost l = self.line as int;
        let ghost cx = self.col as int;
        let n = self.lines.len();
        assert(self.line < n);
        proof {
            lemma_offset_at_in_content(a, l, a[l].len() as int);
            lemma_start_of_line_mono(a, 0, l);
        }
        if c != '\n' {
            let mut cur = self.lines.remove(self.line);
            cur.insert(self.col, c);
            self.lines.insert(self.line, cur);
            self.col = self.col + 1;
            proof {
                let b = self.lines_view();
                assert(b =~~= a.update(l, a[l].insert(cx, c)));
                assert forall|j: int| 0 <= j < b[l].len() implies b[l][j] != '\n' by {
                    if j < cx {
                        assert(b[l][j] == a[l][j]);
                    } else if j > cx {
                        assert(b[l][j] == a[l][j - 1]);
                    }
                }
                lemma_start_of_line_update(a, b, l, l);
                lemma_start_of_line_update(a, b, l, a.len() as int);
            }
        } else {
            let mut cur = self.lines.remove(self.line);
            let tail = cur.split_off(self.col);
            self.lines.insert(self.line, cur);
            self.lines.insert(self.line + 1, tail);
            self.line = self.line + 1;
            self.col = 0;
            proof {
                let b = self.lines_view();
                assert(a[l].take(cx) =~= a[l].subrange(0, cx));
                assert(a[l].skip(cx) =~= a[l].subrange(cx, a[l].len() as int));
                assert(b =~~= a.update(l, a[l].take(cx)).insert(l + 1, a[l].skip(cx)));
                assert(forall|i: int| 0 <= i < l ==> a[i] == #[trigger] b[i]);
                assert(forall|i: int| l + 2 <= i < b.len() ==> #[trigger] b[i] == a[i - 1]);
                lemma_start_of_line_split(a, b, l, cx, l + 1);
                lemma_start_of_line_split(a, b, l, cx, b.len() as int);
            }
        }
    }

    /// Removes the character immediately before the point and moves the
    /// point back by one: within a line the character at `col - 1`, at a
    /// line start the newline, joining the line onto the previous one.  At
    /// the very start of the text it is a no-op, not an error.
    pub fn delete_char_before_point(&mut self)
        requires
            old(self).wf(),
        ensures
            final(self).wf(),
            final(self).path == old(self).path,
            final(self).filename == old(self).filename,
            old(self).col > 0 ==> final(self).lines_view() == old(self).lines_view().update(
                old(self).line as int,
                old(self).lines_view()[old(self).line as int].remove(old(self).col - 1),
            ) && final(self).line == old(self).line && final(self).col == old(self).col - 1,
            old(self).col == 0 && old(self).line > 0 ==> final(self).lines_view()
                == old(self).lines_view().update(
                old(self).line - 1,
                old(self).lines_view()[old(self).line - 1]
                    + old(self).lines_view()[old(self).line as int],
            ).remove(old(self).line as int) && final(self).line == old(self).line - 1
                && final(self).col == old(self).lines_view()[old(self).line - 1].len(),
            old(self).col == 0 && old(self).line == 0 ==> *final(self) == *old(self),
            old(self).point_view() > 0 ==> final(self).point_view() == old(self).point_view() - 1
                && content_len(final(self).lines_view()) == content_len(old(self).lines_view())
                - 1,
            old(self).point_view() == 0 ==> *final(self) == *old(self),
    {
        let ghost a = self.lines_view();
        let ghost l = self.line as int;
        let ghost cx = self.col as int;
        proof {
            lemma_start_of_line_mono(a, 0, l);
            lemma_start_of_line_lb(a, l);
        }
        if self.col > 0 {
            let mut cur = self.lines.remove(self.line);
            cur.remove(self.col - 1);
            self.lines.insert(self.line, cur);
            self.col = self.col - 1;
            proof {
                let b = self.lines_view();
                assert(b =~~= a.update(l, a[l].remove(cx - 1)));
                assert forall|j: int| 0 <= j < b[l].len() implies b[l][j] != '\n' by {
                    if j < cx - 1 {
                        assert(b[l][j] == a[l][j]);
                    } else {
                        assert(b[l][j] == a[l][j + 1]);
                    }
                }
                lemma_start_of_line_update(a, b, l, l);
                lemma_start_of_line_update(a, b, l, a.len() as int);
            }
        } else if self.line > 0 {
            let cur = self.lines.remove(self.line);
            let mut cur = cur;
            let mut prev = self.lines.remove(self.line - 1);
            self.col = prev.len();
            prev.append(&mut cur);
            self.lines.insert(self.line - 1, prev);
            self.line = self.line - 1;
            proof {
                let b = self.lines_view();
                assert(b =~~= a.update(l - 1, a[l - 1] + a[l]).remove(l));
                assert(no_newline(a[l - 1] + a[l]));
                assert(forall|i: int| 0 <= i < l - 1 ==> a[i] == #[trigger] b[i]);
                assert(forall|i: int| l <= i < b.len() ==> #[trigger] b[i] == a[i + 1]);
                lemma_start_of_line_join(a, b, l, l - 1);
                lemma_start_of_line_join(a, b, l, b.len() as int);
                assert(start_of_line(a, l) == start_of_line(a, l - 1) + a[l - 1].len() + 1);
            }
        }
    }
}

impl Buffer {
    /// The joined text of the lines `[from, to)` — the slice a renderer
    /// shows — with a newline between consecutive lines.  Empty when `from`
    /// is past the end; `to` clamps to the line count.
    pub fn slice_lines(&self, from: usize, to: usize) -> (r: Vec<char>)
        requires
            self.wf(),
        ensures
            r@ == slice_text(self.lines_view(), from as int, to as int),
    {
        let ghost lv = self.lines_view();
        let mut r: Vec<char> = Vec::new();
        let hi = if to < self.lines.len() {
            to
        } else {
            self.lines.len()
        };
        if from >= hi {
            return r;
        }
        let mut k: usize = from;
        while k < hi
            invariant
                self.wf(),
                lv == self.lines_view(),
                from <= k <= hi <= lv.len(),
                from < hi,
                r@ == join_text(lv.subrange(from as int, k as int)),
            decreases hi - k,
        {
            if k > from {
                r.push('\n');
            }
            let ghost before = r@;
            let n = self.lines[k].len();
            let mut j: usize = 0;
            while j < n
                invariant
                    self.wf(),
                    lv == self.lines_view(),
                    from <= k < lv.len(),
                    n == lv[k as int].len(),
                    0 <= j <= n,
                    r@ == before + lv[k as int].take(j as int),
                decreases n - j,
            {
                r.push(self.lines[k][j]);
                proof {
                    assert(lv[k as int].take(j + 1) =~= lv[k as int].take(j as int).push(
                        lv[k as int][j as int],
                    ));
                }
                j = j + 1;
            }
            proof {
                let sub = lv.subrange(from as int, k as int);
                lemma_join_text_push(sub, lv[k as int]);
                assert(sub.push(lv[k as int]) =~= lv.subrange(from as int, k + 1));
                assert(lv[k as int].take(n as int) =~= lv[k as int]);
                if k == from {
                    assert(r@ =~= join_text(lv.subrange(from as int, k + 1)));
                } else {
                    assert(r@ =~= join_text(sub) + seq!['\n'] + lv[k as int]);
                }
            }
            k = k + 1;
        }
        r
    }

    /// The whole document as one flat text, ready to be written to the
    /// backing file: the lines joined with single newlines, none at the
    /// end, `content_len` characters in all.
    pub fn save_text(&self) -> (r: Vec<char>)
        requires
            self.wf(),
        ensures
            r@ == join_text(self.lines_view()),
            r@.len() == content_len(self.lines_view()),
    {
        let r = self.slice_lines(0, self.lines.len());
        proof {
            assert(self.lines_view().subrange(0, self.lines_view().len() as int)
                =~= self.lines_view());
            crate::text::lemma_join_text_len(self.lines_view());
        }
        r
    }
}

/// The point of a well-formed buffer converts back to the cursor's own
/// place: in particular, after any `move_point_to` the line that
/// `line_col_of` reports for the point is always below `line_count`.
pub proof fn lemma_point_place_roundtrip(b: Buffer)
    requires
        b.wf(),
    ensures
        place_of_offset(b.lines_view(), b.point_view()) == (b.line as int, b.col as int),
        place_of_offset(b.lines_view(), b.point_view()).0 < b.lines_view().len(),
{
    crate::text::lemma_place_offset_roundtrip(b.lines_view(), b.line as int, b.col as int);
}

/// Everything inserting `c` at the point does: the character lands before
/// the cursor (a newline splitting the line there), the point advances by
/// one, and nothing else changes.
pub open spec fn insert_post(a: Buffer, b: Buffer, c: char) -> bool {
    &&& b.wf()
    &&& b.path == a.path
    &&& b.filename == a.filename
    &&& (c != '\n' ==> b.lines_view() == a.lines_view().update(
        a.line as int,
        a.lines_view()[a.line as int].insert(a.col as int, c),
    ) && b.line == a.line && b.col == a.col + 1)
    &&& (c == '\n' ==> b.lines_view() == a.lines_view().update(
        a.line as int,
        a.lines_view()[a.line as int].take(a.col as int),
    ).insert(a.line + 1, a.lines_view()[a.line as int].skip(a.col as int)) && b.line == a.line + 1
        && b.col == 0)
    &&& b.point_view() == a.point_view() + 1
    &&& content_len(b.lines_view()) == content_len(a.lines_view()) + 1
}

/// Everything removing the character before the point does: within a line
/// the character at `col - 1` goes, at a line start the newline goes and
/// the line joins the previous one, at the very start of the text nothing
/// happens; the point moves back by one whenever something went.
pub open spec fn delete_post(a: Buffer, b: Buffer) -> bool {
    &&& b.wf()
    &&& b.path == a.path
    &&& b.filename == a.filename
    &&& (a.col > 0 ==> b.lines_view() == a.lines_view().update(
        a.line as int,
        a.lines_view()[a.line as int].remove(a.col - 1),
    ) && b.line == a.line && b.col == a.col - 1)
    &&& (a.col == 0 && a.line > 0 ==> b.lines_view() == a.lines_view().update(
        a.line - 1,
        a.lines_view()[a.line - 1] + a.lines_view()[a.line as int],
    ).remove(a.line as int) && b.line == a.line - 1 && b.col == a.lines_view()[a.line - 1].len())
    &&& (a.col == 0 && a.line == 0 ==> b == a)
    &&& (a.point_view() > 0 ==> b.point_view() == a.point_view() - 1)
    &&& (a.point_view() == 0 ==> b == a)
}

/// Inserting at the point is insertion into the content: the joined text
/// afterwards is the joined text before with `c` inserted at the point's
/// flat offset — for the newline too, whose insertion splits a line.
pub proof fn lemma_insert_content(a: Buffer, b: Buffer, c: char)
    requires
        a.wf(),
        insert_post(a, b, c),
    ensures
        join_text(b.lines_view()) == join_text(a.lines_view()).insert(a.point_view(), c),
{
    let av = a.lines_view();
    let bv = b.lines_view();
    if c != '\n' {
        crate::text::lemma_join_insert_char(av, bv, a.line as int, a.col as int, c);
    } else {
        assert(forall|i: int| 0 <= i < a.line ==> av[i] == #[trigger] bv[i]);
        assert(forall|i: int| a.line + 2 <= i < bv.len() ==> #[trigger] bv[i] == av[i - 1]);
        crate::text::lemma_join_insert_newline(av, bv, a.line as int, a.col as int);
    }
}

/// Deleting before the point is removal from the content: the joined text
/// afterwards is the joined text before with the character at `point - 1`
/// removed — for a newline too, whose removal joins two lines.
pub proof fn lemma_delete_content(a: Buffer, b: Buffer)
    requires
        a.wf(),
        a.point_view() > 0,
        delete_post(a, b),
    ensures
        join_text(b.lines_view()) == join_text(a.lines_view()).remove(a.point_view() - 1),
{
    let av = a.lines_view();
    let bv = b.lines_view();
    let l = a.line as int;
    let cx = a.col as int;
    lemma_start_of_line_lb(av, l);
    if a.col > 0 {
        let ch = av[l][cx - 1];
        assert(bv[l].insert(cx - 1, ch) =~= av[l]) by {
            bv[l].insert_ensures(cx - 1, ch);
        }
        crate::text::lemma_join_insert_char(bv, av, l, cx - 1, ch);
        crate::text::lemma_start_of_line_update(bv, av, l, l);
        lemma_offset_at_in_content(bv, l, cx - 1);
        crate::text::lemma_join_text_len(bv);
        assert(join_text(av) == join_text(bv).insert(a.point_view() - 1, ch));
        assert(join_text(bv) =~= join_text(av).remove(a.point_view() - 1)) by {
            join_text(bv).insert_ensures(a.point_view() - 1, ch);
        }
    } else {
        let plen = av[l - 1].len() as int;
        assert(bv[l - 1].take(plen) =~= av[l - 1]);
        assert(bv[l - 1].skip(plen) =~= av[l]);
        assert(forall|i: int| 0 <= i < l - 1 ==> bv[i] == #[trigger] av[i]);
        assert(forall|i: int| l + 1 <= i < av.len() ==> #[trigger] av[i] == bv[i - 1]);
        crate::text::lemma_join_insert_newline(bv, av, l - 1, plen);
        lemma_offset_at_in_content(bv, l - 1, plen);
        crate::text::lemma_join_text_len(bv);
        assert(start_of_line(av, l) == start_of_line(av, l - 1) + plen + 1);
        assert(start_of_line(bv, l - 1) == start_of_line(av, l - 1)) by {
            crate::text::lemma_start_of_line_prefix_eq(av, bv, l - 1);
        }
        assert(join_text(av) == join_text(bv).insert(a.point_view() - 1, '\n'));
        assert(join_text(bv) =~= join_text(av).remove(a.point_view() - 1)) by {
            join_text(bv).insert_ensures(a.point_view() - 1, '\n');
        }
    }
}

/// The buffer after a pure cursor move: the text untouched, the cursor at
/// the given place.
pub open spec fn moved_to(a: Buffer, b: Buffer, p: (int, int)) -> bool {
    &&& b.wf()
    &&& b.same_doc(&a)
    &&& (b.line as int, b.col as int) == p
}

/// Everything one editing key does to a buffer: a character (or Tab)
/// inserts itself, Enter inserts a newline, Backspace deletes before the
/// point, the arrows move by one place, Home and End jump within the line,
/// and any other key changes nothing.  An insertion that would grow the
/// text past what a `usize` offset can address is dropped.
pub open spec fn edit_applied(a: Buffer, b: Buffer, key: Key) -> bool {
    match key {
        Key::Char(c) => if content_len(a.lines_view()) + 1 < usize::MAX {
            insert_post(a, b, c)
        } else {
            b == a
        },
        Key::Tab => if content_len(a.lines_view()) + 1 < usize::MAX {
            insert_post(a, b, '\t')
        } else {
            b == a
        },
        Key::Enter => if content_len(a.lines_view()) + 1 < usize::MAX {
            insert_post(a, b, '\n')
        } else {
            b == a
        },
        Key::Backspace => delete_post(a, b),
        Key::Left => moved_to(a, b, left_place(a.lines_view(), a.line as int, a.col as int)),
        Key::Right => moved_to(a, b, right_place(a.lines_view(), a.line as int, a.col as int)),
        Key::Up => moved_to(a, b, up_place(a.lines_view(), a.line as int, a.col as int)),
        Key::Down => moved_to(a, b, down_place(a.lines_view(), a.line as int, a.col as int)),
        Key::Home => moved_to(a, b, (a.line as int, 0int)),
        Key::End => moved_to(a, b, (a.line as int, a.lines_view()[a.line as int].len() as int)),
        Key::Esc => b == a,
    }
}

impl Buffer {
    /// Applies one editing key, as [`edit_applied`] describes: the normal
    /// editing path for every key the editor does not claim for itself.
    pub fn handle_edit_key(&mut self, key: Key)
        requires
            old(self).wf(),
        ensures
            final(self).wf(),
            edit_applied(*old(self), *final(self), key),
    {
        match key {
            Key::Char(c) => {
                if self.content_length() < usize::MAX - 1 {
                    self.insert_char(c);
                }
            },
            Key::Tab => {
                if self.content_length() < usize::MAX - 1 {
                    self.insert_char('\t');
                }
            },
            Key::Enter => {
                if self.content_length() < usize::MAX - 1 {
                    self.insert_char('\n');
                }
            },
            Key::Backspace => self.delete_char_before_point(),
            Key::Left => self.move_left(),
            Key::Right => self.move_right(),
            Key::Up => self.move_up(),
            Key::Down => self.move_down(),
            Key::Home => {
                let l = self.line;
                self.move_point_to(l, 0);
            },
            Key::End => {
                let l = self.line;
                let ll = self.lines[l].len();
                self.move_point_to(l, ll);
            },
            Key::Esc => {},
        }
    }
}

/// Splits a flat text into the lines a line-by-line reader yields from it
/// (a newline ends a line; a final newline does not open an empty last
/// line), an empty text becoming one empty line — the shape a buffer is
/// loaded from.
pub fn lines_from_text(text: &Vec<char>) -> (r: Vec<Vec<char>>)
    ensures
        r.deep_view() == loaded_lines(text@),
        wf_lines(r.deep_view()),
        content_len(r.deep_view()) <= text@.len(),
{
    let mut r: Vec<Vec<char>> = Vec::new();
    let mut i: usize = 0;
    proof {
        assert(text@.skip(0) =~= text@);
        assert(r.deep_view() =~= Seq::<Seq<char>>::empty());
    }
    while i < text.len()
        invariant
            0 <= i <= text@.len(),
            read_lines(text@) == r.deep_view() + read_lines(text@.skip(i as int)),
        decreases text@.len() - i,
    {
        let ghost r0 = r.deep_view();
        let mut j: usize = i;
        while j < text.len() && text[j] != '\n'
            invariant
                0 <= i <= j <= text@.len(),
                forall|m: int| i <= m < j ==> text@[m] != '\n',
            decreases text@.len() - j,
        {
            j = j + 1;
        }
        let mut line: Vec<char> = Vec::new();
        let mut m: usize = i;
        while m < j
            invariant
                i <= m <= j <= text@.len(),
                line@ == text@.subrange(i as int, m as int),
            decreases j - m,
        {
            line.push(text[m]);
            proof {
                assert(text@.subrange(i as int, m + 1) =~= text@.subrange(i as int, m as int).push(
                    text@[m as int],
                ));
            }
            m = m + 1;
        }
        let ghost rest = text@.skip(i as int);
        proof {
            assert(forall|mm: int| 0 <= mm < j - i ==> rest[mm] != '\n');
            lemma_first_newline_at(rest, j - i);
            assert(line@ =~= rest.take(j - i));
        }
        r.push(line);
        proof {
            assert(r.deep_view() =~~= r0.push(line@));
        }
        if j < text.len() {
            proof {
                assert(rest.skip(j - i + 1) =~= text@.skip(j + 1));
                assert(read_lines(rest) == seq![rest.take(j - i)] + read_lines(text@.skip(j + 1)));
                assert(r0.push(line@) + read_lines(text@.skip(j + 1)) =~= r0 + read_lines(rest));
            }
            i = j + 1;
        } else {
            proof {
                assert(read_lines(rest) == seq![rest]);
                assert(rest =~= line@);
                assert(text@.skip(text@.len() as int) =~= Seq::<char>::empty());
                assert(r0.push(line@) + read_lines(Seq::<char>::empty()) =~= r0 + read_lines(
                    rest,
                ));
            }
            i = j;
        }
    }
    proof {
        assert(text@.skip(text@.len() as int) =~= Seq::<char>::empty());
        assert(read_lines(text@) =~= r.deep_view());
        lemma_loaded_lines_wf(text@);
    }
    if r.len() == 0 {
        r.push(Vec::new());
        proof {
            assert(r.deep_view() =~~= seq![Seq::<char>::empty()]);
        }
    }
    r
}

impl Default for Buffer {
    /// An unsaved, empty buffer: one empty line, the cursor at its start.
    fn default() -> (r: Buffer)
        ensures
            r.wf(),
            r.lines_view() == seq![Seq::<char>::empty()],
            r.line == 0,
            r.col == 0,
            r.filename is None,
            r.path is None,
    {
        Buffer::new(Vec::new(), None)
    }
}

} // verus!
