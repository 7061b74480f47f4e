//! The text addressing model.
//!
//! A document is a sequence of lines, none of which contains a newline; the
//! newline characters sit between consecutive lines.  Every document has at
//! least one line, so the empty document is one empty line.  These spec
//! functions translate between the flat character offset of the cursor (the
//! "point") and its two-dimensional `(line, column)` place, define the four
//! cursor movements, and relate the joined text to the lines a reader yields
//! back from it.

use vstd::prelude::*;

verus! {

/// True when no character of `l` is a newline.
pub open spec fn no_newline(l: Seq<char>) -> bool {
    forall|j: int| 0 <= j < l.len() ==> l[j] != '\n'
}

/// Well-formed line structure: at least one line, none containing a newline.
pub open spec fn wf_lines(lines: Seq<Seq<char>>) -> bool {
    &&& lines.len() >= 1
    &&& forall|i: int| 0 <= i < lines.len() ==> no_newline(#[trigger] lines[i])
}

/// A valid cursor place: on an existing line, at or before its end
/// (the column may equal the line length, meaning "after the last character").
pub open spec fn valid_place(lines: Seq<Seq<char>>, l: int, c: int) -> bool {
    &&& 0 <= l < lines.len()
    &&& 0 <= c <= lines[l].len()
}

/// Flat offset of the start of line `l`: every earlier line contributes its
/// length plus one for the newline that ends it.
pub open spec fn start_of_line(lines: Seq<Seq<char>>, l: int) -> int
    decreases l,
{
    if l <= 0 {
        0
    } else {
        start_of_line(lines, l - 1) + lines[l - 1].len() + 1
    }
}

/// Length of the joined text: the last line has no newline after it.
pub open spec fn content_len(lines: Seq<Seq<char>>) -> int {
    start_of_line(lines, lines.len() as int) - 1
}

/// Flat offset of the place `(l, c)`, with the column clamped to the line
/// length rather than failing.
pub open spec fn offset_at(lines: Seq<Seq<char>>, l: int, c: int) -> int {
    start_of_line(lines, l) + vstd::math::min(c, lines[l].len() as int)
}

/// Walk from line `l` with `off` characters still to place: while the rest
/// does not fit on the current line, spend the line and its newline and move
/// on; on the last line the column is clamped to the line length.
pub open spec fn place_of_offset_from(lines: Seq<Seq<char>>, l: int, off: int) -> (int, int)
    decreases lines.len() - l,
{
    if l >= lines.len() - 1 || off <= lines[l].len() {
        (l, vstd::math::min(off, lines[l].len() as int))
    } else {
        place_of_offset_from(lines, l + 1, off - lines[l].len() - 1)
    }
}

/// The `(line, column)` place of flat offset `off`.
pub open spec fn place_of_offset(lines: Seq<Seq<char>>, off: int) -> (int, int) {
    place_of_offset_from(lines, 0, off)
}

/// One place left: back a column, or to the end of the previous line, or
/// stay put at the very start of the text.
pub open spec fn left_place(lines: Seq<Seq<char>>, l: int, c: int) -> (int, int) {
    if c > 0 {
        (l, c - 1)
    } else if l > 0 {
        (l - 1, lines[l - 1].len() as int)
    } else {
        (l, c)
    }
}

/// One place right: forward a column, or to the start of the next line, or
/// stay put at the very end of the text.
pub open spec fn right_place(lines: Seq<Seq<char>>, l: int, c: int) -> (int, int) {
    if c < lines[l].len() {
        (l, c + 1)
    } else if l + 1 < lines.len() {
        (l + 1, 0)
    } else {
        (l, c)
    }
}

/// One line up, the column clamped to the target line's length; a no-op on
/// the first line.
pub open spec fn up_place(lines: Seq<Seq<char>>, l: int, c: int) -> (int, int) {
    if l > 0 {
        (l - 1, vstd::math::min(c, lines[l - 1].len() as int))
    } else {
        (l, c)
    }
}

/// One line down, the column clamped to the target line's length; a no-op on
/// the last line.
pub open spec fn down_place(lines: Seq<Seq<char>>, l: int, c: int) -> (int, int) {
    if l + 1 < lines.len() {
        (l + 1, vstd::math::min(c, lines[l + 1].len() as int))
    } else {
        (l, c)
    }
}

/// Line starts never decrease, and line `l` ends (newline included) where
/// line `l + 1` starts.
pub proof fn lemma_start_of_line_mono(lines: Seq<Seq<char>>, j: int, l: int)
    requires
        0 <= j <= l,
    ensures
        start_of_line(lines, j) <= start_of_line(lines, l),
    decreases l - j,
{
    if j < l {
        lemma_start_of_line_mono(lines, j, l - 1);
    }
}

/// Each line start is at least its line index: every earlier line takes at
/// least one character of room.
pub proof fn lemma_start_of_line_lb(lines: Seq<Seq<char>>, l: int)
    requires
        0 <= l,
    ensures
        start_of_line(lines, l) >= l,
    decreases l,
{
    if l > 0 {
        lemma_start_of_line_lb(lines, l - 1);
    }
}

/// Every offset of a valid place lies within the joined text.
pub proof fn lemma_offset_at_in_content(lines: Seq<Seq<char>>, l: int, c: int)
    requires
        lines.len() >= 1,
        0 <= l < lines.len(),
        0 <= c,
    ensures
        0 <= offset_at(lines, l, c) <= content_len(lines),
    decreases lines.len() - l,
{
    lemma_start_of_line_mono(lines, 0, l);
    lemma_start_of_line_mono(lines, l + 1, lines.len() as int);
}

/// Walking an offset out always lands on a valid place at or after the
/// starting line.
pub proof fn lemma_place_of_offset_from_valid(lines: Seq<Seq<char>>, l: int, off: int)
    requires
        0 <= l < lines.len(),
        0 <= off,
    ensures
        ({
            let (l2, c2) = place_of_offset_from(lines, l, off);
            l <= l2 < lines.len() && 0 <= c2 <= lines[l2].len()
        }),
    decreases lines.len() - l,
{
    if !(l >= lines.len() - 1 || off <= lines[l].len()) {
        lemma_place_of_offset_from_valid(lines, l + 1, off - lines[l].len() - 1);
    }
}

/// Walking out the offset of a valid place recovers exactly that place:
/// the two coordinate systems are inverse to each other.
pub proof fn lemma_place_of_offset_from_inverse(lines: Seq<Seq<char>>, j: int, l: int, c: int)
    requires
        0 <= j <= l < lines.len(),
        0 <= c <= lines[l].len(),
    ensures
        place_of_offset_from(lines, j, start_of_line(lines, l) - start_of_line(lines, j) + c)
            == (l, c),
    decreases l - j,
{
    if j == l {
    } else {
        lemma_start_of_line_mono(lines, j + 1, l);
        lemma_place_of_offset_from_inverse(lines, j + 1, l, c);
    }
}

/// Clamp idempotence: converting a place to its flat offset and back yields
/// the same line and the column clamped to that line's length.
pub proof fn lemma_place_offset_roundtrip(lines: Seq<Seq<char>>, l: int, c: int)
    requires
        0 <= l < lines.len(),
        0 <= c,
    ensures
        place_of_offset(lines, offset_at(lines, l, c))
            == (l, vstd::math::min(c, lines[l].len() as int)),
{
    lemma_place_of_offset_from_inverse(lines, 0, l, vstd::math::min(c, lines[l].len() as int));
}

/// A line start depends only on the lengths of the lines before it.
pub proof fn lemma_start_of_line_prefix_eq(a: Seq<Seq<char>>, b: Seq<Seq<char>>, k: int)
    requires
        0 <= k <= a.len(),
        k <= b.len(),
        forall|i: int| 0 <= i < k ==> a[i].len() == #[trigger] b[i].len(),
    ensures
        start_of_line(a, k) == start_of_line(b, k),
    decreases k,
{
    if k > 0 {
        lemma_start_of_line_prefix_eq(a, b, k - 1);
    }
}

/// Dropping the first line shifts every later line start back by that line
/// and its newline.
pub proof fn lemma_start_of_line_drop_first(lines: Seq<Seq<char>>, k: int)
    requires
        lines.len() >= 1,
        0 <= k <= lines.len() - 1,
    ensures
        start_of_line(lines, k + 1) == lines[0].len() + 1 + start_of_line(lines.drop_first(), k),
    decreases k,
{
    if k == 0 {
        assert(start_of_line(lines, 0) == 0);
        assert(start_of_line(lines.drop_first(), 0) == 0);
    } else {
        lemma_start_of_line_drop_first(lines, k - 1);
        assert(lines.drop_first()[k - 1] == lines[k]);
        assert(start_of_line(lines, k + 1) == start_of_line(lines, k) + lines[k].len() + 1);
        assert(start_of_line(lines.drop_first(), k)
            == start_of_line(lines.drop_first(), k - 1) + lines.drop_first()[k - 1].len() + 1);
    }
}

/// The joined text is exactly `content_len` characters long.
pub proof fn lemma_join_text_len(lines: Seq<Seq<char>>)
    requires
        lines.len() >= 1,
    ensures
        join_text(lines).len() == content_len(lines),
    decreases lines.len(),
{
    if lines.len() == 1 {
        assert(start_of_line(lines, 0) == 0);
        assert(start_of_line(lines, 1) == lines[0].len() + 1);
    } else {
        lemma_join_text_len(lines.drop_first());
        lemma_start_of_line_drop_first(lines, lines.len() - 1);
        assert(join_text(lines).len() == lines[0].len() + 1 + join_text(lines.drop_first()).len());
    }
}

/// Joining one more line appends a newline and that line.
pub proof fn lemma_join_text_push(lines: Seq<Seq<char>>, x: Seq<char>)
    ensures
        lines.len() == 0 ==> join_text(lines.push(x)) == x,
        lines.len() >= 1 ==> join_text(lines.push(x)) == join_text(lines) + seq!['\n'] + x,
    decreases lines.len(),
{
    let p = lines.push(x);
    if lines.len() == 0 {
        assert(p[0] == x);
        assert(join_text(p) == x);
    } else if lines.len() == 1 {
        assert(p.drop_first() =~= seq![x]);
        assert(join_text(p.drop_first()) == x);
        assert(join_text(p) == lines[0] + seq!['\n'] + x);
        assert(join_text(lines) == lines[0]);
    } else {
        lemma_join_text_push(lines.drop_first(), x);
        assert(p.drop_first() =~= lines.drop_first().push(x));
        assert(join_text(p) == p[0] + seq!['\n'] + join_text(lines.drop_first().push(x)));
        assert(join_text(lines) + seq!['\n'] + x
            == lines[0] + seq!['\n'] + (join_text(lines.drop_first()) + seq!['\n'] + x)) by {
            assert((lines[0] + seq!['\n'] + join_text(lines.drop_first())) + seq!['\n'] + x
                =~= lines[0] + seq!['\n'] + (join_text(lines.drop_first()) + seq!['\n'] + x));
        }
    }
}

/// The first newline is at `k` exactly when everything before `k` is not a
/// newline and `k` is a newline or the end of the text.
pub proof fn lemma_first_newline_at(text: Seq<char>, k: int)
    requires
        0 <= k <= text.len(),
        forall|m: int| 0 <= m < k ==> text[m] != '\n',
        k < text.len() ==> text[k] == '\n',
    ensures
        first_newline(text) == k,
    decreases k,
{
    if k > 0 {
        assert(forall|m: int| 0 <= m < k - 1 ==> text.drop_first()[m] != '\n');
        lemma_first_newline_at(text.drop_first(), k - 1);
    }
}

/// Replacing one line shifts the starts of all later lines by the change in
/// its length, and leaves earlier starts alone.
pub proof fn lemma_start_of_line_update(a: Seq<Seq<char>>, b: Seq<Seq<char>>, l: int, k: int)
    requires
        a.len() == b.len(),
        0 <= l < a.len(),
        forall|i: int| 0 <= i < a.len() && i != l ==> a[i] == #[trigger] b[i],
        0 <= k <= a.len(),
    ensures
        k <= l ==> start_of_line(b, k) == start_of_line(a, k),
        k > l ==> start_of_line(b, k) == start_of_line(a, k) + b[l].len() - a[l].len(),
    decreases k,
{
    if k > 0 {
        lemma_start_of_line_update(a, b, l, k - 1);
    }
}

/// Splitting line `l` at column `c` into two lines leaves every line start
/// up to `l` alone, puts the new line's start right after the split, and
/// shifts all later starts up by one (for the new newline).
pub proof fn lemma_start_of_line_split(a: Seq<Seq<char>>, b: Seq<Seq<char>>, l: int, c: int, k: int)
    requires
        0 <= l < a.len(),
        0 <= c <= a[l].len(),
        b.len() == a.len() + 1,
        forall|i: int| 0 <= i < l ==> a[i] == #[trigger] b[i],
        b[l] == a[l].take(c),
        b[l + 1] == a[l].skip(c),
        forall|i: int| l + 2 <= i < b.len() ==> #[trigger] b[i] == a[i - 1],
        0 <= k <= b.len(),
    ensures
        k <= l ==> start_of_line(b, k) == start_of_line(a, k),
        k == l + 1 ==> start_of_line(b, k) == start_of_line(a, l) + c + 1,
        k > l + 1 ==> start_of_line(b, k) == start_of_line(a, k - 1) + 1,
    decreases k,
{
    if k > 0 {
        lemma_start_of_line_split(a, b, l, c, k - 1);
    }
}

/// Joining line `l` onto the end of line `l - 1` leaves every line start
/// before `l` alone and shifts all later starts down by one (for the
/// removed newline).
pub proof fn lemma_start_of_line_join(a: Seq<Seq<char>>, b: Seq<Seq<char>>, l: int, k: int)
    requires
        1 <= l < a.len(),
        b.len() == a.len() - 1,
        forall|i: int| 0 <= i < l - 1 ==> a[i] == #[trigger] b[i],
        b[l - 1] == a[l - 1] + a[l],
        forall|i: int| l <= i < b.len() ==> #[trigger] b[i] == a[i + 1],
        0 <= k <= b.len(),
    ensures
        k <= l - 1 ==> start_of_line(b, k) == start_of_line(a, k),
        k >= l ==> start_of_line(b, k) == start_of_line(a, k + 1) - 1,
    decreases k,
{
    if k > 0 {
        lemma_start_of_line_join(a, b, l, k - 1);
        if k == l {
            assert(start_of_line(a, l + 1) == start_of_line(a, l) + a[l].len() + 1);
            assert(start_of_line(a, l) == start_of_line(a, l - 1) + a[l - 1].len() + 1);
            assert(start_of_line(b, l) == start_of_line(b, l - 1) + b[l - 1].len() + 1);
        }
    }
}

/// Moving left and then right from any place after the start of the text
/// returns to the same place, and so to the same flat offset — also across a
/// line boundary.
pub proof fn lemma_left_then_right(lines: Seq<Seq<char>>, l: int, c: int)
    requires
        wf_lines(lines),
        valid_place(lines, l, c),
        offset_at(lines, l, c) > 0,
    ensures
        ({
            let (l1, c1) = left_place(lines, l, c);
            right_place(lines, l1, c1) == (l, c)
        }),
{
    if c == 0 && l > 0 {
        lemma_start_of_line_mono(lines, 0, l);
    }
}

/// Moving right and then left from any place before the end of the text
/// returns to the same place, and so to the same flat offset — also across a
/// line boundary.
pub proof fn lemma_right_then_left(lines: Seq<Seq<char>>, l: int, c: int)
    requires
        wf_lines(lines),
        valid_place(lines, l, c),
        offset_at(lines, l, c) < content_len(lines),
    ensures
        ({
            let (l1, c1) = right_place(lines, l, c);
            left_place(lines, l1, c1) == (l, c)
        }),
{
    if c == lines[l].len() && l + 1 >= lines.len() {
        lemma_start_of_line_mono(lines, l + 1, lines.len() as int);
    }
}

/// Moving down clamps the column to the target line's length, and moving
/// back up returns to the original line at a column no greater than the
/// original one: there is no remembered "sticky" column.
pub proof fn lemma_down_then_up(lines: Seq<Seq<char>>, l: int, c: int)
    requires
        wf_lines(lines),
        valid_place(lines, l, c),
        l + 1 < lines.len(),
    ensures
        down_place(lines, l, c) == (l + 1, vstd::math::min(c, lines[l + 1].len() as int)),
        ({
            let (l1, c1) = down_place(lines, l, c);
            let (l2, c2) = up_place(lines, l1, c1);
            l2 == l && 0 <= c2 <= c
        }),
{
}

/// The lines joined into one text, a newline between consecutive lines.
pub open spec fn join_text(lines: Seq<Seq<char>>) -> Seq<char>
    decreases lines.len(),
{
    if lines.len() == 0 {
        Seq::empty()
    } else if lines.len() == 1 {
        lines[0]
    } else {
        lines[0] + seq!['\n'] + join_text(lines.drop_first())
    }
}

/// Inserting within the left part of a concatenation.
proof fn lemma_insert_concat_left(x: Seq<char>, y: Seq<char>, i: int, v: char)
    requires
        0 <= i <= x.len(),
    ensures
        (x + y).insert(i, v) == x.insert(i, v) + y,
{
    assert((x + y).insert(i, v) =~= x.insert(i, v) + y);
}

/// Inserting within the right part of a concatenation.
proof fn lemma_insert_concat_right(x: Seq<char>, y: Seq<char>, j: int, v: char)
    requires
        0 <= j <= y.len(),
    ensures
        (x + y).insert(x.len() + j, v) == x + y.insert(j, v),
{
    assert((x + y).insert(x.len() + j, v) =~= x + y.insert(j, v));
}

/// Inserting a character into line `l` at column `c` inserts it into the
/// joined text at that place's flat offset.
pub proof fn lemma_join_insert_char(a: Seq<Seq<char>>, b: Seq<Seq<char>>, l: int, c: int, ch: char)
    requires
        a.len() >= 1,
        0 <= l < a.len(),
        0 <= c <= a[l].len(),
        b.len() == a.len(),
        b[l] == a[l].insert(c, ch),
        forall|i: int| 0 <= i < a.len() && i != l ==> a[i] == #[trigger] b[i],
    ensures
        join_text(b) == join_text(a).insert(start_of_line(a, l) + c, ch),
    decreases l,
{
    if l == 0 {
        if a.len() == 1 {
            assert(join_text(b) == b[0]);
            assert(join_text(a).insert(c, ch) == a[0].insert(c, ch));
        } else {
            assert(b.drop_first() =~= a.drop_first());
            let tail = seq!['\n'] + join_text(a.drop_first());
            assert(join_text(a) =~= a[0] + tail);
            lemma_insert_concat_left(a[0], tail, c, ch);
            assert(join_text(b) =~= b[0] + tail);
        }
    } else {
        let ra = a.drop_first();
        let rb = b.drop_first();
        assert(forall|i: int|
            0 <= i < ra.len() && i != l - 1 ==> ra[i] == #[trigger] rb[i]);
        assert(rb[l - 1] == ra[l - 1].insert(c, ch));
        lemma_join_insert_char(ra, rb, l - 1, c, ch);
        lemma_start_of_line_drop_first(a, l - 1);
        lemma_offset_at_in_content(ra, l - 1, c);
        lemma_join_text_len(ra);
        let head = a[0] + seq!['\n'];
        lemma_insert_concat_right(head, join_text(ra), start_of_line(ra, l - 1) + c, ch);
        assert(join_text(a) =~= head + join_text(ra));
        assert(join_text(b) =~= head + join_text(rb));
        assert(join_text(b) =~= (head + join_text(ra)).insert(
            head.len() + start_of_line(ra, l - 1) + c,
            ch,
        ));
    }
}

/// Splitting line `l` at column `c` into two lines inserts a newline into
/// the joined text at that place's flat offset.
pub proof fn lemma_join_insert_newline(a: Seq<Seq<char>>, b: Seq<Seq<char>>, l: int, c: int)
    requires
        a.len() >= 1,
        0 <= l < a.len(),
        0 <= c <= a[l].len(),
        b.len() == a.len() + 1,
        forall|i: int| 0 <= i < l ==> a[i] == #[trigger] b[i],
        b[l] == a[l].take(c),
        b[l + 1] == a[l].skip(c),
        forall|i: int| l + 2 <= i < b.len() ==> #[trigger] b[i] == a[i - 1],
    ensures
        join_text(b) == join_text(a).insert(start_of_line(a, l) + c, '\n'),
    decreases l,
{
    if l == 0 {
        assert(a[0] =~= a[0].take(c) + a[0].skip(c));
        a[0].insert_ensures(c, '\n');
        assert(a[0].insert(c, '\n') =~= a[0].take(c) + seq!['\n'] + a[0].skip(c));
        if a.len() == 1 {
            assert(b =~= seq![a[0].take(c), a[0].skip(c)]);
            assert(b.drop_first() =~= seq![a[0].skip(c)]);
            assert(join_text(b.drop_first()) == a[0].skip(c));
            assert(join_text(b) =~= a[0].take(c) + seq!['\n'] + a[0].skip(c));
            assert(join_text(a).insert(c, '\n') == a[0].insert(c, '\n'));
        } else {
            let t = b.drop_first();
            assert(t.drop_first() =~= a.drop_first());
            assert(t[0] == a[0].skip(c));
            let rest = seq!['\n'] + join_text(a.drop_first());
            assert(join_text(t) =~= a[0].skip(c) + rest);
            assert(join_text(b) =~= a[0].take(c) + (seq!['\n'] + (a[0].skip(c) + rest)));
            assert(join_text(a) =~= a[0] + rest);
            lemma_insert_concat_left(a[0], rest, c, '\n');
            assert(join_text(a).insert(c, '\n') =~= a[0].insert(c, '\n') + rest);
            assert(a[0].insert(c, '\n') + rest =~= a[0].take(c) + (seq!['\n'] + (a[0].skip(c)
                + rest)));
        }
    } else {
        let ra = a.drop_first();
        let rb = b.drop_first();
        assert(forall|i: int| 0 <= i < l - 1 ==> ra[i] == #[trigger] rb[i]);
        assert(rb[l - 1] == ra[l - 1].take(c));
        assert(rb[l] == ra[l - 1].skip(c));
        assert(forall|i: int| l + 1 <= i < rb.len() ==> #[trigger] rb[i] == ra[i - 1]);
        lemma_join_insert_newline(ra, rb, l - 1, c);
        lemma_start_of_line_drop_first(a, l - 1);
        lemma_offset_at_in_content(ra, l - 1, c);
        lemma_join_text_len(ra);
        let head = a[0] + seq!['\n'];
        lemma_insert_concat_right(head, join_text(ra), start_of_line(ra, l - 1) + c, '\n');
        assert(join_text(a) =~= head + join_text(ra));
        assert(join_text(b) =~= head + join_text(rb));
        assert(join_text(b) =~= (head + join_text(ra)).insert(
            head.len() + start_of_line(ra, l - 1) + c,
            '\n',
        ));
    }
}

/// Index of the first newline of `text`, or its length if there is none.
pub open spec fn first_newline(text: Seq<char>) -> int
    decreases text.len(),
{
    if text.len() == 0 {
        0
    } else if text[0] == '\n' {
        0
    } else {
        1 + first_newline(text.drop_first())
    }
}

/// `first_newline` points into the text (or just past it), at the first
/// newline if there is one.
pub proof fn lemma_first_newline_bounds(text: Seq<char>)
    ensures
        0 <= first_newline(text) <= text.len(),
        first_newline(text) < text.len() ==> text[first_newline(text)] == '\n',
        forall|j: int| 0 <= j < first_newline(text) ==> text[j] != '\n',
    decreases text.len(),
{
    if text.len() != 0 && text[0] != '\n' {
        lemma_first_newline_bounds(text.drop_first());
        assert forall|j: int| 0 <= j < first_newline(text) implies text[j] != '\n' by {
            if j > 0 {
                assert(text.drop_first()[j - 1] != '\n');
            }
        }
    }
}

/// The lines a line-by-line reader yields from `text`: each newline ends a
/// line, and a final newline does not start a last, empty one.  Empty text
/// yields no lines at all.
pub open spec fn read_lines(text: Seq<char>) -> Seq<Seq<char>>
    decreases text.len(),
    via read_lines_decreases
{
    if text.len() == 0 {
        Seq::empty()
    } else {
        let k = first_newline(text);
        if k >= text.len() {
            seq![text]
        } else {
            seq![text.take(k)] + read_lines(text.skip(k + 1))
        }
    }
}

#[via_fn]
proof fn read_lines_decreases(text: Seq<char>) {
    lemma_first_newline_bounds(text);
}

/// Text without a newline is all one line.
proof fn lemma_first_newline_none(text: Seq<char>)
    requires
        no_newline(text),
    ensures
        first_newline(text) == text.len(),
    decreases text.len(),
{
    if text.len() != 0 {
        lemma_first_newline_none(text.drop_first());
    }
}

/// The first newline after a newline-free prefix is the one appended to it.
proof fn lemma_first_newline_concat(a: Seq<char>, rest: Seq<char>)
    requires
        no_newline(a),
    ensures
        first_newline(a + seq!['\n'] + rest) == a.len(),
    decreases a.len(),
{
    let text = a + seq!['\n'] + rest;
    if a.len() == 0 {
        assert(text[0] == '\n');
    } else {
        assert(text[0] == a[0]);
        lemma_first_newline_concat(a.drop_first(), rest);
        assert(text.drop_first() =~= a.drop_first() + seq!['\n'] + rest);
    }
}

/// Reading back joined lines yields the lines again, as long as the last
/// line is not empty (a trailing newline would be indistinguishable from an
/// empty final line).
proof fn lemma_read_join(lines: Seq<Seq<char>>)
    requires
        wf_lines(lines),
        lines.last().len() > 0,
    ensures
        read_lines(join_text(lines)) == lines,
    decreases lines.len(),
{
    let text = join_text(lines);
    if lines.len() == 1 {
        lemma_first_newline_none(text);
        assert(read_lines(text) =~= lines);
    } else {
        let rest = lines.drop_first();
        lemma_first_newline_concat(lines[0], join_text(rest));
        let k = first_newline(text);
        assert(text.take(k) =~= lines[0]);
        assert(text.skip(k + 1) =~= join_text(rest));
        assert(wf_lines(rest)) by {
            assert(forall|i: int|
                0 <= i < rest.len() ==> #[trigger] rest[i] == lines[i + 1]);
        }
        lemma_read_join(rest);
        assert(read_lines(text) =~= lines);
    }
}

/// The round trip through the backing store: saving a buffer writes its
/// joined lines, and loading that text yields the very same lines — for
/// every document free of the trailing-newline ambiguity (the last line not
/// empty, or the document a single empty line).
pub proof fn lemma_save_load_roundtrip(lines: Seq<Seq<char>>)
    requires
        wf_lines(lines),
        lines.last().len() > 0 || lines =~= seq![Seq::<char>::empty()],
    ensures
        loaded_lines(join_text(lines)) == lines,
{
    if lines.last().len() > 0 {
        lemma_read_join(lines);
    } else {
        assert(join_text(lines).len() == 0);
        assert(loaded_lines(join_text(lines)) =~= lines);
    }
}

/// What loading `text` produces: the lines read from it, except that empty
/// text loads as a single empty line.
pub open spec fn loaded_lines(text: Seq<char>) -> Seq<Seq<char>> {
    if read_lines(text).len() == 0 {
        seq![Seq::<char>::empty()]
    } else {
        read_lines(text)
    }
}

/// The joined text of the lines `[from, to)`: empty when the range is empty
/// or starts past the end, the upper bound clamped to the line count.
pub open spec fn slice_text(lines: Seq<Seq<char>>, from: int, to: int) -> Seq<char> {
    let hi = vstd::math::min(to, lines.len() as int);
    if 0 <= from < hi {
        join_text(lines.subrange(from, hi))
    } else {
        Seq::empty()
    }
}

/// The lines read from a text contain no newlines, and joined back they are
/// no longer than the text they came from.
pub proof fn lemma_read_lines_wf(text: Seq<char>)
    ensures
        read_lines(text).len() >= 1 <==> text.len() >= 1,
        forall|i: int|
            0 <= i < read_lines(text).len() ==> no_newline(#[trigger] read_lines(text)[i]),
        text.len() >= 1 ==> content_len(read_lines(text)) <= text.len(),
    decreases text.len(),
{
    if text.len() != 0 {
        lemma_first_newline_bounds(text);
        let k = first_newline(text);
        let r = read_lines(text);
        if k >= text.len() {
            assert(r =~= seq![text]);
            assert(start_of_line(r, 1) == start_of_line(r, 0) + text.len() + 1);
        } else {
            let rest = text.skip(k + 1);
            lemma_read_lines_wf(rest);
            let sub = read_lines(rest);
            assert(r == seq![text.take(k)] + sub);
            assert(no_newline(text.take(k)));
            assert(forall|i: int| 1 <= i < r.len() ==> r[i] == sub[i - 1]);
            if sub.len() == 0 {
                assert(r =~= seq![text.take(k)]);
                assert(start_of_line(r, 1) == start_of_line(r, 0) + k + 1);
            } else {
                assert(r.drop_first() =~= sub);
                lemma_start_of_line_drop_first(r, sub.len() as int);
                assert(content_len(r) == k + 1 + content_len(sub));
            }
        }
    }
}

/// What a load yields is a well-formed document no longer than the text it
/// was read from.
pub proof fn lemma_loaded_lines_wf(text: Seq<char>)
    ensures
        wf_lines(loaded_lines(text)),
        content_len(loaded_lines(text)) <= text.len(),
{
    lemma_read_lines_wf(text);
    if read_lines(text).len() == 0 {
        let one = seq![Seq::<char>::empty()];
        assert(start_of_line(one, 1) == start_of_line(one, 0) + 1);
    }
}

} // verus!
