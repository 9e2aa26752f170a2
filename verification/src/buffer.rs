//! The text of one document, addressed by line and column.

use crate::error::EditorError;
use crate::text::{are_lines, is_line, lines_of, rows, text_of};
use crate::text::{join_lines, lemma_join_of_split, lemma_lines_of_shape, lemma_single_line};
use crate::text::{lemma_split_of_join, split_lines};
use vstd::prelude::*;

verus! {

/// A place in a buffer: column `x` of line `y`, both counted from zero.
/// Column `x` may equal the line's length, which is the place behind its
/// last character.
#[derive(Clone, Copy, Debug, PartialEq, Eq, Structural)]
pub struct Position {
    pub x: usize,
    pub y: usize,
}

/// The text from `start` up to, but not including, `end`.
#[derive(Clone, Copy, Debug, PartialEq, Eq, Structural)]
pub struct Span {
    pub start: Position,
    pub end: Position,
}

/// The lines `start..end`.
#[derive(Clone, Copy, Debug, PartialEq, Eq, Structural)]
pub struct LineRange {
    pub start: usize,
    pub end: usize,
}

/// What an edit did: the lines it touched and the place where it ended.
#[derive(Clone, Copy, Debug, PartialEq, Eq, Structural)]
pub struct Edit {
    /// The lines that have to be looked at again. Every line outside this
    /// range is what it was before the edit.
    pub affected: LineRange,
    /// Behind the inserted text, or where the deleted text began.
    pub cursor: Position,
}

/// Column `x` of line `y` is a place in `lines`.
pub open spec fn holds(lines: Seq<Seq<char>>, x: int, y: int) -> bool {
    0 <= y < lines.len() && 0 <= x <= lines[y].len()
}

/// Place `(ax, ay)` is not behind place `(bx, by)`.
pub open spec fn at_or_before(ax: int, ay: int, bx: int, by: int) -> bool {
    ay < by || (ay == by && ax <= bx)
}

/// The lines `parts`, with `head` in front of the first and `tail` behind
/// the last of them.
pub open spec fn splice(head: Seq<char>, parts: Seq<Seq<char>>, tail: Seq<char>) -> Seq<
    Seq<char>,
> {
    let first = parts.update(0, head + parts[0]);
    first.update(first.len() - 1, first.last() + tail)
}

/// `lines` after `text` was inserted at column `x` of line `y`: the line is
/// cut at `x`, and the lines of `text` are set between the two halves.
pub open spec fn inserted(lines: Seq<Seq<char>>, x: int, y: int, text: Seq<char>) -> Seq<
    Seq<char>,
> {
    lines.subrange(0, y) + splice(
        lines[y].subrange(0, x),
        lines_of(text),
        lines[y].subrange(x, lines[y].len() as int),
    ) + lines.subrange(y + 1, lines.len() as int)
}

/// The place behind a text that was inserted at column `x` of line `y`.
pub open spec fn insert_end(x: int, y: int, text: Seq<char>) -> (int, int) {
    let parts = lines_of(text);
    if parts.len() == 1 {
        (x + parts[0].len(), y)
    } else {
        (parts.last().len() as int, y + parts.len() - 1)
    }
}

/// The lines an insertion touches: none for an empty text, the one line for
/// a text without a newline, and otherwise every line from `y` on, since
/// the lines below move down.
pub open spec fn insert_affected(lines: Seq<Seq<char>>, y: int, text: Seq<char>) -> (int, int) {
    if text.len() == 0 {
        (y, y)
    } else if lines_of(text).len() == 1 {
        (y, y + 1)
    } else {
        (y, lines.len() + lines_of(text).len() - 1)
    }
}

/// `lines` after the text from `(sx, sy)` up to `(ex, ey)` was deleted: what
/// stood before the start and what stands from the end on become one line.
pub open spec fn removed(lines: Seq<Seq<char>>, sx: int, sy: int, ex: int, ey: int) -> Seq<
    Seq<char>,
> {
    lines.subrange(0, sy) + seq![
        lines[sy].subrange(0, sx) + lines[ey].subrange(ex, lines[ey].len() as int),
    ] + lines.subrange(ey + 1, lines.len() as int)
}

/// The lines a deletion touches: none for an empty span, the one line for a
/// span within a line, and otherwise every line from `sy` on, since the
/// lines below move up.
pub open spec fn remove_affected(lines: Seq<Seq<char>>, sx: int, sy: int, ex: int, ey: int) -> (
    int,
    int,
) {
    if sy == ey && sx == ex {
        (sy, sy)
    } else if sy == ey {
        (sy, sy + 1)
    } else {
        (sy, lines.len() as int)
    }
}

impl Position {
    /// This place lies in `lines`.
    pub open spec fn within(self, lines: Seq<Seq<char>>) -> bool {
        holds(lines, self.x as int, self.y as int)
    }

    /// This place is not behind `other`.
    pub open spec fn not_behind(self, other: Position) -> bool {
        at_or_before(self.x as int, self.y as int, other.x as int, other.y as int)
    }

    /// Whether this place is not behind `other`.
    pub fn at_or_before(self, other: Position) -> (r: bool)
        ensures
            r == self.not_behind(other),
    {
        self.y < other.y || (self.y == other.y && self.x <= other.x)
    }
}

impl Span {
    /// Both ends lie in `lines`, and the start is not behind the end.
    pub open spec fn within(self, lines: Seq<Seq<char>>) -> bool {
        self.start.within(lines) && self.end.within(lines) && self.start.not_behind(self.end)
    }

    /// The span between two places, whichever of them comes first.
    pub fn between(a: Position, b: Position) -> (r: Span)
        ensures
            r.start.not_behind(r.end),
            (r.start == a && r.end == b) || (r.start == b && r.end == a),
            a.not_behind(b) ==> r.start == a && r.end == b,
    {
        if a.at_or_before(b) {
            Span { start: a, end: b }
        } else {
            Span { start: b, end: a }
        }
    }
}

impl LineRange {
    /// Line `y` is one of the range.
    pub open spec fn has(self, y: int) -> bool {
        self.start <= y < self.end
    }

    /// Whether line `y` is one of the range.
    pub fn contains(self, y: usize) -> (r: bool)
        ensures
            r == self.has(y as int),
    {
        self.start <= y && y < self.end
    }

    /// Whether the range holds no line.
    pub fn is_empty(self) -> (r: bool)
        ensures
            r == (self.start >= self.end),
    {
        self.start >= self.end
    }
}

/// The text of one document: one or more lines, none of which holds a
/// newline character.
#[derive(Debug)]
pub struct Buffer {
    lines: Vec<Vec<char>>,
}

impl View for Buffer {
    type V = Seq<Seq<char>>;

    closed spec fn view(&self) -> Seq<Seq<char>> {
        rows(self.lines@)
    }
}

impl Buffer {
    /// A buffer always has a line, and no line holds a newline.
    pub open spec fn wf(&self) -> bool {
        self@.len() >= 1 && are_lines(self@)
    }

    /// The number of lines and the length of each line are machine sizes.
    pub proof fn lemma_lengths_fit(self)
        ensures
            self@.len() <= usize::MAX,
            forall|i: int| 0 <= i < self@.len() ==> (#[trigger] self@[i]).len() <= usize::MAX,
    {
        assert(self.lines.len() == self.lines@.len());
        assert forall|i: int| 0 <= i < self@.len() implies (#[trigger] self@[i]).len()
            <= usize::MAX by {
            assert(self.lines@[i].len() == self.lines@[i]@.len());
        }
    }

    /// Whether the buffer is well formed. Every buffer that this module
    /// hands out is; the test is for callers that cannot know it.
    pub fn is_wf(&self) -> (ok: bool)
        ensures
            ok == self.wf(),
    {
        if self.lines.len() == 0 {
            return false;
        }
        let mut y: usize = 0;
        while y < self.lines.len()
            invariant
                y <= self.lines.len(),
                forall|i: int| 0 <= i < y ==> is_line(#[trigger] self@[i]),
            decreases self.lines.len() - y,
        {
            let line = &self.lines[y];
            let mut x: usize = 0;
            while x < line.len()
                invariant
                    x <= line.len(),
                    y < self@.len(),
                    line@ == self@[y as int],
                    forall|k: int| 0 <= k < x ==> line@[k] != crate::text::NEWLINE,
                decreases line.len() - x,
            {
                if line[x] == crate::text::NEWLINE {
                    assert(!is_line(self@[y as int]));
                    return false;
                }
                x += 1;
            }
            y += 1;
        }
        true
    }

    /// The length of line `y`, which has to be a line of the buffer.
    pub(crate) fn length_of(&self, y: usize) -> (len: usize)
        requires
            y < self@.len(),
        ensures
            len == self@[y as int].len(),
    {
        self.lines[y].len()
    }

    /// A buffer with one empty line.
    pub fn new() -> (b: Buffer)
        ensures
            b.wf(),
            b@ == seq![Seq::<char>::empty()],
    {
        let mut lines: Vec<Vec<char>> = Vec::new();
        lines.push(Vec::new());
        let b = Buffer { lines };
        assert(b@ == seq![Seq::<char>::empty()]);
        b
    }

    /// A buffer that holds `text`, cut into lines at its newlines.
    pub fn from_chars(text: &[char]) -> (b: Buffer)
        ensures
            b.wf(),
            b@ == lines_of(text@),
            text_of(b@) == text@,
    {
        proof {
            lemma_lines_of_shape(text@);
            lemma_join_of_split(text@);
        }
        Buffer { lines: split_lines(text) }
    }

    /// The whole text, with a newline between each two lines. It splits
    /// into the lines of the buffer again.
    pub fn to_chars(&self) -> (text: Vec<char>)
        ensures
            text@ == text_of(self@),
            self.wf() ==> lines_of(text@) == self@,
    {
        proof {
            if self.wf() {
                lemma_split_of_join(self@);
            }
        }
        join_lines(&self.lines)
    }

    /// The number of lines. It is never zero.
    pub fn line_count(&self) -> (n: usize)
        requires
            self.wf(),
        ensures
            n == self@.len(),
            n >= 1,
    {
        self.lines.len()
    }

    /// The length of line `y`, or `OutOfBounds` where there is no such line.
    pub fn line_len(&self, y: usize) -> (r: Result<usize, EditorError>)
        ensures
            y < self@.len() ==> r == Ok::<usize, EditorError>(self@[y as int].len() as usize),
            y < self@.len() ==> self@[y as int].len() <= usize::MAX,
            y >= self@.len() ==> r == Err::<usize, EditorError>(EditorError::OutOfBounds),
    {
        if y < self.lines.len() {
            Ok(self.lines[y].len())
        } else {
            Err(EditorError::OutOfBounds)
        }
    }

    /// Line `y`, or `OutOfBounds` where there is no such line.
    pub fn line(&self, y: usize) -> (r: Result<&[char], EditorError>)
        ensures
            y < self@.len() ==> r is Ok && r->Ok_0@ == self@[y as int],
            y >= self@.len() ==> r == Err::<&[char], EditorError>(EditorError::OutOfBounds),
    {
        if y < self.lines.len() {
            Ok(self.lines[y].as_slice())
        } else {
            Err(EditorError::OutOfBounds)
        }
    }

    /// Whether `pos` is a place in this buffer.
    pub fn has_position(&self, pos: Position) -> (r: bool)
        ensures
            r == pos.within(self@),
    {
        pos.y < self.lines.len() && pos.x <= self.lines[pos.y].len()
    }

    /// Whether `span` is a span of this buffer.
    pub fn has_span(&self, span: Span) -> (r: bool)
        ensures
            r == span.within(self@),
    {
        self.has_position(span.start) && self.has_position(span.end) && span.start.at_or_before(
            span.end,
        )
    }

    /// Inserts `text` at `pos`. A newline in `text` splits the line.
    ///
    /// Fails with `OutOfBounds`, and changes nothing, where `pos` is no place
    /// in the buffer.
    pub fn insert(&mut self, pos: Position, text: &[char]) -> (r: Result<Edit, EditorError>)
        requires
            old(self).wf(),
        ensures
            final(self).wf(),
            pos.within(old(self)@) ==> r is Ok && final(self)@ == inserted(
                old(self)@,
                pos.x as int,
                pos.y as int,
                text@,
            ),
            !pos.within(old(self)@) ==> r == Err::<Edit, EditorError>(EditorError::OutOfBounds)
                && final(self)@ == old(self)@,
            r matches Ok(edit) ==> {
                &&& (edit.cursor.x as int, edit.cursor.y as int) == insert_end(
                    pos.x as int,
                    pos.y as int,
                    text@,
                )
                &&& (edit.affected.start as int, edit.affected.end as int) == insert_affected(
                    old(self)@,
                    pos.y as int,
                    text@,
                )
                &&& edit.cursor.within(final(self)@)
                &&& forall|i: int|
                    #![trigger final(self)@[i]]
                    #![trigger edit.affected.has(i)]
                    0 <= i < final(self)@.len() && !edit.affected.has(i) ==> i < old(self)@.len()
                        && final(self)@[i] == old(self)@[i]
            },
    {
        if !self.has_position(pos) {
            return Err(EditorError::OutOfBounds);
        }
        let ghost before = self@;
        let old_count = self.lines.len();
        proof {
            lemma_lines_of_shape(text@);
            lemma_single_line(text@);
            lemma_inserted_shape(before, pos.x as int, pos.y as int, text@);
            lemma_insert_untouched(before, pos.x as int, pos.y as int, text@);
        }
        let mut parts = split_lines(text);
        let count = parts.len();
        let mut below = self.lines.split_off(pos.y + 1);
        let mut head = self.lines.pop().unwrap();
        let mut tail = head.split_off(pos.x);
        let mut rest = parts.split_off(1);
        let mut first = parts.pop().unwrap();
        let ghost above = rows(self.lines@);
        let ghost head_seq = head@;
        let ghost tail_seq = tail@;
        let ghost lower = rows(below@);
        let ghost pieces = lines_of(text@);
        proof {
            assert(above == before.subrange(0, pos.y as int));
            assert(lower == before.subrange(pos.y + 1, before.len() as int));
            assert(head_seq == before[pos.y as int].subrange(0, pos.x as int));
            assert(tail_seq == before[pos.y as int].subrange(
                pos.x as int,
                before[pos.y as int].len() as int,
            ));
            assert(first@ == pieces[0]);
            assert(rows(rest@) == pieces.subrange(1, pieces.len() as int));
        }
        head.append(&mut first);
        let end: Position;
        if rest.len() == 0 {
            let end_x = head.len();
            head.append(&mut tail);
            self.lines.push(head);
            end = Position { x: end_x, y: pos.y };
            proof {
                assert(rows(self.lines@) == above + splice(head_seq, pieces, tail_seq));
            }
        } else {
            self.lines.push(head);
            let mut last = rest.pop().unwrap();
            let end_x = last.len();
            last.append(&mut tail);
            self.lines.append(&mut rest);
            self.lines.push(last);
            end = Position { x: end_x, y: self.lines.len() - 1 };
            proof {
                assert(rows(self.lines@) == above + splice(head_seq, pieces, tail_seq));
            }
        }
        self.lines.append(&mut below);
        proof {
            assert(rows(self.lines@) == above + splice(head_seq, pieces, tail_seq) + lower);
        }
        let affected = if text.len() == 0 {
            LineRange { start: pos.y, end: pos.y }
        } else if count == 1 {
            LineRange { start: pos.y, end: pos.y + 1 }
        } else {
            LineRange { start: pos.y, end: self.lines.len() }
        };
        Ok(Edit { affected, cursor: end })
    }

    /// Deletes the text of `span`. Where the span crosses lines, what is
    /// left of its first and of its last line becomes one line.
    ///
    /// Fails with `OutOfBounds`, and changes nothing, where `span` is no
    /// span of the buffer: an end lies outside, or the start is behind the
    /// end.
    pub fn delete(&mut self, span: Span) -> (r: Result<Edit, EditorError>)
        requires
            old(self).wf(),
        ensures
            final(self).wf(),
            span.within(old(self)@) ==> r is Ok && final(self)@ == removed(
                old(self)@,
                span.start.x as int,
                span.start.y as int,
                span.end.x as int,
                span.end.y as int,
            ),
            !span.within(old(self)@) ==> r == Err::<Edit, EditorError>(EditorError::OutOfBounds)
                && final(self)@ == old(self)@,
            r matches Ok(edit) ==> {
                &&& edit.cursor == span.start
                &&& (edit.affected.start as int, edit.affected.end as int) == remove_affected(
                    old(self)@,
                    span.start.x as int,
                    span.start.y as int,
                    span.end.x as int,
                    span.end.y as int,
                )
                &&& edit.cursor.within(final(self)@)
                &&& forall|i: int|
                    #![trigger final(self)@[i]]
                    #![trigger edit.affected.has(i)]
                    0 <= i < final(self)@.len() && !edit.affected.has(i) ==> i < old(self)@.len()
                        && final(self)@[i] == old(self)@[i]
            },
    {
        if !self.has_span(span) {
            return Err(EditorError::OutOfBounds);
        }
        let ghost before = self@;
        let old_count = self.lines.len();
        let start = span.start;
        let end = span.end;
        proof {
            lemma_removed_shape(
                before,
                start.x as int,
                start.y as int,
                end.x as int,
                end.y as int,
            );
            lemma_remove_untouched(
                before,
                start.x as int,
                start.y as int,
                end.x as int,
                end.y as int,
            );
        }
        let mut below = self.lines.split_off(end.y + 1);
        let mut last = self.lines.pop().unwrap();
        let mut tail = last.split_off(end.x);
        let ghost lower = rows(below@);
        let ghost tail_seq = tail@;
        let ghost joined = before[start.y as int].subrange(0, start.x as int) + tail_seq;
        proof {
            assert(lower == before.subrange(end.y + 1, before.len() as int));
            assert(tail_seq == before[end.y as int].subrange(
                end.x as int,
                before[end.y as int].len() as int,
            ));
        }
        if start.y == end.y {
            last.truncate(start.x);
            assert(last@ == before[start.y as int].subrange(0, start.x as int));
            last.append(&mut tail);
            self.lines.push(last);
        } else {
            self.lines.truncate(start.y + 1);
            let mut first = self.lines.pop().unwrap();
            first.truncate(start.x);
            assert(first@ == before[start.y as int].subrange(0, start.x as int));
            first.append(&mut tail);
            self.lines.push(first);
        }
        proof {
            assert(rows(self.lines@) == before.subrange(0, start.y as int).push(joined));
            assert(before.subrange(0, start.y as int).push(joined) == before.subrange(
                0,
                start.y as int,
            ) + seq![joined]);
        }
        self.lines.append(&mut below);
        proof {
            assert(rows(self.lines@) == before.subrange(0, start.y as int) + seq![joined]
                + lower);
            assert(rows(self.lines@) == removed(
                before,
                start.x as int,
                start.y as int,
                end.x as int,
                end.y as int,
            ));
        }
        let affected = if start.y == end.y && start.x == end.x {
            LineRange { start: start.y, end: start.y }
        } else if start.y == end.y {
            LineRange { start: start.y, end: start.y + 1 }
        } else {
            LineRange { start: start.y, end: old_count }
        };
        Ok(Edit { affected, cursor: start })
    }
}

/// What an insertion at a place of well-formed lines gives: well-formed
/// lines again, `lines_of(text).len() - 1` more of them, with the end of
/// the inserted text a place in them.
pub proof fn lemma_inserted_shape(lines: Seq<Seq<char>>, x: int, y: int, text: Seq<char>)
    requires
        are_lines(lines),
        holds(lines, x, y),
    ensures
        are_lines(inserted(lines, x, y, text)),
        inserted(lines, x, y, text).len() == lines.len() + lines_of(text).len() - 1,
        holds(inserted(lines, x, y, text), insert_end(x, y, text).0, insert_end(x, y, text).1),
        at_or_before(x, y, insert_end(x, y, text).0, insert_end(x, y, text).1),
{
    lemma_lines_of_shape(text);
    let parts = lines_of(text);
    let head = lines[y].subrange(0, x);
    let tail = lines[y].subrange(x, lines[y].len() as int);
    let mid = splice(head, parts, tail);
    let after = inserted(lines, x, y, text);
    assert(is_line(lines[y]));
    assert(is_line(head));
    assert(is_line(tail));
    assert forall|i: int| 0 <= i < after.len() implies is_line(#[trigger] after[i]) by {
        if i < y {
            assert(after[i] == lines[i]);
        } else if i < y + parts.len() {
            let j = i - y;
            assert(after[i] == mid[j]);
            assert(is_line(parts[j]));
        } else {
            assert(after[i] == lines[i - parts.len() + 1]);
        }
    }
    let (ex, ey) = insert_end(x, y, text);
    assert(after[ey] == mid[ey - y]);
}

/// What a deletion of a span of well-formed lines gives: well-formed lines
/// again, with the start of the span a place in them.
pub proof fn lemma_removed_shape(lines: Seq<Seq<char>>, sx: int, sy: int, ex: int, ey: int)
    requires
        are_lines(lines),
        holds(lines, sx, sy),
        holds(lines, ex, ey),
        at_or_before(sx, sy, ex, ey),
    ensures
        are_lines(removed(lines, sx, sy, ex, ey)),
        removed(lines, sx, sy, ex, ey).len() == lines.len() - (ey - sy),
        removed(lines, sx, sy, ex, ey).len() >= 1,
        holds(removed(lines, sx, sy, ex, ey), sx, sy),
{
    let after = removed(lines, sx, sy, ex, ey);
    assert(is_line(lines[sy]));
    assert(is_line(lines[ey]));
    assert forall|i: int| 0 <= i < after.len() implies is_line(#[trigger] after[i]) by {
        if i < sy {
            assert(after[i] == lines[i]);
        } else if i == sy {
        } else {
            assert(after[i] == lines[i + (ey - sy)]);
        }
    }
}

/// Every line outside the range that an insertion reports is untouched:
/// it stands at the same index and holds the same text as before.
pub proof fn lemma_insert_untouched(lines: Seq<Seq<char>>, x: int, y: int, text: Seq<char>)
    requires
        holds(lines, x, y),
    ensures
        forall|i: int|
            #![trigger inserted(lines, x, y, text)[i]]
            0 <= i < inserted(lines, x, y, text).len() && !(insert_affected(lines, y, text).0 <= i
                < insert_affected(lines, y, text).1) ==> i < lines.len() && inserted(
                lines,
                x,
                y,
                text,
            )[i] == lines[i],
        insert_affected(lines, y, text).1 <= y + 1 ==> inserted(lines, x, y, text).len()
            == lines.len(),
{
    lemma_lines_of_shape(text);
    lemma_single_line(text);
    let parts = lines_of(text);
    let after = inserted(lines, x, y, text);
    let head = lines[y].subrange(0, x);
    let tail = lines[y].subrange(x, lines[y].len() as int);
    assert forall|i: int|
        0 <= i < after.len() && !(insert_affected(lines, y, text).0 <= i < insert_affected(
            lines,
            y,
            text,
        ).1) implies i < lines.len() && #[trigger] after[i] == lines[i] by {
        if text.len() == 0 {
            assert(parts == seq![text]);
            assert(head + text + tail == lines[y]);
            if i == y {
                assert(after[i] == splice(head, parts, tail)[0]);
            }
        }
    }
}

/// Every line outside the range that a deletion reports is untouched: it
/// stands at the same index and holds the same text as before.
pub proof fn lemma_remove_untouched(lines: Seq<Seq<char>>, sx: int, sy: int, ex: int, ey: int)
    requires
        holds(lines, sx, sy),
        holds(lines, ex, ey),
        at_or_before(sx, sy, ex, ey),
    ensures
        forall|i: int|
            #![trigger removed(lines, sx, sy, ex, ey)[i]]
            0 <= i < removed(lines, sx, sy, ex, ey).len() && !(remove_affected(
                lines,
                sx,
                sy,
                ex,
                ey,
            ).0 <= i < remove_affected(lines, sx, sy, ex, ey).1) ==> i < lines.len() && removed(
                lines,
                sx,
                sy,
                ex,
                ey,
            )[i] == lines[i],
        remove_affected(lines, sx, sy, ex, ey).1 <= sy + 1 ==> removed(lines, sx, sy, ex, ey).len()
            == lines.len(),
{
    let after = removed(lines, sx, sy, ex, ey);
    assert forall|i: int|
        0 <= i < after.len() && !(remove_affected(lines, sx, sy, ex, ey).0 <= i < remove_affected(
            lines,
            sx,
            sy,
            ex,
            ey,
        ).1) implies i < lines.len() && #[trigger] after[i] == lines[i] by {
        if sy == ey && sx == ex && i == sy {
            assert(lines[sy].subrange(0, sx) + lines[sy].subrange(sx, lines[sy].len() as int)
                == lines[sy]);
        }
    }
}

/// Round trip: inserting a text at a place and then deleting the span from
/// that place to the end of the inserted text restores the lines.
pub proof fn lemma_insert_then_delete_restores(
    lines: Seq<Seq<char>>,
    x: int,
    y: int,
    text: Seq<char>,
)
    requires
        holds(lines, x, y),
    ensures
        holds(inserted(lines, x, y, text), x, y),
        holds(inserted(lines, x, y, text), insert_end(x, y, text).0, insert_end(x, y, text).1),
        at_or_before(x, y, insert_end(x, y, text).0, insert_end(x, y, text).1),
        removed(
            inserted(lines, x, y, text),
            x,
            y,
            insert_end(x, y, text).0,
            insert_end(x, y, text).1,
        ) == lines,
{
    lemma_lines_of_shape(text);
    let parts = lines_of(text);
    let head = lines[y].subrange(0, x);
    let tail = lines[y].subrange(x, lines[y].len() as int);
    let mid = splice(head, parts, tail);
    let after = inserted(lines, x, y, text);
    let (ex, ey) = insert_end(x, y, text);
    assert(after[y] == mid[0]);
    assert(after[ey] == mid[ey - y]);
    assert(after[y].subrange(0, x) == head);
    assert(after[ey].subrange(ex, after[ey].len() as int) == tail);
    assert(head + tail == lines[y]);
    assert(after.subrange(0, y) == lines.subrange(0, y));
    assert(after.subrange(ey + 1, after.len() as int) == lines.subrange(
        y + 1,
        lines.len() as int,
    ));
    assert(lines.subrange(0, y) + seq![lines[y]] + lines.subrange(y + 1, lines.len() as int)
        == lines);
}

/// What the text holds before a line that stands behind the lines
/// `above`: their text and the newline that ends it.
pub open spec fn lead(above: Seq<Seq<char>>) -> Seq<char> {
    if above.len() == 0 {
        Seq::<char>::empty()
    } else {
        text_of(above).push(crate::text::NEWLINE)
    }
}

/// What the text holds behind a line that stands before the lines
/// `below`: the newline that begins their text, and their text.
pub open spec fn trail(below: Seq<Seq<char>>) -> Seq<char> {
    if below.len() == 0 {
        Seq::<char>::empty()
    } else {
        seq![crate::text::NEWLINE] + text_of(below)
    }
}

/// The number of characters that the text of `lines` holds before column
/// `x` of line `y`.
pub open spec fn offset_of(lines: Seq<Seq<char>>, x: int, y: int) -> int {
    lead(lines.subrange(0, y)).len() + x
}

/// The text of lines between other lines.
pub proof fn lemma_text_around(above: Seq<Seq<char>>, mid: Seq<Seq<char>>, below: Seq<Seq<char>>)
    requires
        mid.len() >= 1,
    ensures
        text_of(above + mid + below) == lead(above) + text_of(mid) + trail(below),
{
    if above.len() == 0 {
        assert(above + mid == mid);
        assert(lead(above) + text_of(mid) == text_of(mid));
    } else {
        crate::text::lemma_text_of_concat(above, mid);
    }
    if below.len() == 0 {
        assert(above + mid + below == above + mid);
        assert(lead(above) + text_of(mid) + trail(below) == lead(above) + text_of(mid));
    } else {
        crate::text::lemma_text_of_concat(above + mid, below);
        assert(text_of(above + mid).push(crate::text::NEWLINE) + text_of(below) == text_of(
            above + mid,
        ) + (seq![crate::text::NEWLINE] + text_of(below)));
    }
}

/// An insertion is an insertion into the text: the text of the lines
/// after `text` was inserted at a place is the text of the lines before,
/// with `text` set in at the offset of the place.
pub proof fn lemma_insert_is_text_insertion(
    lines: Seq<Seq<char>>,
    x: int,
    y: int,
    text: Seq<char>,
)
    requires
        holds(lines, x, y),
    ensures
        0 <= offset_of(lines, x, y) <= text_of(lines).len(),
        text_of(inserted(lines, x, y, text)) == text_of(lines).subrange(
            0,
            offset_of(lines, x, y),
        ) + text + text_of(lines).subrange(offset_of(lines, x, y), text_of(lines).len() as int),
{
    let above = lines.subrange(0, y);
    let below = lines.subrange(y + 1, lines.len() as int);
    let line = lines[y];
    let head = line.subrange(0, x);
    let tail = line.subrange(x, line.len() as int);
    let parts = lines_of(text);
    let mid = splice(head, parts, tail);
    let whole = text_of(lines);
    let at = offset_of(lines, x, y);
    lemma_lines_of_shape(text);
    lemma_join_of_split(text);
    assert(lines == above + seq![line] + below);
    lemma_text_around(above, seq![line], below);
    lemma_text_around(above, mid, below);
    let first = parts.update(0, head + parts[0]);
    crate::text::lemma_text_of_longer_first(parts, head);
    crate::text::lemma_text_of_longer_last(first, tail);
    assert(text_of(mid) == head + text + tail);
    assert(text_of(seq![line]) == line);
    assert(head + tail == line);
    assert(whole == lead(above) + line + trail(below));
    assert(whole.subrange(0, at) == lead(above) + head);
    assert(whole.subrange(at, whole.len() as int) == tail + trail(below));
    assert(lead(above) + (head + text + tail) + trail(below) == (lead(above) + head) + text + (
    tail + trail(below)));
}

/// The end of an inserted text lies as many characters behind its start
/// as the text is long.
pub proof fn lemma_insert_end_offset(lines: Seq<Seq<char>>, x: int, y: int, text: Seq<char>)
    requires
        holds(lines, x, y),
    ensures
        offset_of(
            inserted(lines, x, y, text),
            insert_end(x, y, text).0,
            insert_end(x, y, text).1,
        ) == offset_of(lines, x, y) + text.len(),
{
    let above = lines.subrange(0, y);
    let line = lines[y];
    let head = line.subrange(0, x);
    let tail = line.subrange(x, line.len() as int);
    let parts = lines_of(text);
    let mid = splice(head, parts, tail);
    let after = inserted(lines, x, y, text);
    let (ex, ey) = insert_end(x, y, text);
    lemma_lines_of_shape(text);
    lemma_single_line(text);
    lemma_join_of_split(text);
    if parts.len() == 1 {
        assert(after.subrange(0, ey) == above);
    } else {
        let front = parts.drop_last();
        let begun = front.update(0, head + front[0]);
        assert(after.subrange(0, ey) == above + begun + Seq::<Seq<char>>::empty());
        lemma_text_around(above, begun, Seq::<Seq<char>>::empty());
        crate::text::lemma_text_of_longer_first(front, head);
        assert(text_of(after.subrange(0, ey)) == lead(above) + (head + text_of(front)));
        assert(text == text_of(front).push(crate::text::NEWLINE) + parts.last());
    }
}

/// The text of a line that a deletion joined, between its neighbours.
proof fn lemma_text_of_removed(lines: Seq<Seq<char>>, sx: int, sy: int, ex: int, ey: int)
    requires
        holds(lines, sx, sy),
        holds(lines, ex, ey),
        at_or_before(sx, sy, ex, ey),
    ensures
        text_of(removed(lines, sx, sy, ex, ey)) == (lead(lines.subrange(0, sy)) + lines[sy].subrange(
            0,
            sx,
        )) + (lines[ey].subrange(ex, lines[ey].len() as int) + trail(
            lines.subrange(ey + 1, lines.len() as int),
        )),
{
    let above = lines.subrange(0, sy);
    let below = lines.subrange(ey + 1, lines.len() as int);
    let joined = lines[sy].subrange(0, sx) + lines[ey].subrange(ex, lines[ey].len() as int);
    lemma_text_around(above, seq![joined], below);
    assert(text_of(seq![joined]) == joined);
    assert(removed(lines, sx, sy, ex, ey) == above + seq![joined] + below);
    assert(lead(above) + joined + trail(below) == (lead(above) + lines[sy].subrange(0, sx)) + (
    lines[ey].subrange(ex, lines[ey].len() as int) + trail(below)));
}

/// The text before the start and from the end of a span on, where the
/// span lies within one line.
proof fn lemma_text_about_span_in_line(lines: Seq<Seq<char>>, sx: int, ex: int, y: int)
    requires
        holds(lines, sx, y),
        holds(lines, ex, y),
        sx <= ex,
    ensures
        0 <= offset_of(lines, sx, y) <= offset_of(lines, ex, y) <= text_of(lines).len(),
        text_of(lines).subrange(0, offset_of(lines, sx, y)) == lead(lines.subrange(0, y))
            + lines[y].subrange(0, sx),
        text_of(lines).subrange(offset_of(lines, ex, y), text_of(lines).len() as int)
            == lines[y].subrange(ex, lines[y].len() as int) + trail(
            lines.subrange(y + 1, lines.len() as int),
        ),
{
    let above = lines.subrange(0, y);
    let below = lines.subrange(y + 1, lines.len() as int);
    let line = lines[y];
    let whole = text_of(lines);
    assert(lines == above + seq![line] + below);
    lemma_text_around(above, seq![line], below);
    assert(text_of(seq![line]) == line);
    assert(whole == lead(above) + line + trail(below));
    assert(whole.subrange(0, offset_of(lines, sx, y)) == lead(above) + line.subrange(0, sx));
    assert(whole.subrange(offset_of(lines, ex, y), whole.len() as int) == line.subrange(
        ex,
        line.len() as int,
    ) + trail(below));
}

/// A deletion is a deletion from the text: the text of the lines after a
/// span was deleted is the text of the lines before, without the
/// characters from the offset of the start up to the offset of the end of
/// the span.
pub proof fn lemma_delete_is_text_removal(lines: Seq<Seq<char>>, sx: int, sy: int, ex: int, ey: int)
    requires
        holds(lines, sx, sy),
        holds(lines, ex, ey),
        at_or_before(sx, sy, ex, ey),
    ensures
        0 <= offset_of(lines, sx, sy) <= offset_of(lines, ex, ey) <= text_of(lines).len(),
        text_of(removed(lines, sx, sy, ex, ey)) == text_of(lines).subrange(
            0,
            offset_of(lines, sx, sy),
        ) + text_of(lines).subrange(offset_of(lines, ex, ey), text_of(lines).len() as int),
{
    lemma_text_of_removed(lines, sx, sy, ex, ey);
    if sy == ey {
        lemma_text_about_span_in_line(lines, sx, ex, sy);
    } else {
        lemma_text_about_span_in_line(lines, sx, sx, sy);
        lemma_text_about_span_in_line(lines, ex, ex, ey);
        lemma_offsets_grow_with_lines(lines, sy, ey);
    }
}

/// The start of a later line lies behind the end of an earlier one.
proof fn lemma_offsets_grow_with_lines(lines: Seq<Seq<char>>, sy: int, ey: int)
    requires
        0 <= sy < ey < lines.len(),
    ensures
        offset_of(lines, lines[sy].len() as int, sy) < offset_of(lines, 0, ey),
{
    let above = lines.subrange(0, sy);
    let between = lines.subrange(sy, ey);
    assert(lines.subrange(0, ey) == above + between + Seq::<Seq<char>>::empty());
    lemma_text_around(above, between, Seq::<Seq<char>>::empty());
    crate::text::lemma_text_begins_with_first(between);
    assert(between[0] == lines[sy]);
}

} // verus!
