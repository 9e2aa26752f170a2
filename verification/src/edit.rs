//! What the editing commands work on: the text a key types and the spans
//! the deletions remove.

use crate::buffer::{Buffer, Position, Span};
use crate::cursor::{least, minus};
use crate::options::Options;
use vstd::prelude::*;

verus! {

/// A space or a tab.
pub open spec fn is_blank(c: char) -> bool {
    c == ' ' || c == '\t'
}

/// `unit`, `times` times in a row.
pub open spec fn repeated(unit: Seq<char>, times: nat) -> Seq<char>
    decreases times,
{
    if times == 0 {
        Seq::<char>::empty()
    } else {
        repeated(unit, (times - 1) as nat) + unit
    }
}

/// What typing `c` once puts into the text: the character, or, for a tab
/// where tabs are typed as spaces, `tab_width` spaces.
pub open spec fn typed_unit(options: Options, c: char) -> Seq<char> {
    if c == '\t' && options.use_spaces {
        Seq::new(options.tab_width as nat, |i: int| ' ')
    } else {
        seq![c]
    }
}

/// The first index from `from` on at which `line` holds a character that
/// is blank, if `blank` is true, or not blank, if it is false; the length
/// of the line where there is none.
pub open spec fn next_of(line: Seq<char>, from: int, blank: bool) -> int
    decreases line.len() - from,
{
    if from < 0 || from >= line.len() || is_blank(line[from]) == blank {
        from
    } else {
        next_of(line, from + 1, blank)
    }
}

/// The start of the next word behind `x`: behind the rest of the word at
/// `x` and the blanks that follow it.
pub open spec fn next_word(line: Seq<char>, x: int) -> int {
    next_of(line, next_of(line, x, true), false)
}

/// The start of the word `count` words behind `x`.
pub open spec fn word_ahead(line: Seq<char>, x: int, count: nat) -> int
    decreases count,
{
    if count == 0 {
        x
    } else {
        word_ahead(line, next_word(line, x), (count - 1) as nat)
    }
}

/// The span that `count` backspaces at `at` remove: up to `count`
/// characters before the cursor; at the start of a line the line break
/// before it; at the start of the buffer nothing.
pub open spec fn backspace_span(lines: Seq<Seq<char>>, at: Position, count: int) -> Span {
    if at.x > 0 {
        Span { start: Position { x: minus(at.x as int, count) as usize, y: at.y }, end: at }
    } else if at.y > 0 {
        Span {
            start: Position { x: lines[at.y - 1].len() as usize, y: (at.y - 1) as usize },
            end: at,
        }
    } else {
        Span { start: at, end: at }
    }
}

/// The span of the `count` characters at `at`, as far as the line goes.
pub open spec fn chars_span(lines: Seq<Seq<char>>, at: Position, count: int) -> Span {
    Span {
        start: at,
        end: Position {
            x: least(at.x + count, lines[at.y as int].len() as int) as usize,
            y: at.y,
        },
    }
}

/// The span from `at` to the start of the word `count` words behind it
/// on the line.
pub open spec fn words_span(lines: Seq<Seq<char>>, at: Position, count: int) -> Span {
    Span {
        start: at,
        end: Position {
            x: word_ahead(lines[at.y as int], at.x as int, count as nat) as usize,
            y: at.y,
        },
    }
}

/// The span of line `at.y` and the `count - 1` lines below it, together
/// with one line break: the one behind the lines where a line follows
/// them, else the one before them where a line stands before them. Where
/// the lines are the whole buffer no line break goes, and one empty line
/// is left.
pub open spec fn lines_span(lines: Seq<Seq<char>>, at: Position, count: int) -> Span {
    let last = lines.len() - 1;
    if at.y + count <= last {
        Span {
            start: Position { x: 0, y: at.y },
            end: Position { x: 0, y: (at.y + count) as usize },
        }
    } else if at.y > 0 {
        Span {
            start: Position { x: lines[at.y - 1].len() as usize, y: (at.y - 1) as usize },
            end: Position { x: lines[last].len() as usize, y: last as usize },
        }
    } else {
        Span {
            start: Position { x: 0, y: 0 },
            end: Position { x: lines[last].len() as usize, y: last as usize },
        }
    }
}

/// `next_of` stays on the line, does not go back, and stays where it is
/// at the end of the line.
pub proof fn lemma_next_of_bounds(line: Seq<char>, from: int, blank: bool)
    requires
        0 <= from <= line.len(),
    ensures
        from <= next_of(line, from, blank) <= line.len(),
        from == line.len() ==> next_of(line, from, blank) == from,
    decreases line.len() - from,
{
    if from < line.len() && is_blank(line[from]) != blank {
        lemma_next_of_bounds(line, from + 1, blank);
    }
}

/// `word_ahead` stays on the line, does not go back, and stays at the
/// end of the line once it is there.
pub proof fn lemma_word_ahead_bounds(line: Seq<char>, x: int, count: nat)
    requires
        0 <= x <= line.len(),
    ensures
        x <= word_ahead(line, x, count) <= line.len(),
        x == line.len() ==> word_ahead(line, x, count) == x,
    decreases count,
{
    if count > 0 {
        lemma_next_of_bounds(line, x, true);
        lemma_next_of_bounds(line, next_of(line, x, true), false);
        lemma_word_ahead_bounds(line, next_word(line, x), (count - 1) as nat);
    }
}

/// The text that typing `c` `count` times puts into the buffer.
pub fn typed_text(options: &Options, c: char, count: usize) -> (text: Vec<char>)
    ensures
        text@ == repeated(typed_unit(*options, c), count as nat),
{
    let mut unit: Vec<char> = Vec::new();
    if c == '\t' && options.use_spaces {
        let mut k: usize = 0;
        while k < options.tab_width
            invariant
                k <= options.tab_width,
                unit@ == Seq::new(k as nat, |i: int| ' '),
            decreases options.tab_width - k,
        {
            unit.push(' ');
            k += 1;
            assert(unit@ =~= Seq::new(k as nat, |i: int| ' '));
        }
    } else {
        unit.push(c);
        assert(unit@ =~= seq![c]);
    }
    let mut text: Vec<char> = Vec::new();
    let mut done: usize = 0;
    while done < count
        invariant
            done <= count,
            unit@ == typed_unit(*options, c),
            text@ == repeated(unit@, done as nat),
        decreases count - done,
    {
        let ghost before = text@;
        let mut j: usize = 0;
        while j < unit.len()
            invariant
                j <= unit.len(),
                text@ == before + unit@.subrange(0, j as int),
            decreases unit.len() - j,
        {
            text.push(unit[j]);
            assert(unit@.subrange(0, j + 1) == unit@.subrange(0, j as int).push(unit@[j as int]));
            j += 1;
        }
        assert(unit@.subrange(0, j as int) == unit@);
        done += 1;
    }
    text
}

/// Whether `c` is a space or a tab.
pub fn blank(c: char) -> (r: bool)
    ensures
        r == is_blank(c),
{
    c == ' ' || c == '\t'
}

/// Finds the next blank, or the next character that is not blank, from
/// `from` on.
fn find_next(line: &[char], from: usize, want_blank: bool) -> (r: usize)
    requires
        from <= line@.len(),
    ensures
        r == next_of(line@, from as int, want_blank),
        from <= r <= line@.len(),
{
    let mut i = from;
    while i < line.len() && blank(line[i]) != want_blank
        invariant
            from <= i <= line@.len(),
            next_of(line@, i as int, want_blank) == next_of(line@, from as int, want_blank),
        decreases line@.len() - i,
    {
        i += 1;
    }
    i
}

/// Finds the start of the word `count` words behind column `x`.
pub fn find_word_ahead(line: &[char], x: usize, count: usize) -> (r: usize)
    requires
        x <= line@.len(),
    ensures
        r == word_ahead(line@, x as int, count as nat),
        x <= r <= line@.len(),
{
    let mut at = x;
    let mut left = count;
    while left > 0 && at < line.len()
        invariant
            x <= at <= line@.len(),
            word_ahead(line@, at as int, left as nat) == word_ahead(line@, x as int, count as nat),
        decreases left,
    {
        let word_end = find_next(line, at, true);
        at = find_next(line, word_end, false);
        left -= 1;
    }
    proof {
        lemma_word_ahead_bounds(line@, at as int, left as nat);
    }
    at
}

/// The span that `count` backspaces at `at` remove.
pub fn span_before(buffer: &Buffer, at: Position, count: usize) -> (s: Span)
    requires
        buffer.wf(),
        at.within(buffer@),
    ensures
        s == backspace_span(buffer@, at, count as int),
        s.within(buffer@),
{
    if at.x > 0 {
        let x = if at.x >= count {
            at.x - count
        } else {
            0
        };
        Span { start: Position { x, y: at.y }, end: at }
    } else if at.y > 0 {
        Span { start: Position { x: buffer.length_of(at.y - 1), y: at.y - 1 }, end: at }
    } else {
        Span { start: at, end: at }
    }
}

/// The span of the `count` characters at `at`, as far as the line goes.
pub fn span_of_chars(buffer: &Buffer, at: Position, count: usize) -> (s: Span)
    requires
        buffer.wf(),
        at.within(buffer@),
    ensures
        s == chars_span(buffer@, at, count as int),
        s.within(buffer@),
{
    let room = buffer.length_of(at.y) - at.x;
    let x = if count < room {
        at.x + count
    } else {
        at.x + room
    };
    Span { start: at, end: Position { x, y: at.y } }
}

/// The span from `at` to the start of the word `count` words behind it.
pub fn span_of_words(buffer: &Buffer, at: Position, count: usize) -> (s: Span)
    requires
        buffer.wf(),
        at.within(buffer@),
    ensures
        s == words_span(buffer@, at, count as int),
        s.within(buffer@),
{
    let x = match buffer.line(at.y) {
        Ok(line) => find_word_ahead(line, at.x, count),
        Err(_) => at.x,
    };
    Span { start: at, end: Position { x, y: at.y } }
}

/// The span of line `at.y` and the `count - 1` lines below it, with the
/// line break that goes with them.
pub fn span_of_lines(buffer: &Buffer, at: Position, count: usize) -> (s: Span)
    requires
        buffer.wf(),
        at.within(buffer@),
    ensures
        s == lines_span(buffer@, at, count as int),
        s.within(buffer@),
{
    let last = buffer.line_count() - 1;
    if count <= last - at.y {
        Span { start: Position { x: 0, y: at.y }, end: Position { x: 0, y: at.y + count } }
    } else if at.y > 0 {
        Span {
            start: Position { x: buffer.length_of(at.y - 1), y: at.y - 1 },
            end: Position { x: buffer.length_of(last), y: last },
        }
    } else {
        Span {
            start: Position { x: 0, y: 0 },
            end: Position { x: buffer.length_of(last), y: last },
        }
    }
}

} // verus!
