//! Text as a sequence of characters, and its division into lines.
//!
//! A text of `n` newline characters has `n + 1` lines; the empty text has one
//! empty line. Splitting and joining are inverse to each other.

use vstd::prelude::*;

verus! {

/// The character that ends a line.
pub const NEWLINE: char = '\n';

/// A line holds no newline character.
pub open spec fn is_line(s: Seq<char>) -> bool {
    forall|i: int| 0 <= i < s.len() ==> s[i] != NEWLINE
}

/// Every element is a line.
pub open spec fn are_lines(lines: Seq<Seq<char>>) -> bool {
    forall|i: int| 0 <= i < lines.len() ==> is_line(#[trigger] lines[i])
}

/// The lines of a text: the pieces between its newline characters.
pub open spec fn lines_of(text: Seq<char>) -> Seq<Seq<char>>
    decreases text.len(),
{
    if text.len() == 0 {
        seq![Seq::<char>::empty()]
    } else {
        let before = lines_of(text.drop_last());
        if text.last() == NEWLINE {
            before.push(Seq::<char>::empty())
        } else {
            before.update(before.len() - 1, before.last().push(text.last()))
        }
    }
}

/// The text of a sequence of lines: the lines with a newline between each
/// two neighbours.
pub open spec fn text_of(lines: Seq<Seq<char>>) -> Seq<char>
    decreases lines.len(),
{
    if lines.len() == 0 {
        Seq::<char>::empty()
    } else if lines.len() == 1 {
        lines[0]
    } else {
        text_of(lines.drop_last()).push(NEWLINE) + lines.last()
    }
}

/// The rows of a vector of lines, each taken as a sequence.
pub open spec fn rows(lines: Seq<Vec<char>>) -> Seq<Seq<char>> {
    Seq::new(lines.len(), |i: int| lines[i]@)
}

/// A text always has at least one line, and none of them holds a newline.
pub proof fn lemma_lines_of_shape(text: Seq<char>)
    ensures
        lines_of(text).len() >= 1,
        are_lines(lines_of(text)),
    decreases text.len(),
{
    if text.len() > 0 {
        lemma_lines_of_shape(text.drop_last());
    }
}

/// A text without a newline is its own single line, and only such a text
/// has a single line.
pub proof fn lemma_single_line(text: Seq<char>)
    ensures
        is_line(text) <==> lines_of(text).len() == 1,
        is_line(text) ==> lines_of(text) == seq![text],
    decreases text.len(),
{
    if text.len() > 0 {
        let front = text.drop_last();
        lemma_single_line(front);
        lemma_lines_of_shape(front);
        if text.last() == NEWLINE {
            assert(text[text.len() - 1] == NEWLINE);
        } else if is_line(front) {
            assert(front.push(text.last()) == text);
            assert(lines_of(text) == seq![text]);
            assert forall|i: int| 0 <= i < text.len() implies text[i] != NEWLINE by {
                if i < front.len() {
                    assert(front[i] == text[i]);
                }
            }
        } else {
            let j = choose|j: int| 0 <= j < front.len() && front[j] == NEWLINE;
            assert(text[j] == NEWLINE);
        }
    } else {
        assert(text == Seq::<char>::empty());
        assert(lines_of(text) == seq![text]);
    }
}

/// Appending a line to a text: the lines of `text`, a newline and `line`
/// are the lines of `text` followed by `line`.
pub proof fn lemma_lines_of_append_line(text: Seq<char>, line: Seq<char>)
    requires
        is_line(line),
    ensures
        lines_of(text.push(NEWLINE) + line) == lines_of(text).push(line),
    decreases line.len(),
{
    let whole = text.push(NEWLINE) + line;
    if line.len() == 0 {
        assert(line == Seq::<char>::empty());
        assert(whole == text.push(NEWLINE));
        assert(whole.drop_last() == text);
        assert(whole.last() == NEWLINE);
    } else {
        let front = line.drop_last();
        assert forall|i: int| 0 <= i < front.len() implies front[i] != NEWLINE by {
            assert(front[i] == line[i]);
        }
        lemma_lines_of_append_line(text, front);
        let before = lines_of(text).push(front);
        assert(whole.drop_last() == text.push(NEWLINE) + front);
        assert(whole.last() == line.last());
        assert(line[line.len() - 1] != NEWLINE);
        assert(front.push(line.last()) == line);
        assert(before.last() == front);
        assert(lines_of(whole) == before.update(before.len() - 1, line));
        assert(before.update(before.len() - 1, line) == lines_of(text).push(line));
    }
}

/// Splitting what was joined gives the lines back.
pub proof fn lemma_split_of_join(lines: Seq<Seq<char>>)
    requires
        lines.len() >= 1,
        are_lines(lines),
    ensures
        lines_of(text_of(lines)) == lines,
    decreases lines.len(),
{
    if lines.len() == 1 {
        lemma_single_line(lines[0]);
        assert(seq![lines[0]] == lines);
    } else {
        let front = lines.drop_last();
        assert forall|i: int| 0 <= i < front.len() implies is_line(#[trigger] front[i]) by {
            assert(front[i] == lines[i]);
        }
        lemma_split_of_join(front);
        lemma_lines_of_append_line(text_of(front), lines.last());
        assert(front.push(lines.last()) == lines);
    }
}

/// Joining what was split gives the text back.
pub proof fn lemma_join_of_split(text: Seq<char>)
    ensures
        text_of(lines_of(text)) == text,
    decreases text.len(),
{
    if text.len() == 0 {
        assert(text_of(lines_of(text)) == text);
    } else {
        let front = text.drop_last();
        let before = lines_of(front);
        lemma_join_of_split(front);
        lemma_lines_of_shape(front);
        if text.last() == NEWLINE {
            let after = before.push(Seq::<char>::empty());
            assert(after.drop_last() == before);
            assert(text_of(after) == text_of(before).push(NEWLINE) + Seq::<char>::empty());
            assert(front.push(NEWLINE) + Seq::<char>::empty() == text);
        } else {
            let grown = before.last().push(text.last());
            let after = before.update(before.len() - 1, grown);
            if before.len() == 1 {
                assert(text_of(before) == before[0]);
                assert(text_of(after) == grown);
                assert(front.push(text.last()) == text);
            } else {
                assert(after.drop_last() == before.drop_last());
                assert(text_of(after) == text_of(before.drop_last()).push(NEWLINE) + grown);
                assert(text_of(before) == text_of(before.drop_last()).push(NEWLINE)
                    + before.last());
                assert(text_of(before.drop_last()).push(NEWLINE) + grown == (text_of(
                    before.drop_last(),
                ).push(NEWLINE) + before.last()).push(text.last()));
                assert(front.push(text.last()) == text);
            }
        }
    }
}

/// The text of two runs of lines, one after the other, is their texts
/// with a newline between them.
pub proof fn lemma_text_of_concat(a: Seq<Seq<char>>, b: Seq<Seq<char>>)
    requires
        a.len() >= 1,
        b.len() >= 1,
    ensures
        text_of(a + b) == text_of(a).push(NEWLINE) + text_of(b),
    decreases b.len(),
{
    let whole = a + b;
    if b.len() == 1 {
        assert(whole.drop_last() == a);
        assert(whole.last() == b[0]);
    } else {
        let front = b.drop_last();
        lemma_text_of_concat(a, front);
        assert(whole.drop_last() == a + front);
        assert(whole.last() == b.last());
        assert((text_of(a).push(NEWLINE) + text_of(front)).push(NEWLINE) + b.last() == text_of(
            a,
        ).push(NEWLINE) + (text_of(front).push(NEWLINE) + b.last()));
    }
}

/// Putting `head` in front of the first line puts it in front of the
/// text.
pub proof fn lemma_text_of_longer_first(lines: Seq<Seq<char>>, head: Seq<char>)
    requires
        lines.len() >= 1,
    ensures
        text_of(lines.update(0, head + lines[0])) == head + text_of(lines),
    decreases lines.len(),
{
    let longer = lines.update(0, head + lines[0]);
    if lines.len() == 1 {
        assert(text_of(longer) == head + lines[0]);
    } else {
        let front = lines.drop_last();
        lemma_text_of_longer_first(front, head);
        assert(longer.drop_last() == front.update(0, head + front[0]));
        assert(longer.last() == lines.last());
        assert((head + text_of(front)).push(NEWLINE) + lines.last() == head + (text_of(
            front,
        ).push(NEWLINE) + lines.last()));
    }
}

/// Putting `tail` behind the last line puts it behind the text.
pub proof fn lemma_text_of_longer_last(lines: Seq<Seq<char>>, tail: Seq<char>)
    requires
        lines.len() >= 1,
    ensures
        text_of(lines.update(lines.len() - 1, lines.last() + tail)) == text_of(lines) + tail,
{
    let longer = lines.update(lines.len() - 1, lines.last() + tail);
    if lines.len() == 1 {
        assert(text_of(longer) == lines[0] + tail);
    } else {
        assert(longer.drop_last() == lines.drop_last());
        assert(text_of(lines.drop_last()).push(NEWLINE) + (lines.last() + tail) == (text_of(
            lines.drop_last(),
        ).push(NEWLINE) + lines.last()) + tail);
    }
}

/// The text of a run of lines begins with its first line.
pub proof fn lemma_text_begins_with_first(lines: Seq<Seq<char>>)
    requires
        lines.len() >= 1,
    ensures
        text_of(lines).len() >= lines[0].len(),
        text_of(lines).subrange(0, lines[0].len() as int) == lines[0],
    decreases lines.len(),
{
    if lines.len() == 1 {
        assert(text_of(lines).subrange(0, lines[0].len() as int) == lines[0]);
    } else {
        let front = lines.drop_last();
        lemma_text_begins_with_first(front);
        assert(front[0] == lines[0]);
        assert(text_of(lines).subrange(0, lines[0].len() as int) == text_of(front).subrange(
            0,
            lines[0].len() as int,
        ));
    }
}

/// Splits a text into its lines.
pub fn split_lines(text: &[char]) -> (lines: Vec<Vec<char>>)
    ensures
        rows(lines@) == lines_of(text@),
{
    let mut lines: Vec<Vec<char>> = Vec::new();
    let mut current: Vec<char> = Vec::new();
    let mut i: usize = 0;
    proof {
        assert(text@.subrange(0, 0) == Seq::<char>::empty());
        assert(rows(lines@).push(current@) == lines_of(text@.subrange(0, 0)));
    }
    while i < text.len()
        invariant
            i <= text.len(),
            rows(lines@).push(current@) == lines_of(text@.subrange(0, i as int)),
        decreases text.len() - i,
    {
        let c = text[i];
        proof {
            let now = text@.subrange(0, i + 1);
            assert(now.drop_last() == text@.subrange(0, i as int));
            assert(now.last() == c);
        }
        let ghost before = rows(lines@).push(current@);
        if c == NEWLINE {
            lines.push(current);
            current = Vec::new();
            assert(rows(lines@).push(current@) == before.push(Seq::<char>::empty()));
        } else {
            current.push(c);
            assert(rows(lines@).push(current@) == before.update(
                before.len() - 1,
                before.last().push(c),
            ));
        }
        i += 1;
    }
    assert(text@.subrange(0, i as int) == text@);
    let ghost done = rows(lines@).push(current@);
    lines.push(current);
    assert(rows(lines@) == done);
    lines
}

/// Joins lines into one text, with a newline between each two neighbours.
pub fn join_lines(lines: &Vec<Vec<char>>) -> (text: Vec<char>)
    ensures
        text@ == text_of(rows(lines@)),
{
    let mut text: Vec<char> = Vec::new();
    let mut i: usize = 0;
    proof {
        assert(rows(lines@).subrange(0, 0).len() == 0);
    }
    while i < lines.len()
        invariant
            i <= lines.len(),
            text@ == text_of(rows(lines@).subrange(0, i as int)),
        decreases lines.len() - i,
    {
        let ghost done = rows(lines@).subrange(0, i as int);
        let ghost next = rows(lines@).subrange(0, i + 1);
        if i > 0 {
            text.push(NEWLINE);
        }
        let line = &lines[i];
        let mut j: usize = 0;
        let ghost base = text@;
        while j < line.len()
            invariant
                j <= line.len(),
                text@ == base + line@.subrange(0, j as int),
            decreases line.len() - j,
        {
            text.push(line[j]);
            assert(line@.subrange(0, j + 1) == line@.subrange(0, j as int).push(line@[j as int]));
            j += 1;
        }
        proof {
            assert(line@.subrange(0, j as int) == line@);
            assert(next.drop_last() == done);
            assert(next.last() == line@);
            if i == 0 {
                assert(base + line@ == line@);
            }
        }
        i += 1;
    }
    assert(rows(lines@).subrange(0, i as int) == rows(lines@));
    text
}

/// The characters of a string, in order.
pub fn chars_of(s: &str) -> (chars: Vec<char>)
    ensures
        chars@ == s@,
{
    let n = s.unicode_len();
    let mut chars: Vec<char> = Vec::new();
    let mut i: usize = 0;
    while i < n
        invariant
            n == s@.len(),
            i <= n,
            chars@ == s@.subrange(0, i as int),
        decreases n - i,
    {
        chars.push(s.get_char(i));
        assert(s@.subrange(0, i + 1) == s@.subrange(0, i as int).push(s@[i as int]));
        i += 1;
    }
    assert(s@.subrange(0, n as int) == s@);
    chars
}

/// The character that, before a newline, makes the other kind of line
/// ending.
pub const RETURN: char = '\r';

/// `text` with the line ending asked for: as it is, or with a carriage
/// return before every newline.
pub open spec fn with_line_ending(text: Seq<char>, carriage: bool) -> Seq<char>
    decreases text.len(),
{
    if text.len() == 0 {
        text
    } else if carriage && text.last() == NEWLINE {
        with_line_ending(text.drop_last(), carriage).push(RETURN).push(NEWLINE)
    } else {
        with_line_ending(text.drop_last(), carriage).push(text.last())
    }
}

/// Gives `text` the line ending asked for.
pub fn encode_line_endings(text: &[char], carriage: bool) -> (encoded: Vec<char>)
    ensures
        encoded@ == with_line_ending(text@, carriage),
{
    let mut encoded: Vec<char> = Vec::new();
    let mut i: usize = 0;
    assert(text@.subrange(0, 0) =~= Seq::<char>::empty());
    while i < text.len()
        invariant
            i <= text.len(),
            encoded@ == with_line_ending(text@.subrange(0, i as int), carriage),
        decreases text.len() - i,
    {
        let c = text[i];
        proof {
            let now = text@.subrange(0, i + 1);
            assert(now.drop_last() =~= text@.subrange(0, i as int));
            assert(now.last() == c);
        }
        if carriage && c == NEWLINE {
            encoded.push(RETURN);
        }
        encoded.push(c);
        i += 1;
    }
    assert(text@.subrange(0, i as int) =~= text@);
    encoded
}

} // verus!
