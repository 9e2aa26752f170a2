use sodium::buffer::{Buffer, Edit, LineRange, Position, Span};
use sodium::error::EditorError;
use sodium::text::{chars_of, encode_line_endings, join_lines, split_lines};

fn text(s: &str) -> Vec<char> {
    s.chars().collect()
}

fn content(b: &Buffer) -> String {
    b.to_chars().into_iter().collect()
}

fn at(x: usize, y: usize) -> Position {
    Position { x, y }
}

fn span(sx: usize, sy: usize, ex: usize, ey: usize) -> Span {
    Span { start: at(sx, sy), end: at(ex, ey) }
}

#[test]
fn split_lines_of_empty_text_is_one_empty_line() {
    let lines = split_lines(&[]);
    assert_eq!(lines, vec![Vec::<char>::new()]);
}

#[test]
fn split_lines_cuts_at_every_newline() {
    let lines = split_lines(&text("ab\n\ncd\n"));
    assert_eq!(lines, vec![text("ab"), text(""), text("cd"), text("")]);
}

#[test]
fn join_lines_puts_a_newline_between_neighbours() {
    let joined = join_lines(&vec![text("ab"), text(""), text("cd")]);
    assert_eq!(joined, text("ab\n\ncd"));
}

#[test]
fn join_is_the_inverse_of_split() {
    for sample in ["", "a", "\n", "a\nb", "\n\n", "abc\n", "\nabc", "a\n\nb\n"] {
        let original = text(sample);
        assert_eq!(join_lines(&split_lines(&original)), original);
    }
}

#[test]
fn chars_of_gives_the_characters_in_order() {
    assert_eq!(chars_of("héllo"), vec!['h', 'é', 'l', 'l', 'o']);
    assert_eq!(chars_of(""), Vec::<char>::new());
}

#[test]
fn encode_line_endings_adds_carriage_returns_only_when_asked() {
    assert_eq!(encode_line_endings(&text("a\nb\n"), false), text("a\nb\n"));
    assert_eq!(encode_line_endings(&text("a\nb\n"), true), text("a\r\nb\r\n"));
    assert_eq!(encode_line_endings(&text("ab"), true), text("ab"));
}

#[test]
fn new_buffer_has_one_empty_line() {
    let b = Buffer::new();
    assert_eq!(b.line_count(), 1);
    assert_eq!(b.line_len(0), Ok(0));
    assert_eq!(content(&b), "");
}

#[test]
fn from_chars_splits_into_lines() {
    let b = Buffer::from_chars(&text("abc\nde\n"));
    assert_eq!(b.line_count(), 3);
    assert_eq!(b.line(0).unwrap(), &text("abc")[..]);
    assert_eq!(b.line(1).unwrap(), &text("de")[..]);
    assert_eq!(b.line(2).unwrap(), &text("")[..]);
    assert_eq!(b.line_len(1), Ok(2));
}

#[test]
fn line_and_line_len_fail_out_of_bounds() {
    let b = Buffer::from_chars(&text("abc"));
    assert_eq!(b.line_len(1), Err(EditorError::OutOfBounds));
    assert_eq!(b.line(1), Err(EditorError::OutOfBounds));
    assert_eq!(b.line(usize::MAX), Err(EditorError::OutOfBounds));
}

#[test]
fn has_position_allows_the_end_of_a_line_and_nothing_behind_it() {
    let b = Buffer::from_chars(&text("abc\nde"));
    assert!(b.has_position(at(0, 0)));
    assert!(b.has_position(at(3, 0)));
    assert!(!b.has_position(at(4, 0)));
    assert!(b.has_position(at(2, 1)));
    assert!(!b.has_position(at(0, 2)));
}

#[test]
fn insert_within_a_line() {
    let mut b = Buffer::from_chars(&text("hello\nworld"));
    let edit = b.insert(at(2, 0), &text("XY")).unwrap();
    assert_eq!(content(&b), "heXYllo\nworld");
    assert_eq!(edit, Edit { affected: LineRange { start: 0, end: 1 }, cursor: at(4, 0) });
}

#[test]
fn insert_at_the_end_of_a_line() {
    let mut b = Buffer::from_chars(&text("ab\ncd"));
    let edit = b.insert(at(2, 1), &text("!")).unwrap();
    assert_eq!(content(&b), "ab\ncd!");
    assert_eq!(edit.cursor, at(3, 1));
    assert_eq!(edit.affected, LineRange { start: 1, end: 2 });
}

#[test]
fn insert_with_newlines_splits_the_line() {
    let mut b = Buffer::from_chars(&text("hello\nworld"));
    let edit = b.insert(at(2, 0), &text("1\n22\n333")).unwrap();
    assert_eq!(content(&b), "he1\n22\n333llo\nworld");
    assert_eq!(b.line_count(), 4);
    assert_eq!(edit.cursor, at(3, 2));
    assert_eq!(edit.affected, LineRange { start: 0, end: 4 });
}

#[test]
fn insert_of_a_single_newline_breaks_the_line() {
    let mut b = Buffer::from_chars(&text("abcd"));
    let edit = b.insert(at(2, 0), &text("\n")).unwrap();
    assert_eq!(content(&b), "ab\ncd");
    assert_eq!(edit.cursor, at(0, 1));
    assert_eq!(edit.affected, LineRange { start: 0, end: 2 });
}

#[test]
fn insert_of_nothing_touches_no_line() {
    let mut b = Buffer::from_chars(&text("abcd"));
    let edit = b.insert(at(2, 0), &[]).unwrap();
    assert_eq!(content(&b), "abcd");
    assert_eq!(edit, Edit { affected: LineRange { start: 0, end: 0 }, cursor: at(2, 0) });
}

#[test]
fn insert_out_of_bounds_fails_and_changes_nothing() {
    let mut b = Buffer::from_chars(&text("abc\nde"));
    assert_eq!(b.insert(at(4, 0), &text("x")), Err(EditorError::OutOfBounds));
    assert_eq!(b.insert(at(0, 2), &text("x")), Err(EditorError::OutOfBounds));
    assert_eq!(b.insert(at(3, 1), &text("x")), Err(EditorError::OutOfBounds));
    assert_eq!(content(&b), "abc\nde");
}

#[test]
fn delete_within_a_line() {
    let mut b = Buffer::from_chars(&text("hello\nworld"));
    let edit = b.delete(span(1, 1, 4, 1)).unwrap();
    assert_eq!(content(&b), "hello\nwd");
    assert_eq!(edit, Edit { affected: LineRange { start: 1, end: 2 }, cursor: at(1, 1) });
}

#[test]
fn delete_across_lines_merges_what_is_left() {
    let mut b = Buffer::from_chars(&text("one\ntwo\nthree\nfour"));
    let edit = b.delete(span(2, 0, 3, 2)).unwrap();
    assert_eq!(content(&b), "onee\nfour");
    assert_eq!(b.line_count(), 2);
    assert_eq!(edit, Edit { affected: LineRange { start: 0, end: 4 }, cursor: at(2, 0) });
}

#[test]
fn delete_of_a_line_break_joins_two_lines() {
    let mut b = Buffer::from_chars(&text("ab\ncd"));
    b.delete(span(2, 0, 0, 1)).unwrap();
    assert_eq!(content(&b), "abcd");
    assert_eq!(b.line_count(), 1);
}

#[test]
fn delete_of_everything_leaves_one_empty_line() {
    let mut b = Buffer::from_chars(&text("ab\ncd\nef"));
    b.delete(span(0, 0, 2, 2)).unwrap();
    assert_eq!(b.line_count(), 1);
    assert_eq!(b.line_len(0), Ok(0));
}

#[test]
fn delete_of_an_empty_span_touches_no_line() {
    let mut b = Buffer::from_chars(&text("ab\ncd"));
    let edit = b.delete(span(1, 1, 1, 1)).unwrap();
    assert_eq!(content(&b), "ab\ncd");
    assert_eq!(edit.affected, LineRange { start: 1, end: 1 });
}

#[test]
fn delete_fails_on_a_span_outside_the_buffer_or_turned_round() {
    let mut b = Buffer::from_chars(&text("abc\nde"));
    assert_eq!(b.delete(span(0, 0, 4, 0)), Err(EditorError::OutOfBounds));
    assert_eq!(b.delete(span(0, 0, 0, 2)), Err(EditorError::OutOfBounds));
    assert_eq!(b.delete(span(2, 0, 1, 0)), Err(EditorError::OutOfBounds));
    assert_eq!(b.delete(span(0, 1, 3, 0)), Err(EditorError::OutOfBounds));
    assert_eq!(content(&b), "abc\nde");
}

#[test]
fn insert_then_delete_restores_the_buffer() {
    let samples = ["", "x", "xy\n", "\n", "one\ntwo\nthree", "\n\n"];
    let places = [at(0, 0), at(2, 0), at(5, 0), at(0, 1), at(3, 1), at(0, 2)];
    for sample in samples {
        for place in places {
            let mut b = Buffer::from_chars(&text("hello\nfoo\n"));
            let edit = b.insert(place, &text(sample)).unwrap();
            b.delete(Span { start: place, end: edit.cursor }).unwrap();
            assert_eq!(content(&b), "hello\nfoo\n");
        }
    }
}

#[test]
fn lines_outside_the_affected_range_are_untouched() {
    let mut b = Buffer::from_chars(&text("a\nb\nc\nd"));
    let edit = b.insert(at(1, 2), &text("X")).unwrap();
    assert_eq!(edit.affected, LineRange { start: 2, end: 3 });
    assert_eq!(b.line(0).unwrap(), &text("a")[..]);
    assert_eq!(b.line(1).unwrap(), &text("b")[..]);
    assert_eq!(b.line(2).unwrap(), &text("cX")[..]);
    assert_eq!(b.line(3).unwrap(), &text("d")[..]);
}

#[test]
fn span_between_orders_its_ends() {
    assert_eq!(Span::between(at(3, 1), at(0, 0)), span(0, 0, 3, 1));
    assert_eq!(Span::between(at(0, 0), at(3, 1)), span(0, 0, 3, 1));
    assert_eq!(Span::between(at(4, 2), at(1, 2)), span(1, 2, 4, 2));
}

#[test]
fn line_range_contains_its_start_and_not_its_end() {
    let r = LineRange { start: 2, end: 4 };
    assert!(!r.contains(1));
    assert!(r.contains(2));
    assert!(r.contains(3));
    assert!(!r.contains(4));
    assert!(!r.is_empty());
    assert!(LineRange { start: 2, end: 2 }.is_empty());
}
