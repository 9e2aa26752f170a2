use sodium::buffer::{Buffer, LineRange, Position, Span};
use sodium::error::EditorError;
use sodium::redraw::RedrawTask;
use sodium::split::{scroll_to, Orientation, SplitBuffer, Viewport};

fn text(s: &str) -> Vec<char> {
    s.chars().collect()
}

fn content(s: &SplitBuffer) -> String {
    s.buffer().to_chars().into_iter().collect()
}

fn view(scroll_x: usize, scroll_y: usize, width: usize, height: usize) -> Viewport {
    Viewport { scroll_x, scroll_y, width, height }
}

#[test]
fn scroll_to_moves_by_the_minimum() {
    assert_eq!(scroll_to(0, 10, 5), 0);
    assert_eq!(scroll_to(0, 10, 9), 0);
    assert_eq!(scroll_to(0, 10, 10), 1);
    assert_eq!(scroll_to(5, 10, 2), 2);
    assert_eq!(scroll_to(5, 10, 5), 5);
    assert_eq!(scroll_to(5, 10, 14), 5);
    assert_eq!(scroll_to(5, 10, 15), 6);
    assert_eq!(scroll_to(0, 1, 4), 4);
    assert_eq!(scroll_to(usize::MAX - 1, 10, usize::MAX), usize::MAX - 1);
}

#[test]
fn scroll_to_with_no_extent_follows_the_position() {
    assert_eq!(scroll_to(3, 0, 7), 7);
    assert_eq!(scroll_to(3, 0, 1), 1);
    assert_eq!(scroll_to(3, 0, 3), 3);
}

#[test]
fn new_split_buffer_has_one_default_viewport() {
    let s = SplitBuffer::new();
    assert_eq!(s.viewport_count(), 1);
    assert_eq!(s.active_index(), 0);
    assert_eq!(s.viewport(0), Ok(view(0, 0, 80, 24)));
    assert_eq!(s.active_viewport(), view(0, 0, 80, 24));
    assert_eq!(s.viewport(1), Err(EditorError::OutOfBounds));
    assert_eq!(content(&s), "");
}

#[test]
fn focus_hint_y_scrolls_only_when_needed() {
    let mut s = SplitBuffer::new();
    s.focus_hint_y(10);
    assert_eq!(s.active_viewport().scroll_y, 0);
    s.focus_hint_y(23);
    assert_eq!(s.active_viewport().scroll_y, 0);
    s.focus_hint_y(30);
    assert_eq!(s.active_viewport().scroll_y, 7);
    s.focus_hint_y(7);
    assert_eq!(s.active_viewport().scroll_y, 7);
    s.focus_hint_y(3);
    assert_eq!(s.active_viewport().scroll_y, 3);
    assert_eq!(s.active_viewport().scroll_x, 0);
}

#[test]
fn focus_hint_x_scrolls_only_when_needed() {
    let mut s = SplitBuffer::new();
    s.focus_hint_x(79);
    assert_eq!(s.active_viewport().scroll_x, 0);
    s.focus_hint_x(80);
    assert_eq!(s.active_viewport().scroll_x, 1);
    s.focus_hint_x(200);
    assert_eq!(s.active_viewport().scroll_x, 121);
    s.focus_hint_x(0);
    assert_eq!(s.active_viewport().scroll_x, 0);
    assert_eq!(s.active_viewport().scroll_y, 0);
}

#[test]
fn split_divides_the_focused_viewport() {
    let mut s = SplitBuffer::from_buffer(Buffer::new(), 81, 25);
    s.split(Orientation::Horizontal);
    assert_eq!(s.viewport_count(), 2);
    assert_eq!(s.active_index(), 0);
    assert_eq!(s.viewport(0), Ok(view(0, 0, 81, 13)));
    assert_eq!(s.viewport(1), Ok(view(0, 0, 81, 12)));
    s.split(Orientation::Vertical);
    assert_eq!(s.viewport_count(), 3);
    assert_eq!(s.viewport(0), Ok(view(0, 0, 41, 13)));
    assert_eq!(s.viewport(1), Ok(view(0, 0, 40, 13)));
    assert_eq!(s.viewport(2), Ok(view(0, 0, 81, 12)));
}

#[test]
fn split_keeps_the_scroll_offsets() {
    let mut s = SplitBuffer::new();
    s.focus_hint_y(40);
    s.focus_hint_x(100);
    s.split(Orientation::Horizontal);
    assert_eq!(s.viewport(0), Ok(view(21, 17, 80, 12)));
    assert_eq!(s.viewport(1), Ok(view(21, 17, 80, 12)));
}

#[test]
fn viewports_scroll_independently() {
    let mut s = SplitBuffer::new();
    s.split(Orientation::Horizontal);
    s.focus_hint_y(100);
    assert_eq!(s.viewport(0).unwrap().scroll_y, 89);
    assert_eq!(s.viewport(1).unwrap().scroll_y, 0);
    s.focus_next();
    assert_eq!(s.active_index(), 1);
    s.focus_hint_y(50);
    assert_eq!(s.viewport(0).unwrap().scroll_y, 89);
    assert_eq!(s.viewport(1).unwrap().scroll_y, 39);
}

#[test]
fn an_edit_after_a_split_is_seen_by_both_viewports() {
    let mut s = SplitBuffer::from_buffer(Buffer::from_chars(&text("one\ntwo")), 80, 24);
    s.split(Orientation::Vertical);
    let before = (s.viewport(0), s.viewport(1));
    s.insert(Position { x: 3, y: 0 }, &text("!\n")).unwrap();
    assert_eq!(content(&s), "one!\n\ntwo");
    assert_eq!((s.viewport(0), s.viewport(1)), before);
    s.focus_next();
    assert_eq!(content(&s), "one!\n\ntwo");
    s.delete(Span { start: Position { x: 0, y: 0 }, end: Position { x: 0, y: 2 } }).unwrap();
    assert_eq!(content(&s), "two");
    s.focus_next();
    assert_eq!(content(&s), "two");
    assert_eq!((s.viewport(0), s.viewport(1)), before);
}

#[test]
fn edits_out_of_bounds_fail_through_the_split_buffer() {
    let mut s = SplitBuffer::new();
    assert_eq!(s.insert(Position { x: 1, y: 0 }, &text("x")), Err(EditorError::OutOfBounds));
    assert_eq!(
        s.delete(Span { start: Position { x: 0, y: 0 }, end: Position { x: 0, y: 1 } }),
        Err(EditorError::OutOfBounds)
    );
}

#[test]
fn the_buffer_lives_until_its_last_viewport_closes() {
    let mut s = SplitBuffer::from_buffer(Buffer::from_chars(&text("keep me")), 80, 24);
    s.split(Orientation::Horizontal);
    s.split(Orientation::Vertical);
    assert_eq!(s.viewport_count(), 3);
    let s = s.close_viewport().expect("two viewports are left");
    assert_eq!(s.viewport_count(), 2);
    assert_eq!(content(&s), "keep me");
    let s = s.close_viewport().expect("one viewport is left");
    assert_eq!(s.viewport_count(), 1);
    assert_eq!(content(&s), "keep me");
    assert!(s.close_viewport().is_none());
}

#[test]
fn closing_moves_the_focus_to_the_neighbour() {
    let mut s = SplitBuffer::from_buffer(Buffer::new(), 80, 24);
    s.split(Orientation::Horizontal);
    s.focus_next();
    assert_eq!(s.active_index(), 1);
    let s = s.close_viewport().unwrap();
    assert_eq!(s.active_index(), 0);
    assert_eq!(s.viewport(0), Ok(view(0, 0, 80, 12)));
}

#[test]
fn focus_next_goes_round() {
    let mut s = SplitBuffer::new();
    s.split(Orientation::Horizontal);
    s.split(Orientation::Horizontal);
    assert_eq!(s.active_index(), 0);
    s.focus_next();
    assert_eq!(s.active_index(), 1);
    s.focus_next();
    assert_eq!(s.active_index(), 2);
    s.focus_next();
    assert_eq!(s.active_index(), 0);
}

#[test]
fn resize_changes_the_focused_viewport_only() {
    let mut s = SplitBuffer::new();
    s.split(Orientation::Horizontal);
    s.resize(100, 40);
    assert_eq!(s.viewport(0), Ok(view(0, 0, 100, 40)));
    assert_eq!(s.viewport(1), Ok(view(0, 0, 80, 12)));
}

#[test]
fn damage_is_full_only_where_a_viewport_shows_the_lines() {
    let mut s = SplitBuffer::new();
    assert_eq!(s.damage(LineRange { start: 5, end: 5 }), RedrawTask::Nothing);
    assert_eq!(s.damage(LineRange { start: 5, end: 6 }), RedrawTask::Full);
    assert_eq!(s.damage(LineRange { start: 23, end: 24 }), RedrawTask::Full);
    assert_eq!(s.damage(LineRange { start: 24, end: 25 }), RedrawTask::CursorOnly);
    assert_eq!(s.damage(LineRange { start: 30, end: 40 }), RedrawTask::CursorOnly);
    s.split(Orientation::Horizontal);
    s.focus_next();
    s.focus_hint_y(35);
    assert_eq!(s.viewport(1), Ok(view(0, 24, 80, 12)));
    assert_eq!(s.damage(LineRange { start: 30, end: 40 }), RedrawTask::Full);
    assert_eq!(s.damage(LineRange { start: 12, end: 24 }), RedrawTask::CursorOnly);
    assert_eq!(s.damage(LineRange { start: 0, end: 100 }), RedrawTask::Full);
}

#[test]
fn viewport_shows_position_inside_its_window() {
    let v = view(2, 10, 5, 3);
    assert!(v.shows_position(Position { x: 2, y: 10 }));
    assert!(v.shows_position(Position { x: 6, y: 12 }));
    assert!(!v.shows_position(Position { x: 7, y: 12 }));
    assert!(!v.shows_position(Position { x: 6, y: 13 }));
    assert!(!v.shows_position(Position { x: 1, y: 10 }));
    assert!(!v.shows_position(Position { x: 2, y: 9 }));
}

#[test]
fn visible_lines_are_those_of_the_window_that_the_buffer_has() {
    let long: String = (0..30).map(|_| "x\n").collect();
    let mut s = SplitBuffer::from_buffer(Buffer::from_chars(&text(&long)), 80, 24);
    assert_eq!(s.buffer().line_count(), 31);
    assert_eq!(s.visible(0), Ok(LineRange { start: 0, end: 24 }));
    assert_eq!(s.visible(1), Err(EditorError::OutOfBounds));
    s.focus_hint_y(30);
    assert_eq!(s.visible(0), Ok(LineRange { start: 7, end: 31 }));
    s.resize(80, 40);
    assert_eq!(s.visible(0), Ok(LineRange { start: 7, end: 31 }));
    s.focus_hint_y(500);
    assert_eq!(s.visible(0), Ok(LineRange { start: 31, end: 31 }));
    s.resize(80, 0);
    s.focus_hint_y(3);
    assert_eq!(s.visible(0), Ok(LineRange { start: 3, end: 3 }));
}

#[test]
fn split_buffers_made_here_are_well_formed() {
    let mut s = SplitBuffer::new();
    assert!(s.is_wf());
    s.split(Orientation::Vertical);
    s.insert(Position { x: 0, y: 0 }, &text("a\nb")).unwrap();
    assert!(s.is_wf());
    assert!(s.buffer().is_wf());
}
