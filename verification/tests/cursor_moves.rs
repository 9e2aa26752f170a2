use sodium::buffer::{Buffer, Position, Span};
use sodium::cursor::{Cursor, Direction, Mode};

fn text(s: &str) -> Vec<char> {
    s.chars().collect()
}

fn sample() -> Buffer {
    Buffer::from_chars(&text("abcdef\nab\nabcdef"))
}

#[test]
fn new_cursor_is_at_the_start_in_normal_mode() {
    let c = Cursor::new();
    assert_eq!((c.x, c.y, c.buffer_index), (0, 0, 0));
    assert_eq!(c.mode, Mode::Normal);
    assert_eq!(c.desired_x, 0);
}

#[test]
fn vertical_movement_keeps_the_desired_column() {
    let b = sample();
    let mut c = Cursor::at(0, 5, 0);
    c.move_by(&b, Direction::Down, 1);
    assert_eq!((c.x, c.y), (2, 1));
    assert_eq!(c.desired_x, 5);
    c.move_by(&b, Direction::Down, 1);
    assert_eq!((c.x, c.y), (5, 2));
    assert_eq!(c.desired_x, 5);
}

#[test]
fn vertical_movement_up_snaps_back_too() {
    let b = sample();
    let mut c = Cursor::at(0, 4, 2);
    c.move_by(&b, Direction::Up, 1);
    assert_eq!((c.x, c.y), (2, 1));
    c.move_by(&b, Direction::Up, 1);
    assert_eq!((c.x, c.y), (4, 0));
}

#[test]
fn horizontal_movement_stops_at_the_ends_of_the_line() {
    let b = sample();
    let mut c = Cursor::at(0, 1, 1);
    c.move_by(&b, Direction::Right, 10);
    assert_eq!((c.x, c.y), (2, 1));
    c.move_by(&b, Direction::Right, 1);
    assert_eq!((c.x, c.y), (2, 1));
    c.move_by(&b, Direction::Left, 1);
    assert_eq!((c.x, c.y), (1, 1));
    c.move_by(&b, Direction::Left, 7);
    assert_eq!((c.x, c.y), (0, 1));
}

#[test]
fn horizontal_movement_sets_the_desired_column() {
    let b = sample();
    let mut c = Cursor::at(0, 5, 0);
    c.move_by(&b, Direction::Left, 2);
    assert_eq!(c.desired_x, 3);
    c.move_by(&b, Direction::Down, 2);
    assert_eq!((c.x, c.y), (3, 2));
}

#[test]
fn vertical_movement_stops_at_the_first_and_last_line() {
    let b = sample();
    let mut c = Cursor::at(0, 0, 1);
    c.move_by(&b, Direction::Down, 100);
    assert_eq!(c.y, 2);
    c.move_by(&b, Direction::Up, usize::MAX);
    assert_eq!(c.y, 0);
}

#[test]
fn huge_counts_do_not_overflow() {
    let b = sample();
    let mut c = Cursor::at(0, 3, 1);
    c.move_by(&b, Direction::Right, usize::MAX);
    assert_eq!((c.x, c.y), (2, 1));
    c.move_by(&b, Direction::Down, usize::MAX);
    assert_eq!(c.y, 2);
}

#[test]
fn move_then_clamp_stays_in_bounds() {
    let b = sample();
    let directions = [Direction::Left, Direction::Right, Direction::Up, Direction::Down];
    for y in 0..3 {
        let len = b.line_len(y).unwrap();
        for x in 0..=len {
            for d in directions {
                for n in [0usize, 1, 2, 7] {
                    let mut c = Cursor::at(0, x, y);
                    c.move_by(&b, d, n);
                    let moved = c;
                    c.clamp_to(&b);
                    assert!(c.is_within(&b));
                    assert_eq!(c, moved);
                }
            }
        }
    }
}

#[test]
fn clamp_pulls_a_cursor_into_the_buffer() {
    let b = sample();
    let mut c = Cursor::at(0, 9, 7);
    c.clamp_to(&b);
    assert_eq!((c.x, c.y), (6, 2));
    let mut d = Cursor::at(0, 9, 1);
    d.clamp_to(&b);
    assert_eq!((d.x, d.y), (2, 1));
    assert_eq!(d.desired_x, 9);
}

#[test]
fn line_start_and_line_end() {
    let b = sample();
    let mut c = Cursor::at(0, 3, 2);
    c.line_end(&b);
    assert_eq!((c.x, c.y, c.desired_x), (6, 2, 6));
    c.line_start(&b);
    assert_eq!((c.x, c.y, c.desired_x), (0, 2, 0));
}

#[test]
fn next_and_prev_line_start_are_the_only_way_across_lines() {
    let b = sample();
    let mut c = Cursor::at(0, 6, 0);
    c.move_by(&b, Direction::Right, 1);
    assert_eq!((c.x, c.y), (6, 0));
    c.next_line_start(&b, 1);
    assert_eq!((c.x, c.y), (0, 1));
    c.next_line_start(&b, 5);
    assert_eq!((c.x, c.y), (0, 2));
    c.prev_line_start(&b, 2);
    assert_eq!((c.x, c.y), (0, 0));
}

#[test]
fn go_to_takes_the_nearest_place() {
    let b = sample();
    let mut c = Cursor::new();
    c.go_to(&b, Position { x: 1, y: 1 });
    assert_eq!((c.x, c.y, c.desired_x), (1, 1, 1));
    c.go_to(&b, Position { x: 40, y: 40 });
    assert_eq!((c.x, c.y, c.desired_x), (6, 2, 6));
}

#[test]
fn mode_machine_allows_its_six_transitions() {
    let allowed = [
        (Mode::Normal, Mode::Insert),
        (Mode::Insert, Mode::Normal),
        (Mode::Insert, Mode::Select),
        (Mode::Select, Mode::Insert),
        (Mode::Normal, Mode::Command),
        (Mode::Command, Mode::Normal),
    ];
    let modes = [Mode::Normal, Mode::Insert, Mode::Select, Mode::Command];
    for from in modes {
        for to in modes {
            let expected = from == to || allowed.contains(&(from, to));
            assert_eq!(from.can_become(to), expected);
        }
    }
}

#[test]
fn set_mode_refuses_what_the_machine_lacks() {
    let mut c = Cursor::new();
    assert!(!c.set_mode(Mode::Select));
    assert_eq!(c.mode, Mode::Normal);
    assert!(c.set_mode(Mode::Command));
    assert!(!c.set_mode(Mode::Insert));
    assert_eq!(c.mode, Mode::Command);
    assert!(c.set_mode(Mode::Normal));
    assert!(c.set_mode(Mode::Insert));
    assert!(c.set_mode(Mode::Select));
    assert!(!c.set_mode(Mode::Normal));
    assert_eq!(c.mode, Mode::Select);
}

#[test]
fn selection_spans_from_anchor_to_cursor() {
    let b = sample();
    let mut c = Cursor::at(0, 1, 1);
    assert_eq!(c.selection(&b), None);
    c.set_mode(Mode::Insert);
    c.set_mode(Mode::Select);
    c.move_by(&b, Direction::Up, 1);
    c.move_by(&b, Direction::Right, 3);
    assert_eq!(
        c.selection(&b),
        Some(Span { start: Position { x: 4, y: 0 }, end: Position { x: 1, y: 1 } })
    );
    c.move_by(&b, Direction::Down, 2);
    assert_eq!(
        c.selection(&b),
        Some(Span { start: Position { x: 1, y: 1 }, end: Position { x: 4, y: 2 } })
    );
}

#[test]
fn mode_labels() {
    assert_eq!(Mode::Normal.label(), "Normal");
    assert_eq!(Mode::Insert.label(), "Insert");
    assert_eq!(Mode::Select.label(), "Select");
    assert_eq!(Mode::Command.label(), "Command");
}
