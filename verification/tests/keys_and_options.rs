use sodium::cursor::{Direction, Mode};
use sodium::error::EditorError;
use sodium::key::{Command, CommandKind, Instruction, Key, KeyEvent};
use sodium::key_state::KeyState;
use sodium::keymap::{Keymap, Resolution};
use sodium::options::{LineEnding, Options, Setting, Value};
use sodium::prompt::command_of;

fn keys(s: &str) -> Vec<KeyEvent> {
    s.chars().map(KeyEvent::typed).collect()
}

fn escape() -> KeyEvent {
    KeyEvent::plain(Key::Escape)
}

fn feed_all(state: &mut KeyState, map: &Keymap, s: &str) -> Vec<Result<Option<Instruction>, EditorError>> {
    keys(s).into_iter().map(|k| state.feed(map, k)).collect()
}

#[test]
fn digit_keys() {
    assert_eq!(Key::Char('0').digit(), Some(0));
    assert_eq!(Key::Char('7').digit(), Some(7));
    assert_eq!(Key::Char('9').digit(), Some(9));
    assert_eq!(Key::Char('a').digit(), None);
    assert_eq!(Key::Char('/').digit(), None);
    assert_eq!(Key::Char(':').digit(), None);
    assert_eq!(Key::Enter.digit(), None);
}

#[test]
fn key_event_constructors() {
    assert_eq!(KeyEvent::typed('a'), KeyEvent { key: Key::Char('a'), ctrl: false, alt: false });
    assert_eq!(KeyEvent::plain(Key::Tab), KeyEvent { key: Key::Tab, ctrl: false, alt: false });
    assert_eq!(
        KeyEvent::with_ctrl(Key::Char('w')),
        KeyEvent { key: Key::Char('w'), ctrl: true, alt: false }
    );
    assert!(escape().cancels());
    assert!(!KeyEvent::with_ctrl(Key::Escape).cancels());
    assert!(!KeyEvent::typed('x').cancels());
}

#[test]
fn command_kinds() {
    assert_eq!(Command::Move(Direction::Up).kind(), CommandKind::Motion);
    assert_eq!(Command::PrevLine.kind(), CommandKind::Motion);
    assert_eq!(Command::InsertChar('a').kind(), CommandKind::Edit);
    assert_eq!(Command::DeleteSelection.kind(), CommandKind::Edit);
    assert_eq!(Command::NextCursor.kind(), CommandKind::Arrangement);
    assert_eq!(Command::SetMode(Mode::Insert).kind(), CommandKind::Control);
    assert_eq!(Command::Quit.kind(), CommandKind::Control);
    assert_eq!(Command::RepeatLast.kind(), CommandKind::Control);
}

#[test]
fn standard_keymap_resolves_single_keys() {
    let map = Keymap::standard();
    assert_eq!(map.len(), 53);
    assert_eq!(
        map.resolve(Mode::Normal, &keys("h")),
        Resolution::Complete(Command::Move(Direction::Left))
    );
    assert_eq!(
        map.resolve(Mode::Normal, &keys("i")),
        Resolution::Complete(Command::SetMode(Mode::Insert))
    );
    assert_eq!(
        map.resolve(Mode::Insert, &vec![escape()]),
        Resolution::Complete(Command::SetMode(Mode::Normal))
    );
    assert_eq!(
        map.resolve(Mode::Select, &vec![escape()]),
        Resolution::Complete(Command::SetMode(Mode::Insert))
    );
    assert_eq!(map.resolve(Mode::Normal, &vec![escape()]), Resolution::Unbound);
    assert_eq!(map.resolve(Mode::Normal, &keys("z")), Resolution::Unbound);
    assert_eq!(
        map.resolve(Mode::Command, &vec![KeyEvent::with_ctrl(Key::Char('q'))]),
        Resolution::Complete(Command::Quit)
    );
}

#[test]
fn unlisted_characters_are_text_in_insert_and_command_mode() {
    let map = Keymap::standard();
    assert_eq!(map.resolve(Mode::Insert, &keys("h")), Resolution::Complete(Command::InsertChar('h')));
    assert_eq!(map.resolve(Mode::Insert, &keys("7")), Resolution::Complete(Command::InsertChar('7')));
    assert_eq!(map.resolve(Mode::Command, &keys("q")), Resolution::Complete(Command::PromptChar('q')));
    assert_eq!(map.resolve(Mode::Insert, &keys("ab")), Resolution::Unbound);
    assert_eq!(
        map.resolve(Mode::Insert, &vec![KeyEvent { key: Key::Char('a'), ctrl: false, alt: true }]),
        Resolution::Unbound
    );
    assert_eq!(map.resolve(Mode::Select, &keys("a")), Resolution::Unbound);
    assert_eq!(map.resolve(Mode::Insert, &vec![]), Resolution::Pending);
    assert_eq!(Keymap::new().resolve(Mode::Insert, &vec![]), Resolution::Unbound);
}

#[test]
fn shared_prefix_waits_for_the_next_key() {
    let map = Keymap::standard();
    assert_eq!(map.resolve(Mode::Normal, &keys("d")), Resolution::Pending);
    assert_eq!(map.resolve(Mode::Normal, &keys("dd")), Resolution::Complete(Command::DeleteLine));
    assert_eq!(map.resolve(Mode::Normal, &keys("dw")), Resolution::Complete(Command::DeleteWord));
    assert_eq!(map.resolve(Mode::Normal, &keys("dx")), Resolution::Unbound);
    assert_eq!(map.resolve(Mode::Normal, &keys("g")), Resolution::Pending);
    assert_eq!(
        map.resolve(Mode::Normal, &vec![KeyEvent::with_ctrl(Key::Char('w'))]),
        Resolution::Pending
    );
    assert_eq!(map.resolve(Mode::Select, &keys("d")), Resolution::Complete(Command::DeleteSelection));
}

#[test]
fn a_bound_prefix_of_a_longer_binding_never_fires_early() {
    let mut map = Keymap::new();
    map.bind(Mode::Normal, keys("d"), Command::DeleteChar);
    assert_eq!(map.resolve(Mode::Normal, &keys("d")), Resolution::Complete(Command::DeleteChar));
    map.bind(Mode::Normal, keys("dd"), Command::DeleteLine);
    assert_eq!(map.resolve(Mode::Normal, &keys("d")), Resolution::Pending);
    assert_eq!(map.resolve(Mode::Normal, &keys("dd")), Resolution::Complete(Command::DeleteLine));
    assert_eq!(map.resolve(Mode::Insert, &keys("d")), Resolution::Complete(Command::InsertChar('d')));
}

#[test]
fn bind_replaces_a_row_for_the_same_keys() {
    let mut map = Keymap::new();
    assert_eq!(map.len(), 0);
    assert_eq!(map.find(Mode::Normal, &keys("x")), None);
    map.bind(Mode::Normal, keys("x"), Command::DeleteChar);
    map.bind(Mode::Insert, keys("x"), Command::Quit);
    assert_eq!(map.len(), 2);
    assert_eq!(map.find(Mode::Insert, &keys("x")), Some(1));
    map.bind(Mode::Normal, keys("x"), Command::DeleteLine);
    assert_eq!(map.len(), 2);
    assert_eq!(map.find(Mode::Normal, &keys("x")), Some(0));
    assert_eq!(map.resolve(Mode::Normal, &keys("x")), Resolution::Complete(Command::DeleteLine));
    assert_eq!(map.resolve(Mode::Insert, &keys("x")), Resolution::Complete(Command::Quit));
}

#[test]
fn d_then_d_and_d_then_w_fire_only_when_complete() {
    let map = Keymap::standard();
    let mut state = KeyState::new();
    assert_eq!(state.feed(&map, KeyEvent::typed('d')), Ok(None));
    assert_eq!(state.pending_keys(), &keys("d"));
    assert!(!state.is_idle());
    assert_eq!(
        state.feed(&map, KeyEvent::typed('d')),
        Ok(Some(Instruction { repeat_count: 1, command: Command::DeleteLine }))
    );
    assert!(state.is_idle());
    assert_eq!(state.feed(&map, KeyEvent::typed('d')), Ok(None));
    assert_eq!(
        state.feed(&map, KeyEvent::typed('w')),
        Ok(Some(Instruction { repeat_count: 1, command: Command::DeleteWord }))
    );
    assert!(state.is_idle());
}

#[test]
fn digits_make_the_repeat_count() {
    let map = Keymap::standard();
    let mut state = KeyState::new();
    assert_eq!(
        feed_all(&mut state, &map, "3j"),
        vec![Ok(None), Ok(Some(Instruction { repeat_count: 3, command: Command::Move(Direction::Down) }))]
    );
    assert_eq!(
        feed_all(&mut state, &map, "105l").last(),
        Some(&Ok(Some(Instruction { repeat_count: 105, command: Command::Move(Direction::Right) })))
    );
    assert_eq!(
        feed_all(&mut state, &map, "2dd").last(),
        Some(&Ok(Some(Instruction { repeat_count: 2, command: Command::DeleteLine })))
    );
    assert!(state.is_idle());
}

#[test]
fn a_leading_zero_is_a_command() {
    let map = Keymap::standard();
    let mut state = KeyState::new();
    assert_eq!(
        state.feed(&map, KeyEvent::typed('0')),
        Ok(Some(Instruction { repeat_count: 1, command: Command::LineStart }))
    );
    assert_eq!(state.pending_count(), 0);
}

#[test]
fn the_repeat_count_stops_at_the_largest_size() {
    let map = Keymap::standard();
    let mut state = KeyState::new();
    for _ in 0..40 {
        assert_eq!(state.feed(&map, KeyEvent::typed('9')), Ok(None));
    }
    assert_eq!(state.pending_count(), usize::MAX);
    assert_eq!(
        state.feed(&map, KeyEvent::typed('k')),
        Ok(Some(Instruction { repeat_count: usize::MAX, command: Command::Move(Direction::Up) }))
    );
}

#[test]
fn digits_are_keys_once_a_sequence_has_begun() {
    let map = Keymap::standard();
    let mut state = KeyState::new();
    assert_eq!(
        feed_all(&mut state, &map, "d2"),
        vec![Ok(None), Err(EditorError::ParseUnrecognized)]
    );
    assert!(state.is_idle());
}

#[test]
fn escape_cancels_what_is_pending() {
    let map = Keymap::standard();
    let mut state = KeyState::new();
    state.feed(&map, KeyEvent::typed('4')).unwrap();
    state.feed(&map, KeyEvent::typed('d')).unwrap();
    assert_eq!(state.feed(&map, escape()), Err(EditorError::ParseAmbiguous));
    assert!(state.is_idle());
    state.feed(&map, KeyEvent::typed('4')).unwrap();
    assert_eq!(state.pending_count(), 4);
    assert_eq!(state.feed(&map, escape()), Ok(None));
    assert!(state.is_idle());
    assert_eq!(state.feed(&map, escape()), Err(EditorError::ParseUnrecognized));
}

#[test]
fn an_unrecognized_sequence_is_discarded() {
    let map = Keymap::standard();
    let mut state = KeyState::new();
    assert_eq!(
        feed_all(&mut state, &map, "7gq"),
        vec![Ok(None), Ok(None), Err(EditorError::ParseUnrecognized)]
    );
    assert!(state.is_idle());
    assert_eq!(
        state.feed(&map, KeyEvent::typed('x')),
        Ok(Some(Instruction { repeat_count: 1, command: Command::DeleteChar }))
    );
}

#[test]
fn in_insert_mode_digits_and_escape_are_ordinary_keys() {
    let map = Keymap::standard();
    let mut state = KeyState::new();
    state.set_mode(Mode::Insert);
    assert_eq!(state.mode(), Mode::Insert);
    assert_eq!(
        state.feed(&map, KeyEvent::typed('3')),
        Ok(Some(Instruction { repeat_count: 1, command: Command::InsertChar('3') }))
    );
    assert_eq!(
        state.feed(&map, escape()),
        Ok(Some(Instruction { repeat_count: 1, command: Command::SetMode(Mode::Normal) }))
    );
}

#[test]
fn a_change_of_mode_discards_what_is_pending() {
    let map = Keymap::standard();
    let mut state = KeyState::new();
    feed_all(&mut state, &map, "12d");
    state.set_mode(Mode::Normal);
    assert_eq!(state.pending_count(), 12);
    assert_eq!(state.pending_keys(), &keys("d"));
    state.set_mode(Mode::Insert);
    assert!(state.is_idle());
    assert_eq!(state.mode(), Mode::Insert);
}

#[test]
fn instruction_helpers() {
    assert_eq!(
        Instruction::once(Command::Quit),
        Instruction { repeat_count: 1, command: Command::Quit }
    );
    assert!(Instruction::once(Command::Quit).is_quit());
    assert!(!Instruction::once(Command::Save).is_quit());
}

#[test]
fn options_start_with_their_initial_values() {
    let o = Options::new();
    assert_eq!(o.get(Setting::TabWidth), Value::Number(4));
    assert_eq!(o.get(Setting::UseSpaces), Value::Flag(true));
    assert_eq!(o.get(Setting::LineEnding), Value::Ending(LineEnding::Lf));
    assert_eq!(o.get(Setting::LineNumbers), Value::Flag(false));
}

#[test]
fn options_set_takes_values_of_the_right_kind_only() {
    let mut o = Options::new();
    assert!(o.set(Setting::TabWidth, Value::Number(8)));
    assert_eq!(o.tab_width, 8);
    assert!(!o.set(Setting::TabWidth, Value::Flag(true)));
    assert_eq!(o.tab_width, 8);
    assert!(o.set(Setting::LineEnding, Value::Ending(LineEnding::CrLf)));
    assert_eq!(o.line_ending, LineEnding::CrLf);
    assert!(!o.set(Setting::UseSpaces, Value::Number(1)));
    assert!(o.use_spaces);
    assert!(o.set(Setting::LineNumbers, Value::Flag(true)));
    assert!(o.line_numbers);
}

#[test]
fn options_toggle_turns_flags_over() {
    let mut o = Options::new();
    assert!(o.toggle(Setting::UseSpaces));
    assert!(!o.use_spaces);
    assert!(o.toggle(Setting::UseSpaces));
    assert!(o.use_spaces);
    assert!(!o.toggle(Setting::TabWidth));
    assert_eq!(o, Options::new());
}

#[test]
fn error_messages_and_reporting() {
    assert!(EditorError::OutOfBounds.reported());
    assert!(EditorError::LoadError.reported());
    assert!(EditorError::SaveError.reported());
    assert!(!EditorError::ParseAmbiguous.reported());
    assert!(!EditorError::ParseUnrecognized.reported());
    assert_eq!(EditorError::LoadError.message(), "Could not read the file");
    assert_eq!(EditorError::SaveError.message(), "Could not write the file");
    assert_eq!(EditorError::OutOfBounds.message(), "Position out of bounds");
    assert_eq!(EditorError::ParseAmbiguous.message(), "");
}

#[test]
fn terminal_characters_become_key_events() {
    assert_eq!(KeyEvent::from_char('a'), KeyEvent::typed('a'));
    assert_eq!(KeyEvent::from_char('Z'), KeyEvent::typed('Z'));
    assert_eq!(KeyEvent::from_char('é'), KeyEvent::typed('é'));
    assert_eq!(KeyEvent::from_char('\u{1b}'), KeyEvent::plain(Key::Escape));
    assert_eq!(KeyEvent::from_char('\r'), KeyEvent::plain(Key::Enter));
    assert_eq!(KeyEvent::from_char('\n'), KeyEvent::plain(Key::Enter));
    assert_eq!(KeyEvent::from_char('\u{7f}'), KeyEvent::plain(Key::Backspace));
    assert_eq!(KeyEvent::from_char('\u{8}'), KeyEvent::plain(Key::Backspace));
    assert_eq!(KeyEvent::from_char('\t'), KeyEvent::plain(Key::Tab));
    assert_eq!(KeyEvent::from_char('\u{1}'), KeyEvent::with_ctrl(Key::Char('a')));
    assert_eq!(KeyEvent::from_char('\u{11}'), KeyEvent::with_ctrl(Key::Char('q')));
    assert_eq!(KeyEvent::from_char('\u{17}'), KeyEvent::with_ctrl(Key::Char('w')));
    assert_eq!(KeyEvent::from_char('\u{1a}'), KeyEvent::with_ctrl(Key::Char('z')));
    assert_eq!(KeyEvent::from_char('\u{0}'), KeyEvent::typed('\u{0}'));
    assert_eq!(KeyEvent::from_char('\u{1c}'), KeyEvent::typed('\u{1c}'));
}

#[test]
fn prompt_lines_set_options() {
    let line = |s: &str| command_of(&s.chars().collect::<Vec<char>>());
    assert_eq!(line("set tab_width 8"), Some(Command::SetOption(Setting::TabWidth, Value::Number(8))));
    assert_eq!(line("set tab_width 08"), Some(Command::SetOption(Setting::TabWidth, Value::Number(8))));
    assert_eq!(line("set tab_width 0"), Some(Command::SetOption(Setting::TabWidth, Value::Number(0))));
    assert_eq!(line("set tab_width 120"), Some(Command::SetOption(Setting::TabWidth, Value::Number(120))));
    assert_eq!(line("set use_spaces on"), Some(Command::SetOption(Setting::UseSpaces, Value::Flag(true))));
    assert_eq!(line("set use_spaces off"), Some(Command::SetOption(Setting::UseSpaces, Value::Flag(false))));
    assert_eq!(line("set line_numbers on"), Some(Command::SetOption(Setting::LineNumbers, Value::Flag(true))));
    assert_eq!(
        line("set line_ending crlf"),
        Some(Command::SetOption(Setting::LineEnding, Value::Ending(LineEnding::CrLf)))
    );
    assert_eq!(
        line("set line_ending lf"),
        Some(Command::SetOption(Setting::LineEnding, Value::Ending(LineEnding::Lf)))
    );
}

#[test]
fn prompt_lines_that_set_nothing() {
    let line = |s: &str| command_of(&s.chars().collect::<Vec<char>>());
    for bad in [
        "set",
        "set ",
        "setx",
        "set tab_width",
        "set tab_width ",
        "set tab_width x",
        "set tab_width 8 ",
        "set tab_width -1",
        "set tab_width 4x",
        "set  tab_width 8",
        "set use_spaces yes",
        "set use_spaces",
        "set line_ending CRLF",
        "set line_numbers 1",
        "set colour on",
        " set tab_width 8",
    ] {
        assert_eq!(line(bad), None, "{:?}", bad);
    }
}

#[test]
fn numbers_at_the_prompt_have_to_fit_a_machine_size() {
    let line = |s: String| command_of(&s.chars().collect::<Vec<char>>());
    assert_eq!(
        line(format!("set tab_width {}", usize::MAX)),
        Some(Command::SetOption(Setting::TabWidth, Value::Number(usize::MAX)))
    );
    assert_eq!(line(format!("set tab_width {}0", usize::MAX)), None);
    assert_eq!(line(format!("set tab_width {}", usize::MAX as u128 + 1)), None);
    assert_eq!(
        line(format!("set tab_width 000{}", usize::MAX)),
        Some(Command::SetOption(Setting::TabWidth, Value::Number(usize::MAX)))
    );
}
