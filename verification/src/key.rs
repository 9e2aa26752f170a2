//! Keys as they come from the input source, and the commands they become.

use crate::cursor::{Direction, Mode};
use crate::options::{Setting, Value};
use crate::split::Orientation;
use vstd::prelude::*;

verus! {

/// What was pressed.
#[derive(Clone, Copy, Debug, PartialEq, Eq, Structural)]
pub enum Key {
    Char(char),
    Escape,
    Enter,
    Backspace,
    Tab,
    Left,
    Right,
    Up,
    Down,
}

/// One key event: the key and the modifier keys held with it.
#[derive(Clone, Copy, Debug, PartialEq, Eq, Structural)]
pub struct KeyEvent {
    pub key: Key,
    pub ctrl: bool,
    pub alt: bool,
}

/// What an instruction does.
#[derive(Clone, Copy, Debug, PartialEq, Eq, Structural)]
pub enum Command {
    /// Move the cursor; the repeat count is the number of steps.
    Move(Direction),
    /// Move to the first column of the line.
    LineStart,
    /// Move behind the last character of the line.
    LineEnd,
    /// Move to the start of a line further down.
    NextLine,
    /// Move to the start of a line further up.
    PrevLine,
    /// Change the mode of the cursor.
    SetMode(Mode),
    /// Insert a character at the cursor.
    InsertChar(char),
    /// Delete the characters before the cursor.
    Backspace,
    /// Delete the characters at the cursor, up to the end of the line.
    DeleteChar,
    /// Delete the line of the cursor and the lines that follow it.
    DeleteLine,
    /// Delete from the cursor to the start of the next word of the line.
    DeleteWord,
    /// Delete the selected text.
    DeleteSelection,
    /// Divide the focused viewport.
    Split(Orientation),
    /// Close the focused viewport.
    CloseViewport,
    /// Give the focus to the next viewport.
    NextViewport,
    /// Add a cursor at the place of the current one.
    AddCursor,
    /// Remove the current cursor, unless it is the only one.
    RemoveCursor,
    /// Make the next cursor the current one.
    NextCursor,
    /// Do the previous instruction again.
    RepeatLast,
    /// Append a character to the prompt.
    PromptChar(char),
    /// Remove the last character of the prompt.
    PromptErase,
    /// Carry out what the prompt holds.
    PromptSubmit,
    /// Give a setting a value.
    SetOption(Setting, Value),
    /// Write the buffer to its file.
    Save,
    /// Leave the editor.
    Quit,
}

/// What a command works on.
#[derive(Clone, Copy, Debug, PartialEq, Eq, Structural)]
pub enum CommandKind {
    /// The place of the cursor.
    Motion,
    /// The text of the buffer.
    Edit,
    /// The viewports and the cursors.
    Arrangement,
    /// The mode, the prompt, or the editor as a whole.
    Control,
}

/// A command with its repeat count. The count is 1 where none was typed.
#[derive(Clone, Copy, Debug, PartialEq, Eq, Structural)]
pub struct Instruction {
    pub repeat_count: usize,
    pub command: Command,
}

impl Command {
    /// What the command works on.
    pub open spec fn kind_of(self) -> CommandKind {
        match self {
            Command::Move(_) => CommandKind::Motion,
            Command::LineStart => CommandKind::Motion,
            Command::LineEnd => CommandKind::Motion,
            Command::NextLine => CommandKind::Motion,
            Command::PrevLine => CommandKind::Motion,
            Command::InsertChar(_) => CommandKind::Edit,
            Command::Backspace => CommandKind::Edit,
            Command::DeleteChar => CommandKind::Edit,
            Command::DeleteLine => CommandKind::Edit,
            Command::DeleteWord => CommandKind::Edit,
            Command::DeleteSelection => CommandKind::Edit,
            Command::Split(_) => CommandKind::Arrangement,
            Command::CloseViewport => CommandKind::Arrangement,
            Command::NextViewport => CommandKind::Arrangement,
            Command::AddCursor => CommandKind::Arrangement,
            Command::RemoveCursor => CommandKind::Arrangement,
            Command::NextCursor => CommandKind::Arrangement,
            _ => CommandKind::Control,
        }
    }

    /// What the command works on.
    pub fn kind(self) -> (k: CommandKind)
        ensures
            k == self.kind_of(),
    {
        match self {
            Command::Move(_) => CommandKind::Motion,
            Command::LineStart => CommandKind::Motion,
            Command::LineEnd => CommandKind::Motion,
            Command::NextLine => CommandKind::Motion,
            Command::PrevLine => CommandKind::Motion,
            Command::InsertChar(_) => CommandKind::Edit,
            Command::Backspace => CommandKind::Edit,
            Command::DeleteChar => CommandKind::Edit,
            Command::DeleteLine => CommandKind::Edit,
            Command::DeleteWord => CommandKind::Edit,
            Command::DeleteSelection => CommandKind::Edit,
            Command::Split(_) => CommandKind::Arrangement,
            Command::CloseViewport => CommandKind::Arrangement,
            Command::NextViewport => CommandKind::Arrangement,
            Command::AddCursor => CommandKind::Arrangement,
            Command::RemoveCursor => CommandKind::Arrangement,
            Command::NextCursor => CommandKind::Arrangement,
            _ => CommandKind::Control,
        }
    }
}

impl Key {
    /// The value of the decimal digit that the key types, if it types one.
    pub open spec fn digit_value(self) -> Option<int> {
        match self {
            Key::Char(c) => if '0' <= c && c <= '9' {
                Some(c as int - '0' as int)
            } else {
                None
            },
            _ => None,
        }
    }

    /// The value of the decimal digit that the key types, if it types one.
    pub fn digit(self) -> (r: Option<u8>)
        ensures
            r is Some <==> self.digit_value() is Some,
            r matches Some(d) ==> d == self.digit_value()->Some_0 && d <= 9,
    {
        match self {
            Key::Char(c) => if '0' <= c && c <= '9' {
                Some((c as u32 - '0' as u32) as u8)
            } else {
                None
            },
            _ => None,
        }
    }
}

impl KeyEvent {
    /// The event of `key` pressed alone.
    #[verifier::when_used_as_spec(spec_plain)]
    pub fn plain(key: Key) -> (e: KeyEvent)
        ensures
            e == KeyEvent::spec_plain(key),
    {
        KeyEvent { key, ctrl: false, alt: false }
    }

    /// The value of `plain`.
    pub open spec fn spec_plain(key: Key) -> KeyEvent {
        KeyEvent { key, ctrl: false, alt: false }
    }

    /// The event of `key` pressed with the control key.
    #[verifier::when_used_as_spec(spec_with_ctrl)]
    pub fn with_ctrl(key: Key) -> (e: KeyEvent)
        ensures
            e == KeyEvent::spec_with_ctrl(key),
    {
        KeyEvent { key, ctrl: true, alt: false }
    }

    /// The value of `with_ctrl`.
    pub open spec fn spec_with_ctrl(key: Key) -> KeyEvent {
        KeyEvent { key, ctrl: true, alt: false }
    }

    /// The event of typing `c`.
    #[verifier::when_used_as_spec(spec_typed)]
    pub fn typed(c: char) -> (e: KeyEvent)
        ensures
            e == KeyEvent::spec_typed(c),
    {
        KeyEvent { key: Key::Char(c), ctrl: false, alt: false }
    }

    /// The value of `typed`.
    pub open spec fn spec_typed(c: char) -> KeyEvent {
        KeyEvent { key: Key::Char(c), ctrl: false, alt: false }
    }

    /// The key event that a character from a terminal stands for: the
    /// escape, return, line feed, delete, backspace and tab characters are
    /// their keys, the other control characters from 1 to 26 are the
    /// letters `a` to `z` with the control key, and every other character
    /// is itself, typed.
    pub open spec fn of_char(c: char) -> KeyEvent {
        if c == '\u{1b}' {
            KeyEvent::spec_plain(Key::Escape)
        } else if c == '\r' || c == '\n' {
            KeyEvent::spec_plain(Key::Enter)
        } else if c == '\u{7f}' || c == '\u{8}' {
            KeyEvent::spec_plain(Key::Backspace)
        } else if c == '\t' {
            KeyEvent::spec_plain(Key::Tab)
        } else if 1 <= c as u32 <= 26 {
            KeyEvent::spec_with_ctrl(Key::Char((c as u32 + 96) as char))
        } else {
            KeyEvent::spec_typed(c)
        }
    }

    /// The key event that a character from a terminal stands for.
    pub fn from_char(c: char) -> (e: KeyEvent)
        ensures
            e == KeyEvent::of_char(c),
    {
        if c == '\u{1b}' {
            KeyEvent::plain(Key::Escape)
        } else if c == '\r' || c == '\n' {
            KeyEvent::plain(Key::Enter)
        } else if c == '\u{7f}' || c == '\u{8}' {
            KeyEvent::plain(Key::Backspace)
        } else if c == '\t' {
            KeyEvent::plain(Key::Tab)
        } else if 1 <= c as u32 && c as u32 <= 26 {
            KeyEvent::with_ctrl(Key::Char((c as u8 + 96) as char))
        } else {
            KeyEvent::typed(c)
        }
    }

    /// No modifier key is held.
    pub open spec fn is_plain(self) -> bool {
        !self.ctrl && !self.alt
    }

    /// The event cancels what is pending: the escape key pressed alone.
    pub open spec fn is_cancel(self) -> bool {
        self.key == Key::Escape && self.is_plain()
    }

    /// Whether the event cancels what is pending.
    pub fn cancels(self) -> (r: bool)
        ensures
            r == self.is_cancel(),
    {
        self.key == Key::Escape && !self.ctrl && !self.alt
    }
}

impl Instruction {
    /// `command`, once.
    pub fn once(command: Command) -> (i: Instruction)
        ensures
            i == (Instruction { repeat_count: 1, command }),
    {
        Instruction { repeat_count: 1, command }
    }

    /// Whether this is the instruction to leave the editor.
    pub fn is_quit(&self) -> (r: bool)
        ensures
            r == (self.command == Command::Quit),
    {
        self.command == Command::Quit
    }
}

} // verus!
