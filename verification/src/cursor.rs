//! An editing position in a buffer, with its mode and its sticky column.

use crate::buffer::{holds, Buffer, Position, Span};
use vstd::prelude::*;

verus! {

/// The interaction state of a cursor.
#[derive(Clone, Copy, Debug, PartialEq, Eq, Structural)]
pub enum Mode {
    /// Keys are commands.
    Normal,
    /// Keys are text.
    Insert,
    /// Movement extends a selection.
    Select,
    /// Keys go to the prompt.
    Command,
}

/// The four directions a cursor moves in.
#[derive(Clone, Copy, Debug, PartialEq, Eq, Structural)]
pub enum Direction {
    Left,
    Right,
    Up,
    Down,
}

/// One editing position. A cursor names its buffer by index and owns
/// nothing of it.
#[derive(Clone, Copy, Debug, PartialEq, Eq, Structural)]
pub struct Cursor {
    /// Which of the open buffers this cursor is in.
    pub buffer_index: usize,
    /// The column, from 0 to the length of line `y`.
    pub x: usize,
    /// The line.
    pub y: usize,
    /// The interaction state.
    pub mode: Mode,
    /// The column that vertical movement aims for. Horizontal movement sets
    /// it; vertical movement keeps it, also across lines too short for it.
    pub desired_x: usize,
    /// Where the selection began. It has a meaning in `Select` mode only.
    pub anchor: Position,
}

/// The lesser of two integers.
pub open spec fn least(a: int, b: int) -> int {
    if a <= b {
        a
    } else {
        b
    }
}

/// `a - b`, but not below zero.
pub open spec fn minus(a: int, b: int) -> int {
    if a >= b {
        a - b
    } else {
        0
    }
}

/// The place in `lines` nearest to `(x, y)`: the line is pulled up to the
/// last line, then the column is pulled back to the end of that line.
pub open spec fn nearest(lines: Seq<Seq<char>>, x: int, y: int) -> (int, int) {
    let line = least(y, lines.len() - 1);
    (least(x, lines[line].len() as int), line)
}

impl Mode {
    /// The transitions of the mode machine: `Normal` and `Insert` lead to
    /// each other, `Insert` and `Select` lead to each other, and `Command`
    /// is entered from `Normal` and left to `Normal`. Staying is allowed.
    pub open spec fn leads_to(self, next: Mode) -> bool {
        self == next || match (self, next) {
            (Mode::Normal, Mode::Insert) => true,
            (Mode::Insert, Mode::Normal) => true,
            (Mode::Insert, Mode::Select) => true,
            (Mode::Select, Mode::Insert) => true,
            (Mode::Normal, Mode::Command) => true,
            (Mode::Command, Mode::Normal) => true,
            _ => false,
        }
    }

    /// Whether the mode machine has a transition from `self` to `next`.
    pub fn can_become(self, next: Mode) -> (r: bool)
        ensures
            r == self.leads_to(next),
    {
        match (self, next) {
            (Mode::Normal, Mode::Normal) => true,
            (Mode::Normal, Mode::Insert) => true,
            (Mode::Normal, Mode::Command) => true,
            (Mode::Insert, Mode::Insert) => true,
            (Mode::Insert, Mode::Normal) => true,
            (Mode::Insert, Mode::Select) => true,
            (Mode::Select, Mode::Select) => true,
            (Mode::Select, Mode::Insert) => true,
            (Mode::Command, Mode::Command) => true,
            (Mode::Command, Mode::Normal) => true,
            _ => false,
        }
    }

    /// The name of the mode as the status bar shows it.
    pub open spec fn label_text(self) -> Seq<char> {
        match self {
            Mode::Normal => "Normal"@,
            Mode::Insert => "Insert"@,
            Mode::Select => "Select"@,
            Mode::Command => "Command"@,
        }
    }

    /// The name of the mode as the status bar shows it.
    pub fn label(self) -> (s: &'static str)
        ensures
            s@ == self.label_text(),
    {
        match self {
            Mode::Normal => "Normal",
            Mode::Insert => "Insert",
            Mode::Select => "Select",
            Mode::Command => "Command",
        }
    }

    /// `Command` is entered from `Normal` only, and left to `Normal` only.
    pub proof fn lemma_command_borders_normal(other: Mode)
        ensures
            other.leads_to(Mode::Command) <==> other == Mode::Normal || other == Mode::Command,
            Mode::Command.leads_to(other) <==> other == Mode::Normal || other == Mode::Command,
    {
    }
}

impl Direction {
    /// `Up` and `Down`.
    pub open spec fn is_vertical(self) -> bool {
        self == Direction::Up || self == Direction::Down
    }
}

impl Cursor {
    /// The cursor stands at a place of `lines`.
    pub open spec fn in_bounds(self, lines: Seq<Seq<char>>) -> bool {
        holds(lines, self.x as int, self.y as int)
    }

    /// The place of the cursor.
    pub open spec fn place(self) -> Position {
        Position { x: self.x, y: self.y }
    }

    /// The cursor pulled to the nearest place of `lines`. The sticky column
    /// stays.
    pub open spec fn clamped(self, lines: Seq<Seq<char>>) -> Cursor {
        let (x, y) = nearest(lines, self.x as int, self.y as int);
        Cursor { x: x as usize, y: y as usize, ..self }
    }

    /// The cursor at `(x, y)`, with the sticky column set to `x`.
    pub open spec fn put(self, x: int, y: int) -> Cursor {
        Cursor { x: x as usize, y: y as usize, desired_x: x as usize, ..self }
    }

    /// The cursor after `count` steps in `direction`.
    ///
    /// The cursor is first pulled into `lines`. A horizontal move stops at
    /// the ends of the line and sets the sticky column to where it stopped. A
    /// vertical move stops at the first and the last line and takes the
    /// sticky column as far as the new line reaches.
    pub open spec fn moved(self, lines: Seq<Seq<char>>, direction: Direction, count: int) -> Cursor {
        let from = self.clamped(lines);
        match direction {
            Direction::Left => from.put(minus(from.x as int, count), from.y as int),
            Direction::Right => from.put(
                least(from.x + count, lines[from.y as int].len() as int),
                from.y as int,
            ),
            Direction::Up => {
                let y = minus(from.y as int, count);
                Cursor {
                    x: least(from.desired_x as int, lines[y].len() as int) as usize,
                    y: y as usize,
                    ..from
                }
            },
            Direction::Down => {
                let y = least(from.y + count, lines.len() - 1);
                Cursor {
                    x: least(from.desired_x as int, lines[y].len() as int) as usize,
                    y: y as usize,
                    ..from
                }
            },
        }
    }

    /// The cursor at the first column of its line.
    pub open spec fn at_line_start(self, lines: Seq<Seq<char>>) -> Cursor {
        let from = self.clamped(lines);
        from.put(0, from.y as int)
    }

    /// The cursor behind the last character of its line.
    pub open spec fn at_line_end(self, lines: Seq<Seq<char>>) -> Cursor {
        let from = self.clamped(lines);
        from.put(lines[from.y as int].len() as int, from.y as int)
    }

    /// The cursor at the first column of the line `count` lines further
    /// down, or of the last line.
    pub open spec fn at_next_line(self, lines: Seq<Seq<char>>, count: int) -> Cursor {
        let down = self.moved(lines, Direction::Down, count);
        down.put(0, down.y as int)
    }

    /// The cursor at the first column of the line `count` lines further
    /// up, or of the first line.
    pub open spec fn at_prev_line(self, lines: Seq<Seq<char>>, count: int) -> Cursor {
        let up = self.moved(lines, Direction::Up, count);
        up.put(0, up.y as int)
    }

    /// The cursor with `mode` as its mode, where the mode machine allows
    /// the transition, and unchanged where it does not. Entering `Select`
    /// from another mode drops the anchor at the cursor.
    pub open spec fn with_mode(self, mode: Mode) -> Cursor {
        if !self.mode.leads_to(mode) {
            self
        } else if mode == Mode::Select && self.mode != Mode::Select {
            Cursor { mode, anchor: self.place(), ..self }
        } else {
            Cursor { mode, ..self }
        }
    }

    /// The selected span: from the anchor, pulled into `lines`, to the
    /// cursor, whichever of the two comes first.
    pub open spec fn selected(self, lines: Seq<Seq<char>>) -> Span {
        let (ax, ay) = nearest(lines, self.anchor.x as int, self.anchor.y as int);
        let anchor = Position { x: ax as usize, y: ay as usize };
        if anchor.not_behind(self.place()) {
            Span { start: anchor, end: self.place() }
        } else {
            Span { start: self.place(), end: anchor }
        }
    }

    /// A cursor at the start of buffer 0, in `Normal` mode.
    pub fn new() -> (c: Cursor)
        ensures
            c == Cursor::at(0, 0, 0),
    {
        Cursor::at(0, 0, 0)
    }

    /// A cursor in buffer `buffer_index` at column `x` of line `y`, in
    /// `Normal` mode, with `x` as its sticky column.
    #[verifier::when_used_as_spec(spec_at)]
    pub fn at(buffer_index: usize, x: usize, y: usize) -> (c: Cursor)
        ensures
            c == Cursor::spec_at(buffer_index, x, y),
    {
        Cursor {
            buffer_index,
            x,
            y,
            mode: Mode::Normal,
            desired_x: x,
            anchor: Position { x, y },
        }
    }

    /// The value of `at`.
    pub open spec fn spec_at(buffer_index: usize, x: usize, y: usize) -> Cursor {
        Cursor {
            buffer_index,
            x,
            y,
            mode: Mode::Normal,
            desired_x: x,
            anchor: Position { x, y },
        }
    }

    /// The place of the cursor.
    pub fn position(&self) -> (p: Position)
        ensures
            p == self.place(),
    {
        Position { x: self.x, y: self.y }
    }

    /// Whether the cursor stands at a place of `buffer`.
    pub fn is_within(&self, buffer: &Buffer) -> (r: bool)
        ensures
            r == self.in_bounds(buffer@),
    {
        buffer.has_position(self.position())
    }

    /// Pulls the cursor to the nearest place of `buffer`: to the last line
    /// where it stands below it, then to the end of its line where it
    /// stands behind it. A cursor at a place of the buffer stays as it is.
    pub fn clamp_to(&mut self, buffer: &Buffer)
        requires
            buffer.wf(),
        ensures
            *final(self) == old(self).clamped(buffer@),
            final(self).in_bounds(buffer@),
            old(self).in_bounds(buffer@) ==> *final(self) == *old(self),
    {
        let count = buffer.line_count();
        if self.y >= count {
            self.y = count - 1;
        }
        let len = buffer.length_of(self.y);
        if self.x > len {
            self.x = len;
        }
    }

    /// Moves the cursor `count` steps in `direction` and leaves it at a
    /// place of `buffer`.
    ///
    /// Horizontal movement stops at the ends of the line; it never goes on
    /// to a neighbouring line. Vertical movement keeps the sticky column:
    /// on a shorter line the cursor stands at its end, and on the next line
    /// that is long enough it stands in the sticky column again.
    pub fn move_by(&mut self, buffer: &Buffer, direction: Direction, count: usize)
        requires
            buffer.wf(),
        ensures
            *final(self) == old(self).moved(buffer@, direction, count as int),
            final(self).in_bounds(buffer@),
    {
        self.clamp_to(buffer);
        match direction {
            Direction::Left => {
                self.x = if self.x >= count {
                    self.x - count
                } else {
                    0
                };
                self.desired_x = self.x;
            },
            Direction::Right => {
                let room = buffer.length_of(self.y) - self.x;
                self.x = if count < room {
                    self.x + count
                } else {
                    self.x + room
                };
                self.desired_x = self.x;
            },
            Direction::Up => {
                self.y = if self.y >= count {
                    self.y - count
                } else {
                    0
                };
                let len = buffer.length_of(self.y);
                self.x = if self.desired_x <= len {
                    self.desired_x
                } else {
                    len
                };
            },
            Direction::Down => {
                let room = buffer.line_count() - 1 - self.y;
                self.y = if count < room {
                    self.y + count
                } else {
                    self.y + room
                };
                let len = buffer.length_of(self.y);
                self.x = if self.desired_x <= len {
                    self.desired_x
                } else {
                    len
                };
            },
        }
    }

    /// Puts the cursor at the place of `buffer` nearest to `pos` and sets
    /// the sticky column to where it stands then.
    pub fn go_to(&mut self, buffer: &Buffer, pos: Position)
        requires
            buffer.wf(),
        ensures
            *final(self) == old(self).put(
                nearest(buffer@, pos.x as int, pos.y as int).0,
                nearest(buffer@, pos.x as int, pos.y as int).1,
            ),
            final(self).in_bounds(buffer@),
            pos.within(buffer@) ==> final(self).place() == pos,
    {
        self.x = pos.x;
        self.y = pos.y;
        self.clamp_to(buffer);
        self.desired_x = self.x;
    }

    /// Moves to the first column of the line.
    pub fn line_start(&mut self, buffer: &Buffer)
        requires
            buffer.wf(),
        ensures
            *final(self) == old(self).at_line_start(buffer@),
            final(self).in_bounds(buffer@),
    {
        self.clamp_to(buffer);
        self.x = 0;
        self.desired_x = 0;
    }

    /// Moves behind the last character of the line.
    pub fn line_end(&mut self, buffer: &Buffer)
        requires
            buffer.wf(),
        ensures
            *final(self) == old(self).at_line_end(buffer@),
            final(self).in_bounds(buffer@),
    {
        self.clamp_to(buffer);
        self.x = buffer.length_of(self.y);
        self.desired_x = self.x;
    }

    /// Moves to the first column of the line `count` lines further down,
    /// or of the last line where the buffer ends before that. This is the
    /// one way a cursor gets from the end of a line to the next line: moving
    /// right never does it.
    pub fn next_line_start(&mut self, buffer: &Buffer, count: usize)
        requires
            buffer.wf(),
        ensures
            *final(self) == old(self).at_next_line(buffer@, count as int),
            final(self).in_bounds(buffer@),
    {
        self.move_by(buffer, Direction::Down, count);
        self.x = 0;
        self.desired_x = 0;
    }

    /// Moves to the first column of the line `count` lines further up, or
    /// of the first line where the buffer begins before that.
    pub fn prev_line_start(&mut self, buffer: &Buffer, count: usize)
        requires
            buffer.wf(),
        ensures
            *final(self) == old(self).at_prev_line(buffer@, count as int),
            final(self).in_bounds(buffer@),
    {
        self.move_by(buffer, Direction::Up, count);
        self.x = 0;
        self.desired_x = 0;
    }

    /// Changes the mode where the mode machine has the transition, and
    /// says whether it has. Entering `Select` drops the anchor at the
    /// cursor. A refused change leaves the cursor as it is.
    pub fn set_mode(&mut self, mode: Mode) -> (changed: bool)
        ensures
            changed == old(self).mode.leads_to(mode),
            *final(self) == old(self).with_mode(mode),
            final(self).x == old(self).x,
            final(self).y == old(self).y,
    {
        if !self.mode.can_become(mode) {
            return false;
        }
        if mode == Mode::Select && self.mode != Mode::Select {
            self.anchor = self.position();
        }
        self.mode = mode;
        true
    }

    /// The selection: `None` outside `Select` mode, and in it the span
    /// between the anchor and the cursor.
    pub fn selection(&self, buffer: &Buffer) -> (r: Option<Span>)
        requires
            buffer.wf(),
        ensures
            self.mode != Mode::Select ==> r == None::<Span>,
            self.mode == Mode::Select ==> r == Some(self.selected(buffer@)),
            self.mode == Mode::Select && self.in_bounds(buffer@) ==> r->Some_0.within(buffer@),
    {
        if self.mode != Mode::Select {
            return None;
        }
        let mut anchor = self.anchor;
        let count = buffer.line_count();
        if anchor.y >= count {
            anchor.y = count - 1;
        }
        let len = buffer.length_of(anchor.y);
        if anchor.x > len {
            anchor.x = len;
        }
        Some(Span::between(anchor, self.position()))
    }

    /// A move from a place of the buffer ends at a place of the buffer, and
    /// pulling the cursor into the buffer afterwards changes nothing.
    pub proof fn lemma_move_stays_in_bounds(
        self,
        buffer: Buffer,
        direction: Direction,
        count: usize,
    )
        requires
            buffer.wf(),
            self.in_bounds(buffer@),
        ensures
            self.moved(buffer@, direction, count as int).in_bounds(buffer@),
            self.moved(buffer@, direction, count as int).clamped(buffer@).in_bounds(buffer@),
            self.moved(buffer@, direction, count as int).clamped(buffer@) == self.moved(
                buffer@,
                direction,
                count as int,
            ),
    {
        buffer.lemma_lengths_fit();
    }

    /// Pulling any cursor into a buffer leaves it at a place of the buffer,
    /// and doing so twice is doing so once.
    pub proof fn lemma_clamped_in_bounds(self, buffer: Buffer)
        requires
            buffer.wf(),
        ensures
            self.clamped(buffer@).in_bounds(buffer@),
            self.clamped(buffer@).clamped(buffer@) == self.clamped(buffer@),
            self.in_bounds(buffer@) ==> self.clamped(buffer@) == self,
    {
        buffer.lemma_lengths_fit();
    }

    /// The sticky column: two vertical moves in a row, over lines of any
    /// lengths, leave the sticky column as it was, and leave the cursor in
    /// that column wherever the line it ends on is long enough, and at the
    /// end of that line otherwise.
    pub proof fn lemma_vertical_moves_keep_column(
        self,
        buffer: Buffer,
        first: Direction,
        first_count: usize,
        second: Direction,
        second_count: usize,
    )
        requires
            buffer.wf(),
            self.in_bounds(buffer@),
            first.is_vertical(),
            second.is_vertical(),
        ensures
            ({
                let end = self.moved(buffer@, first, first_count as int).moved(
                    buffer@,
                    second,
                    second_count as int,
                );
                &&& end.desired_x == self.desired_x
                &&& end.x == least(self.desired_x as int, buffer@[end.y as int].len() as int)
                &&& 0 <= end.y < buffer@.len()
            }),
    {
        buffer.lemma_lengths_fit();
        let mid = self.moved(buffer@, first, first_count as int);
        assert(mid.in_bounds(buffer@));
        assert(mid.clamped(buffer@) == mid);
    }
}

} // verus!
