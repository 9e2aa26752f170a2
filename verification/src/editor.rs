//! The editor: the open buffers, the cursors in them, and what one
//! instruction does to them.

use crate::buffer::{inserted, insert_affected, insert_end, removed, remove_affected};
use crate::buffer::{Edit, Position, Span};
use crate::cursor::{Cursor, Mode};
use crate::edit::{backspace_span, chars_span, lines_span, repeated, typed_unit, words_span};
use crate::edit::{span_before, span_of_chars, span_of_lines, span_of_words, typed_text};
use crate::error::EditorError;
use crate::key::{Command, CommandKind, Instruction, KeyEvent};
use crate::key_state::{KeyState, Pending};
use crate::keymap::{standard_chords, Chord, Keymap};
use crate::options::Options;
use crate::prompt::{command_of, prompt_command};
use crate::redraw::RedrawTask;
use crate::split::{Orientation, SplitBuffer, SplitView};
use vstd::prelude::*;

verus! {

/// The most cursors an editor holds: as many as the index of the current
/// cursor can tell apart.
pub const MAX_CURSORS: usize = 256;

/// The texts of the status bar.
#[derive(Debug)]
pub struct StatusBar {
    /// The name of the mode of the current cursor.
    pub mode: String,
    /// The name of the file of the buffer that was opened last.
    pub file: String,
    /// What the editor has to say.
    pub message: String,
}

/// The texts of the status bar, as values.
pub struct StatusView {
    pub mode: Seq<char>,
    pub file: Seq<char>,
    pub message: Seq<char>,
}

impl View for StatusBar {
    type V = StatusView;

    open spec fn view(&self) -> StatusView {
        StatusView { mode: self.mode@, file: self.file@, message: self.message@ }
    }
}

/// The current state of the editor, including the buffers, the cursors,
/// the settings and what is pending.
#[derive(Debug)]
pub struct Editor {
    /// The current cursor
    pub current_cursor: u8,
    /// The cursors
    pub cursors: Vec<Cursor>,
    /// The buffers (documents)
    pub buffers: Vec<SplitBuffer>,
    /// The current buffer index
    pub current_buffer_index: usize,
    /// The status bar
    pub status_bar: StatusBar,
    /// The prompt
    pub prompt: Vec<char>,
    /// The settings
    pub options: Options,
    /// The key state
    pub key_state: KeyState,
    /// The key bindings
    pub keymap: Keymap,
    /// Redraw
    pub redraw_task: RedrawTask,
    /// The previous instruction
    pub previous_instruction: Option<Instruction>,
}

/// What an editor is, as a value.
pub struct EditorView {
    pub buffers: Seq<SplitView>,
    pub cursors: Seq<Cursor>,
    pub current_cursor: int,
    pub current_buffer: int,
    pub status: StatusView,
    pub prompt: Seq<char>,
    pub options: Options,
    pub keys: Pending,
    pub keymap: Seq<Chord>,
    pub redraw: RedrawTask,
    pub previous: Option<Instruction>,
}

impl View for Editor {
    type V = EditorView;

    open spec fn view(&self) -> EditorView {
        EditorView {
            buffers: views_of(self.buffers@),
            cursors: self.cursors@,
            current_cursor: self.current_cursor as int,
            current_buffer: self.current_buffer_index as int,
            status: self.status_bar@,
            prompt: self.prompt@,
            options: self.options,
            keys: self.key_state@,
            keymap: self.keymap@,
            redraw: self.redraw_task,
            previous: self.previous_instruction,
        }
    }
}

/// What the main loop has to do after an instruction.
#[derive(Clone, Copy, Debug, PartialEq, Eq, Structural)]
pub enum Step {
    /// Repaint this much and go on.
    Redraw(RedrawTask),
    /// Write the current buffer to its file, repaint this much and go on.
    Save(RedrawTask),
    /// Leave the loop.
    Quit,
}

/// What an instruction asks of the world outside the editor.
#[derive(Clone, Copy, Debug, PartialEq, Eq, Structural)]
pub enum Action {
    /// Nothing.
    Continue,
    /// Write the current buffer to its file.
    Save,
    /// Leave the editor.
    Quit,
}

/// The split buffers of a vector, each taken as a value.
pub open spec fn views_of(buffers: Seq<SplitBuffer>) -> Seq<SplitView> {
    Seq::new(buffers.len(), |i: int| buffers[i]@)
}

/// Replacing a split buffer replaces its value.
pub proof fn lemma_views_of_update(buffers: Seq<SplitBuffer>, i: int, next: SplitBuffer)
    requires
        0 <= i < buffers.len(),
    ensures
        views_of(buffers.update(i, next)) == views_of(buffers).update(i, next@),
{
    assert(views_of(buffers.update(i, next)) =~= views_of(buffers).update(i, next@));
}

/// The cursors, with those of buffer `buffer` pulled to the nearest
/// place of `text`.
pub open spec fn pulled(cursors: Seq<Cursor>, buffer: int, text: Seq<Seq<char>>) -> Seq<Cursor> {
    Seq::new(
        cursors.len(),
        |i: int|
            if cursors[i].buffer_index == buffer {
                cursors[i].clamped(text)
            } else {
                cursors[i]
            },
    )
}

/// The cursors that are left when buffer `gone` is closed: those of
/// other buffers, in their order, each with the index that its buffer has
/// afterwards.
pub open spec fn surviving(cursors: Seq<Cursor>, gone: int) -> Seq<Cursor>
    decreases cursors.len(),
{
    if cursors.len() == 0 {
        Seq::<Cursor>::empty()
    } else {
        let rest = surviving(cursors.drop_last(), gone);
        let c = cursors.last();
        if c.buffer_index == gone {
            rest
        } else if c.buffer_index > gone {
            rest.push(Cursor { buffer_index: (c.buffer_index - 1) as usize, ..c })
        } else {
            rest.push(c)
        }
    }
}

/// The cursor stands in one of the buffers, at a place of it.
pub open spec fn is_placed(buffers: Seq<SplitView>, cursor: Cursor) -> bool {
    &&& cursor.buffer_index < buffers.len()
    &&& cursor.in_bounds(buffers[cursor.buffer_index as int].text)
}

/// The cursor stands in one of the buffers, and at a place of it unless
/// the buffer is buffer `edited`, whose text has just changed.
pub open spec fn is_held(buffers: Seq<SplitView>, edited: int, cursor: Cursor) -> bool {
    &&& cursor.buffer_index < buffers.len()
    &&& cursor.buffer_index != edited ==> cursor.in_bounds(
        buffers[cursor.buffer_index as int].text,
    )
}

/// The cursors that survive the closing of a buffer stand at places of the
/// buffers that are left.
pub proof fn lemma_surviving_are_placed(cursors: Seq<Cursor>, buffers: Seq<SplitView>, gone: int)
    requires
        0 <= gone < buffers.len(),
        forall|i: int| 0 <= i < cursors.len() ==> is_placed(buffers, #[trigger] cursors[i]),
    ensures
        surviving(cursors, gone).len() <= cursors.len(),
        forall|j: int|
            0 <= j < surviving(cursors, gone).len() ==> is_placed(
                buffers.remove(gone),
                #[trigger] surviving(cursors, gone)[j],
            ),
    decreases cursors.len(),
{
    if cursors.len() > 0 {
        let front = cursors.drop_last();
        assert forall|i: int| 0 <= i < front.len() implies is_placed(
            buffers,
            #[trigger] front[i],
        ) by {
            assert(front[i] == cursors[i]);
        }
        lemma_surviving_are_placed(front, buffers, gone);
        let c = cursors.last();
        assert(is_placed(buffers, c));
    }
}

impl EditorView {
    /// The editor is in order: there is a buffer and a cursor, every
    /// buffer is in order, every cursor stands at a place of an open
    /// buffer, the current buffer is the buffer of the current cursor, and
    /// the key state is in the mode of the current cursor.
    pub open spec fn wf(self) -> bool {
        &&& self.buffers.len() >= 1
        &&& forall|i: int| 0 <= i < self.buffers.len() ==> (#[trigger] self.buffers[i]).wf()
        &&& 1 <= self.cursors.len() <= MAX_CURSORS
        &&& 0 <= self.current_cursor < self.cursors.len()
        &&& forall|i: int|
            0 <= i < self.cursors.len() ==> is_placed(self.buffers, #[trigger] self.cursors[i])
        &&& 0 <= self.current_buffer < self.buffers.len()
        &&& self.current_buffer == self.cursor().buffer_index
        &&& self.cursor().in_bounds(self.text())
        &&& self.keys.mode == self.cursor().mode
    }

    /// The editor is in order but for the cursors of the current buffer,
    /// which may stand outside its text: the state between an edit and the
    /// pulling of the cursors.
    pub open spec fn loose(self) -> bool {
        &&& self.buffers.len() >= 1
        &&& forall|i: int| 0 <= i < self.buffers.len() ==> (#[trigger] self.buffers[i]).wf()
        &&& 1 <= self.cursors.len() <= MAX_CURSORS
        &&& 0 <= self.current_cursor < self.cursors.len()
        &&& forall|i: int|
            0 <= i < self.cursors.len() ==> is_held(
                self.buffers,
                self.current_buffer,
                #[trigger] self.cursors[i],
            )
        &&& 0 <= self.current_buffer < self.buffers.len()
        &&& self.current_buffer == self.cursor().buffer_index
        &&& self.keys.mode == self.cursor().mode
    }

    /// The current cursor.
    pub open spec fn cursor(self) -> Cursor {
        self.cursors[self.current_cursor]
    }

    /// The current buffer with its viewports.
    pub open spec fn split(self) -> SplitView {
        self.buffers[self.current_buffer]
    }

    /// The lines of the current buffer.
    pub open spec fn text(self) -> Seq<Seq<char>> {
        self.split().text
    }

    /// With the current cursor replaced.
    pub open spec fn with_cursor(self, cursor: Cursor) -> EditorView {
        EditorView { cursors: self.cursors.update(self.current_cursor, cursor), ..self }
    }

    /// With the current buffer replaced.
    pub open spec fn with_split(self, split: SplitView) -> EditorView {
        EditorView { buffers: self.buffers.update(self.current_buffer, split), ..self }
    }

    /// With a further repaint asked for.
    pub open spec fn asking(self, scope: RedrawTask) -> EditorView {
        EditorView { redraw: self.redraw.max(scope), ..self }
    }

    /// With another message in the status bar.
    pub open spec fn saying(self, message: Seq<char>) -> EditorView {
        EditorView { status: StatusView { message, ..self.status }, ..self }
    }

    /// After the focused viewport of the current buffer was scrolled, by
    /// the shortest way, to show the current cursor. Scrolling asks for a
    /// full repaint; a viewport that shows the cursor already asks for
    /// nothing.
    pub open spec fn hinted(self) -> EditorView {
        let seen = self.split().active().facing_line(self.cursor().y as int).facing_column(
            self.cursor().x as int,
        );
        EditorView {
            buffers: self.buffers.update(self.current_buffer, self.split().with_active(seen)),
            redraw: if seen == self.split().active() {
                self.redraw
            } else {
                self.redraw.max(RedrawTask::Full)
            },
            ..self
        }
    }

    /// After a key event went through the key state.
    pub open spec fn fed(self, event: KeyEvent) -> EditorView {
        EditorView { keys: self.keys.fed(self.keymap, event).state, ..self }
    }

    /// With the current cursor in `mode`, where the mode machine has the
    /// transition. A change of mode clears the prompt and what is pending
    /// in the key state, and asks for the status bar to be repainted. A
    /// refused change leaves the editor as it is.
    pub open spec fn in_mode(self, mode: Mode) -> EditorView {
        let next = self.cursor().with_mode(mode);
        if next.mode == self.cursor().mode {
            self
        } else {
            EditorView {
                cursors: self.cursors.update(self.current_cursor, next),
                keys: self.keys.in_mode(next.mode),
                prompt: Seq::<char>::empty(),
                redraw: self.redraw.max(RedrawTask::StatusBarOnly),
                ..self
            }
        }
    }

    /// After an edit of the current buffer that left `text`, touched the
    /// lines `affected` and ended at `at`: the buffer holds `text`, every
    /// cursor of the buffer is pulled to the nearest place of it, the
    /// current cursor stands at `at`, and the repaint that the touched
    /// lines need is asked for.
    pub open spec fn edited(self, text: Seq<Seq<char>>, affected: (int, int), at: Position) -> EditorView {
        EditorView {
            buffers: self.buffers.update(self.current_buffer, self.split().with_text(text)),
            cursors: pulled(self.cursors, self.current_buffer, text).update(
                self.current_cursor,
                self.cursor().put(at.x as int, at.y as int),
            ),
            redraw: self.redraw.max(self.split().damage(affected.0, affected.1)),
            ..self
        }
    }

    /// After `text` was inserted at the current cursor.
    pub open spec fn inserting(self, text: Seq<char>) -> EditorView {
        let c = self.cursor();
        let end = insert_end(c.x as int, c.y as int, text);
        self.edited(
            inserted(self.text(), c.x as int, c.y as int, text),
            insert_affected(self.text(), c.y as int, text),
            Position { x: end.0 as usize, y: end.1 as usize },
        )
    }

    /// After the text of `span` was deleted from the current buffer.
    pub open spec fn deleting(self, span: Span) -> EditorView {
        self.edited(
            removed(
                self.text(),
                span.start.x as int,
                span.start.y as int,
                span.end.x as int,
                span.end.y as int,
            ),
            remove_affected(
                self.text(),
                span.start.x as int,
                span.start.y as int,
                span.end.x as int,
                span.end.y as int,
            ),
            span.start,
        )
    }

    /// With cursor `index` as the current cursor: its buffer is the
    /// current buffer, the key state is in its mode, and everything is
    /// repainted.
    pub open spec fn facing(self, index: int) -> EditorView {
        EditorView {
            current_cursor: index,
            current_buffer: self.cursors[index].buffer_index as int,
            keys: self.keys.in_mode(self.cursors[index].mode),
            redraw: self.redraw.max(RedrawTask::Full),
            ..self
        }
    }

    /// After the focused viewport of the current buffer was closed.
    ///
    /// A buffer with another viewport lives on in it. A buffer without one
    /// is closed with its last viewport, and its cursors go with it: the
    /// cursors of the other buffers stay, the first of them becomes the
    /// current cursor, and where none is left a new cursor stands at the
    /// start of the first buffer. The last viewport of the only buffer
    /// stays open.
    pub open spec fn closing(self) -> EditorView {
        if self.split().panes.len() > 1 {
            self.with_split(self.split().closed()->Some_0).asking(RedrawTask::Full)
        } else if self.buffers.len() > 1 {
            let left = surviving(self.cursors, self.current_buffer);
            let cursors = if left.len() == 0 {
                seq![Cursor::at(0, 0, 0)]
            } else {
                left
            };
            EditorView {
                buffers: self.buffers.remove(self.current_buffer),
                cursors,
                ..self
            }.facing(0)
        } else {
            self
        }
    }

    /// With one more cursor, at the place of the current one, as the
    /// current cursor; unchanged where there is no room for one more.
    pub open spec fn adding_cursor(self) -> EditorView {
        if self.cursors.len() < MAX_CURSORS {
            EditorView {
                cursors: self.cursors.push(self.cursor()),
                current_cursor: self.cursors.len() as int,
                redraw: self.redraw.max(RedrawTask::CursorOnly),
                ..self
            }
        } else {
            self
        }
    }

    /// Without the current cursor, and with the cursor that took its
    /// place, or the last one, as the current cursor; unchanged where the
    /// current cursor is the only one.
    pub open spec fn removing_cursor(self) -> EditorView {
        if self.cursors.len() > 1 {
            let rest = self.cursors.remove(self.current_cursor);
            EditorView { cursors: rest, ..self }.facing(
                if self.current_cursor < rest.len() {
                    self.current_cursor
                } else {
                    rest.len() - 1
                },
            )
        } else {
            self
        }
    }

    /// What a command that moves the cursor does, `inst.repeat_count`
    /// times over. It asks for the cursor to be repainted.
    #[verifier::opaque]
    pub open spec fn after_motion(self, inst: Instruction) -> EditorView {
        let c = self.cursor();
        let n = inst.repeat_count as int;
        let text = self.text();
        match inst.command {
            Command::Move(direction) => self.with_cursor(c.moved(text, direction, n)).asking(
                RedrawTask::CursorOnly,
            ),
            Command::LineStart => self.with_cursor(c.at_line_start(text)).asking(
                RedrawTask::CursorOnly,
            ),
            Command::LineEnd => self.with_cursor(c.at_line_end(text)).asking(
                RedrawTask::CursorOnly,
            ),
            Command::NextLine => self.with_cursor(c.at_next_line(text, n)).asking(
                RedrawTask::CursorOnly,
            ),
            Command::PrevLine => self.with_cursor(c.at_prev_line(text, n)).asking(
                RedrawTask::CursorOnly,
            ),
            _ => self,
        }
    }

    /// What a command that changes the text does, `inst.repeat_count`
    /// times over. It asks for the repaint that the touched lines need.
    #[verifier::opaque]
    pub open spec fn after_edit(self, inst: Instruction) -> EditorView {
        let c = self.cursor();
        let n = inst.repeat_count as int;
        let text = self.text();
        match inst.command {
            Command::InsertChar(ch) => self.inserting(
                repeated(typed_unit(self.options, ch), n as nat),
            ),
            Command::Backspace => self.deleting(backspace_span(text, c.place(), n)),
            Command::DeleteChar => self.deleting(chars_span(text, c.place(), n)),
            Command::DeleteWord => self.deleting(words_span(text, c.place(), n)),
            Command::DeleteLine => {
                let span = lines_span(text, c.place(), n);
                let gone = self.deleting(span);
                gone.with_cursor(gone.cursor().put(0, span.start.y as int))
            },
            Command::DeleteSelection => if c.mode == Mode::Select {
                self.deleting(c.selected(text)).in_mode(Mode::Insert)
            } else {
                self
            },
            _ => self,
        }
    }

    /// What a command that changes the viewports or the cursors does. It
    /// asks for everything to be repainted, but for a new cursor, which
    /// asks for the cursor.
    #[verifier::opaque]
    pub open spec fn after_arrangement(self, inst: Instruction) -> EditorView {
        match inst.command {
            Command::Split(orientation) => self.with_split(self.split().split(orientation)).asking(
                RedrawTask::Full,
            ),
            Command::CloseViewport => self.closing(),
            Command::NextViewport => self.with_split(
                SplitView {
                    focus: if self.split().focus + 1 < self.split().panes.len() {
                        self.split().focus + 1
                    } else {
                        0
                    },
                    ..self.split()
                },
            ).asking(RedrawTask::Full),
            Command::AddCursor => self.adding_cursor(),
            Command::RemoveCursor => self.removing_cursor(),
            Command::NextCursor => self.facing(
                if self.current_cursor + 1 < self.cursors.len() {
                    self.current_cursor + 1
                } else {
                    0
                },
            ),
            _ => self,
        }
    }

    /// What a command that changes the mode, the prompt or a setting
    /// does. A change of mode or of the prompt asks for the status bar to
    /// be repainted, a setting for everything. `RepeatLast`,
    /// `PromptSubmit`, `Save` and `Quit` change nothing here: `executed`
    /// says what they stand for.
    pub open spec fn after_control(self, inst: Instruction) -> EditorView {
        match inst.command {
            Command::SetMode(mode) => self.in_mode(mode),
            Command::PromptChar(ch) => if self.cursor().mode == Mode::Command {
                EditorView { prompt: self.prompt.push(ch), ..self }.asking(
                    RedrawTask::StatusBarOnly,
                )
            } else {
                self
            },
            Command::PromptErase => if self.cursor().mode == Mode::Command && self.prompt.len()
                > 0 {
                EditorView { prompt: self.prompt.drop_last(), ..self }.asking(
                    RedrawTask::StatusBarOnly,
                )
            } else {
                self
            },
            Command::SetOption(setting, value) => EditorView {
                options: self.options.with(setting, value),
                ..self
            }.asking(RedrawTask::Full),
            _ => self,
        }
    }

    /// What one command does.
    pub open spec fn applied(self, inst: Instruction) -> EditorView {
        match inst.command.kind_of() {
            CommandKind::Motion => self.after_motion(inst),
            CommandKind::Edit => self.after_edit(inst),
            CommandKind::Arrangement => self.after_arrangement(inst),
            CommandKind::Control => self.after_control(inst),
        }
    }

    /// The instruction that `inst` stands for.
    ///
    /// `RepeatLast` stands for the previous instruction, with its own
    /// repeat count where `RepeatLast` has the count 1, and with the count
    /// of `RepeatLast` otherwise. `PromptSubmit`, in `Command` mode, stands
    /// for the command that the prompt names, once. Every other
    /// instruction stands for itself. Where there is no previous
    /// instruction, or the prompt names no command, there is nothing to
    /// do.
    pub open spec fn effective(self, inst: Instruction) -> Option<Instruction> {
        match inst.command {
            Command::RepeatLast => match self.previous {
                Some(previous) => Some(
                    Instruction {
                        repeat_count: if inst.repeat_count == 1 {
                            previous.repeat_count
                        } else {
                            inst.repeat_count
                        },
                        command: previous.command,
                    },
                ),
                None => None,
            },
            Command::PromptSubmit => if self.cursor().mode == Mode::Command {
                match prompt_command(self.prompt) {
                    Some(command) => Some(Instruction { repeat_count: 1, command }),
                    None => None,
                }
            } else {
                None
            },
            _ => Some(inst),
        }
    }

    /// What the instruction asks of the world outside the editor.
    pub open spec fn action(self, inst: Instruction) -> Action {
        match self.effective(inst) {
            Some(meant) => match meant.command {
                Command::Quit => Action::Quit,
                Command::Save => Action::Save,
                _ => Action::Continue,
            },
            None => Action::Continue,
        }
    }

    /// After a line was submitted at the prompt: the cursor is back in
    /// `Normal` mode and the prompt is empty. A line that names no command
    /// is answered in the status bar.
    pub open spec fn submitted(self) -> EditorView {
        if self.cursor().mode != Mode::Command {
            self
        } else if prompt_command(self.prompt) is None {
            self.in_mode(Mode::Normal).saying("Unknown command"@)
        } else {
            self.in_mode(Mode::Normal)
        }
    }

    /// After an instruction was carried out.
    ///
    /// `PromptSubmit` leaves the prompt first. Then the instruction that
    /// `inst` stands for is applied. Every instruction but `RepeatLast`
    /// becomes the previous instruction.
    pub open spec fn executed(self, inst: Instruction) -> EditorView {
        let base = if inst.command == Command::PromptSubmit {
            self.submitted()
        } else {
            self
        };
        let done = match self.effective(inst) {
            Some(meant) => base.applied(meant),
            None => base,
        };
        if inst.command == Command::RepeatLast {
            done
        } else {
            EditorView { previous: Some(inst), ..done }
        }
    }

    /// Without the message in the status bar. Taking a message away asks
    /// for the status bar to be repainted.
    pub open spec fn hushed(self) -> EditorView {
        if self.status.message.len() == 0 {
            self
        } else {
            self.saying(Seq::<char>::empty()).asking(RedrawTask::StatusBarOnly)
        }
    }

    /// One turn of the main loop, and what the loop has to do after it.
    ///
    /// `Quit` changes nothing and ends the loop. Any other instruction
    /// takes the old message away, is carried out, has the viewport follow
    /// the cursor and the status bar name the mode, and hands out the
    /// repaint that was asked for in all of this, after which nothing is
    /// pending.
    pub open spec fn stepped(self, inst: Instruction) -> (EditorView, Step) {
        if inst.command == Command::Quit {
            (self, Step::Quit)
        } else {
            let done = self.hushed().executed(inst).hinted();
            let shown = EditorView {
                status: StatusView { mode: done.cursor().mode.label_text(), ..done.status },
                redraw: RedrawTask::Nothing,
                ..done
            };
            (
                shown,
                match self.action(inst) {
                    Action::Continue => Step::Redraw(done.redraw),
                    Action::Save => Step::Save(done.redraw),
                    Action::Quit => Step::Quit,
                },
            )
        }
    }

    /// After `text` was opened under `name`: a new buffer holds it, in one
    /// viewport of the size of the focused one, and the current cursor
    /// stands at its start.
    pub open spec fn opened(self, name: Seq<char>, text: Seq<char>) -> EditorView {
        EditorView {
            buffers: self.buffers.push(
                SplitView {
                    text: crate::text::lines_of(text),
                    panes: seq![
                        crate::split::Viewport {
                            scroll_x: 0,
                            scroll_y: 0,
                            width: self.split().active().width,
                            height: self.split().active().height,
                        },
                    ],
                    focus: 0,
                },
            ),
            cursors: self.cursors.update(
                self.current_cursor,
                Cursor {
                    buffer_index: self.buffers.len() as usize,
                    x: 0,
                    y: 0,
                    desired_x: 0,
                    anchor: Position { x: 0, y: 0 },
                    mode: self.cursor().mode,
                },
            ),
            current_buffer: self.buffers.len() as int,
            status: StatusView { file: name, ..self.status },
            redraw: self.redraw.max(RedrawTask::Full),
            ..self
        }
    }

    /// After `error` was reported: the status bar says what went wrong.
    /// Parse failures are not reported.
    pub open spec fn told(self, error: EditorError) -> EditorView {
        if error.is_reported() {
            self.saying(error.text()).asking(RedrawTask::StatusBarOnly)
        } else {
            self
        }
    }

    /// Within one turn of the main loop the pending repaint only grows:
    /// no step of the turn leaves less to repaint than was asked for before
    /// it, so what the turn hands out is at least what was pending when it
    /// began.
    pub proof fn lemma_redraw_only_grows(self, inst: Instruction)
        ensures
            self.hushed().redraw.rank() >= self.redraw.rank(),
            self.hinted().redraw.rank() >= self.redraw.rank(),
            self.executed(inst).redraw.rank() >= self.redraw.rank(),
            self.hushed().executed(inst).hinted().redraw.rank() >= self.redraw.rank(),
            self.stepped(inst).1 matches Step::Redraw(task) ==> task.rank() >= self.redraw.rank(),
            self.stepped(inst).1 matches Step::Save(task) ==> task.rank() >= self.redraw.rank(),
    {
        self.lemma_executed_redraw_grows(inst);
        self.hushed().lemma_executed_redraw_grows(inst);
    }

    /// No instruction leaves less to repaint than was asked for before
    /// it.
    pub proof fn lemma_executed_redraw_grows(self, inst: Instruction)
        ensures
            self.executed(inst).redraw.rank() >= self.redraw.rank(),
    {
        let base = if inst.command == Command::PromptSubmit {
            self.submitted()
        } else {
            self
        };
        assert(base.redraw.rank() >= self.redraw.rank());
        match self.effective(inst) {
            Some(meant) => {
                base.lemma_applied_redraw_grows(meant);
            },
            None => {},
        }
    }

    /// No command leaves less to repaint than was asked for before it.
    pub proof fn lemma_applied_redraw_grows(self, inst: Instruction)
        ensures
            self.applied(inst).redraw.rank() >= self.redraw.rank(),
    {
        match inst.command.kind_of() {
            CommandKind::Motion => {
                reveal(EditorView::after_motion);
            },
            CommandKind::Edit => {
                reveal(EditorView::after_edit);
            },
            CommandKind::Arrangement => {
                reveal(EditorView::after_arrangement);
            },
            CommandKind::Control => {},
        }
    }
}

impl Editor {
    /// The editor is in order.
    pub open spec fn wf(&self) -> bool {
        self@.wf()
    }

    /// Whether the editor is in order. The functions of this type keep it
    /// in order; the fields are open to everybody, and this is the test for
    /// callers that have touched them.
    pub fn is_wf(&self) -> (ok: bool)
        ensures
            ok == self.wf(),
    {
        let cursor_count = self.cursors.len();
        let buffer_count = self.buffers.len();
        if buffer_count == 0 || cursor_count == 0 || cursor_count > MAX_CURSORS
            || self.current_cursor as usize >= cursor_count {
            return false;
        }
        let mut b: usize = 0;
        while b < buffer_count
            invariant
                b <= buffer_count,
                buffer_count == self.buffers@.len(),
                forall|i: int| 0 <= i < b ==> (#[trigger] self@.buffers[i]).wf(),
            decreases buffer_count - b,
        {
            if !self.buffers[b].is_wf() {
                assert(!self@.buffers[b as int].wf());
                return false;
            }
            b += 1;
        }
        let mut c: usize = 0;
        while c < cursor_count
            invariant
                c <= cursor_count,
                cursor_count == self.cursors@.len(),
                buffer_count == self.buffers@.len(),
                forall|i: int| 0 <= i < c ==> is_placed(self@.buffers, #[trigger] self@.cursors[i]),
            decreases cursor_count - c,
        {
            let cursor = &self.cursors[c];
            if cursor.buffer_index >= buffer_count || !cursor.is_within(
                self.buffers[cursor.buffer_index].buffer(),
            ) {
                assert(!is_placed(self@.buffers, self@.cursors[c as int]));
                return false;
            }
            c += 1;
        }
        let current = &self.cursors[self.current_cursor as usize];
        self.current_buffer_index == current.buffer_index && self.key_state.mode() == current.mode
    }

    /// Create new default state editor: one empty buffer in one viewport,
    /// one cursor at its start in `Normal` mode, the standard key bindings
    /// and nothing pending.
    pub fn init() -> (editor: Editor)
        ensures
            editor.wf(),
            editor@.buffers == seq![
                SplitView {
                    text: seq![Seq::<char>::empty()],
                    panes: seq![
                        crate::split::Viewport {
                            scroll_x: 0,
                            scroll_y: 0,
                            width: crate::split::DEFAULT_WIDTH,
                            height: crate::split::DEFAULT_HEIGHT,
                        },
                    ],
                    focus: 0,
                },
            ],
            editor@.cursors == seq![Cursor::at(0, 0, 0)],
            editor@.current_cursor == 0,
            editor@.current_buffer == 0,
            editor@.status == (StatusView { mode: Mode::Normal.label_text(), file: ""@, message: ""@ }),
            editor@.prompt == Seq::<char>::empty(),
            editor@.options == Options::initial(),
            editor@.keys.is_idle() && editor@.keys.mode == Mode::Normal,
            editor@.keymap == standard_chords(),
            editor@.redraw == RedrawTask::Nothing,
            editor@.previous == None::<Instruction>,
    {
        let mut cursors: Vec<Cursor> = Vec::new();
        cursors.push(Cursor::new());
        let mut buffers: Vec<SplitBuffer> = Vec::new();
        buffers.push(SplitBuffer::new());
        let editor = Editor {
            current_cursor: 0,
            cursors,
            buffers,
            current_buffer_index: 0,
            status_bar: StatusBar {
                mode: Mode::Normal.label().to_owned(),
                file: "".to_owned(),
                message: "".to_owned(),
            },
            prompt: Vec::new(),
            options: Options::new(),
            key_state: KeyState::new(),
            keymap: Keymap::standard(),
            redraw_task: RedrawTask::Nothing,
            previous_instruction: None,
        };
        assert(editor@.cursors =~= seq![Cursor::at(0, 0, 0)]);
        assert(editor@.buffers =~= seq![editor.buffers@[0]@]);
        editor
    }

    /// The current cursor.
    pub fn cursor(&self) -> (c: &Cursor)
        requires
            self.wf(),
        ensures
            *c == self@.cursor(),
    {
        &self.cursors[self.current_cursor as usize]
    }

    /// Get a reference to the currently open buffer.
    #[inline]
    pub fn current_buffer(&self) -> (b: &SplitBuffer)
        requires
            self.wf(),
        ensures
            b@ == self@.split(),
            b.wf(),
            *b == self.buffers@[self.current_buffer_index as int],
    {
        &self.buffers[self.current_buffer_index]
    }

    /// Get a mutable reference to the currently open buffer. What the
    /// caller leaves in it is the current buffer afterwards; nothing else
    /// of the editor changes.
    #[inline]
    pub fn current_buffer_mut(&mut self) -> (b: &mut SplitBuffer)
        requires
            old(self).wf(),
        ensures
            *b == old(self).buffers@[old(self).current_buffer_index as int],
            b.wf(),
            final(self).buffers@ == old(self).buffers@.update(
                old(self).current_buffer_index as int,
                *final(b),
            ),
            final(self)@ == old(self)@.with_split(final(b)@),
    {
        proof {
            let idx = self.current_buffer_index as int;
            assert(self@.buffers[idx] == self.buffers@[idx]@);
            assert forall|next: SplitBuffer| #[trigger]
                views_of(self.buffers@.update(idx, next)) == self@.buffers.update(idx, next@) by {
                lemma_views_of_update(self.buffers@, idx, next);
            }
        }
        &mut self.buffers[self.current_buffer_index]
    }

    /// Hint the buffer about the cursor position: the focused viewport of
    /// the current buffer scrolls, by the shortest way, so that it shows
    /// the current cursor. Where it had to scroll, a full repaint is asked
    /// for.
    pub fn hint(&mut self)
        requires
            old(self).wf(),
        ensures
            final(self).wf(),
            final(self)@ == old(self)@.hinted(),
    {
        let x = self.cursor().x;
        let y = self.cursor().y;
        let before = self.current_buffer().active_viewport();

        self.current_buffer_mut().focus_hint_y(y);
        self.current_buffer_mut().focus_hint_x(x);

        let after = self.current_buffer().active_viewport();
        proof {
            let split = old(self)@.split();
            let seen = split.active().facing_line(y as int).facing_column(x as int);
            assert(self@.split().panes =~= split.with_active(seen).panes);
            assert(self@.split() == split.with_active(seen));
            assert(self@.buffers =~= old(self)@.hinted().buffers);
            assert(after == seen);
        }
        if before != after {
            self.redraw_task.request(RedrawTask::Full);
        }
    }

    /// Feeds one key event to the key state. An instruction that becomes
    /// complete is returned. A key sequence that is cancelled or that no
    /// command begins with is dropped without a word.
    pub fn feed(&mut self, event: KeyEvent) -> (r: Option<Instruction>)
        requires
            old(self).wf(),
        ensures
            final(self).wf(),
            final(self)@ == old(self)@.fed(event),
            r == match old(self)@.keys.fed(old(self)@.keymap, event).output {
                Ok(emitted) => emitted,
                Err(_) => None,
            },
    {
        proof {
            self@.keys.lemma_emitting_clears(self@.keymap, event);
        }
        match self.key_state.feed(&self.keymap, event) {
            Ok(emitted) => emitted,
            Err(_) => None,
        }
    }
    /// Replaces the current cursor by one of the same buffer and mode.
    fn put_cursor(&mut self, cursor: Cursor)
        requires
            old(self).wf(),
            cursor.buffer_index == old(self)@.cursor().buffer_index,
            cursor.mode == old(self)@.cursor().mode,
            cursor.in_bounds(old(self)@.text()),
        ensures
            final(self).wf(),
            final(self)@ == old(self)@.with_cursor(cursor),
    {
        self.cursors.set(self.current_cursor as usize, cursor);
    }

    /// Changes the mode of the current cursor, where the mode machine
    /// has the transition, and has the key state and the prompt follow.
    fn change_mode(&mut self, mode: Mode)
        requires
            old(self).wf(),
        ensures
            final(self).wf(),
            final(self)@ == old(self)@.in_mode(mode),
    {
        let mut cursor = *self.cursor();
        let before = cursor.mode;
        cursor.set_mode(mode);
        if cursor.mode != before {
            self.cursors.set(self.current_cursor as usize, cursor);
            self.key_state.set_mode(cursor.mode);
            self.prompt = Vec::new();
            self.redraw_task.request(RedrawTask::StatusBarOnly);
        }
    }

    /// Finishes an edit of the current buffer: pulls the cursors of the
    /// buffer into its new text, puts the current cursor where the edit
    /// ended and asks for the repaint that the touched lines need.
    fn settle(&mut self, edit: Edit)
        requires
            old(self)@.loose(),
            edit.cursor.within(old(self)@.text()),
        ensures
            final(self).wf(),
            final(self)@ == (EditorView {
                cursors: pulled(
                    old(self)@.cursors,
                    old(self)@.current_buffer,
                    old(self)@.text(),
                ).update(
                    old(self)@.current_cursor,
                    old(self)@.cursor().put(edit.cursor.x as int, edit.cursor.y as int),
                ),
                redraw: old(self)@.redraw.max(
                    old(self)@.split().damage(
                        edit.affected.start as int,
                        edit.affected.end as int,
                    ),
                ),
                ..old(self)@
            }),
    {
        let index = self.current_buffer_index;
        let scope = self.buffers[index].damage(edit.affected);
        pull_all(&mut self.cursors, index, self.buffers[index].buffer());
        let mut cursor = self.cursors[self.current_cursor as usize];
        cursor.go_to(self.buffers[index].buffer(), edit.cursor);
        self.cursors.set(self.current_cursor as usize, cursor);
        self.redraw_task.request(scope);
        proof {
            let text = old(self)@.text();
            assert(self@.cursors =~= pulled(old(self)@.cursors, index as int, text).update(
                old(self)@.current_cursor,
                old(self)@.cursor().put(edit.cursor.x as int, edit.cursor.y as int),
            ));
            assert forall|i: int| 0 <= i < self@.cursors.len() implies is_placed(
                self@.buffers,
                #[trigger] self@.cursors[i],
            ) by {
                let before = old(self)@.cursors[i];
                assert(is_held(old(self)@.buffers, index as int, before));
            }
        }
    }

    /// Inserts `text` at the current cursor.
    fn insert_text(&mut self, text: &[char])
        requires
            old(self).wf(),
        ensures
            final(self).wf(),
            final(self)@ == old(self)@.inserting(text@),
    {
        let at = self.cursor().position();
        let index = self.current_buffer_index;
        let outcome = self.buffers[index].insert(at, text);
        proof {
            lemma_views_of_update(old(self).buffers@, index as int, self.buffers@[index as int]);
            assert(self@.buffers == old(self)@.buffers.update(
                index as int,
                old(self)@.split().with_text(
                    inserted(old(self)@.text(), at.x as int, at.y as int, text@),
                ),
            ));
        }
        match outcome {
            Ok(edit) => {
                self.settle(edit);
            },
            Err(_) => {},
        }
    }

    /// Deletes the text of `span` from the current buffer.
    fn delete_span(&mut self, span: Span)
        requires
            old(self).wf(),
            span.within(old(self)@.text()),
        ensures
            final(self).wf(),
            final(self)@ == old(self)@.deleting(span),
    {
        let index = self.current_buffer_index;
        let outcome = self.buffers[index].delete(span);
        proof {
            lemma_views_of_update(old(self).buffers@, index as int, self.buffers@[index as int]);
            assert(self@.buffers == old(self)@.buffers.update(
                index as int,
                old(self)@.split().with_text(
                    removed(
                        old(self)@.text(),
                        span.start.x as int,
                        span.start.y as int,
                        span.end.x as int,
                        span.end.y as int,
                    ),
                ),
            ));
        }
        match outcome {
            Ok(edit) => {
                self.settle(edit);
            },
            Err(_) => {},
        }
    }

    /// Makes cursor `index` the current cursor.
    fn face(&mut self, index: usize)
        requires
            old(self).wf(),
            index < old(self)@.cursors.len(),
        ensures
            final(self).wf(),
            final(self)@ == old(self)@.facing(index as int),
    {
        let cursor = self.cursors[index];
        self.current_cursor = index as u8;
        self.current_buffer_index = cursor.buffer_index;
        self.key_state.set_mode(cursor.mode);
        self.redraw_task.request(RedrawTask::Full);
    }

    /// Closes the focused viewport of the current buffer, and the buffer
    /// with it where it was its last one and not the only buffer.
    fn close_viewport(&mut self)
        requires
            old(self).wf(),
        ensures
            final(self).wf(),
            final(self)@ == old(self)@.closing(),
    {
        let index = self.current_buffer_index;
        if self.buffers[index].viewport_count() > 1 {
            let whole = self.buffers.remove(index);
            match whole.close_viewport() {
                Some(rest) => {
                    self.buffers.insert(index, rest);
                },
                None => {},
            }
            self.redraw_task.request(RedrawTask::Full);
            proof {
                assert(self@.buffers =~= old(self)@.buffers.update(
                    index as int,
                    old(self)@.split().closed()->Some_0,
                ));
            }
        } else if self.buffers.len() > 1 {
            proof {
                lemma_surviving_are_placed(self@.cursors, self@.buffers, index as int);
            }
            let _ = self.buffers.remove(index);
            let mut cursors = keep_cursors(&self.cursors, index);
            if cursors.len() == 0 {
                cursors.push(Cursor::at(0, 0, 0));
            }
            self.cursors = cursors;
            self.current_cursor = 0;
            self.current_buffer_index = self.cursors[0].buffer_index;
            self.key_state.set_mode(self.cursors[0].mode);
            self.redraw_task.request(RedrawTask::Full);
            proof {
                assert(self@.buffers =~= old(self)@.buffers.remove(index as int));
                let left = surviving(old(self)@.cursors, index as int);
                if left.len() == 0 {
                    assert(self@.cursors =~= seq![Cursor::at(0, 0, 0)]);
                    assert(self@.buffers[0].wf());
                }
            }
        }
    }

    /// Adds a cursor at the place of the current one, where there is
    /// room for one more.
    fn add_cursor(&mut self)
        requires
            old(self).wf(),
        ensures
            final(self).wf(),
            final(self)@ == old(self)@.adding_cursor(),
    {
        if self.cursors.len() < MAX_CURSORS {
            let cursor = *self.cursor();
            self.current_cursor = self.cursors.len() as u8;
            self.cursors.push(cursor);
            self.redraw_task.request(RedrawTask::CursorOnly);
        }
    }

    /// Removes the current cursor, unless it is the only one.
    fn remove_cursor(&mut self)
        requires
            old(self).wf(),
        ensures
            final(self).wf(),
            final(self)@ == old(self)@.removing_cursor(),
    {
        if self.cursors.len() > 1 {
            let at = self.current_cursor as usize;
            self.cursors.remove(at);
            let next = if at < self.cursors.len() {
                at
            } else {
                self.cursors.len() - 1
            };
            let cursor = self.cursors[next];
            self.current_cursor = next as u8;
            self.current_buffer_index = cursor.buffer_index;
            self.key_state.set_mode(cursor.mode);
            self.redraw_task.request(RedrawTask::Full);
        }
    }

    /// Puts the current cursor where a movement left it and asks for the
    /// cursor to be repainted.
    fn place_cursor(&mut self, cursor: Cursor)
        requires
            old(self).wf(),
            cursor.buffer_index == old(self)@.cursor().buffer_index,
            cursor.mode == old(self)@.cursor().mode,
            cursor.in_bounds(old(self)@.text()),
        ensures
            final(self).wf(),
            final(self)@ == old(self)@.with_cursor(cursor).asking(RedrawTask::CursorOnly),
    {
        self.put_cursor(cursor);
        self.redraw_task.request(RedrawTask::CursorOnly);
    }

    /// Deletes the line of the cursor and the `count - 1` lines below it,
    /// and puts the cursor at the start of the line that took their place.
    fn erase_lines(&mut self, count: usize)
        requires
            old(self).wf(),
        ensures
            final(self).wf(),
            final(self)@ == old(self)@.after_edit(
                Instruction { repeat_count: count, command: Command::DeleteLine },
            ),
    {
        reveal(EditorView::after_edit);
        let span = span_of_lines(self.current_buffer().buffer(), self.cursor().position(), count);
        self.delete_span(span);
        let mut cursor = *self.cursor();
        cursor.x = 0;
        cursor.desired_x = 0;
        self.put_cursor(cursor);
    }

    /// Deletes the selected text and goes back to `Insert` mode. Outside
    /// `Select` mode nothing happens.
    fn erase_selection(&mut self)
        requires
            old(self).wf(),
        ensures
            final(self).wf(),
            final(self)@ == if old(self)@.cursor().mode == Mode::Select {
                old(self)@.deleting(old(self)@.cursor().selected(old(self)@.text())).in_mode(
                    Mode::Insert,
                )
            } else {
                old(self)@
            },
    {
        match self.cursor().selection(self.current_buffer().buffer()) {
            Some(span) => {
                self.delete_span(span);
                self.change_mode(Mode::Insert);
            },
            None => {},
        }
    }

    /// Divides the focused viewport of the current buffer.
    fn split_viewport(&mut self, orientation: Orientation)
        requires
            old(self).wf(),
        ensures
            final(self).wf(),
            final(self)@ == old(self)@.with_split(old(self)@.split().split(orientation)).asking(
                RedrawTask::Full,
            ),
    {
        self.current_buffer_mut().split(orientation);
        self.redraw_task.request(RedrawTask::Full);
    }

    /// Gives the focus to the next viewport of the current buffer.
    fn next_viewport(&mut self)
        requires
            old(self).wf(),
        ensures
            final(self).wf(),
            final(self)@ == old(self)@.after_arrangement(
                Instruction { repeat_count: 1, command: Command::NextViewport },
            ),
    {
        reveal(EditorView::after_arrangement);
        self.current_buffer_mut().focus_next();
        self.redraw_task.request(RedrawTask::Full);
    }

    /// Makes the next cursor the current one, and the first one after the
    /// last.
    fn next_cursor(&mut self)
        requires
            old(self).wf(),
        ensures
            final(self).wf(),
            final(self)@ == old(self)@.facing(
                if old(self)@.current_cursor + 1 < old(self)@.cursors.len() {
                    old(self)@.current_cursor + 1
                } else {
                    0
                },
            ),
    {
        let next = if (self.current_cursor as usize) + 1 < self.cursors.len() {
            self.current_cursor as usize + 1
        } else {
            0
        };
        self.face(next);
    }

    /// Appends a character to the prompt, in `Command` mode.
    fn prompt_push(&mut self, ch: char)
        requires
            old(self).wf(),
        ensures
            final(self).wf(),
            final(self)@ == old(self)@.after_control(
                Instruction { repeat_count: 1, command: Command::PromptChar(ch) },
            ),
    {
        if self.cursor().mode == Mode::Command {
            self.prompt.push(ch);
            self.redraw_task.request(RedrawTask::StatusBarOnly);
        }
    }

    /// Removes the last character of the prompt, in `Command` mode.
    fn prompt_pop(&mut self)
        requires
            old(self).wf(),
        ensures
            final(self).wf(),
            final(self)@ == old(self)@.after_control(
                Instruction { repeat_count: 1, command: Command::PromptErase },
            ),
    {
        if self.cursor().mode == Mode::Command && self.prompt.len() > 0 {
            self.prompt.pop();
            self.redraw_task.request(RedrawTask::StatusBarOnly);
        }
    }

    /// Does what a command that moves the cursor does.
    fn apply_motion(&mut self, inst: Instruction)
        requires
            old(self).wf(),
            inst.command.kind_of() == CommandKind::Motion,
        ensures
            final(self).wf(),
            final(self)@ == old(self)@.applied(inst),
    {
        reveal(EditorView::after_motion);
        let count = inst.repeat_count;
        let mut cursor = *self.cursor();
        let buffer = self.current_buffer().buffer();
        match inst.command {
            Command::Move(direction) => {
                cursor.move_by(buffer, direction, count);
            },
            Command::LineStart => {
                cursor.line_start(buffer);
            },
            Command::LineEnd => {
                cursor.line_end(buffer);
            },
            Command::NextLine => {
                cursor.next_line_start(buffer, count);
            },
            _ => {
                cursor.prev_line_start(buffer, count);
            },
        }
        self.place_cursor(cursor);
    }

    /// Does what a command that changes the text does.
    fn apply_edit(&mut self, inst: Instruction)
        requires
            old(self).wf(),
            inst.command.kind_of() == CommandKind::Edit,
        ensures
            final(self).wf(),
            final(self)@ == old(self)@.applied(inst),
    {
        reveal(EditorView::after_edit);
        let count = inst.repeat_count;
        let at = self.cursor().position();
        match inst.command {
            Command::InsertChar(ch) => {
                let text = typed_text(&self.options, ch, count);
                self.insert_text(text.as_slice());
            },
            Command::Backspace => {
                let span = span_before(self.current_buffer().buffer(), at, count);
                self.delete_span(span);
            },
            Command::DeleteChar => {
                let span = span_of_chars(self.current_buffer().buffer(), at, count);
                self.delete_span(span);
            },
            Command::DeleteWord => {
                let span = span_of_words(self.current_buffer().buffer(), at, count);
                self.delete_span(span);
            },
            Command::DeleteLine => {
                self.erase_lines(count);
            },
            _ => {
                self.erase_selection();
            },
        }
    }

    /// Does what a command that changes the viewports or the cursors
    /// does.
    fn apply_arrangement(&mut self, inst: Instruction)
        requires
            old(self).wf(),
            inst.command.kind_of() == CommandKind::Arrangement,
        ensures
            final(self).wf(),
            final(self)@ == old(self)@.applied(inst),
    {
        reveal(EditorView::after_arrangement);
        match inst.command {
            Command::Split(orientation) => {
                self.split_viewport(orientation);
            },
            Command::CloseViewport => {
                self.close_viewport();
            },
            Command::NextViewport => {
                self.next_viewport();
            },
            Command::AddCursor => {
                self.add_cursor();
            },
            Command::RemoveCursor => {
                self.remove_cursor();
            },
            _ => {
                self.next_cursor();
            },
        }
    }

    /// Does what one command does: the state becomes what
    /// `EditorView::applied` says.
    fn apply(&mut self, inst: Instruction)
        requires
            old(self).wf(),
        ensures
            final(self).wf(),
            final(self)@ == old(self)@.applied(inst),
    {
        match inst.command.kind() {
            CommandKind::Motion => {
                self.apply_motion(inst);
            },
            CommandKind::Edit => {
                self.apply_edit(inst);
            },
            CommandKind::Arrangement => {
                self.apply_arrangement(inst);
            },
            CommandKind::Control => {
                match inst.command {
                    Command::SetMode(mode) => {
                        self.change_mode(mode);
                    },
                    Command::PromptChar(ch) => {
                        self.prompt_push(ch);
                    },
                    Command::PromptErase => {
                        self.prompt_pop();
                    },
                    Command::SetOption(setting, value) => {
                        self.options.set(setting, value);
                        self.redraw_task.request(RedrawTask::Full);
                    },
                    _ => {},
                }
            },
        }
    }

    /// Says which instruction `inst` stands for.
    fn resolve(&self, inst: Instruction) -> (r: Option<Instruction>)
        requires
            self.wf(),
        ensures
            r == self@.effective(inst),
    {
        match inst.command {
            Command::RepeatLast => match self.previous_instruction {
                Some(previous) => Some(
                    Instruction {
                        repeat_count: if inst.repeat_count == 1 {
                            previous.repeat_count
                        } else {
                            inst.repeat_count
                        },
                        command: previous.command,
                    },
                ),
                None => None,
            },
            Command::PromptSubmit => if self.cursor().mode == Mode::Command {
                match command_of(&self.prompt) {
                    Some(command) => Some(Instruction { repeat_count: 1, command }),
                    None => None,
                }
            } else {
                None
            },
            _ => Some(inst),
        }
    }

    /// Leaves the prompt after a line was submitted: back to `Normal`
    /// mode, with a word in the status bar where the line names no
    /// command.
    fn submit(&mut self)
        requires
            old(self).wf(),
        ensures
            final(self).wf(),
            final(self)@ == old(self)@.submitted(),
    {
        if self.cursor().mode == Mode::Command {
            let known = command_of(&self.prompt).is_some();
            self.change_mode(Mode::Normal);
            if !known {
                self.status_bar.message = "Unknown command".to_owned();
            }
        }
    }

    /// Carries out an instruction and says what it asks of the world
    /// outside. The state becomes what `EditorView::executed` says, and the
    /// result is what `EditorView::action` says.
    pub fn exec(&mut self, inst: Instruction) -> (action: Action)
        requires
            old(self).wf(),
        ensures
            final(self).wf(),
            final(self)@ == old(self)@.executed(inst),
            action == old(self)@.action(inst),
    {
        let meant = self.resolve(inst);
        if inst.command == Command::PromptSubmit {
            self.submit();
        }
        let action = match meant {
            Some(command) => {
                self.apply(command);
                match command.command {
                    Command::Quit => Action::Quit,
                    Command::Save => Action::Save,
                    _ => Action::Continue,
                }
            },
            None => Action::Continue,
        };
        if inst.command != Command::RepeatLast {
            self.previous_instruction = Some(inst);
        }
        action
    }

    /// One turn of the main loop: the state becomes, and the result is,
    /// what `EditorView::stepped` says.
    pub fn step(&mut self, inst: Instruction) -> (step: Step)
        requires
            old(self).wf(),
        ensures
            final(self).wf(),
            final(self)@ == old(self)@.stepped(inst).0,
            step == old(self)@.stepped(inst).1,
            final(self)@.redraw == RedrawTask::Nothing || inst.command == Command::Quit,
    {
        if inst.is_quit() {
            return Step::Quit;
        }
        if !self.status_bar.message.as_str().is_empty() {
            self.status_bar.message = "".to_owned();
            self.redraw_task.request(RedrawTask::StatusBarOnly);
        }
        proof {
            reveal_strlit("");
            assert(self@.status.message =~= Seq::<char>::empty());
            assert(self@ == old(self)@.hushed());
        }
        let action = self.exec(inst);
        self.hint();
        self.status_bar.mode = self.cursor().mode.label().to_owned();
        let task = self.redraw_task.take();
        match action {
            Action::Continue => Step::Redraw(task),
            Action::Save => Step::Save(task),
            Action::Quit => Step::Quit,
        }
    }

    /// Opens `text` under `name` in a new buffer and puts the current
    /// cursor at its start.
    pub fn open(&mut self, name: &str, text: &[char])
        requires
            old(self).wf(),
        ensures
            final(self).wf(),
            final(self)@ == old(self)@.opened(name@, text@),
    {
        let size = self.current_buffer().active_viewport();
        let mode = self.cursor().mode;
        let index = self.buffers.len();
        let fresh = SplitBuffer::from_buffer(
            crate::buffer::Buffer::from_chars(text),
            size.width,
            size.height,
        );
        self.buffers.push(fresh);
        self.cursors.set(
            self.current_cursor as usize,
            Cursor {
                buffer_index: index,
                x: 0,
                y: 0,
                desired_x: 0,
                anchor: Position { x: 0, y: 0 },
                mode,
            },
        );
        self.current_buffer_index = index;
        self.status_bar.file = name.to_owned();
        self.redraw_task.request(RedrawTask::Full);
        proof {
            assert(self@.buffers =~= old(self)@.opened(name@, text@).buffers);
            assert forall|i: int| 0 <= i < self@.cursors.len() implies is_placed(
                self@.buffers,
                #[trigger] self@.cursors[i],
            ) by {
                if i != old(self)@.current_cursor {
                    assert(is_placed(old(self)@.buffers, old(self)@.cursors[i]));
                }
            }
        }
    }

    /// Reports a failure in the status bar. Parse failures are not
    /// reported.
    pub fn report(&mut self, error: EditorError)
        requires
            old(self).wf(),
        ensures
            final(self).wf(),
            final(self)@ == old(self)@.told(error),
    {
        if error.reported() {
            self.status_bar.message = error.message().to_owned();
            self.redraw_task.request(RedrawTask::StatusBarOnly);
        }
    }

    /// The text of the current buffer as it is written to a file: its
    /// lines, each two neighbours parted by the line ending of the
    /// settings.
    pub fn text_to_save(&self) -> (text: Vec<char>)
        requires
            self.wf(),
        ensures
            text@ == crate::text::with_line_ending(
                crate::text::text_of(self@.text()),
                self.options.line_ending == crate::options::LineEnding::CrLf,
            ),
    {
        let plain = self.current_buffer().buffer().to_chars();
        crate::text::encode_line_endings(
            plain.as_slice(),
            self.options.line_ending == crate::options::LineEnding::CrLf,
        )
    }
}

/// Pulls every cursor of buffer `index` to the nearest place of `buffer`.
fn pull_all(cursors: &mut Vec<Cursor>, index: usize, buffer: &crate::buffer::Buffer)
    requires
        buffer.wf(),
    ensures
        final(cursors)@ == pulled(old(cursors)@, index as int, buffer@),
        forall|k: int|
            0 <= k < final(cursors)@.len() && (#[trigger] final(cursors)@[k]).buffer_index == index
                ==> final(cursors)@[k].in_bounds(buffer@),
{
    let mut i: usize = 0;
    while i < cursors.len()
        invariant
            buffer.wf(),
            i <= cursors.len(),
            cursors.len() == old(cursors).len(),
            forall|k: int|
                0 <= k < i ==> cursors@[k] == pulled(old(cursors)@, index as int, buffer@)[k],
            forall|k: int|
                0 <= k < i && (#[trigger] cursors@[k]).buffer_index == index
                    ==> cursors@[k].in_bounds(buffer@),
            forall|k: int| i <= k < cursors.len() ==> cursors@[k] == old(cursors)@[k],
        decreases cursors.len() - i,
    {
        let mut cursor = cursors[i];
        if cursor.buffer_index == index {
            cursor.clamp_to(buffer);
            cursors.set(i, cursor);
        }
        i += 1;
    }
    assert(cursors@ =~= pulled(old(cursors)@, index as int, buffer@));
}

/// The cursors that are left when buffer `gone` is closed.
fn keep_cursors(cursors: &Vec<Cursor>, gone: usize) -> (kept: Vec<Cursor>)
    ensures
        kept@ == surviving(cursors@, gone as int),
{
    let mut kept: Vec<Cursor> = Vec::new();
    let mut i: usize = 0;
    assert(cursors@.subrange(0, 0) =~= Seq::<Cursor>::empty());
    while i < cursors.len()
        invariant
            i <= cursors.len(),
            kept@ == surviving(cursors@.subrange(0, i as int), gone as int),
        decreases cursors.len() - i,
    {
        let mut cursor = cursors[i];
        proof {
            let now = cursors@.subrange(0, i + 1);
            assert(now.drop_last() =~= cursors@.subrange(0, i as int));
            assert(now.last() == cursor);
        }
        if cursor.buffer_index > gone {
            cursor.buffer_index = cursor.buffer_index - 1;
            kept.push(cursor);
        } else if cursor.buffer_index < gone {
            kept.push(cursor);
        }
        i += 1;
    }
    assert(cursors@.subrange(0, i as int) =~= cursors@);
    kept
}

} // verus!
