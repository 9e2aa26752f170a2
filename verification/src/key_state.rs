//! The accumulator that turns key events into instructions.

use crate::cursor::Mode;
use crate::error::EditorError;
use crate::key::{Instruction, KeyEvent};
use crate::keymap::{resolved, Chord, Keymap, Resolution};
use vstd::prelude::*;

verus! {

/// What a key state holds, as a value.
pub struct Pending {
    /// The repeat count typed so far; 0 where none was typed.
    pub count: usize,
    /// The keys typed so far of a sequence that is not complete yet.
    pub keys: Seq<KeyEvent>,
    /// The mode whose bindings apply.
    pub mode: Mode,
}

/// What feeding one key gave: the state afterwards, and the instruction
/// or the failure that came out, if any.
pub struct Fed {
    pub state: Pending,
    pub output: Result<Option<Instruction>, EditorError>,
}

/// A repeat count with one more decimal digit, held at the largest
/// machine size where it would pass it.
pub open spec fn with_digit(count: usize, digit: int) -> usize {
    if count * 10 + digit <= usize::MAX {
        (count * 10 + digit) as usize
    } else {
        usize::MAX
    }
}

impl Pending {
    /// Nothing is pending.
    pub open spec fn is_idle(self) -> bool {
        self.count == 0 && self.keys.len() == 0
    }

    /// The state with nothing pending, in the same mode.
    pub open spec fn cleared(self) -> Pending {
        Pending { count: 0, keys: Seq::<KeyEvent>::empty(), mode: self.mode }
    }

    /// The state as `KeyState::set_mode` leaves it: as it is where the
    /// mode is the same, and cleared, in the new mode, where it is not.
    pub open spec fn in_mode(self, mode: Mode) -> Pending {
        if mode == self.mode {
            self
        } else {
            Pending { mode, ..self.cleared() }
        }
    }

    /// The repeat count of an instruction that is emitted now: what was
    /// typed, or 1.
    pub open spec fn repeat(self) -> usize {
        if self.count == 0 {
            1
        } else {
            self.count
        }
    }

    /// `event` is a digit of the repeat count: the mode is one in which
    /// keys are commands, no key sequence has begun, and the key types a
    /// digit alone. A zero counts only behind another digit.
    pub open spec fn takes_digit(self, event: KeyEvent) -> bool {
        &&& self.mode == Mode::Normal || self.mode == Mode::Select
        &&& self.keys.len() == 0
        &&& event.is_plain()
        &&& event.key.digit_value() matches Some(d)
        &&& d != 0 || self.count > 0
    }

    /// One step of the parser.
    ///
    /// - The cancel key, while anything is pending, discards it. Pending
    ///   keys could still have become a command, which is `ParseAmbiguous`;
    ///   a pending count alone goes without a word.
    /// - A digit of the repeat count is added to the count.
    /// - Any other key is added to the pending keys, and the keymap says
    ///   what they are now: a command, which is emitted with the count and
    ///   clears the state; the start of a longer sequence, which waits; or
    ///   nothing, which clears the state and is `ParseUnrecognized`.
    pub open spec fn fed(self, chords: Seq<Chord>, event: KeyEvent) -> Fed {
        if event.is_cancel() && !self.is_idle() {
            Fed {
                state: self.cleared(),
                output: if self.keys.len() > 0 {
                    Err(EditorError::ParseAmbiguous)
                } else {
                    Ok(None)
                },
            }
        } else if self.takes_digit(event) {
            Fed {
                state: Pending {
                    count: with_digit(self.count, event.key.digit_value()->Some_0),
                    ..self
                },
                output: Ok(None),
            }
        } else {
            let keys = self.keys.push(event);
            match resolved(chords, self.mode, keys) {
                Resolution::Pending => Fed { state: Pending { keys, ..self }, output: Ok(None) },
                Resolution::Complete(command) => Fed {
                    state: self.cleared(),
                    output: Ok(Some(Instruction { repeat_count: self.repeat(), command })),
                },
                Resolution::Unbound => Fed {
                    state: self.cleared(),
                    output: Err(EditorError::ParseUnrecognized),
                },
            }
        }
    }

    /// A key sequence that is the start of two bound sequences never
    /// fires: whatever it may be bound to itself, feeding its last key
    /// emits nothing, reports nothing and keeps the keys and the count for
    /// the key that decides.
    pub proof fn lemma_shared_prefix_never_fires(
        self,
        chords: Seq<Chord>,
        event: KeyEvent,
        one: int,
        other: int,
    )
        requires
            !(event.is_cancel() && !self.is_idle()),
            !self.takes_digit(event),
            0 <= one < chords.len(),
            0 <= other < chords.len(),
            chords[one].goes_beyond(self.mode, self.keys.push(event)),
            chords[other].goes_beyond(self.mode, self.keys.push(event)),
        ensures
            self.fed(chords, event).output == Ok::<Option<Instruction>, EditorError>(None),
            self.fed(chords, event).state.keys == self.keys.push(event),
            self.fed(chords, event).state.count == self.count,
    {
    }

    /// Whatever is fed, an instruction comes out only together with a
    /// cleared state, and its repeat count is at least 1.
    pub proof fn lemma_emitting_clears(self, chords: Seq<Chord>, event: KeyEvent)
        ensures
            self.fed(chords, event).output matches Ok(Some(instruction)) ==> {
                &&& self.fed(chords, event).state.is_idle()
                &&& instruction.repeat_count >= 1
            },
            self.fed(chords, event).output is Err ==> self.fed(chords, event).state.is_idle(),
            self.fed(chords, event).state.mode == self.mode,
    {
    }
}

/// The pending repeat count, the pending keys and the mode whose
/// bindings apply.
#[derive(Debug)]
pub struct KeyState {
    count: usize,
    keys: Vec<KeyEvent>,
    mode: Mode,
}

impl View for KeyState {
    type V = Pending;

    closed spec fn view(&self) -> Pending {
        Pending { count: self.count, keys: self.keys@, mode: self.mode }
    }
}

impl KeyState {
    /// A key state in `Normal` mode with nothing pending.
    pub fn new() -> (s: KeyState)
        ensures
            s@ == (Pending { count: 0, keys: Seq::<KeyEvent>::empty(), mode: Mode::Normal }),
    {
        KeyState { count: 0, keys: Vec::new(), mode: Mode::Normal }
    }

    /// The mode whose bindings apply.
    pub fn mode(&self) -> (m: Mode)
        ensures
            m == self@.mode,
    {
        self.mode
    }

    /// The repeat count typed so far; 0 where none was typed.
    pub fn pending_count(&self) -> (n: usize)
        ensures
            n == self@.count,
    {
        self.count
    }

    /// The keys typed so far of a sequence that is not complete yet.
    pub fn pending_keys(&self) -> (keys: &Vec<KeyEvent>)
        ensures
            keys@ == self@.keys,
    {
        &self.keys
    }

    /// Whether nothing is pending.
    pub fn is_idle(&self) -> (r: bool)
        ensures
            r == self@.is_idle(),
    {
        self.count == 0 && self.keys.len() == 0
    }

    /// Discards what is pending.
    pub fn reset(&mut self)
        ensures
            final(self)@ == old(self)@.cleared(),
    {
        self.count = 0;
        self.keys = Vec::new();
    }

    /// Takes over the mode of the cursor. What is pending belongs to the
    /// old mode and is discarded where the mode changes.
    pub fn set_mode(&mut self, mode: Mode)
        ensures
            final(self)@ == old(self)@.in_mode(mode),
    {
        if mode != self.mode {
            self.reset();
            self.mode = mode;
        }
    }

    /// Feeds one key event: the state becomes, and the result is, what
    /// `Pending::fed` says.
    pub fn feed(&mut self, keymap: &Keymap, event: KeyEvent) -> (r: Result<
        Option<Instruction>,
        EditorError,
    >)
        ensures
            final(self)@ == old(self)@.fed(keymap@, event).state,
            r == old(self)@.fed(keymap@, event).output,
    {
        if event.cancels() && !self.is_idle() {
            let had_keys = self.keys.len() > 0;
            self.reset();
            return if had_keys {
                Err(EditorError::ParseAmbiguous)
            } else {
                Ok(None)
            };
        }
        if (self.mode == Mode::Normal || self.mode == Mode::Select) && self.keys.len() == 0
            && !event.ctrl && !event.alt {
            match event.key.digit() {
                Some(d) => {
                    if d != 0 || self.count > 0 {
                        self.count = add_digit(self.count, d);
                        return Ok(None);
                    }
                },
                None => {},
            }
        }
        self.keys.push(event);
        match keymap.resolve(self.mode, &self.keys) {
            Resolution::Pending => Ok(None),
            Resolution::Complete(command) => {
                let repeat_count = if self.count == 0 {
                    1
                } else {
                    self.count
                };
                self.reset();
                Ok(Some(Instruction { repeat_count, command }))
            },
            Resolution::Unbound => {
                self.reset();
                Err(EditorError::ParseUnrecognized)
            },
        }
    }
}

/// Adds a decimal digit to a repeat count, holding it at the largest
/// machine size.
fn add_digit(count: usize, digit: u8) -> (r: usize)
    requires
        digit <= 9,
    ensures
        r == with_digit(count, digit as int),
{
    match count.checked_mul(10) {
        Some(tens) => match tens.checked_add(digit as usize) {
            Some(sum) => sum,
            None => usize::MAX,
        },
        None => usize::MAX,
    }
}

} // verus!
