//! The settings of the editor.

use vstd::prelude::*;

verus! {

/// How lines end in a file that is written.
#[derive(Clone, Copy, Debug, PartialEq, Eq, Structural)]
pub enum LineEnding {
    /// A line feed.
    Lf,
    /// A carriage return and a line feed.
    CrLf,
}

/// The names of the settings.
#[derive(Clone, Copy, Debug, PartialEq, Eq, Structural)]
pub enum Setting {
    TabWidth,
    UseSpaces,
    LineEnding,
    LineNumbers,
}

/// The value of a setting.
#[derive(Clone, Copy, Debug, PartialEq, Eq, Structural)]
pub enum Value {
    Number(usize),
    Flag(bool),
    Ending(LineEnding),
}

/// The settings. There is one value of this type per editor; whoever needs
/// a setting is handed a reference.
#[derive(Clone, Copy, Debug, PartialEq, Eq, Structural)]
pub struct Options {
    /// The number of spaces that stand for a tab.
    pub tab_width: usize,
    /// Whether the tab key types spaces.
    pub use_spaces: bool,
    /// How lines end in a file that is written.
    pub line_ending: LineEnding,
    /// Whether line numbers are shown.
    pub line_numbers: bool,
}

impl Options {
    /// The settings an editor starts with: tabs of four spaces, typed as
    /// spaces, line feeds, no line numbers.
    pub open spec fn initial() -> Options {
        Options {
            tab_width: 4,
            use_spaces: true,
            line_ending: LineEnding::Lf,
            line_numbers: false,
        }
    }

    /// The value of `setting`.
    pub open spec fn value_of(self, setting: Setting) -> Value {
        match setting {
            Setting::TabWidth => Value::Number(self.tab_width),
            Setting::UseSpaces => Value::Flag(self.use_spaces),
            Setting::LineEnding => Value::Ending(self.line_ending),
            Setting::LineNumbers => Value::Flag(self.line_numbers),
        }
    }

    /// `value` is of the kind that `setting` takes.
    pub open spec fn fits(setting: Setting, value: Value) -> bool {
        match (setting, value) {
            (Setting::TabWidth, Value::Number(_)) => true,
            (Setting::UseSpaces, Value::Flag(_)) => true,
            (Setting::LineEnding, Value::Ending(_)) => true,
            (Setting::LineNumbers, Value::Flag(_)) => true,
            _ => false,
        }
    }

    /// The settings with `setting` set to `value`, where the value fits,
    /// and as they are where it does not.
    pub open spec fn with(self, setting: Setting, value: Value) -> Options {
        match (setting, value) {
            (Setting::TabWidth, Value::Number(n)) => Options { tab_width: n, ..self },
            (Setting::UseSpaces, Value::Flag(b)) => Options { use_spaces: b, ..self },
            (Setting::LineEnding, Value::Ending(e)) => Options { line_ending: e, ..self },
            (Setting::LineNumbers, Value::Flag(b)) => Options { line_numbers: b, ..self },
            _ => self,
        }
    }

    /// The settings an editor starts with.
    pub fn new() -> (o: Options)
        ensures
            o == Options::initial(),
    {
        Options { tab_width: 4, use_spaces: true, line_ending: LineEnding::Lf, line_numbers: false }
    }

    /// The value of `setting`.
    pub fn get(&self, setting: Setting) -> (v: Value)
        ensures
            v == self.value_of(setting),
            Options::fits(setting, v),
    {
        match setting {
            Setting::TabWidth => Value::Number(self.tab_width),
            Setting::UseSpaces => Value::Flag(self.use_spaces),
            Setting::LineEnding => Value::Ending(self.line_ending),
            Setting::LineNumbers => Value::Flag(self.line_numbers),
        }
    }

    /// Sets `setting` to `value` and says whether the value was of the
    /// kind the setting takes. A value of another kind changes nothing.
    pub fn set(&mut self, setting: Setting, value: Value) -> (accepted: bool)
        ensures
            accepted == Options::fits(setting, value),
            *final(self) == old(self).with(setting, value),
            accepted ==> final(self).value_of(setting) == value,
            forall|other: Setting|
                other != setting ==> final(self).value_of(other) == old(self).value_of(other),
    {
        match (setting, value) {
            (Setting::TabWidth, Value::Number(n)) => {
                self.tab_width = n;
                true
            },
            (Setting::UseSpaces, Value::Flag(b)) => {
                self.use_spaces = b;
                true
            },
            (Setting::LineEnding, Value::Ending(e)) => {
                self.line_ending = e;
                true
            },
            (Setting::LineNumbers, Value::Flag(b)) => {
                self.line_numbers = b;
                true
            },
            _ => false,
        }
    }

    /// Turns a setting that is a flag over and says whether it is one.
    pub fn toggle(&mut self, setting: Setting) -> (toggled: bool)
        ensures
            toggled == (old(self).value_of(setting) is Flag),
            old(self).value_of(setting) matches Value::Flag(b) ==> *final(self) == old(self).with(
                setting,
                Value::Flag(!b),
            ),
            !toggled ==> *final(self) == *old(self),
    {
        match self.get(setting) {
            Value::Flag(b) => self.set(setting, Value::Flag(!b)),
            _ => false,
        }
    }
}

} // verus!
