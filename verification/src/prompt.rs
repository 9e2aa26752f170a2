//! The lines that the prompt understands.
//!
//! A line is one of the words `q`, `w`, `sp`, `vsp` and `close`, or `set`,
//! a space, the name of a setting, a space and a value for it.

use crate::key::Command;
use crate::options::{LineEnding, Setting, Value};
use crate::split::Orientation;
use vstd::prelude::*;

verus! {

/// `line` begins with `word`.
pub open spec fn begins_with(line: Seq<char>, word: Seq<char>) -> bool {
    line.len() >= word.len() && line.subrange(0, word.len() as int) == word
}

/// What stands behind the first `word.len()` characters of `line`.
pub open spec fn behind(line: Seq<char>, word: Seq<char>) -> Seq<char> {
    line.subrange(word.len() as int, line.len() as int)
}

/// Every character is a decimal digit.
pub open spec fn are_digits(s: Seq<char>) -> bool {
    forall|i: int| 0 <= i < s.len() ==> '0' <= #[trigger] s[i] <= '9'
}

/// The number that the decimal digits `s` write.
pub open spec fn decimal(s: Seq<char>) -> int
    decreases s.len(),
{
    if s.len() == 0 {
        0
    } else {
        decimal(s.drop_last()) * 10 + (s.last() as int - '0' as int)
    }
}

/// The number that `s` writes, if `s` is one or more decimal digits and
/// the number is a machine size.
pub open spec fn number_of(s: Seq<char>) -> Option<usize> {
    if s.len() >= 1 && are_digits(s) && decimal(s) <= usize::MAX {
        Some(decimal(s) as usize)
    } else {
        None
    }
}

/// The flag that `word` names: `on` or `off`.
pub open spec fn flag_of(word: Seq<char>) -> Option<bool> {
    if word == "on"@ {
        Some(true)
    } else if word == "off"@ {
        Some(false)
    } else {
        None
    }
}

/// The line ending that `word` names: `lf` or `crlf`.
pub open spec fn ending_of(word: Seq<char>) -> Option<LineEnding> {
    if word == "lf"@ {
        Some(LineEnding::Lf)
    } else if word == "crlf"@ {
        Some(LineEnding::CrLf)
    } else {
        None
    }
}

/// The command that sets what `rest` names, a setting and a value with
/// one space between them.
pub open spec fn setting_of(rest: Seq<char>) -> Option<Command> {
    if begins_with(rest, "tab_width "@) {
        match number_of(behind(rest, "tab_width "@)) {
            Some(n) => Some(Command::SetOption(Setting::TabWidth, Value::Number(n))),
            None => None,
        }
    } else if begins_with(rest, "use_spaces "@) {
        match flag_of(behind(rest, "use_spaces "@)) {
            Some(b) => Some(Command::SetOption(Setting::UseSpaces, Value::Flag(b))),
            None => None,
        }
    } else if begins_with(rest, "line_numbers "@) {
        match flag_of(behind(rest, "line_numbers "@)) {
            Some(b) => Some(Command::SetOption(Setting::LineNumbers, Value::Flag(b))),
            None => None,
        }
    } else if begins_with(rest, "line_ending "@) {
        match ending_of(behind(rest, "line_ending "@)) {
            Some(e) => Some(Command::SetOption(Setting::LineEnding, Value::Ending(e))),
            None => None,
        }
    } else {
        None
    }
}

/// The command that a line typed at the prompt stands for.
pub open spec fn prompt_command(line: Seq<char>) -> Option<Command> {
    if line == "q"@ {
        Some(Command::Quit)
    } else if line == "w"@ {
        Some(Command::Save)
    } else if line == "sp"@ {
        Some(Command::Split(Orientation::Horizontal))
    } else if line == "vsp"@ {
        Some(Command::Split(Orientation::Vertical))
    } else if line == "close"@ {
        Some(Command::CloseViewport)
    } else if begins_with(line, "set "@) {
        setting_of(behind(line, "set "@))
    } else {
        None
    }
}

/// The digits of a number write no less than the first of them do, and
/// never less than nothing.
pub proof fn lemma_decimal_grows(s: Seq<char>, k: int)
    requires
        are_digits(s),
        0 <= k <= s.len(),
    ensures
        0 <= decimal(s.subrange(0, k)) <= decimal(s),
    decreases s.len() - k,
{
    if k == s.len() {
        assert(s.subrange(0, k) == s);
        lemma_decimal_is_natural(s);
    } else {
        let front = s.drop_last();
        assert(front.subrange(0, k) == s.subrange(0, k));
        assert forall|i: int| 0 <= i < front.len() implies '0' <= #[trigger] front[i] <= '9' by {
            assert(front[i] == s[i]);
        }
        lemma_decimal_grows(front, k);
        assert('0' <= s[s.len() - 1] <= '9');
    }
}

/// Digits write no negative number.
pub proof fn lemma_decimal_is_natural(s: Seq<char>)
    requires
        are_digits(s),
    ensures
        decimal(s) >= 0,
    decreases s.len(),
{
    if s.len() > 0 {
        let front = s.drop_last();
        assert forall|i: int| 0 <= i < front.len() implies '0' <= #[trigger] front[i] <= '9' by {
            assert(front[i] == s[i]);
        }
        lemma_decimal_is_natural(front);
        assert('0' <= s[s.len() - 1] <= '9');
    }
}

/// Whether what stands in `line` from `from` on is the text `word`.
fn is_word(line: &Vec<char>, from: usize, word: &str) -> (r: bool)
    requires
        from <= line.len(),
    ensures
        r == (line@.subrange(from as int, line.len() as int) == word@),
{
    let n = word.unicode_len();
    if line.len() - from != n {
        return false;
    }
    let ghost rest = line@.subrange(from as int, line.len() as int);
    let mut i: usize = 0;
    while i < n
        invariant
            n == word@.len(),
            from + n == line@.len(),
            rest == line@.subrange(from as int, line.len() as int),
            i <= n,
            forall|k: int| 0 <= k < i ==> rest[k] == word@[k],
        decreases n - i,
    {
        if line[from + i] != word.get_char(i) {
            assert(rest[i as int] != word@[i as int]);
            return false;
        }
        i += 1;
    }
    assert(rest =~= word@);
    true
}

/// Where what stands behind `word` begins, if what stands in `line`
/// from `from` on begins with `word`.
fn skip_word(line: &Vec<char>, from: usize, word: &str) -> (r: Option<usize>)
    requires
        from <= line.len(),
    ensures
        r is Some <==> begins_with(line@.subrange(from as int, line.len() as int), word@),
        r matches Some(next) ==> from <= next <= line.len() && next == from + word@.len()
            && line@.subrange(next as int, line.len() as int) == behind(
            line@.subrange(from as int, line.len() as int),
            word@,
        ),
{
    let n = word.unicode_len();
    if line.len() - from < n {
        return None;
    }
    let ghost rest = line@.subrange(from as int, line.len() as int);
    let mut i: usize = 0;
    while i < n
        invariant
            n == word@.len(),
            from + n <= line@.len(),
            rest == line@.subrange(from as int, line.len() as int),
            i <= n,
            forall|k: int| 0 <= k < i ==> rest[k] == word@[k],
        decreases n - i,
    {
        if line[from + i] != word.get_char(i) {
            assert(rest.subrange(0, n as int)[i as int] != word@[i as int]);
            return None;
        }
        i += 1;
    }
    assert(rest.subrange(0, n as int) =~= word@);
    assert(line@.subrange(from + n, line.len() as int) =~= behind(rest, word@));
    Some(from + n)
}

/// Reads the number that stands in `line` from `from` on.
fn read_number(line: &Vec<char>, from: usize) -> (r: Option<usize>)
    requires
        from <= line.len(),
    ensures
        r == number_of(line@.subrange(from as int, line.len() as int)),
{
    let ghost digits = line@.subrange(from as int, line.len() as int);
    if from == line.len() {
        return None;
    }
    let mut value: usize = 0;
    let mut i: usize = from;
    assert(digits.subrange(0, 0) =~= Seq::<char>::empty());
    while i < line.len()
        invariant
            from <= i <= line.len(),
            digits == line@.subrange(from as int, line.len() as int),
            are_digits(digits.subrange(0, i - from)),
            value == decimal(digits.subrange(0, i - from)),
        decreases line.len() - i,
    {
        let c = line[i];
        if c < '0' || c > '9' {
            assert(digits[i - from] == c);
            return None;
        }
        let ghost seen = digits.subrange(0, i - from + 1);
        proof {
            assert(seen.drop_last() =~= digits.subrange(0, i - from));
            assert(seen.last() == c);
            assert forall|k: int| 0 <= k < seen.len() implies '0' <= #[trigger] seen[k] <= '9' by {
                if k < seen.len() - 1 {
                    assert(seen[k] == digits.subrange(0, i - from)[k]);
                }
            }
            if are_digits(digits) {
                lemma_decimal_grows(digits, i - from + 1);
            }
        }
        let digit = (c as u32 - '0' as u32) as usize;
        match value.checked_mul(10) {
            Some(tens) => match tens.checked_add(digit) {
                Some(sum) => {
                    value = sum;
                },
                None => {
                    return None;
                },
            },
            None => {
                return None;
            },
        }
        i += 1;
    }
    assert(digits.subrange(0, i - from) =~= digits);
    Some(value)
}

/// Reads the flag that stands in `line` from `from` on.
fn read_flag(line: &Vec<char>, from: usize) -> (r: Option<bool>)
    requires
        from <= line.len(),
    ensures
        r == flag_of(line@.subrange(from as int, line.len() as int)),
{
    if is_word(line, from, "on") {
        Some(true)
    } else if is_word(line, from, "off") {
        Some(false)
    } else {
        None
    }
}

/// Reads the line ending that stands in `line` from `from` on.
fn read_ending(line: &Vec<char>, from: usize) -> (r: Option<LineEnding>)
    requires
        from <= line.len(),
    ensures
        r == ending_of(line@.subrange(from as int, line.len() as int)),
{
    if is_word(line, from, "lf") {
        Some(LineEnding::Lf)
    } else if is_word(line, from, "crlf") {
        Some(LineEnding::CrLf)
    } else {
        None
    }
}

/// Reads the setting and the value that stand in `line` from `from` on.
fn read_setting(line: &Vec<char>, from: usize) -> (r: Option<Command>)
    requires
        from <= line.len(),
    ensures
        r == setting_of(line@.subrange(from as int, line.len() as int)),
{
    if let Some(next) = skip_word(line, from, "tab_width ") {
        match read_number(line, next) {
            Some(n) => Some(Command::SetOption(Setting::TabWidth, Value::Number(n))),
            None => None,
        }
    } else if let Some(next) = skip_word(line, from, "use_spaces ") {
        match read_flag(line, next) {
            Some(b) => Some(Command::SetOption(Setting::UseSpaces, Value::Flag(b))),
            None => None,
        }
    } else if let Some(next) = skip_word(line, from, "line_numbers ") {
        match read_flag(line, next) {
            Some(b) => Some(Command::SetOption(Setting::LineNumbers, Value::Flag(b))),
            None => None,
        }
    } else if let Some(next) = skip_word(line, from, "line_ending ") {
        match read_ending(line, next) {
            Some(e) => Some(Command::SetOption(Setting::LineEnding, Value::Ending(e))),
            None => None,
        }
    } else {
        None
    }
}

/// The command that a line typed at the prompt stands for.
pub fn command_of(line: &Vec<char>) -> (r: Option<Command>)
    ensures
        r == prompt_command(line@),
{
    assert(line@.subrange(0, line.len() as int) =~= line@);
    if is_word(line, 0, "q") {
        Some(Command::Quit)
    } else if is_word(line, 0, "w") {
        Some(Command::Save)
    } else if is_word(line, 0, "sp") {
        Some(Command::Split(Orientation::Horizontal))
    } else if is_word(line, 0, "vsp") {
        Some(Command::Split(Orientation::Vertical))
    } else if is_word(line, 0, "close") {
        Some(Command::CloseViewport)
    } else if let Some(next) = skip_word(line, 0, "set ") {
        read_setting(line, next)
    } else {
        None
    }
}

} // verus!
