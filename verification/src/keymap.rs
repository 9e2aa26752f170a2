//! The table that says which key sequences are which commands in which
//! mode.

use crate::cursor::{Direction, Mode};
use crate::key::{Command, Key, KeyEvent};
use crate::split::Orientation;
use vstd::prelude::*;

verus! {

/// One row of a keymap, as a value: in `mode`, the key sequence `keys` is
/// `command`.
pub struct Chord {
    pub mode: Mode,
    pub keys: Seq<KeyEvent>,
    pub command: Command,
}

/// One row of a keymap.
#[derive(Debug)]
pub struct Binding {
    pub mode: Mode,
    pub keys: Vec<KeyEvent>,
    pub command: Command,
}

impl View for Binding {
    type V = Chord;

    open spec fn view(&self) -> Chord {
        Chord { mode: self.mode, keys: self.keys@, command: self.command }
    }
}

/// What a key sequence is in a mode.
#[derive(Clone, Copy, Debug, PartialEq, Eq, Structural)]
pub enum Resolution {
    /// The sequence is this command, and the start of no longer one.
    Complete(Command),
    /// The sequence is the start of a longer bound sequence: the next key
    /// decides.
    Pending,
    /// The sequence is no command and the start of none.
    Unbound,
}

impl Chord {
    /// The row binds exactly `keys` in `mode`.
    pub open spec fn is_exactly(self, mode: Mode, keys: Seq<KeyEvent>) -> bool {
        self.mode == mode && self.keys == keys
    }

    /// The row binds, in `mode`, a sequence that begins with `keys` and
    /// goes on.
    pub open spec fn goes_beyond(self, mode: Mode, keys: Seq<KeyEvent>) -> bool {
        self.mode == mode && keys.len() < self.keys.len() && self.keys.subrange(
            0,
            keys.len() as int,
        ) == keys
    }
}

/// Some row binds a longer sequence that begins with `keys`.
pub open spec fn is_prefix(chords: Seq<Chord>, mode: Mode, keys: Seq<KeyEvent>) -> bool {
    exists|i: int| 0 <= i < chords.len() && (#[trigger] chords[i]).goes_beyond(mode, keys)
}

/// Row `i` is the first row that binds exactly `keys`.
pub open spec fn is_first_exact(chords: Seq<Chord>, mode: Mode, keys: Seq<KeyEvent>, i: int) -> bool {
    &&& 0 <= i < chords.len()
    &&& chords[i].is_exactly(mode, keys)
    &&& forall|j: int| 0 <= j < i ==> !(#[trigger] chords[j]).is_exactly(mode, keys)
}

/// Some row binds exactly `keys`.
pub open spec fn is_bound(chords: Seq<Chord>, mode: Mode, keys: Seq<KeyEvent>) -> bool {
    exists|i: int| is_first_exact(chords, mode, keys, i)
}

/// The command of the first row that binds exactly `keys`.
pub open spec fn bound_command(chords: Seq<Chord>, mode: Mode, keys: Seq<KeyEvent>) -> Command {
    chords[choose|i: int| is_first_exact(chords, mode, keys, i)].command
}

/// What a sequence that no row knows is: a character typed alone is text
/// in `Insert` mode and goes to the prompt in `Command` mode; everything
/// else is nothing.
pub open spec fn unlisted(mode: Mode, keys: Seq<KeyEvent>) -> Resolution {
    if keys.len() == 1 && keys[0].is_plain() {
        match (mode, keys[0].key) {
            (Mode::Insert, Key::Char(c)) => Resolution::Complete(Command::InsertChar(c)),
            (Mode::Command, Key::Char(c)) => Resolution::Complete(Command::PromptChar(c)),
            _ => Resolution::Unbound,
        }
    } else {
        Resolution::Unbound
    }
}

/// What `keys` is in `mode`. A sequence that is the start of a longer
/// bound one is `Pending`, also where it is bound itself: the shorter
/// command never comes before the longer one had its chance.
pub open spec fn resolved(chords: Seq<Chord>, mode: Mode, keys: Seq<KeyEvent>) -> Resolution {
    if is_prefix(chords, mode, keys) {
        Resolution::Pending
    } else if is_bound(chords, mode, keys) {
        Resolution::Complete(bound_command(chords, mode, keys))
    } else {
        unlisted(mode, keys)
    }
}

/// The rows of a vector of bindings, each taken as a value.
pub open spec fn chords_of(bindings: Seq<Binding>) -> Seq<Chord> {
    Seq::new(bindings.len(), |i: int| bindings[i]@)
}

/// Whether `keys` is the same sequence as `other`.
fn same_keys(keys: &Vec<KeyEvent>, other: &Vec<KeyEvent>) -> (r: bool)
    ensures
        r == (keys@ == other@),
{
    if keys.len() != other.len() {
        return false;
    }
    let mut i: usize = 0;
    while i < keys.len()
        invariant
            i <= keys.len(),
            keys.len() == other.len(),
            forall|k: int| 0 <= k < i ==> keys@[k] == other@[k],
        decreases keys.len() - i,
    {
        if keys[i] != other[i] {
            return false;
        }
        i += 1;
    }
    assert(keys@ =~= other@);
    true
}

/// Whether `longer` begins with `keys` and goes on.
fn begins_with(longer: &Vec<KeyEvent>, keys: &Vec<KeyEvent>) -> (r: bool)
    ensures
        r == (keys@.len() < longer@.len() && longer@.subrange(0, keys@.len() as int) == keys@),
{
    if keys.len() >= longer.len() {
        return false;
    }
    let mut i: usize = 0;
    while i < keys.len()
        invariant
            i <= keys.len(),
            keys.len() < longer.len(),
            forall|k: int| 0 <= k < i ==> keys@[k] == longer@[k],
        decreases keys.len() - i,
    {
        if keys[i] != longer[i] {
            assert(longer@.subrange(0, keys@.len() as int)[i as int] != keys@[i as int]);
            return false;
        }
        i += 1;
    }
    assert(longer@.subrange(0, keys@.len() as int) =~= keys@);
    true
}

/// A table of key bindings. Earlier rows come before later ones.
#[derive(Debug)]
pub struct Keymap {
    bindings: Vec<Binding>,
}

impl View for Keymap {
    type V = Seq<Chord>;

    closed spec fn view(&self) -> Seq<Chord> {
        chords_of(self.bindings@)
    }
}

impl Keymap {
    /// A keymap without rows.
    pub fn new() -> (k: Keymap)
        ensures
            k@ == Seq::<Chord>::empty(),
    {
        let k = Keymap { bindings: Vec::new() };
        assert(k@ =~= Seq::<Chord>::empty());
        k
    }

    /// The number of rows.
    pub fn len(&self) -> (n: usize)
        ensures
            n == self@.len(),
    {
        self.bindings.len()
    }

    /// The index of the first row that binds exactly `keys` in `mode`.
    pub fn find(&self, mode: Mode, keys: &Vec<KeyEvent>) -> (r: Option<usize>)
        ensures
            r is Some <==> is_bound(self@, mode, keys@),
            r matches Some(i) ==> is_first_exact(self@, mode, keys@, i as int),
    {
        let mut i: usize = 0;
        while i < self.bindings.len()
            invariant
                i <= self.bindings.len(),
                forall|j: int| 0 <= j < i ==> !(#[trigger] self@[j]).is_exactly(mode, keys@),
            decreases self.bindings.len() - i,
        {
            let row = &self.bindings[i];
            assert(self@[i as int] == row@);
            if row.mode == mode && same_keys(&row.keys, keys) {
                assert(is_first_exact(self@, mode, keys@, i as int));
                return Some(i);
            }
            i += 1;
        }
        assert forall|k: int| !is_first_exact(self@, mode, keys@, k) by {}
        None
    }

    /// Binds `keys` to `command` in `mode`. A row that binds the same
    /// sequence in the same mode gets the new command; otherwise a row is
    /// added at the end, where it comes before no other. After the call
    /// `keys` is bound to `command`, and every other sequence is what it
    /// was.
    pub fn bind(&mut self, mode: Mode, keys: Vec<KeyEvent>, command: Command)
        ensures
            is_bound(final(self)@, mode, keys@),
            bound_command(final(self)@, mode, keys@) == command,
            is_bound(old(self)@, mode, keys@) ==> final(self)@ == old(self)@.update(
                (choose|i: int| is_first_exact(old(self)@, mode, keys@, i)),
                Chord { mode, keys: keys@, command },
            ),
            !is_bound(old(self)@, mode, keys@) ==> final(self)@ == old(self)@.push(
                Chord { mode, keys: keys@, command },
            ),
    {
        let ghost chord = Chord { mode, keys: keys@, command };
        match self.find(mode, &keys) {
            Some(i) => {
                proof {
                    lemma_first_exact_is_unique(
                        self@,
                        mode,
                        keys@,
                        i as int,
                        choose|k: int| is_first_exact(self@, mode, keys@, k),
                    );
                }
                self.bindings.set(i, Binding { mode, keys, command });
                proof {
                    assert(self@ =~= old(self)@.update(i as int, chord));
                    assert(is_first_exact(self@, mode, chord.keys, i as int));
                    lemma_first_exact_is_unique(
                        self@,
                        mode,
                        chord.keys,
                        i as int,
                        choose|k: int| is_first_exact(self@, mode, chord.keys, k),
                    );
                }
            },
            None => {
                let ghost at = self.bindings.len() as int;
                self.bindings.push(Binding { mode, keys, command });
                proof {
                    assert(self@ =~= old(self)@.push(chord));
                    assert forall|j: int| 0 <= j < at implies !(#[trigger] self@[j]).is_exactly(
                        mode,
                        chord.keys,
                    ) by {
                        if self@[j].is_exactly(mode, chord.keys) {
                            assert(old(self)@[j] == self@[j]);
                            lemma_exact_row_means_bound(old(self)@, mode, chord.keys, j);
                        }
                    }
                    assert(is_first_exact(self@, mode, chord.keys, at));
                    lemma_first_exact_is_unique(
                        self@,
                        mode,
                        chord.keys,
                        at,
                        choose|k: int| is_first_exact(self@, mode, chord.keys, k),
                    );
                }
            },
        }
    }

    /// Says what `keys` is in `mode`: a command, the start of a longer
    /// sequence, or nothing.
    pub fn resolve(&self, mode: Mode, keys: &Vec<KeyEvent>) -> (r: Resolution)
        ensures
            r == resolved(self@, mode, keys@),
    {
        let mut i: usize = 0;
        while i < self.bindings.len()
            invariant
                i <= self.bindings.len(),
                forall|j: int| 0 <= j < i ==> !(#[trigger] self@[j]).goes_beyond(mode, keys@),
            decreases self.bindings.len() - i,
        {
            let row = &self.bindings[i];
            assert(self@[i as int] == row@);
            if row.mode == mode && begins_with(&row.keys, keys) {
                assert(self@[i as int].goes_beyond(mode, keys@));
                return Resolution::Pending;
            }
            i += 1;
        }
        match self.find(mode, keys) {
            Some(at) => {
                proof {
                    lemma_first_exact_is_unique(
                        self@,
                        mode,
                        keys@,
                        at as int,
                        choose|k: int| is_first_exact(self@, mode, keys@, k),
                    );
                }
                assert(self@[at as int] == self.bindings[at as int]@);
                Resolution::Complete(self.bindings[at].command)
            },
            None => unlisted_keys(mode, keys),
        }
    }
}

/// What a sequence that no row knows is.
fn unlisted_keys(mode: Mode, keys: &Vec<KeyEvent>) -> (r: Resolution)
    ensures
        r == unlisted(mode, keys@),
{
    if keys.len() != 1 || keys[0].ctrl || keys[0].alt {
        return Resolution::Unbound;
    }
    match (mode, keys[0].key) {
        (Mode::Insert, Key::Char(c)) => Resolution::Complete(Command::InsertChar(c)),
        (Mode::Command, Key::Char(c)) => Resolution::Complete(Command::PromptChar(c)),
        _ => Resolution::Unbound,
    }
}

/// There is one first row that binds a sequence, if there is any.
pub proof fn lemma_first_exact_is_unique(
    chords: Seq<Chord>,
    mode: Mode,
    keys: Seq<KeyEvent>,
    i: int,
    j: int,
)
    requires
        is_first_exact(chords, mode, keys, i),
    ensures
        is_first_exact(chords, mode, keys, j) ==> i == j,
        is_bound(chords, mode, keys),
        chords[i].command == bound_command(chords, mode, keys),
{
    let k = choose|k: int| is_first_exact(chords, mode, keys, k);
    if is_first_exact(chords, mode, keys, j) {
        if i < j {
            assert(!chords[i].is_exactly(mode, keys));
        } else if j < i {
            assert(!chords[j].is_exactly(mode, keys));
        }
    }
    if i < k {
        assert(!chords[i].is_exactly(mode, keys));
    } else if k < i {
        assert(!chords[k].is_exactly(mode, keys));
    }
}

/// A row that binds a sequence makes the sequence bound, be it the first
/// such row or not.
pub proof fn lemma_exact_row_means_bound(
    chords: Seq<Chord>,
    mode: Mode,
    keys: Seq<KeyEvent>,
    i: int,
)
    requires
        0 <= i < chords.len(),
        chords[i].is_exactly(mode, keys),
    ensures
        is_bound(chords, mode, keys),
    decreases i,
{
    if exists|j: int| 0 <= j < i && (#[trigger] chords[j]).is_exactly(mode, keys) {
        let j = choose|j: int| 0 <= j < i && (#[trigger] chords[j]).is_exactly(mode, keys);
        lemma_exact_row_means_bound(chords, mode, keys, j);
    } else {
        assert(is_first_exact(chords, mode, keys, i));
    }
}

/// A sequence that is the start of a longer bound one resolves to nothing
/// yet, whether or not it is bound itself.
pub proof fn lemma_prefix_waits(chords: Seq<Chord>, mode: Mode, keys: Seq<KeyEvent>, i: int)
    requires
        0 <= i < chords.len(),
        chords[i].goes_beyond(mode, keys),
    ensures
        resolved(chords, mode, keys) == Resolution::Pending,
{
}

/// The row that binds the one key `key`.
pub open spec fn single(mode: Mode, key: KeyEvent, command: Command) -> Chord {
    Chord { mode, keys: seq![key], command }
}

/// The row that binds `first` followed by `second`.
pub open spec fn double(mode: Mode, first: KeyEvent, second: KeyEvent, command: Command) -> Chord {
    Chord { mode, keys: seq![first, second], command }
}

/// `h`, `j`, `k` and `l` move the cursor in `Normal` and in `Select` mode. These rows follow `rows`.
pub open spec fn with_letter_moves(rows: Seq<Chord>) -> Seq<Chord> {
    rows.push(
        single(Mode::Normal, KeyEvent::typed('h'), Command::Move(Direction::Left)),
    ).push(
        single(Mode::Normal, KeyEvent::typed('l'), Command::Move(Direction::Right)),
    ).push(
        single(Mode::Normal, KeyEvent::typed('k'), Command::Move(Direction::Up)),
    ).push(
        single(Mode::Normal, KeyEvent::typed('j'), Command::Move(Direction::Down)),
    ).push(
        single(Mode::Select, KeyEvent::typed('h'), Command::Move(Direction::Left)),
    ).push(
        single(Mode::Select, KeyEvent::typed('l'), Command::Move(Direction::Right)),
    ).push(
        single(Mode::Select, KeyEvent::typed('k'), Command::Move(Direction::Up)),
    ).push(
        single(Mode::Select, KeyEvent::typed('j'), Command::Move(Direction::Down)),
    )
}

/// The arrow keys move the cursor in every mode but `Command`. These rows follow `rows`.
pub open spec fn with_arrow_moves(rows: Seq<Chord>) -> Seq<Chord> {
    rows.push(
        single(Mode::Normal, KeyEvent::plain(Key::Left), Command::Move(Direction::Left)),
    ).push(
        single(Mode::Normal, KeyEvent::plain(Key::Right), Command::Move(Direction::Right)),
    ).push(
        single(Mode::Normal, KeyEvent::plain(Key::Up), Command::Move(Direction::Up)),
    ).push(
        single(Mode::Normal, KeyEvent::plain(Key::Down), Command::Move(Direction::Down)),
    ).push(
        single(Mode::Insert, KeyEvent::plain(Key::Left), Command::Move(Direction::Left)),
    ).push(
        single(Mode::Insert, KeyEvent::plain(Key::Right), Command::Move(Direction::Right)),
    ).push(
        single(Mode::Insert, KeyEvent::plain(Key::Up), Command::Move(Direction::Up)),
    ).push(
        single(Mode::Insert, KeyEvent::plain(Key::Down), Command::Move(Direction::Down)),
    ).push(
        single(Mode::Select, KeyEvent::plain(Key::Left), Command::Move(Direction::Left)),
    ).push(
        single(Mode::Select, KeyEvent::plain(Key::Right), Command::Move(Direction::Right)),
    ).push(
        single(Mode::Select, KeyEvent::plain(Key::Up), Command::Move(Direction::Up)),
    ).push(
        single(Mode::Select, KeyEvent::plain(Key::Down), Command::Move(Direction::Down)),
    )
}

/// The line movements, mode changes and deletions of `Normal` mode. `d`
/// begins both `dd` and `dw`. These rows follow `rows`.
pub open spec fn with_normal_editing(rows: Seq<Chord>) -> Seq<Chord> {
    rows.push(
        single(Mode::Normal, KeyEvent::typed('0'), Command::LineStart),
    ).push(
        single(Mode::Normal, KeyEvent::typed('$'), Command::LineEnd),
    ).push(
        single(Mode::Normal, KeyEvent::plain(Key::Enter), Command::NextLine),
    ).push(
        single(Mode::Normal, KeyEvent::typed('+'), Command::NextLine),
    ).push(
        single(Mode::Normal, KeyEvent::typed('-'), Command::PrevLine),
    ).push(
        single(Mode::Normal, KeyEvent::typed('i'), Command::SetMode(Mode::Insert)),
    ).push(
        single(Mode::Normal, KeyEvent::typed(':'), Command::SetMode(Mode::Command)),
    ).push(
        single(Mode::Normal, KeyEvent::typed('x'), Command::DeleteChar),
    ).push(
        double(Mode::Normal, KeyEvent::typed('d'), KeyEvent::typed('d'), Command::DeleteLine),
    ).push(
        double(Mode::Normal, KeyEvent::typed('d'), KeyEvent::typed('w'), Command::DeleteWord),
    ).push(
        single(Mode::Normal, KeyEvent::typed('.'), Command::RepeatLast),
    )
}

/// The viewport commands, which control-`w` begins, and the cursor
/// commands, which `g` begins. These rows follow `rows`.
pub open spec fn with_normal_panes(rows: Seq<Chord>) -> Seq<Chord> {
    rows.push(
        double(Mode::Normal, KeyEvent::with_ctrl(Key::Char('w')), KeyEvent::typed('s'), Command::Split(Orientation::Horizontal)),
    ).push(
        double(Mode::Normal, KeyEvent::with_ctrl(Key::Char('w')), KeyEvent::typed('v'), Command::Split(Orientation::Vertical)),
    ).push(
        double(Mode::Normal, KeyEvent::with_ctrl(Key::Char('w')), KeyEvent::typed('c'), Command::CloseViewport),
    ).push(
        double(Mode::Normal, KeyEvent::with_ctrl(Key::Char('w')), KeyEvent::typed('w'), Command::NextViewport),
    ).push(
        double(Mode::Normal, KeyEvent::typed('g'), KeyEvent::typed('n'), Command::AddCursor),
    ).push(
        double(Mode::Normal, KeyEvent::typed('g'), KeyEvent::typed('d'), Command::RemoveCursor),
    ).push(
        double(Mode::Normal, KeyEvent::typed('g'), KeyEvent::typed('c'), Command::NextCursor),
    )
}

/// The keys of `Insert`, `Select` and `Command` mode that are not text. These rows follow `rows`.
pub open spec fn with_other_modes(rows: Seq<Chord>) -> Seq<Chord> {
    rows.push(
        single(Mode::Insert, KeyEvent::plain(Key::Escape), Command::SetMode(Mode::Normal)),
    ).push(
        single(Mode::Insert, KeyEvent::plain(Key::Enter), Command::InsertChar('\n')),
    ).push(
        single(Mode::Insert, KeyEvent::plain(Key::Tab), Command::InsertChar('\t')),
    ).push(
        single(Mode::Insert, KeyEvent::plain(Key::Backspace), Command::Backspace),
    ).push(
        single(Mode::Insert, KeyEvent::with_ctrl(Key::Char('s')), Command::SetMode(Mode::Select)),
    ).push(
        single(Mode::Select, KeyEvent::plain(Key::Escape), Command::SetMode(Mode::Insert)),
    ).push(
        single(Mode::Select, KeyEvent::typed('d'), Command::DeleteSelection),
    ).push(
        single(Mode::Select, KeyEvent::typed('x'), Command::DeleteSelection),
    ).push(
        single(Mode::Command, KeyEvent::plain(Key::Escape), Command::SetMode(Mode::Normal)),
    ).push(
        single(Mode::Command, KeyEvent::plain(Key::Enter), Command::PromptSubmit),
    ).push(
        single(Mode::Command, KeyEvent::plain(Key::Backspace), Command::PromptErase),
    )
}

/// Control-`q` leaves the editor from every mode. These rows follow `rows`.
pub open spec fn with_quit_keys(rows: Seq<Chord>) -> Seq<Chord> {
    rows.push(
        single(Mode::Normal, KeyEvent::with_ctrl(Key::Char('q')), Command::Quit),
    ).push(
        single(Mode::Insert, KeyEvent::with_ctrl(Key::Char('q')), Command::Quit),
    ).push(
        single(Mode::Select, KeyEvent::with_ctrl(Key::Char('q')), Command::Quit),
    ).push(
        single(Mode::Command, KeyEvent::with_ctrl(Key::Char('q')), Command::Quit),
    )
}

/// The rows of the standard keymap.
pub open spec fn standard_chords() -> Seq<Chord> {
    with_quit_keys(
        with_other_modes(
            with_normal_panes(
                with_normal_editing(with_arrow_moves(with_letter_moves(Seq::<Chord>::empty()))),
            ),
        ),
    )
}

impl Keymap {
    /// Adds a row for one key, behind the rows there are.
    fn add_single(&mut self, mode: Mode, key: KeyEvent, command: Command)
        ensures
            final(self)@ == old(self)@.push(single(mode, key, command)),
    {
        let mut keys: Vec<KeyEvent> = Vec::new();
        keys.push(key);
        assert(keys@ =~= seq![key]);
        self.bindings.push(Binding { mode, keys, command });
        assert(self@ =~= old(self)@.push(single(mode, key, command)));
    }

    /// Adds a row for two keys, behind the rows there are.
    fn add_double(&mut self, mode: Mode, first: KeyEvent, second: KeyEvent, command: Command)
        ensures
            final(self)@ == old(self)@.push(double(mode, first, second, command)),
    {
        let mut keys: Vec<KeyEvent> = Vec::new();
        keys.push(first);
        keys.push(second);
        assert(keys@ =~= seq![first, second]);
        self.bindings.push(Binding { mode, keys, command });
        assert(self@ =~= old(self)@.push(double(mode, first, second, command)));
    }

    /// Adds the rows of `with_letter_moves`.
    fn add_letter_moves(&mut self)
        ensures
            final(self)@ == with_letter_moves(old(self)@),
    {
        self.add_single(Mode::Normal, KeyEvent::typed('h'), Command::Move(Direction::Left));
        self.add_single(Mode::Normal, KeyEvent::typed('l'), Command::Move(Direction::Right));
        self.add_single(Mode::Normal, KeyEvent::typed('k'), Command::Move(Direction::Up));
        self.add_single(Mode::Normal, KeyEvent::typed('j'), Command::Move(Direction::Down));
        self.add_single(Mode::Select, KeyEvent::typed('h'), Command::Move(Direction::Left));
        self.add_single(Mode::Select, KeyEvent::typed('l'), Command::Move(Direction::Right));
        self.add_single(Mode::Select, KeyEvent::typed('k'), Command::Move(Direction::Up));
        self.add_single(Mode::Select, KeyEvent::typed('j'), Command::Move(Direction::Down));
    }

    /// Adds the rows of `with_arrow_moves`.
    fn add_arrow_moves(&mut self)
        ensures
            final(self)@ == with_arrow_moves(old(self)@),
    {
        self.add_single(Mode::Normal, KeyEvent::plain(Key::Left), Command::Move(Direction::Left));
        self.add_single(Mode::Normal, KeyEvent::plain(Key::Right), Command::Move(Direction::Right));
        self.add_single(Mode::Normal, KeyEvent::plain(Key::Up), Command::Move(Direction::Up));
        self.add_single(Mode::Normal, KeyEvent::plain(Key::Down), Command::Move(Direction::Down));
        self.add_single(Mode::Insert, KeyEvent::plain(Key::Left), Command::Move(Direction::Left));
        self.add_single(Mode::Insert, KeyEvent::plain(Key::Right), Command::Move(Direction::Right));
        self.add_single(Mode::Insert, KeyEvent::plain(Key::Up), Command::Move(Direction::Up));
        self.add_single(Mode::Insert, KeyEvent::plain(Key::Down), Command::Move(Direction::Down));
        self.add_single(Mode::Select, KeyEvent::plain(Key::Left), Command::Move(Direction::Left));
        self.add_single(Mode::Select, KeyEvent::plain(Key::Right), Command::Move(Direction::Right));
        self.add_single(Mode::Select, KeyEvent::plain(Key::Up), Command::Move(Direction::Up));
        self.add_single(Mode::Select, KeyEvent::plain(Key::Down), Command::Move(Direction::Down));
    }

    /// Adds the rows of `with_normal_editing`.
    fn add_normal_editing(&mut self)
        ensures
            final(self)@ == with_normal_editing(old(self)@),
    {
        self.add_single(Mode::Normal, KeyEvent::typed('0'), Command::LineStart);
        self.add_single(Mode::Normal, KeyEvent::typed('$'), Command::LineEnd);
        self.add_single(Mode::Normal, KeyEvent::plain(Key::Enter), Command::NextLine);
        self.add_single(Mode::Normal, KeyEvent::typed('+'), Command::NextLine);
        self.add_single(Mode::Normal, KeyEvent::typed('-'), Command::PrevLine);
        self.add_single(Mode::Normal, KeyEvent::typed('i'), Command::SetMode(Mode::Insert));
        self.add_single(Mode::Normal, KeyEvent::typed(':'), Command::SetMode(Mode::Command));
        self.add_single(Mode::Normal, KeyEvent::typed('x'), Command::DeleteChar);
        self.add_double(Mode::Normal, KeyEvent::typed('d'), KeyEvent::typed('d'), Command::DeleteLine);
        self.add_double(Mode::Normal, KeyEvent::typed('d'), KeyEvent::typed('w'), Command::DeleteWord);
        self.add_single(Mode::Normal, KeyEvent::typed('.'), Command::RepeatLast);
    }

    /// Adds the rows of `with_normal_panes`.
    fn add_normal_panes(&mut self)
        ensures
            final(self)@ == with_normal_panes(old(self)@),
    {
        self.add_double(Mode::Normal, KeyEvent::with_ctrl(Key::Char('w')), KeyEvent::typed('s'), Command::Split(Orientation::Horizontal));
        self.add_double(Mode::Normal, KeyEvent::with_ctrl(Key::Char('w')), KeyEvent::typed('v'), Command::Split(Orientation::Vertical));
        self.add_double(Mode::Normal, KeyEvent::with_ctrl(Key::Char('w')), KeyEvent::typed('c'), Command::CloseViewport);
        self.add_double(Mode::Normal, KeyEvent::with_ctrl(Key::Char('w')), KeyEvent::typed('w'), Command::NextViewport);
        self.add_double(Mode::Normal, KeyEvent::typed('g'), KeyEvent::typed('n'), Command::AddCursor);
        self.add_double(Mode::Normal, KeyEvent::typed('g'), KeyEvent::typed('d'), Command::RemoveCursor);
        self.add_double(Mode::Normal, KeyEvent::typed('g'), KeyEvent::typed('c'), Command::NextCursor);
    }

    /// Adds the rows of `with_other_modes`.
    fn add_other_modes(&mut self)
        ensures
            final(self)@ == with_other_modes(old(self)@),
    {
        self.add_single(Mode::Insert, KeyEvent::plain(Key::Escape), Command::SetMode(Mode::Normal));
        self.add_single(Mode::Insert, KeyEvent::plain(Key::Enter), Command::InsertChar('\n'));
        self.add_single(Mode::Insert, KeyEvent::plain(Key::Tab), Command::InsertChar('\t'));
        self.add_single(Mode::Insert, KeyEvent::plain(Key::Backspace), Command::Backspace);
        self.add_single(Mode::Insert, KeyEvent::with_ctrl(Key::Char('s')), Command::SetMode(Mode::Select));
        self.add_single(Mode::Select, KeyEvent::plain(Key::Escape), Command::SetMode(Mode::Insert));
        self.add_single(Mode::Select, KeyEvent::typed('d'), Command::DeleteSelection);
        self.add_single(Mode::Select, KeyEvent::typed('x'), Command::DeleteSelection);
        self.add_single(Mode::Command, KeyEvent::plain(Key::Escape), Command::SetMode(Mode::Normal));
        self.add_single(Mode::Command, KeyEvent::plain(Key::Enter), Command::PromptSubmit);
        self.add_single(Mode::Command, KeyEvent::plain(Key::Backspace), Command::PromptErase);
    }

    /// Adds the rows of `with_quit_keys`.
    fn add_quit_keys(&mut self)
        ensures
            final(self)@ == with_quit_keys(old(self)@),
    {
        self.add_single(Mode::Normal, KeyEvent::with_ctrl(Key::Char('q')), Command::Quit);
        self.add_single(Mode::Insert, KeyEvent::with_ctrl(Key::Char('q')), Command::Quit);
        self.add_single(Mode::Select, KeyEvent::with_ctrl(Key::Char('q')), Command::Quit);
        self.add_single(Mode::Command, KeyEvent::with_ctrl(Key::Char('q')), Command::Quit);
    }

    /// The standard keymap.
    pub fn standard() -> (k: Keymap)
        ensures
            k@ == standard_chords(),
    {
        let mut k = Keymap::new();
        k.add_letter_moves();
        k.add_arrow_moves();
        k.add_normal_editing();
        k.add_normal_panes();
        k.add_other_modes();
        k.add_quit_keys();
        k
    }
}

} // verus!
