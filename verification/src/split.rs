//! A buffer together with the viewports that show it.

use crate::buffer::{inserted, removed, Buffer, Edit, LineRange, Position, Span};
use crate::error::EditorError;
use crate::redraw::RedrawTask;
use crate::text::are_lines;
use vstd::prelude::*;

verus! {

/// The width of the viewport of a new split buffer, in columns.
pub const DEFAULT_WIDTH: usize = 80;

/// The height of the viewport of a new split buffer, in rows.
pub const DEFAULT_HEIGHT: usize = 24;

/// A window on a buffer: it shows `height` lines from line `scroll_y` on,
/// and of each line `width` columns from column `scroll_x` on.
#[derive(Clone, Copy, Debug, PartialEq, Eq, Structural)]
pub struct Viewport {
    pub scroll_x: usize,
    pub scroll_y: usize,
    pub width: usize,
    pub height: usize,
}

/// How a viewport is divided.
#[derive(Clone, Copy, Debug, PartialEq, Eq, Structural)]
pub enum Orientation {
    /// One viewport above the other: the height is divided.
    Horizontal,
    /// One viewport beside the other: the width is divided.
    Vertical,
}

/// A window of `extent` cells that begins at `scroll` shows cell `pos`.
pub open spec fn shows(scroll: int, extent: int, pos: int) -> bool {
    scroll <= pos < scroll + extent
}

/// Where a window of `extent` cells that begins at `scroll` has to begin to
/// show cell `pos` after the shortest way: where it is, if it shows `pos`
/// already; at `pos`, if `pos` lies before it; and so that `pos` is its
/// last cell, if `pos` lies behind it. A window without cells follows `pos`.
pub open spec fn scrolled_to(scroll: int, extent: int, pos: int) -> int {
    if pos < scroll {
        pos
    } else if pos - scroll >= extent {
        if extent == 0 {
            pos
        } else {
            pos - (extent - 1)
        }
    } else {
        scroll
    }
}

/// The distance between two integers.
pub open spec fn distance(a: int, b: int) -> int {
    if a >= b {
        a - b
    } else {
        b - a
    }
}

/// The lines `start..end` and the window of `height` lines from `scroll`
/// on have a line in common.
pub open spec fn overlaps(start: int, end: int, scroll: int, height: int) -> bool {
    exists|y: int| start <= y < end && #[trigger] shows(scroll, height, y)
}

/// Begins a window at the place `scrolled_to` names.
pub fn scroll_to(scroll: usize, extent: usize, pos: usize) -> (r: usize)
    ensures
        r == scrolled_to(scroll as int, extent as int, pos as int),
{
    if pos < scroll {
        pos
    } else if pos - scroll >= extent {
        if extent == 0 {
            pos
        } else {
            pos - (extent - 1)
        }
    } else {
        scroll
    }
}

/// Scrolling by `scrolled_to` shows the cell, leaves a window that shows it
/// already where it is, and moves the window no further than any other
/// scroll offset that shows the cell would.
pub proof fn lemma_scroll_is_minimal(scroll: int, extent: int, pos: int)
    requires
        0 <= scroll,
        0 <= extent,
        0 <= pos,
    ensures
        0 <= scrolled_to(scroll, extent, pos) <= pos,
        extent > 0 ==> shows(scrolled_to(scroll, extent, pos), extent, pos),
        shows(scroll, extent, pos) ==> scrolled_to(scroll, extent, pos) == scroll,
        forall|other: int| #[trigger]
            shows(other, extent, pos) ==> distance(scrolled_to(scroll, extent, pos), scroll)
                <= distance(other, scroll),
{
}

impl Viewport {
    /// A viewport of the given size on the start of the buffer.
    pub fn new(width: usize, height: usize) -> (v: Viewport)
        ensures
            v == (Viewport { scroll_x: 0, scroll_y: 0, width, height }),
    {
        Viewport { scroll_x: 0, scroll_y: 0, width, height }
    }

    /// The viewport shows line `y`.
    pub open spec fn shows_line(self, y: int) -> bool {
        shows(self.scroll_y as int, self.height as int, y)
    }

    /// The viewport shows column `x`.
    pub open spec fn shows_column(self, x: int) -> bool {
        shows(self.scroll_x as int, self.width as int, x)
    }

    /// The viewport scrolled to show line `y`.
    pub open spec fn facing_line(self, y: int) -> Viewport {
        Viewport {
            scroll_y: scrolled_to(self.scroll_y as int, self.height as int, y) as usize,
            ..self
        }
    }

    /// The viewport scrolled to show column `x`.
    pub open spec fn facing_column(self, x: int) -> Viewport {
        Viewport {
            scroll_x: scrolled_to(self.scroll_x as int, self.width as int, x) as usize,
            ..self
        }
    }

    /// What is left of the viewport after a split: the larger half of the
    /// divided extent.
    pub open spec fn kept_half(self, orientation: Orientation) -> Viewport {
        match orientation {
            Orientation::Horizontal => Viewport {
                height: (self.height - self.height / 2) as usize,
                ..self
            },
            Orientation::Vertical => Viewport {
                width: (self.width - self.width / 2) as usize,
                ..self
            },
        }
    }

    /// The viewport that a split adds: the smaller half of the divided
    /// extent, with the scroll offsets of the viewport it was split from.
    pub open spec fn new_half(self, orientation: Orientation) -> Viewport {
        match orientation {
            Orientation::Horizontal => Viewport { height: self.height / 2, ..self },
            Orientation::Vertical => Viewport { width: self.width / 2, ..self },
        }
    }

    /// Whether the viewport shows `pos`.
    pub fn shows_position(&self, pos: Position) -> (r: bool)
        ensures
            r == (self.shows_line(pos.y as int) && self.shows_column(pos.x as int)),
    {
        pos.y >= self.scroll_y && pos.y - self.scroll_y < self.height && pos.x >= self.scroll_x
            && pos.x - self.scroll_x < self.width
    }

    /// Whether the viewport shows a line of `range`.
    pub fn shows_any_of(&self, range: LineRange) -> (r: bool)
        ensures
            r == overlaps(
                range.start as int,
                range.end as int,
                self.scroll_y as int,
                self.height as int,
            ),
    {
        if range.start >= range.end || self.height == 0 || range.end <= self.scroll_y {
            return false;
        }
        if range.start < self.scroll_y {
            assert(shows(self.scroll_y as int, self.height as int, self.scroll_y as int));
            return true;
        }
        let shown = range.start - self.scroll_y < self.height;
        proof {
            if shown {
                assert(shows(self.scroll_y as int, self.height as int, range.start as int));
            }
        }
        shown
    }
}

/// What a split buffer is: the lines of its buffer, its viewports in
/// order, and which of them has the focus.
pub struct SplitView {
    pub text: Seq<Seq<char>>,
    pub panes: Seq<Viewport>,
    pub focus: int,
}

impl SplitView {
    /// The buffer is well formed, there is a viewport, and the focus is on
    /// one of the viewports.
    pub open spec fn wf(self) -> bool {
        &&& self.text.len() >= 1
        &&& are_lines(self.text)
        &&& self.panes.len() >= 1
        &&& 0 <= self.focus < self.panes.len()
    }

    /// The viewport that has the focus.
    pub open spec fn active(self) -> Viewport {
        self.panes[self.focus]
    }

    /// The lines that viewport `i` shows: the part of the one shared text
    /// that lies in its window.
    pub open spec fn shown(self, i: int) -> Seq<Seq<char>> {
        let first = if self.panes[i].scroll_y <= self.text.len() {
            self.panes[i].scroll_y as int
        } else {
            self.text.len() as int
        };
        let end = if first + self.panes[i].height <= self.text.len() {
            first + self.panes[i].height
        } else {
            self.text.len() as int
        };
        self.text.subrange(first, end)
    }

    /// After the focused viewport was divided: it keeps the larger half,
    /// and the new viewport follows it with the smaller half.
    pub open spec fn split(self, orientation: Orientation) -> SplitView {
        SplitView {
            panes: self.panes.update(self.focus, self.active().kept_half(orientation)).insert(
                self.focus + 1,
                self.active().new_half(orientation),
            ),
            ..self
        }
    }

    /// After the focused viewport was closed: `None` where it was the last
    /// one, since the buffer goes with it; otherwise the same text with the
    /// other viewports, the focus on the one that took the closed one's
    /// place, or on the last one.
    pub open spec fn closed(self) -> Option<SplitView> {
        if self.panes.len() <= 1 {
            None
        } else {
            Some(
                SplitView {
                    panes: self.panes.remove(self.focus),
                    focus: if self.focus < self.panes.len() - 1 {
                        self.focus
                    } else {
                        self.panes.len() - 2
                    },
                    ..self
                },
            )
        }
    }

    /// After the focused viewport was closed `times` times, as far as
    /// there was a split buffer left to close a viewport of.
    pub open spec fn closed_times(self, times: nat) -> Option<SplitView>
        decreases times,
    {
        if times == 0 {
            Some(self)
        } else {
            match self.closed() {
                None => None,
                Some(rest) => rest.closed_times((times - 1) as nat),
            }
        }
    }

    /// With another text and the same viewports.
    pub open spec fn with_text(self, text: Seq<Seq<char>>) -> SplitView {
        SplitView { text, ..self }
    }

    /// With the focused viewport replaced.
    pub open spec fn with_active(self, viewport: Viewport) -> SplitView {
        SplitView { panes: self.panes.update(self.focus, viewport), ..self }
    }

    /// A viewport shows a line of `start..end`.
    pub open spec fn shows_any_of(self, start: int, end: int) -> bool {
        exists|i: int|
            0 <= i < self.panes.len() && overlaps(
                start,
                end,
                (#[trigger] self.panes[i]).scroll_y as int,
                self.panes[i].height as int,
            )
    }

    /// The repaint that an edit of the lines `start..end` asks for:
    /// nothing for no lines, everything where a viewport shows one of the
    /// lines, and otherwise the cursor only.
    pub open spec fn damage(self, start: int, end: int) -> RedrawTask {
        if start >= end {
            RedrawTask::Nothing
        } else if self.shows_any_of(start, end) {
            RedrawTask::Full
        } else {
            RedrawTask::CursorOnly
        }
    }

    /// Closing viewports never loses the text while a viewport is left:
    /// closing fewer viewports than there are leaves a split buffer with
    /// the same text, and closing as many as there are leaves nothing.
    pub proof fn lemma_buffer_lives_with_last_viewport(self, times: nat)
        requires
            self.wf(),
            times <= self.panes.len(),
        ensures
            times < self.panes.len() ==> {
                &&& self.closed_times(times) is Some
                &&& self.closed_times(times)->Some_0.wf()
                &&& self.closed_times(times)->Some_0.text == self.text
                &&& self.closed_times(times)->Some_0.panes.len() == self.panes.len() - times
            },
            times == self.panes.len() ==> self.closed_times(times) is None,
        decreases times,
    {
        if times > 0 {
            if self.panes.len() > 1 {
                self.closed()->Some_0.lemma_buffer_lives_with_last_viewport((times - 1) as nat);
            } else {
                assert(self.closed() is None);
            }
        }
    }

    /// The viewports of a split buffer share one text: after a split, an
    /// edit that leaves the text `after` leaves it for every viewport alike,
    /// so two viewports with the same window show the same lines, and it
    /// leaves each viewport's scroll offsets and size as the split made
    /// them.
    pub proof fn lemma_edit_reaches_every_viewport(
        self,
        orientation: Orientation,
        after: Seq<Seq<char>>,
    )
        requires
            self.wf(),
        ensures
            ({
                let halves = self.split(orientation);
                let edited = halves.with_text(after);
                &&& halves.wf()
                &&& halves.text == self.text
                &&& halves.panes.len() == self.panes.len() + 1
                &&& edited.panes == halves.panes
                &&& edited.focus == halves.focus
                &&& edited.text == after
                &&& forall|i: int, j: int|
                    0 <= i < edited.panes.len() && 0 <= j < edited.panes.len()
                        && edited.panes[i].scroll_y == edited.panes[j].scroll_y
                        && edited.panes[i].height == edited.panes[j].height ==> #[trigger] edited.shown(
                        i,
                    ) == #[trigger] edited.shown(j)
            }),
    {
    }
}

/// A buffer and the viewports on it. There is always at least one
/// viewport, and one of them has the focus.
#[derive(Debug)]
pub struct SplitBuffer {
    buffer: Buffer,
    viewports: Vec<Viewport>,
    active: usize,
}

impl View for SplitBuffer {
    type V = SplitView;

    closed spec fn view(&self) -> SplitView {
        SplitView { text: self.buffer@, panes: self.viewports@, focus: self.active as int }
    }
}

impl SplitBuffer {
    /// The buffer is well formed, there is a viewport, and the focus is on
    /// one of the viewports.
    pub open spec fn wf(&self) -> bool {
        self@.wf()
    }

    /// Whether the split buffer is well formed. Every split buffer that
    /// this module hands out is; the test is for callers that cannot know
    /// it.
    pub fn is_wf(&self) -> (ok: bool)
        ensures
            ok == self.wf(),
    {
        self.buffer.is_wf() && self.viewports.len() >= 1 && self.active < self.viewports.len()
    }

    /// An empty buffer in one viewport of the default size.
    pub fn new() -> (s: SplitBuffer)
        ensures
            s.wf(),
            s@.text == seq![Seq::<char>::empty()],
            s@.panes == seq![
                Viewport { scroll_x: 0, scroll_y: 0, width: DEFAULT_WIDTH, height: DEFAULT_HEIGHT },
            ],
            s@.focus == 0,
    {
        SplitBuffer::from_buffer(Buffer::new(), DEFAULT_WIDTH, DEFAULT_HEIGHT)
    }

    /// `buffer` in one viewport of the given size.
    pub fn from_buffer(buffer: Buffer, width: usize, height: usize) -> (s: SplitBuffer)
        requires
            buffer.wf(),
        ensures
            s.wf(),
            s@.text == buffer@,
            s@.panes == seq![Viewport { scroll_x: 0, scroll_y: 0, width, height }],
            s@.focus == 0,
    {
        let mut viewports: Vec<Viewport> = Vec::new();
        viewports.push(Viewport::new(width, height));
        SplitBuffer { buffer, viewports, active: 0 }
    }

    /// The buffer.
    pub fn buffer(&self) -> (b: &Buffer)
        ensures
            b@ == self@.text,
            self.wf() ==> b.wf(),
    {
        &self.buffer
    }

    /// The number of viewports. It is never zero.
    pub fn viewport_count(&self) -> (n: usize)
        requires
            self.wf(),
        ensures
            n == self@.panes.len(),
            n >= 1,
    {
        self.viewports.len()
    }

    /// The index of the viewport that has the focus.
    pub fn active_index(&self) -> (i: usize)
        requires
            self.wf(),
        ensures
            i == self@.focus,
            i < self@.panes.len(),
    {
        self.active
    }

    /// The viewport that has the focus.
    pub fn active_viewport(&self) -> (v: Viewport)
        requires
            self.wf(),
        ensures
            v == self@.active(),
    {
        self.viewports[self.active]
    }

    /// Viewport `index`, or `OutOfBounds` where there is no such viewport.
    pub fn viewport(&self, index: usize) -> (r: Result<Viewport, EditorError>)
        ensures
            index < self@.panes.len() ==> r == Ok::<Viewport, EditorError>(
                self@.panes[index as int],
            ),
            index >= self@.panes.len() ==> r == Err::<Viewport, EditorError>(
                EditorError::OutOfBounds,
            ),
    {
        if index < self.viewports.len() {
            Ok(self.viewports[index])
        } else {
            Err(EditorError::OutOfBounds)
        }
    }

    /// The lines of the buffer that viewport `index` shows: those of its
    /// window that the buffer has. Fails with `OutOfBounds` where there is
    /// no such viewport.
    pub fn visible(&self, index: usize) -> (r: Result<LineRange, EditorError>)
        requires
            self.wf(),
        ensures
            index >= self@.panes.len() ==> r == Err::<LineRange, EditorError>(
                EditorError::OutOfBounds,
            ),
            index < self@.panes.len() ==> r is Ok && r->Ok_0.start <= r->Ok_0.end
                <= self@.text.len() && self@.shown(index as int) == self@.text.subrange(
                r->Ok_0.start as int,
                r->Ok_0.end as int,
            ),
    {
        if index >= self.viewports.len() {
            return Err(EditorError::OutOfBounds);
        }
        let window = self.viewports[index];
        let count = self.buffer.line_count();
        let start = if window.scroll_y <= count {
            window.scroll_y
        } else {
            count
        };
        let end = if window.height <= count - start {
            start + window.height
        } else {
            count
        };
        Ok(LineRange { start, end })
    }

    /// Scrolls the focused viewport sideways, by the shortest way, so that
    /// it shows column `x`. A viewport that shows the column stays.
    pub fn focus_hint_x(&mut self, x: usize)
        requires
            old(self).wf(),
        ensures
            final(self).wf(),
            final(self)@ == old(self)@.with_active(old(self)@.active().facing_column(x as int)),
            old(self)@.active().shows_column(x as int) ==> final(self)@ == old(self)@,
            old(self)@.active().width > 0 ==> final(self)@.active().shows_column(x as int),
            forall|other: int| #[trigger]
                shows(other, old(self)@.active().width as int, x as int) ==> distance(
                    final(self)@.active().scroll_x as int,
                    old(self)@.active().scroll_x as int,
                ) <= distance(other, old(self)@.active().scroll_x as int),
    {
        let mut v = self.viewports[self.active];
        v.scroll_x = scroll_to(v.scroll_x, v.width, x);
        self.viewports.set(self.active, v);
        proof {
            lemma_scroll_is_minimal(
                old(self)@.active().scroll_x as int,
                old(self)@.active().width as int,
                x as int,
            );
            if old(self)@.active().shows_column(x as int) {
                assert(self.viewports@ == old(self).viewports@);
            }
        }
    }

    /// Scrolls the focused viewport up or down, by the shortest way, so
    /// that it shows line `y`. A viewport that shows the line stays.
    pub fn focus_hint_y(&mut self, y: usize)
        requires
            old(self).wf(),
        ensures
            final(self).wf(),
            final(self)@ == old(self)@.with_active(old(self)@.active().facing_line(y as int)),
            old(self)@.active().shows_line(y as int) ==> final(self)@ == old(self)@,
            old(self)@.active().height > 0 ==> final(self)@.active().shows_line(y as int),
            forall|other: int| #[trigger]
                shows(other, old(self)@.active().height as int, y as int) ==> distance(
                    final(self)@.active().scroll_y as int,
                    old(self)@.active().scroll_y as int,
                ) <= distance(other, old(self)@.active().scroll_y as int),
    {
        let mut v = self.viewports[self.active];
        v.scroll_y = scroll_to(v.scroll_y, v.height, y);
        self.viewports.set(self.active, v);
        proof {
            lemma_scroll_is_minimal(
                old(self)@.active().scroll_y as int,
                old(self)@.active().height as int,
                y as int,
            );
            if old(self)@.active().shows_line(y as int) {
                assert(self.viewports@ == old(self).viewports@);
            }
        }
    }

    /// Gives the focused viewport a new size.
    pub fn resize(&mut self, width: usize, height: usize)
        requires
            old(self).wf(),
        ensures
            final(self).wf(),
            final(self)@ == old(self)@.with_active(
                Viewport { width, height, ..old(self)@.active() },
            ),
    {
        let mut v = self.viewports[self.active];
        v.width = width;
        v.height = height;
        self.viewports.set(self.active, v);
    }

    /// Divides the focused viewport. The new viewport shows the same
    /// buffer from the same scroll offsets and stands behind the focused
    /// one, which keeps the focus.
    pub fn split(&mut self, orientation: Orientation)
        requires
            old(self).wf(),
        ensures
            final(self).wf(),
            final(self)@ == old(self)@.split(orientation),
            final(self)@.text == old(self)@.text,
            final(self)@.panes.len() == old(self)@.panes.len() + 1,
    {
        let whole = self.viewports[self.active];
        let mut kept = whole;
        let mut added = whole;
        match orientation {
            Orientation::Horizontal => {
                added.height = whole.height / 2;
                kept.height = whole.height - added.height;
            },
            Orientation::Vertical => {
                added.width = whole.width / 2;
                kept.width = whole.width - added.width;
            },
        }
        let count = self.viewports.len();
        assert(self.active < count);
        self.viewports.set(self.active, kept);
        self.viewports.insert(self.active + 1, added);
    }

    /// Gives the focus to the next viewport, and from the last one to the
    /// first.
    pub fn focus_next(&mut self)
        requires
            old(self).wf(),
        ensures
            final(self).wf(),
            final(self)@.text == old(self)@.text,
            final(self)@.panes == old(self)@.panes,
            final(self)@.focus == if old(self)@.focus + 1 < old(self)@.panes.len() {
                old(self)@.focus + 1
            } else {
                0
            },
    {
        let count = self.viewports.len();
        assert(self.active < count);
        if self.active + 1 < count {
            self.active = self.active + 1;
        } else {
            self.active = 0;
        }
    }

    /// Closes the focused viewport. The buffer lives on in what is
    /// returned while another viewport shows it; with its last viewport
    /// it is given up, and `None` is returned.
    pub fn close_viewport(self) -> (r: Option<SplitBuffer>)
        requires
            self.wf(),
        ensures
            self@.closed() is Some <==> r is Some,
            r matches Some(rest) ==> rest.wf() && Some(rest@) == self@.closed(),
            self@.panes.len() == 1 <==> r is None,
    {
        if self.viewports.len() <= 1 {
            return None;
        }
        let mut rest = self;
        rest.viewports.remove(rest.active);
        if rest.active >= rest.viewports.len() {
            rest.active = rest.viewports.len() - 1;
        }
        Some(rest)
    }

    /// Inserts `text` at `pos` of the buffer. Every viewport shows the
    /// edited buffer; none of them is scrolled or resized by the edit.
    pub fn insert(&mut self, pos: Position, text: &[char]) -> (r: Result<Edit, EditorError>)
        requires
            old(self).wf(),
        ensures
            final(self).wf(),
            final(self)@.panes == old(self)@.panes,
            final(self)@.focus == old(self)@.focus,
            pos.within(old(self)@.text) ==> r is Ok && final(self)@.text == inserted(
                old(self)@.text,
                pos.x as int,
                pos.y as int,
                text@,
            ),
            !pos.within(old(self)@.text) ==> r == Err::<Edit, EditorError>(
                EditorError::OutOfBounds,
            ) && final(self)@ == old(self)@,
            r matches Ok(edit) ==> {
                &&& (edit.cursor.x as int, edit.cursor.y as int) == crate::buffer::insert_end(
                    pos.x as int,
                    pos.y as int,
                    text@,
                )
                &&& (edit.affected.start as int, edit.affected.end as int)
                    == crate::buffer::insert_affected(old(self)@.text, pos.y as int, text@)
                &&& edit.cursor.within(final(self)@.text)
                &&& forall|i: int|
                    #![trigger final(self)@.text[i]]
                    #![trigger edit.affected.has(i)]
                    0 <= i < final(self)@.text.len() && !edit.affected.has(i) ==> i < old(
                        self,
                    )@.text.len() && final(self)@.text[i] == old(self)@.text[i]
            },
    {
        let outcome = self.buffer.insert(pos, text);
        proof {
            if let Ok(edit) = outcome {
                assert forall|i: int|
                    #![trigger self@.text[i]]
                    #![trigger edit.affected.has(i)]
                    0 <= i < self@.text.len() && !edit.affected.has(i) implies i < old(
                    self,
                )@.text.len() && self@.text[i] == old(self)@.text[i] by {
                    assert(self.buffer@[i] == old(self).buffer@[i]);
                }
            }
        }
        outcome
    }

    /// Deletes the text of `span` from the buffer. Every viewport shows
    /// the edited buffer; none of them is scrolled or resized by the edit.
    pub fn delete(&mut self, span: Span) -> (r: Result<Edit, EditorError>)
        requires
            old(self).wf(),
        ensures
            final(self).wf(),
            final(self)@.panes == old(self)@.panes,
            final(self)@.focus == old(self)@.focus,
            span.within(old(self)@.text) ==> r is Ok && final(self)@.text == removed(
                old(self)@.text,
                span.start.x as int,
                span.start.y as int,
                span.end.x as int,
                span.end.y as int,
            ),
            !span.within(old(self)@.text) ==> r == Err::<Edit, EditorError>(
                EditorError::OutOfBounds,
            ) && final(self)@ == old(self)@,
            r matches Ok(edit) ==> {
                &&& edit.cursor == span.start
                &&& (edit.affected.start as int, edit.affected.end as int)
                    == crate::buffer::remove_affected(
                    old(self)@.text,
                    span.start.x as int,
                    span.start.y as int,
                    span.end.x as int,
                    span.end.y as int,
                )
                &&& edit.cursor.within(final(self)@.text)
                &&& forall|i: int|
                    #![trigger final(self)@.text[i]]
                    #![trigger edit.affected.has(i)]
                    0 <= i < final(self)@.text.len() && !edit.affected.has(i) ==> i < old(
                        self,
                    )@.text.len() && final(self)@.text[i] == old(self)@.text[i]
            },
    {
        let outcome = self.buffer.delete(span);
        proof {
            if let Ok(edit) = outcome {
                assert forall|i: int|
                    #![trigger self@.text[i]]
                    #![trigger edit.affected.has(i)]
                    0 <= i < self@.text.len() && !edit.affected.has(i) implies i < old(
                    self,
                )@.text.len() && self@.text[i] == old(self)@.text[i] by {
                    assert(self.buffer@[i] == old(self).buffer@[i]);
                }
            }
        }
        outcome
    }

    /// The repaint that an edit of the lines of `affected` asks for:
    /// nothing for no lines, everything where a viewport shows one of the
    /// lines, and otherwise the cursor only.
    pub fn damage(&self, affected: LineRange) -> (r: RedrawTask)
        requires
            self.wf(),
        ensures
            r == self@.damage(affected.start as int, affected.end as int),
    {
        if affected.is_empty() {
            return RedrawTask::Nothing;
        }
        let mut i: usize = 0;
        while i < self.viewports.len()
            invariant
                i <= self.viewports.len(),
                forall|k: int|
                    0 <= k < i ==> !overlaps(
                        affected.start as int,
                        affected.end as int,
                        (#[trigger] self.viewports@[k]).scroll_y as int,
                        self.viewports@[k].height as int,
                    ),
            decreases self.viewports.len() - i,
        {
            if self.viewports[i].shows_any_of(affected) {
                assert(self@.panes[i as int] == self.viewports@[i as int]);
                return RedrawTask::Full;
            }
            i += 1;
        }
        RedrawTask::CursorOnly
    }
}

} // verus!
