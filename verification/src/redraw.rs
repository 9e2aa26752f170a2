//! How much of the screen has to be repainted.

use vstd::prelude::*;

verus! {

/// The screen region that is stale since the last repaint.
///
/// The variants are ordered by cost, and each scope includes the cheaper
/// ones: `CursorOnly` repaints the cursor cells and the status bar, `Full`
/// repaints everything.
#[derive(Clone, Copy, Debug, PartialEq, Eq, Structural)]
pub enum RedrawTask {
    /// Nothing changed.
    Nothing,
    /// Only the status bar changed.
    StatusBarOnly,
    /// The cursor moved; the text did not change.
    CursorOnly,
    /// Text or scrolling changed.
    Full,
}

impl RedrawTask {
    /// The cost rank of a scope: 0 for `Nothing` up to 3 for `Full`.
    pub open spec fn rank(self) -> nat {
        match self {
            RedrawTask::Nothing => 0,
            RedrawTask::StatusBarOnly => 1,
            RedrawTask::CursorOnly => 2,
            RedrawTask::Full => 3,
        }
    }

    /// The more expensive of two scopes.
    pub open spec fn max(self, other: RedrawTask) -> RedrawTask {
        if self.rank() >= other.rank() {
            self
        } else {
            other
        }
    }

    /// The cost rank as a machine integer.
    pub fn level(self) -> (r: u8)
        ensures
            r == self.rank(),
    {
        match self {
            RedrawTask::Nothing => 0,
            RedrawTask::StatusBarOnly => 1,
            RedrawTask::CursorOnly => 2,
            RedrawTask::Full => 3,
        }
    }

    /// Returns the more expensive of `self` and `other`.
    pub fn merge(self, other: RedrawTask) -> (r: RedrawTask)
        ensures
            r == self.max(other),
    {
        if self.level() >= other.level() {
            self
        } else {
            other
        }
    }

    /// Records a further request: the pending scope becomes the maximum of
    /// what was pending and what is asked for, so it never shrinks.
    pub fn request(&mut self, scope: RedrawTask)
        ensures
            *final(self) == old(self).max(scope),
            final(self).rank() >= old(self).rank(),
            final(self).rank() >= scope.rank(),
    {
        *self = self.merge(scope);
    }

    /// Hands the pending scope to the caller and resets it to `Nothing`.
    pub fn take(&mut self) -> (r: RedrawTask)
        ensures
            r == *old(self),
            *final(self) == RedrawTask::Nothing,
    {
        let pending = *self;
        *self = RedrawTask::Nothing;
        pending
    }

    /// Whether nothing is pending.
    pub fn is_nothing(self) -> (r: bool)
        ensures
            r == (self == RedrawTask::Nothing),
    {
        self.level() == 0
    }

    /// `max` is an upper bound of both arguments and is one of them.
    pub proof fn lemma_max_is_upper_bound(a: RedrawTask, b: RedrawTask)
        ensures
            a.max(b).rank() >= a.rank(),
            a.max(b).rank() >= b.rank(),
            a.max(b) == a || a.max(b) == b,
    {
    }

    /// `max` is commutative, associative and idempotent, and `Nothing` is its
    /// identity: the pending scope depends only on the set of requests made,
    /// not on their order.
    pub proof fn lemma_max_semilattice(a: RedrawTask, b: RedrawTask, c: RedrawTask)
        ensures
            a.max(b) == b.max(a),
            a.max(b).max(c) == a.max(b.max(c)),
            a.max(a) == a,
            a.max(RedrawTask::Nothing) == a,
            RedrawTask::Nothing.max(a) == a,
    {
    }

    /// Within one cycle the pending scope only grows: after any further
    /// request it is at least what it was, and at least what was asked.
    pub proof fn lemma_escalation_is_monotonic(
        pending: RedrawTask,
        first: RedrawTask,
        second: RedrawTask,
    )
        ensures
            pending.max(first).max(second).rank() >= pending.max(first).rank(),
            pending.max(first).max(second).rank() >= first.rank(),
            pending.max(first).max(second).rank() >= second.rank(),
            RedrawTask::StatusBarOnly.max(RedrawTask::CursorOnly) == RedrawTask::CursorOnly,
            RedrawTask::CursorOnly.max(RedrawTask::StatusBarOnly) == RedrawTask::CursorOnly,
    {
    }
}

} // verus!
