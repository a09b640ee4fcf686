//! The lobby's model of its delayed callbacks: every timer the lobby ever
//! armed, each either still pending, fired, or cancelled. The scheduling
//! itself happens outside the core; the core arbitrates so that firing and
//! cancellation are mutually exclusive and exactly-once.

use vstd::prelude::*;

verus! {

/// The lifecycle state of one timer.
#[derive(Debug, Clone, Copy, PartialEq, Eq, Structural)]
pub enum TimerState {
    /// Armed: neither fired nor cancelled yet.
    Pending,
    /// The deadline elapsed and the callback won the race.
    Fired,
    /// Cancelled before the deadline; the callback will never run.
    Cancelled,
}

/// All timers one lobby ever armed, indexed by handle in order of
/// creation.
#[derive(Debug)]
pub struct TimerLog {
    states: Vec<TimerState>,
}

impl View for TimerLog {
    type V = Seq<TimerState>;

    closed spec fn view(&self) -> Seq<TimerState> {
        self.states@
    }
}

impl TimerLog {
    /// Whether the timer with handle `h` is outstanding: armed, not yet
    /// fired and not cancelled.
    pub open spec fn is_pending(self, h: int) -> bool {
        0 <= h < self@.len() && self@[h] is Pending
    }

    /// Whether no timer other than (possibly) `h` is outstanding.
    pub open spec fn at_most_pending(self, h: int) -> bool {
        forall|k: int| self.is_pending(k) ==> k == h
    }

    /// Whether `h` is the one and only outstanding timer.
    pub open spec fn only_pending(self, h: int) -> bool {
        &&& self.is_pending(h)
        &&& self.at_most_pending(h)
    }

    /// Whether no timer is outstanding.
    pub open spec fn none_pending(self) -> bool {
        forall|k: int| !self.is_pending(k)
    }

    pub fn new() -> (r: Self)
        ensures
            r@.len() == 0,
            r.none_pending(),
    {
        TimerLog { states: Vec::new() }
    }

    /// Arms a fresh timer and returns its handle.
    pub fn create(&mut self) -> (h: usize)
        ensures
            h == old(self)@.len(),
            final(self)@ == old(self)@.push(TimerState::Pending),
            final(self).is_pending(h as int),
            forall|k: int| k != h ==> final(self).is_pending(k) == old(self).is_pending(k),
    {
        let h = self.states.len();
        self.states.push(TimerState::Pending);
        h
    }

    /// Cancels the timer with handle `h`. Cancelling a timer that has
    /// already fired or was already cancelled — or a handle never armed —
    /// has no effect and does not error.
    pub fn cancel(&mut self, h: usize)
        ensures
            old(self).is_pending(h as int) ==> final(self)@ == old(self)@.update(
                h as int,
                TimerState::Cancelled,
            ),
            !old(self).is_pending(h as int) ==> final(self)@ == old(self)@,
            !final(self).is_pending(h as int),
            forall|k: int| k != h ==> final(self).is_pending(k) == old(self).is_pending(k),
    {
        if h < self.states.len() {
            if self.states[h] == TimerState::Pending {
                self.states[h] = TimerState::Cancelled;
            }
        }
    }

    /// Resolves the race at the deadline: returns true, marking the timer
    /// fired, only if `h` was still outstanding; a cancelled or already
    /// fired timer stays as it is and the callback must do nothing.
    pub fn fire(&mut self, h: usize) -> (fired: bool)
        ensures
            fired == old(self).is_pending(h as int),
            old(self).is_pending(h as int) ==> final(self)@ == old(self)@.update(
                h as int,
                TimerState::Fired,
            ),
            !old(self).is_pending(h as int) ==> final(self)@ == old(self)@,
            !final(self).is_pending(h as int),
            forall|k: int| k != h ==> final(self).is_pending(k) == old(self).is_pending(k),
    {
        if h < self.states.len() && self.states[h] == TimerState::Pending {
            self.states[h] = TimerState::Fired;
            true
        } else {
            false
        }
    }
}

} // verus!
