//! The Tab-then-Enter chord: an Enter within the arm window after a Tab
//! inserts a newline instead of submitting.
use vstd::prelude::*;

verus! {

/// How long, in milliseconds, a Tab keeps the next Enter armed.
pub const ARM_WINDOW_MS: u64 = 500;

/// Milliseconds from `then` to `now`; zero if the clock reads earlier.
pub open spec fn elapsed_ms(then: u64, now: u64) -> int {
    if now >= then { now - then } else { 0 }
}

/// Whether an Enter at `now` inserts a newline, given the last Tab.
pub open spec fn enter_inserts_newline(last_tab_at: Option<u64>, now: u64) -> bool {
    match last_tab_at {
        Some(t) => elapsed_ms(t, now) < ARM_WINDOW_MS,
        None => false,
    }
}

pub struct GestureTimer {
    last_tab_at: Option<u64>,
}

impl GestureTimer {
    pub closed spec fn armed_at(&self) -> Option<u64> {
        self.last_tab_at
    }

    /// Idle: no Tab seen.
    pub fn new() -> (r: Self)
        ensures
            r.armed_at() is None,
    {
        GestureTimer { last_tab_at: None }
    }

    /// The time of the Tab that arms the next Enter, if any.
    pub fn last_tab(&self) -> (r: Option<u64>)
        ensures
            r == self.armed_at(),
    {
        self.last_tab_at
    }

    /// A Tab at `now` arms the timer, whatever its state.
    pub fn on_tab(&mut self, now: u64)
        ensures
            final(self).armed_at() == Some(now),
    {
        self.last_tab_at = Some(now);
    }

    /// An Enter at `now` consumes the arm and says whether it inserts a
    /// newline (`true`) or submits (`false`).
    pub fn on_enter(&mut self, now: u64) -> (r: bool)
        ensures
            r == enter_inserts_newline(old(self).armed_at(), now),
            final(self).armed_at() is None,
    {
        let r = match self.last_tab_at {
            Some(t) => {
                let elapsed = if now >= t { now - t } else { 0 };
                elapsed < ARM_WINDOW_MS
            },
            None => false,
        };
        self.last_tab_at = None;
        r
    }
}

} // verus!
