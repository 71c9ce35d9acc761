//! A timer that waits until things have been quiet for a while: each call
//! sets it anew, and only the last setting counts when it goes off.

use vstd::prelude::*;

verus! {

/// The timer. A setting is known by its number.
pub struct DelayTimer {
    delay_ms: u64,
    latest: u64,
}

pub struct DelayTimerView {
    pub delay_ms: u64,
    /// The number of the last setting; 0 before the first.
    pub latest: u64,
}

impl View for DelayTimer {
    type V = DelayTimerView;

    closed spec fn view(&self) -> DelayTimerView {
        DelayTimerView { delay_ms: self.delay_ms, latest: self.latest }
    }
}

/// The number of the setting after the setting `n`.
pub open spec fn next_setting(n: u64) -> u64 {
    if n == u64::MAX {
        1
    } else {
        (n + 1) as u64
    }
}

impl DelayTimer {
    pub fn new(delay_ms: u64) -> (t: DelayTimer)
        ensures
            t@ == (DelayTimerView { delay_ms, latest: 0 }),
    {
        DelayTimer { delay_ms, latest: 0 }
    }

    /// Sets the timer anew: it is to go off after the delay, under the
    /// number that is handed back, and every earlier setting is void.
    pub fn record(&mut self) -> (setting: (u64, u64))
        ensures
            final(self)@ == (DelayTimerView { latest: next_setting(old(self)@.latest), ..old(self)@ }),
            setting == (final(self)@.latest, old(self)@.delay_ms),
    {
        self.latest = if self.latest == u64::MAX {
            1
        } else {
            self.latest + 1
        };
        (self.latest, self.delay_ms)
    }

    /// Whether the setting `setting` counts when it goes off: it does if
    /// the timer was not set again since.
    pub fn due(&self, setting: u64) -> (due: bool)
        ensures
            due == (setting == self@.latest),
    {
        setting == self.latest
    }
}

/// Of two settings, the earlier one is void.
pub proof fn lemma_last_setting_counts(latest: u64)
    ensures
        next_setting(next_setting(latest)) != next_setting(latest),
{
}

} // verus!
