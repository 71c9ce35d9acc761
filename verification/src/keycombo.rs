//! Multi-key commands typed within a time frame, such as `dd`.

use crate::clock::{nanos_since, now};
use std::time::Instant;
use vstd::prelude::*;

verus! {

/// Recognises one sequence of keys, typed without a pause longer than the
/// time frame between two of them.
pub struct KeyCombo {
    /// When the last key was recorded.
    pub last: Instant,
    combo: Vec<char>,
    matched: usize,
    timeframe_ms: u64,
}

/// The state after one key, and whether the key completed the sequence:
/// `matched` keys of `target` had been typed, `c` comes in, and `timed_out`
/// says whether the pause before it was too long.
pub open spec fn step(target: Seq<char>, matched: nat, c: char, timed_out: bool) -> (bool, nat) {
    let done = if timed_out {
        0
    } else {
        matched
    };
    if c != target[done as int] {
        (false, 0)
    } else if done + 1 == target.len() {
        (true, 0)
    } else {
        (false, done + 1)
    }
}

/// Whether a pause of `elapsed_nanos` nanoseconds is longer than a time
/// frame of `timeframe_ms` milliseconds.
pub open spec fn exceeds(timeframe_ms: nat, elapsed_nanos: u128) -> bool {
    elapsed_nanos > timeframe_ms * 1_000_000
}

/// A pause that is too long never completes a sequence of two or more keys.
pub proof fn lemma_timeout_rejects(target: Seq<char>, matched: nat, c: char)
    requires
        target.len() >= 2,
    ensures
        !step(target, matched, c, true).0,
{
}

impl KeyCombo {
    /// The sequence to type.
    pub closed spec fn target(&self) -> Seq<char> {
        self.combo@
    }

    /// How many keys of the sequence have been typed so far.
    pub closed spec fn matched(&self) -> nat {
        self.matched as nat
    }

    /// The longest pause between two keys, in milliseconds.
    pub closed spec fn timeframe_ms(&self) -> nat {
        self.timeframe_ms as nat
    }

    /// The sequence is not empty and not yet complete.
    pub closed spec fn wf(&self) -> bool {
        self.matched < self.combo.len()
    }

    /// A recogniser for `combo`, with a time frame of 500 ms.
    pub fn new(combo: Vec<char>) -> (k: KeyCombo)
        requires
            combo.len() > 0,
        ensures
            k.wf(),
            k.target() == combo@,
            k.matched() == 0,
            k.timeframe_ms() == 500,
    {
        KeyCombo { last: now(), combo, matched: 0, timeframe_ms: 500 }
    }

    /// Records the key `c`, typed after a pause that was too long or not.
    /// Returns true when `c` completes the sequence.
    pub fn advance(&mut self, c: char, timed_out: bool) -> (complete: bool)
        requires
            old(self).wf(),
        ensures
            final(self).wf(),
            final(self).target() == old(self).target(),
            final(self).timeframe_ms() == old(self).timeframe_ms(),
            (complete, final(self).matched()) == step(
                old(self).target(),
                old(self).matched(),
                c,
                timed_out,
            ),
            timed_out && old(self).target().len() >= 2 ==> !complete,
    {
        if timed_out {
            self.matched = 0;
        }
        if c == self.combo[self.matched] {
            self.matched += 1;
        } else {
            self.matched = 0;
        }
        if self.matched == self.combo.len() {
            self.matched = 0;
            return true;
        }
        false
    }

    /// Whether a pause of `elapsed_nanos` nanoseconds is too long: longer
    /// than the time frame.
    pub fn pause_exceeds(&self, elapsed_nanos: u128) -> (late: bool)
        ensures
            late == exceeds(self.timeframe_ms(), elapsed_nanos),
    {
        let limit: u128 = (self.timeframe_ms as u128) * 1_000_000;
        elapsed_nanos > limit
    }

    /// The time since the last key in nanoseconds, by the clock.
    pub(crate) fn pause(&self) -> (elapsed_nanos: u128) {
        nanos_since(&self.last)
    }

    /// Records the key `c` now: the pause since the last key is read off the
    /// clock, and is too long when it exceeds the time frame.
    pub fn record(&mut self, c: char) -> (complete: bool)
        requires
            old(self).wf(),
        ensures
            final(self).wf(),
            final(self).target() == old(self).target(),
            final(self).timeframe_ms() == old(self).timeframe_ms(),
            exists|elapsed_nanos: u128|
                (complete, final(self).matched()) == #[trigger] step(
                    old(self).target(),
                    old(self).matched(),
                    c,
                    exceeds(old(self).timeframe_ms(), elapsed_nanos),
                ),
    {
        let elapsed_nanos = self.pause();
        let timed_out = self.pause_exceeds(elapsed_nanos);
        let complete = self.advance(c, timed_out);
        self.touch();
        assert((complete, self.matched()) == step(
            old(self).target(),
            old(self).matched(),
            c,
            exceeds(old(self).timeframe_ms(), elapsed_nanos),
        ));
        complete
    }

    /// Notes that a key came in now: the next pause is measured from here.
    pub(crate) fn touch(&mut self)
        requires
            old(self).wf(),
        ensures
            final(self).wf(),
            final(self).target() == old(self).target(),
            final(self).timeframe_ms() == old(self).timeframe_ms(),
            final(self).matched() == old(self).matched(),
    {
        self.last = now();
    }

    /// Forgets the keys typed so far.
    pub fn reset(&mut self)
        requires
            old(self).wf(),
        ensures
            final(self).wf(),
            final(self).target() == old(self).target(),
            final(self).timeframe_ms() == old(self).timeframe_ms(),
            final(self).matched() == 0,
    {
        self.last = now();
        self.matched = 0;
    }
}

} // verus!
