//! A restartable one-shot timer, on a clock of milliseconds that its owner
//! supplies.

use vstd::prelude::*;

verus! {

/// A one-shot timer: `deadline` is when it fires, if it is armed; `duration`
/// is the delay it was last started with, used by `reset`.
#[derive(Clone, Copy, PartialEq, Eq, Structural, Debug)]
pub struct Timer {
    pub duration: Option<u64>,
    pub deadline: Option<u64>,
}

impl Timer {
    /// A timer with no delay yet, not armed.
    pub fn new() -> (r: Self)
        ensures
            r.duration is None,
            r.deadline is None,
    {
        Timer { duration: None, deadline: None }
    }

    /// A timer with a delay of `duration` milliseconds, not armed.
    pub fn with_duration(duration: u64) -> (r: Self)
        ensures
            r.duration == Some(duration),
            r.deadline is None,
    {
        Timer { duration: Some(duration), deadline: None }
    }

    pub fn new_s(secs: u64) -> (r: Self)
        requires
            secs <= u64::MAX / 1000,
        ensures
            r.duration == Some((secs * 1000) as u64),
            r.deadline is None,
    {
        Timer::with_duration(secs * 1000)
    }

    pub fn new_ms(msecs: u64) -> (r: Self)
        ensures
            r.duration == Some(msecs),
            r.deadline is None,
    {
        Timer::with_duration(msecs)
    }

    /// Arms the timer to fire `duration` after `now`, replacing any pending
    /// firing, and remembers the delay.
    pub fn start(&mut self, now: u64, duration: u64)
        requires
            now + duration <= u64::MAX,
        ensures
            final(self).duration == Some(duration),
            final(self).deadline == Some((now + duration) as u64),
    {
        self.cancel();
        self.duration = Some(duration);
        self.deadline = Some(now + duration);
    }

    /// Disarms the timer.
    pub fn cancel(&mut self)
        ensures
            final(self).duration == old(self).duration,
            final(self).deadline is None,
    {
        self.deadline = None;
    }

    /// Starts the timer again with its last delay; a timer without a delay
    /// is left as it is.
    pub fn reset(&mut self, now: u64)
        requires
            old(self).duration matches Some(d) ==> now + d <= u64::MAX,
        ensures
            final(self).duration == old(self).duration,
            match old(self).duration {
                Some(d) => final(self).deadline == Some((now + d) as u64),
                None => final(self).deadline == old(self).deadline,
            },
    {
        match self.duration {
            Some(d) => self.start(now, d),
            None => {},
        }
    }

    /// Whether the timer is armed and its deadline has come by `now`.
    pub fn is_due(&self, now: u64) -> (r: bool)
        ensures
            r == (self.deadline matches Some(t) && t <= now),
    {
        match self.deadline {
            Some(t) => t <= now,
            None => false,
        }
    }

    /// Fires the timer if it is due by `now`: it is then disarmed.
    pub fn fire(&mut self, now: u64) -> (r: bool)
        ensures
            r == (old(self).deadline matches Some(t) && t <= now),
            final(self).duration == old(self).duration,
            r ==> final(self).deadline is None,
            !r ==> final(self).deadline == old(self).deadline,
    {
        if self.is_due(now) {
            self.deadline = None;
            true
        } else {
            false
        }
    }
}

} // verus!
