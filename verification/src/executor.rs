//! The bounded executor's schedule.  An adapter call runs in an
//! independently scheduled unit of work; the caller polls a result slot on
//! a fixed interval and gives up once the poll budget is spent, reporting a
//! timeout instead of blocking.  The schedule here decides when to keep
//! waiting and when to give up; performing the wait is the caller's part.

use vstd::prelude::*;

use crate::error::Error;

verus! {

/// Milliseconds between two polls of the result slot.
pub const POLL_INTERVAL_MS: usize = 100;

/// How many polls a timeout allows: one per started interval.
pub open spec fn spec_poll_budget(timeout: int) -> int {
    (timeout + 99) / 100
}

/// Law: the schedule never waits past the timeout by more than one poll
/// interval, and never gives up before the timeout is reached.
pub proof fn lemma_poll_budget_within_margin(timeout: int)
    requires
        0 <= timeout,
    ensures
        spec_poll_budget(timeout) * 100 < timeout + 100,
        spec_poll_budget(timeout) * 100 >= timeout,
{
    assert(spec_poll_budget(timeout) * 100 < timeout + 100) by (nonlinear_arith)
        requires
            0 <= timeout,
    ;
    assert(spec_poll_budget(timeout) * 100 >= timeout) by (nonlinear_arith)
        requires
            0 <= timeout,
    ;
}

/// The polling state of one bounded adapter call.
pub struct PollSchedule {
    /// The configured timeout in milliseconds.
    pub timeout: usize,
    /// Polls taken so far.
    pub polls: usize,
}

impl PollSchedule {
    /// A fresh schedule for one call under `timeout` milliseconds.
    pub fn new(timeout: usize) -> (r: PollSchedule)
        ensures
            r.timeout == timeout,
            r.polls == 0,
    {
        PollSchedule { timeout, polls: 0 }
    }

    /// The poll budget of this schedule.
    pub fn budget(&self) -> (r: usize)
        ensures
            r as int == spec_poll_budget(self.timeout as int),
    {
        let q: usize = self.timeout / 100;
        let rem: usize = self.timeout % 100;
        let b: usize = if rem == 0 {
            q
        } else {
            q + 1
        };
        proof {
            assert(b as int == spec_poll_budget(self.timeout as int)) by (nonlinear_arith)
                requires
                    q == self.timeout as int / 100,
                    rem == self.timeout as int % 100,
                    b == if rem == 0 {
                        q as int
                    } else {
                        q as int + 1
                    },
                    0 <= self.timeout as int,
            ;
        }
        b
    }

    /// Whether the budget is spent: the caller must stop waiting and
    /// report a timeout.
    pub fn expired(&self) -> (r: bool)
        ensures
            r == (self.polls as int >= spec_poll_budget(self.timeout as int)),
    {
        self.polls >= self.budget()
    }

    /// Counts one poll that found no result yet.
    pub fn tick(&mut self)
        requires
            (old(self).polls as int) < spec_poll_budget(old(self).timeout as int),
        ensures
            final(self).timeout == old(self).timeout,
            final(self).polls == old(self).polls + 1,
    {
        self.polls = self.polls + 1;
    }

    /// The timeout failure this schedule reports for `url` once expired.
    pub fn timeout_error(&self, url: &str) -> (r: Error)
        ensures
            r matches Error::Timeout { url: u, timeout } ==> u@ == url@ && timeout == self.timeout,
            r is Timeout,
    {
        Error::Timeout { url: String::from_str(url), timeout: self.timeout }
    }
}

} // verus!
