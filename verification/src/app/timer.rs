use vstd::prelude::*;

verus! {

/// Milliseconds elapsed between a recorded start reading and a later reading
/// of the same monotonic clock. A reading taken before the start (which a
/// monotonic clock never produces) counts as zero elapsed time.
pub open spec fn elapsed_ms_spec(start: u128, now: u128) -> u128 {
    if now >= start {
        (now - start) as u128
    } else {
        0
    }
}

/// A two-event stopwatch over plain millisecond readings of a monotonic
/// clock. The caller supplies each reading, so the clock source is
/// injectable: the terminal front end passes real readings, tests pass
/// chosen ones.
///
/// The three clock states are encoded by the two fields:
/// not started (`start` is `None`), running (`start` is `Some`, `end` is
/// `None`), and stopped (`end` is `Some`, holding the fixed elapsed
/// duration in milliseconds).
pub struct Timer {
    pub start: Option<u128>,
    pub end: Option<u128>,
}

impl Default for Timer {
    /// A fresh stopwatch: not started, not stopped.
    fn default() -> (r: Self)
        ensures
            r.start is None,
            r.end is None,
    {
        Timer { start: None, end: None }
    }
}

impl Timer {
    pub fn is_started(&self) -> (r: bool)
        ensures
            r == (self.start is Some),
    {
        self.start.is_some()
    }

    /// Record `now_ms` as the start of the measured interval. A second call
    /// silently overwrites the first; the session state machine, not the
    /// stopwatch, enforces the start-once discipline.
    pub fn start(&mut self, now_ms: u128)
        ensures
            final(self).start == Some(now_ms),
            final(self).end == old(self).end,
    {
        self.start = Some(now_ms);
    }

    /// Milliseconds elapsed between the recorded start and `now_ms`.
    /// Querying before `start` is a caller error and is ruled out here.
    pub fn elapsed_since_start(&self, now_ms: u128) -> (r: u128)
        requires
            self.start is Some,
        ensures
            r == elapsed_ms_spec(self.start.unwrap(), now_ms),
    {
        let start = *self.start.as_ref().unwrap();
        if now_ms >= start {
            now_ms - start
        } else {
            0
        }
    }

    /// Stop the stopwatch at `now_ms`, fixing the reportable duration.
    /// Calling before `start` is a caller error and is ruled out here.
    pub fn end(&mut self, now_ms: u128)
        requires
            old(self).start is Some,
        ensures
            final(self).start == old(self).start,
            final(self).end == Some(elapsed_ms_spec(old(self).start.unwrap(), now_ms)),
    {
        let elapsed = self.elapsed_since_start(now_ms);
        self.end = Some(elapsed);
    }

    /// The fixed duration captured by `end`, in milliseconds. Every query
    /// after the stop returns this same stored value, never a re-measured
    /// one. Querying before `end` is a caller error and is ruled out here.
    pub fn duration(&self) -> (r: u128)
        requires
            self.end is Some,
        ensures
            r == self.end.unwrap(),
    {
        *self.end.as_ref().unwrap()
    }
}

/// The elapsed-time query is monotone in the clock: two queries without an
/// intervening stop, at readings `t1` then `t2` of a monotonic clock
/// (so `t1 <= t2`), yield non-decreasing values.
pub proof fn lemma_elapsed_monotone(start: u128, t1: u128, t2: u128)
    requires
        t1 <= t2,
    ensures
        elapsed_ms_spec(start, t1) <= elapsed_ms_spec(start, t2),
{
}

} // verus!
