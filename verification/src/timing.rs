//! A stopwatch over the system's monotonic clock.

use std::time::Instant;
use vstd::prelude::*;

verus! {

/// The standard library's monotonic clock reading, carried through unchanged.
#[verifier::external_type_specification]
#[verifier::external_body]
pub struct ExInstant(Instant);

/// A span of time: whole seconds and the nanoseconds beyond them.
#[derive(Clone, Copy, PartialEq, Eq, Structural, Debug)]
pub struct TimeSpan {
    pub secs: u64,
    pub nanos: u32,
}

/// Nanoseconds in a second.
pub const NANOS_PER_SEC: u32 = 1_000_000_000;

/// Nanoseconds in a millisecond.
pub const NANOS_PER_MILLI: u32 = 1_000_000;

impl TimeSpan {
    /// The nanosecond part is below one second.
    pub open spec fn valid(self) -> bool {
        self.nanos < NANOS_PER_SEC
    }

    /// The length of the span in nanoseconds.
    pub open spec fn total_nanos(self) -> int {
        self.secs * NANOS_PER_SEC + self.nanos
    }

    /// The length of the span in whole milliseconds.
    pub open spec fn total_millis(self) -> int {
        self.secs * 1000 + self.nanos / NANOS_PER_MILLI
    }

    /// The empty span.
    pub fn zero() -> (r: TimeSpan)
        ensures
            r.secs == 0 && r.nanos == 0,
    {
        TimeSpan { secs: 0, nanos: 0 }
    }

    /// The sum of two spans, with the nanoseconds carried into seconds.
    pub fn plus(self, other: TimeSpan) -> (r: TimeSpan)
        requires
            self.valid(),
            other.valid(),
            self.total_nanos() + other.total_nanos() < (u64::MAX as int + 1) * NANOS_PER_SEC,
        ensures
            r.valid(),
            r.total_nanos() == self.total_nanos() + other.total_nanos(),
    {
        let nanos = self.nanos + other.nanos;
        if nanos >= NANOS_PER_SEC {
            TimeSpan { secs: self.secs + other.secs + 1, nanos: nanos - NANOS_PER_SEC }
        } else {
            TimeSpan { secs: self.secs + other.secs, nanos }
        }
    }

    /// The length in whole milliseconds (whole seconds times a thousand plus
    /// the whole milliseconds of the fraction), or `u64::MAX` where that does
    /// not fit.
    pub fn whole_millis(self) -> (r: u64)
        requires
            self.valid(),
        ensures
            self.total_millis() <= u64::MAX ==> r == self.total_millis(),
            self.total_millis() > u64::MAX ==> r == u64::MAX,
    {
        let millis = (self.nanos / NANOS_PER_MILLI) as u64;
        if self.secs <= (u64::MAX - millis) / 1000 {
            self.secs * 1000 + millis
        } else {
            u64::MAX
        }
    }
}

/// Reads the monotonic clock (`Instant::now`). Nothing is stated of the
/// reading, which depends on the time of the call.
#[verifier::external_body]
fn instant_now() -> (r: Instant) {
    Instant::now()
}

/// The time passed since `start` (`Instant::elapsed`), as whole seconds and
/// the nanoseconds beyond them. Only that the nanosecond part is below one
/// second (`Duration::subsec_nanos`) is stated; the span depends on the time
/// of the call.
#[verifier::external_body]
fn time_since(start: &Instant) -> (r: TimeSpan)
    ensures
        r.valid(),
{
    let d = start.elapsed();
    TimeSpan { secs: d.as_secs(), nanos: d.subsec_nanos() }
}

/// Measures the time since it was last started.
///
/// The span counted before the current start is fixed at creation and is
/// never increased: stopping discards the running measurement.
///
/// Each start is counted, and the clock reading it takes is kept together
/// with its count, so that a running measurement names the start that began
/// it.
pub struct Stopwatch {
    start: Option<(Instant, Ghost<nat>)>,
    starts: Ghost<nat>,
    elapsed: TimeSpan,
}

impl Default for Stopwatch {
    fn default() -> (r: Self)
        ensures
            r.wf(),
            !r.is_running(),
            r.base() == (TimeSpan { secs: 0, nanos: 0 }),
            r.start_count() == 0,
    {
        Self::new()
    }
}

impl Stopwatch {
    /// The watch is measuring.
    pub closed spec fn is_running(self) -> bool {
        self.start is Some
    }

    /// The span counted apart from the running measurement.
    pub closed spec fn base(self) -> TimeSpan {
        self.elapsed
    }

    /// The number of calls of `start` so far.
    pub closed spec fn start_count(self) -> nat {
        self.starts@
    }

    /// Which start the running measurement counts from: the number that
    /// start call had, where the watch is running.
    pub closed spec fn measured_since(self) -> Option<nat> {
        match self.start {
            Some((_, k)) => Some(k@),
            None => None,
        }
    }

    /// The counted span is empty, and a running measurement counts from the
    /// latest start.
    pub closed spec fn wf(self) -> bool {
        &&& self.elapsed.secs == 0 && self.elapsed.nanos == 0
        &&& self.start matches Some((_, k)) ==> k@ == self.starts@
    }

    pub fn new() -> (r: Stopwatch)
        ensures
            r.wf(),
            !r.is_running(),
            r.base() == (TimeSpan { secs: 0, nanos: 0 }),
            r.start_count() == 0,
    {
        Stopwatch { start: None, starts: Ghost(0), elapsed: TimeSpan::zero() }
    }

    pub fn new_and_start() -> (r: Stopwatch)
        ensures
            r.wf(),
            r.is_running(),
            r.base() == (TimeSpan { secs: 0, nanos: 0 }),
            r.start_count() == 1,
            r.measured_since() == Some(1nat),
    {
        let mut sw = Stopwatch::new();
        sw.start();
        sw
    }

    /// Starts (or restarts) the measurement at the current time: the watch
    /// then counts from the clock reading of this call, whether or not it
    /// was running before.
    pub fn start(&mut self)
        ensures
            final(self).is_running(),
            final(self).base() == old(self).base(),
            old(self).wf() ==> final(self).wf(),
            final(self).start_count() == old(self).start_count() + 1,
            final(self).measured_since() == Some(final(self).start_count()),
    {
        let ghost count = self.starts@ + 1;
        self.starts = Ghost(count);
        self.start = Some((instant_now(), Ghost(count)));
    }

    /// Stops the measurement; the time measured so far is dropped.
    pub fn stop(&mut self)
        ensures
            !final(self).is_running(),
            final(self).base() == old(self).base(),
            old(self).wf() ==> final(self).wf(),
            final(self).start_count() == old(self).start_count(),
            final(self).measured_since() is None,
    {
        self.start = None;
    }

    /// The counted span plus, while running, the clock reading `since_start`
    /// taken for the current start.
    pub fn elapsed_with(&self, since_start: TimeSpan) -> (r: TimeSpan)
        requires
            self.wf(),
            since_start.valid(),
        ensures
            r.valid(),
            self.is_running() ==> r.total_nanos() == since_start.total_nanos()
                + self.base().total_nanos(),
            !self.is_running() ==> r == self.base(),
    {
        match self.start {
            Some(_) => since_start.plus(self.elapsed),
            None => self.elapsed,
        }
    }

    /// The time measured: the time since the start plus the counted span
    /// while running, the counted span otherwise.
    pub fn elapsed(&self) -> (r: TimeSpan)
        requires
            self.wf(),
        ensures
            r.valid(),
            !self.is_running() ==> r == self.base(),
            self.is_running() ==> r.total_nanos() >= self.base().total_nanos(),
    {
        match &self.start {
            Some((t, _)) => {
                let since_start = time_since(t);
                self.elapsed_with(since_start)
            },
            None => self.elapsed,
        }
    }

    /// The time measured, in whole milliseconds (`u64::MAX` where that does
    /// not fit). While the watch runs the value depends on the clock, and
    /// nothing is stated of it; it is `whole_millis` of what `elapsed`
    /// returns.
    pub fn elapsed_ms(&self) -> (r: u64)
        requires
            self.wf(),
        ensures
            !self.is_running() ==> r == self.base().total_millis(),
    {
        let dur = self.elapsed();
        dur.whole_millis()
    }
}

/// A stopped watch reads no time: stopping discards the running
/// measurement, and the span counted apart from it is always empty.
pub proof fn lemma_stopped_reads_zero(sw: Stopwatch)
    requires
        sw.wf(),
        !sw.is_running(),
    ensures
        sw.base().total_nanos() == 0,
        sw.base().total_millis() == 0,
{
}

/// A running watch measures from its latest start: starting a running
/// watch again does not keep the earlier start, and every start begins a new
/// measurement.
pub proof fn lemma_runs_from_latest_start(sw: Stopwatch)
    requires
        sw.wf(),
        sw.is_running(),
    ensures
        sw.measured_since() == Some(sw.start_count()),
{
}

} // verus!
