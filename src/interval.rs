use vstd::prelude::*;

use crate::stats::{as_u16_max, sat_u16};
use crate::tasks::Kind;
use crate::text::{parse_u64, spec_parse_u64};

verus! {

/// `a + b`, capped at `u64::MAX`.
pub open spec fn sat_add(a: u64, b: u64) -> u64 {
    if a as int + b as int > u64::MAX as int {
        u64::MAX
    } else {
        (a + b) as u64
    }
}

/// The phase a thread waits for before its loop starts, read from the
/// kind marker that its name begins with: inputs wait until inputs may run,
/// programs until programs may, outputs until outputs may; other threads do
/// not wait.
pub open spec fn spec_wait_kind(name: Seq<char>) -> Option<Kind> {
    if name.len() == 0 {
        None
    } else if name[0] == 'I' {
        Some(Kind::Input)
    } else if name[0] == 'P' {
        Some(Kind::Program)
    } else if name[0] == 'O' {
        Some(Kind::Output)
    } else {
        None
    }
}

/// The kind of thread that marks itself ready at its first tick.
pub open spec fn spec_ready_kind(name: Seq<char>) -> Option<Kind> {
    match spec_wait_kind(name) {
        Some(Kind::Output) => None,
        g => g,
    }
}

/// Reads which phase the thread `name` waits for.
pub fn wait_kind(name: &str) -> (r: Option<Kind>)
    ensures
        r == spec_wait_kind(name@),
{
    if name.unicode_len() == 0 {
        return None;
    }
    let c = name.get_char(0);
    if c == 'I' {
        Some(Kind::Input)
    } else if c == 'P' {
        Some(Kind::Program)
    } else if c == 'O' {
        Some(Kind::Output)
    } else {
        None
    }
}

/// The jitter of an iteration: how far the observed interval `elapsed_us`
/// lies from the intended one, in microseconds, saturated to 16 bits.
pub open spec fn spec_jitter(int_us: u64, elapsed_us: u64) -> u16 {
    let d: int = if int_us >= elapsed_us {
        int_us - elapsed_us
    } else {
        elapsed_us - int_us
    };
    sat_u16(d) as u16
}

/// Computes the jitter of an iteration.
pub fn jitter_of(int_us: u64, elapsed_us: u64) -> (r: u16)
    ensures
        r == spec_jitter(int_us, elapsed_us),
{
    let d = if int_us >= elapsed_us {
        int_us - elapsed_us
    } else {
        elapsed_us - int_us
    };
    as_u16_max(d)
}

/// What a tick asks of the thread that runs the loop: mark itself ready
/// (at the first tick of an input or program thread), sleep for `sleep_ns`,
/// and whether the deadline was met.
#[derive(Debug, Clone, Copy, PartialEq, Eq, Structural)]
pub struct TickPlan {
    pub mark_ready: Option<Kind>,
    pub sleep_ns: u64,
    pub on_time: bool,
}

/// A drift-free periodic loop. Times are nanoseconds on a monotonic clock.
pub struct Loop {
    next_iter: u64,
    interval: u64,
    int_micros: u64,
    t: u64,
    report: bool,
    task_kind: Option<Kind>,
    marked: bool,
}

pub struct LoopView {
    pub next_iter: u64,
    pub interval: u64,
    pub int_micros: u64,
    pub t: u64,
    pub report: bool,
    pub task_kind: Option<Kind>,
    pub marked: bool,
}

impl View for Loop {
    type V = LoopView;

    closed spec fn view(&self) -> LoopView {
        LoopView {
            next_iter: self.next_iter,
            interval: self.interval,
            int_micros: self.int_micros,
            t: self.t,
            report: self.report,
            task_kind: self.task_kind,
            marked: self.marked,
        }
    }
}

impl Loop {
    /// A loop of the thread `thread_name` with period `interval`, started at
    /// `now`, once the thread may run. The first deadline is one
    /// period after `now`. Input and program threads mark themselves ready
    /// at their first tick.
    pub fn prepare(interval: u64, report: bool, thread_name: &str, now: u64) -> (r: Loop)
        ensures
            r@ == (LoopView {
                next_iter: sat_add(now, interval),
                interval,
                int_micros: interval / 1000,
                t: now,
                report,
                task_kind: spec_ready_kind(thread_name@),
                marked: spec_ready_kind(thread_name@) is None,
            }),
    {
        let task_kind = match wait_kind(thread_name) {
            Some(Kind::Output) => None,
            g => g,
        };
        Loop {
            next_iter: now.saturating_add(interval),
            interval,
            int_micros: interval / 1000,
            t: now,
            report,
            task_kind,
            marked: task_kind.is_none(),
        }
    }

    /// A loop that reports no jitter.
    pub fn prepare0(interval: u64, thread_name: &str, now: u64) -> (r: Loop)
        ensures
            r@ == (LoopView {
                next_iter: sat_add(now, interval),
                interval,
                int_micros: interval / 1000,
                t: now,
                report: false,
                task_kind: spec_ready_kind(thread_name@),
                marked: spec_ready_kind(thread_name@) is None,
            }),
    {
        Loop::prepare(interval, false, thread_name, now)
    }

    /// A loop that reports the jitter of each iteration.
    pub fn prepare_reported(interval: u64, thread_name: &str, now: u64) -> (r: Loop)
        ensures
            r@ == (LoopView {
                next_iter: sat_add(now, interval),
                interval,
                int_micros: interval / 1000,
                t: now,
                report: true,
                task_kind: spec_ready_kind(thread_name@),
                marked: spec_ready_kind(thread_name@) is None,
            }),
    {
        Loop::prepare(interval, true, thread_name, now)
    }

    /// One tick at time `now`. Before the deadline the thread sleeps until
    /// it, and the next deadline is one period later. At the deadline it
    /// goes on at once. Past the deadline (an overrun) it goes on at once,
    /// and the next deadline is one period after `now`: missed iterations
    /// are skipped, never caught up.
    pub fn tick(&mut self, now: u64) -> (r: TickPlan)
        ensures
            r.mark_ready == if old(self)@.marked {
                None
            } else {
                old(self)@.task_kind
            },
            final(self)@.marked,
            r.on_time == (now <= old(self)@.next_iter),
            r.sleep_ns == if now < old(self)@.next_iter {
                (old(self)@.next_iter - now) as u64
            } else {
                0
            },
            final(self)@.next_iter == if now <= old(self)@.next_iter {
                sat_add(old(self)@.next_iter, old(self)@.interval)
            } else {
                sat_add(now, old(self)@.interval)
            },
            now > old(self)@.next_iter && now as int + old(self)@.interval as int <= u64::MAX ==> !r.on_time
                && r.sleep_ns == 0 && final(self)@.next_iter == now + old(self)@.interval
                && final(self)@.next_iter >= now,
            final(self)@.interval == old(self)@.interval,
            final(self)@.int_micros == old(self)@.int_micros,
            final(self)@.t == old(self)@.t,
            final(self)@.report == old(self)@.report,
            final(self)@.task_kind == old(self)@.task_kind,
    {
        let mark_ready = if !self.marked {
            self.marked = true;
            self.task_kind
        } else {
            None
        };
        if now < self.next_iter {
            let sleep_ns = self.next_iter - now;
            self.next_iter = self.next_iter.saturating_add(self.interval);
            TickPlan { mark_ready, sleep_ns, on_time: true }
        } else if now == self.next_iter {
            self.next_iter = self.next_iter.saturating_add(self.interval);
            TickPlan { mark_ready, sleep_ns: 0, on_time: true }
        } else {
            self.next_iter = now.saturating_add(self.interval);
            TickPlan { mark_ready, sleep_ns: 0, on_time: false }
        }
    }

    /// Closes an iteration at time `now`, after the tick's sleep: when the
    /// loop reports, gives the iteration's jitter and starts the next
    /// measured interval at `now`.
    pub fn finish_iteration(&mut self, now: u64) -> (r: Option<u16>)
        ensures
            r == if old(self)@.report {
                Some(
                    spec_jitter(
                        old(self)@.int_micros,
                        (if now >= old(self)@.t {
                            (now - old(self)@.t) as u64
                        } else {
                            0u64
                        }) / 1000,
                    ),
                )
            } else {
                None::<u16>
            },
            final(self)@ == (if old(self)@.report {
                LoopView { t: now, ..old(self)@ }
            } else {
                old(self)@
            }),
    {
        if self.report {
            let elapsed = now.saturating_sub(self.t);
            let jitter = jitter_of(self.int_micros, elapsed / 1000);
            self.t = now;
            Some(jitter)
        } else {
            None
        }
    }

    /// The next deadline.
    pub fn next_deadline(&self) -> (r: u64)
        ensures
            r == self@.next_iter,
    {
        self.next_iter
    }
}

/// Why an interval text was refused.
#[derive(Debug, Clone, Copy, PartialEq, Eq, Structural)]
pub enum IntervalError {
    /// The text, without its unit, is no unsigned number.
    InvalidNumber,
    /// The interval does not fit in 64 bits of nanoseconds.
    Overflow,
}

/// The number part of an interval text and the nanoseconds of its unit:
/// `ms`, `us`, `ns`, `s`, or seconds when no unit is given.
pub open spec fn interval_parts(s: Seq<char>) -> (Seq<char>, u64) {
    let n = s.len();
    if n >= 2 && s[n - 2] == 'm' && s[n - 1] == 's' {
        (s.subrange(0, n - 2), 1_000_000)
    } else if n >= 2 && s[n - 2] == 'u' && s[n - 1] == 's' {
        (s.subrange(0, n - 2), 1_000)
    } else if n >= 2 && s[n - 2] == 'n' && s[n - 1] == 's' {
        (s.subrange(0, n - 2), 1)
    } else if n >= 1 && s[n - 1] == 's' {
        (s.subrange(0, n - 1), 1_000_000_000)
    } else {
        (s, 1_000_000_000)
    }
}

pub open spec fn spec_parse_interval(s: Seq<char>) -> Result<u64, IntervalError> {
    let (d, unit) = interval_parts(s);
    match spec_parse_u64(d) {
        None => Err(IntervalError::InvalidNumber),
        Some(v) => if v as int * unit as int <= u64::MAX as int {
            Ok((v * unit) as u64)
        } else {
            Err(IntervalError::Overflow)
        },
    }
}

/// Reads an interval such as `200ms`, `50us`, `10ns`, `2s` or `2` (seconds)
/// as nanoseconds.
pub fn parse_interval(s: &str) -> (r: Result<u64, IntervalError>)
    ensures
        r == spec_parse_interval(s@),
{
    let n = s.unicode_len();
    let (cut, unit): (usize, u64) = if n >= 2 && s.get_char(n - 2) == 'm' && s.get_char(n - 1) == 's' {
        (2, 1_000_000)
    } else if n >= 2 && s.get_char(n - 2) == 'u' && s.get_char(n - 1) == 's' {
        (2, 1_000)
    } else if n >= 2 && s.get_char(n - 2) == 'n' && s.get_char(n - 1) == 's' {
        (2, 1)
    } else if n >= 1 && s.get_char(n - 1) == 's' {
        (1, 1_000_000_000)
    } else {
        (0, 1_000_000_000)
    };
    let d = s.substring_char(0, n - cut);
    assert(cut == 0 ==> d@ =~= s@);
    assert(d@ == interval_parts(s@).0);
    match parse_u64(d) {
        None => Err(IntervalError::InvalidNumber),
        Some(v) => match v.checked_mul(unit) {
            Some(x) => Ok(x),
            None => Err(IntervalError::Overflow),
        },
    }
}

} // verus!
