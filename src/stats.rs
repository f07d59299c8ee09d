use vstd::prelude::*;

verus! {

/// Saturating narrowing of a counter to 16 bits.
pub open spec fn sat_u16(v: int) -> int {
    if v > u16::MAX as int {
        u16::MAX as int
    } else {
        v
    }
}

/// Narrows a 64-bit value to 16 bits, saturating at `u16::MAX`.
pub fn as_u16_max(v: u64) -> (r: u16)
    ensures
        r as int == sat_u16(v as int),
{
    if v > u16::MAX as u64 {
        u16::MAX
    } else {
        v as u16
    }
}

/// A snapshot of one thread's statistics.
#[derive(Debug, Clone, Copy, PartialEq, Eq, Structural, Default)]
pub struct ThreadInfo {
    pub iters: u32,
    pub jitter_min: u16,
    pub jitter_max: u16,
    pub jitter_last: u16,
    pub jitter_avg: u16,
}

/// The jitter record of a thread: extremes, last sample, and the running
/// total of the samples counted since the counter was last reset.
#[derive(Debug, Clone, Copy, PartialEq, Eq, Structural)]
pub struct JitterStats {
    pub min: u16,
    pub max: u16,
    pub last: u16,
    pub total: u32,
}

impl JitterStats {
    /// The record of a single sample.
    pub fn new(jitter: u16) -> (r: JitterStats)
        ensures
            r == (JitterStats { min: jitter, max: jitter, last: jitter, total: jitter as u32 }),
    {
        JitterStats { min: jitter, max: jitter, last: jitter, total: jitter as u32 }
    }
}

/// Per-thread statistics: the iteration count and, once a sample came, the
/// jitter record.
#[derive(Debug, Clone, Copy, PartialEq, Eq, Structural)]
pub struct ThreadStats {
    pub iters: u32,
    pub jitter: Option<JitterStats>,
}

/// What a sample does to the statistics. The counter restarts from that one
/// sample when either the count or the total would overflow.
pub open spec fn spec_reported(s: ThreadStats, jitter: u16) -> ThreadStats {
    match s.jitter {
        None => ThreadStats {
            iters: if s.iters == u32::MAX { 1 } else { (s.iters + 1) as u32 },
            jitter: Some(JitterStats { min: jitter, max: jitter, last: jitter, total: jitter as u32 }),
        },
        Some(j) => {
            let restart = s.iters == u32::MAX || j.total as int + jitter as int > u32::MAX as int;
            ThreadStats {
                iters: if restart { 1 } else { (s.iters + 1) as u32 },
                jitter: Some(JitterStats {
                    min: if j.min > jitter { jitter } else { j.min },
                    max: if j.max < jitter { jitter } else { j.max },
                    last: jitter,
                    total: if restart { jitter as u32 } else { (j.total + jitter) as u32 },
                }),
            }
        },
    }
}

/// The snapshot that a statistics record gives, `None` before any sample.
pub open spec fn spec_info(s: ThreadStats) -> Option<ThreadInfo> {
    match s.jitter {
        None => None,
        Some(j) => Some(
            ThreadInfo {
                iters: s.iters,
                jitter_min: j.min,
                jitter_max: j.max,
                jitter_last: j.last,
                jitter_avg: sat_u16(j.total as int / s.iters as int) as u16,
            },
        ),
    }
}

/// A snapshot whose extremes bound its last sample and its average.
pub open spec fn info_ordered(i: ThreadInfo) -> bool {
    &&& i.jitter_min <= i.jitter_last
    &&& i.jitter_last <= i.jitter_max
    &&& i.jitter_avg <= i.jitter_max
}

impl ThreadStats {
    /// A record holds a jitter record exactly when it counted a sample, and
    /// the total is at most the count times the maximum.
    pub open spec fn wf(self) -> bool {
        match self.jitter {
            None => self.iters == 0,
            Some(j) => {
                &&& self.iters >= 1
                &&& j.min <= j.last
                &&& j.last <= j.max
                &&& j.total as int <= self.iters as int * j.max as int
            },
        }
    }

    /// The statistics of a thread that has not run yet.
    pub fn new() -> (r: ThreadStats)
        ensures
            r == (ThreadStats { iters: 0, jitter: None }),
            r.wf(),
    {
        ThreadStats { iters: 0, jitter: None }
    }

    /// Accounts one jitter sample.
    pub fn report_jitter(&mut self, jitter: u16)
        requires
            old(self).wf(),
        ensures
            *final(self) == spec_reported(*old(self), jitter),
            final(self).wf(),
    {
        let was_reset = if self.iters == u32::MAX {
            self.iters = 1;
            true
        } else {
            self.iters = self.iters + 1;
            false
        };
        match self.jitter {
            Some(j) => {
                let mut j_stats = j;
                if j_stats.min > jitter {
                    j_stats.min = jitter;
                }
                if j_stats.max < jitter {
                    j_stats.max = jitter;
                }
                j_stats.last = jitter;
                let j32 = jitter as u32;
                if was_reset {
                    j_stats.total = j32;
                } else if j_stats.total > u32::MAX - j32 {
                    self.iters = 1;
                    j_stats.total = j32;
                } else {
                    j_stats.total = j_stats.total + j32;
                }
                self.jitter = Some(j_stats);
                proof {
                    let n = self.iters as int;
                    let m = j.max as int;
                    let m2 = j_stats.max as int;
                    if !was_reset && j.total as int + jitter as int <= u32::MAX as int {
                        assert(j.total as int <= (n - 1) * m);
                        assert((n - 1) * m <= (n - 1) * m2) by (nonlinear_arith)
                            requires n >= 1, m <= m2;
                        assert(n * m2 == (n - 1) * m2 + m2) by (nonlinear_arith);
                    }
                }
            },
            None => {
                self.jitter = Some(JitterStats::new(jitter));
            },
        }
    }

    /// Clears the count and the jitter record.
    pub fn reset(&mut self)
        ensures
            *final(self) == (ThreadStats { iters: 0, jitter: None }),
            final(self).wf(),
    {
        self.iters = 0;
        self.jitter = None;
    }

    /// The snapshot of the statistics, `None` before the first sample. Its
    /// average is the total divided by the count, saturated to 16 bits, and
    /// never exceeds the maximum.
    pub fn info(&self) -> (r: Option<ThreadInfo>)
        requires
            self.wf(),
        ensures
            r == spec_info(*self),
            r matches Some(i) ==> info_ordered(i),
    {
        match self.jitter {
            None => None,
            Some(j) => {
                let avg = j.total / self.iters;
                proof {
                    let n = self.iters as int;
                    let m = j.max as int;
                    let t = j.total as int;
                    assert(t / n <= m) by (nonlinear_arith)
                        requires t <= n * m, n >= 1, t >= 0, m >= 0;
                }
                Some(
                    ThreadInfo {
                        iters: self.iters,
                        jitter_min: j.min,
                        jitter_max: j.max,
                        jitter_last: j.last,
                        jitter_avg: as_u16_max(avg as u64),
                    },
                )
            },
        }
    }
}

/// Any number of samples keeps a record well formed, and its snapshot keeps
/// the average and the last sample between the extremes.
pub proof fn lemma_reported_info_ordered(s: ThreadStats, samples: Seq<u16>)
    requires
        s.wf(),
    ensures
        spec_reported_all(s, samples).wf(),
        spec_info(spec_reported_all(s, samples)) matches Some(i) ==> info_ordered(i),
    decreases samples.len(),
{
    if samples.len() > 0 {
        lemma_reported_wf(s, samples[0]);
        lemma_reported_info_ordered(spec_reported(s, samples[0]), samples.drop_first());
    }
    lemma_info_ordered(spec_reported_all(s, samples));
}

/// The record after each sample of `samples` was reported in turn.
pub open spec fn spec_reported_all(s: ThreadStats, samples: Seq<u16>) -> ThreadStats
    decreases samples.len(),
{
    if samples.len() == 0 {
        s
    } else {
        spec_reported_all(spec_reported(s, samples[0]), samples.drop_first())
    }
}

/// Reporting a sample keeps a record well formed.
pub proof fn lemma_reported_wf(s: ThreadStats, jitter: u16)
    requires
        s.wf(),
    ensures
        spec_reported(s, jitter).wf(),
{
    if let Some(j) = s.jitter {
        let r = spec_reported(s, jitter);
        if !(s.iters == u32::MAX || j.total as int + jitter as int > u32::MAX as int) {
            let n = s.iters as int + 1;
            let m = j.max as int;
            let m2 = r.jitter.unwrap().max as int;
            assert(r.iters as int == n);
            assert(j.total as int <= (n - 1) * m);
            assert((n - 1) * m <= (n - 1) * m2) by (nonlinear_arith)
                requires n >= 1, m <= m2;
            assert(n * m2 == (n - 1) * m2 + m2) by (nonlinear_arith);
            assert(r.jitter.unwrap().total as int == j.total as int + jitter as int);
        } else {
            let m2 = r.jitter.unwrap().max as int;
            assert(r.iters == 1);
            assert(1 * m2 == m2);
        }
    } else {
        assert(1 * (jitter as int) == jitter as int);
    }
}

/// The snapshot of a well-formed record is ordered.
pub proof fn lemma_info_ordered(s: ThreadStats)
    requires
        s.wf(),
    ensures
        spec_info(s) matches Some(i) ==> info_ordered(i),
{
    if let Some(j) = s.jitter {
        let n = s.iters as int;
        let m = j.max as int;
        let t = j.total as int;
        assert(t / n <= m) by (nonlinear_arith)
            requires t <= n * m, n >= 1, t >= 0, m >= 0;
    }
}


} // verus!
