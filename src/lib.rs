use vstd::prelude::*;

pub mod api;
pub mod comm;
pub mod eapi;
pub mod interval;
pub mod modbus;
pub mod stats;
pub mod tasks;
pub mod text;

use crate::tasks::Status;
use crate::text::{spec_split, split_at_char, starts_with};

verus! {

/// Who the controller is, and when it started (nanoseconds on a monotonic
/// clock).
pub struct PlcIdentity {
    pub hostname: String,
    pub name: String,
    pub description: String,
    pub version: String,
    pub started_at: u64,
}

/// What the `info` call reports. The uptime is in nanoseconds.
pub struct PlcInfo {
    pub system_name: String,
    pub name: String,
    pub description: String,
    pub version: String,
    pub status: i16,
    pub pid: u32,
    pub uptime: u64,
}

/// The time since the start, zero for a time before it.
pub open spec fn spec_uptime(started_at: u64, now: u64) -> u64 {
    if now >= started_at {
        (now - started_at) as u64
    } else {
        0
    }
}

/// The name of the host the controller runs on.
pub fn hostname(id: &PlcIdentity) -> (r: &str)
    ensures
        r@ == id.hostname@,
{
    id.hostname.as_str()
}

/// The controller's name.
pub fn name(id: &PlcIdentity) -> (r: &str)
    ensures
        r@ == id.name@,
{
    id.name.as_str()
}

/// The time elapsed since the controller started, at time `now`.
pub fn uptime(id: &PlcIdentity, now: u64) -> (r: u64)
    ensures
        r == spec_uptime(id.started_at, now),
{
    now.saturating_sub(id.started_at)
}

/// Uptime never decreases as the clock advances.
pub proof fn lemma_uptime_monotone(started_at: u64, t1: u64, t2: u64)
    requires
        t1 <= t2,
    ensures
        spec_uptime(started_at, t1) <= spec_uptime(started_at, t2),
{
}

/// The report of the `info` call for a controller in `status`, running as
/// process `pid`, at time `now`.
pub fn plc_info(id: &PlcIdentity, status: Status, pid: u32, now: u64) -> (r: PlcInfo)
    ensures
        r.system_name@ == id.hostname@,
        r.name@ == id.name@,
        r.description@ == id.description@,
        r.version@ == id.version@,
        r.status as int == status.code(),
        r.pid == pid,
        r.uptime == spec_uptime(id.started_at, now),
{
    PlcInfo {
        system_name: id.hostname.clone(),
        name: id.name.clone(),
        description: id.description.clone(),
        version: id.version.clone(),
        status: status.as_i16(),
        pid,
        uptime: uptime(id, now),
    }
}


/// The number of lines of `lines` that start with `processor` and a tab.
pub open spec fn spec_processor_lines(lines: Seq<Seq<char>>) -> nat
    decreases lines.len(),
{
    if lines.len() == 0 {
        0
    } else {
        spec_processor_lines(lines.drop_last()) + if lines.last().len() >= 10 && lines.last().subrange(0, 10)
            == "processor\t"@ {
            1nat
        } else {
            0nat
        }
    }
}

proof fn lemma_processor_lines_bound(lines: Seq<Seq<char>>)
    ensures
        spec_processor_lines(lines) <= lines.len(),
    decreases lines.len(),
{
    if lines.len() > 0 {
        lemma_processor_lines_bound(lines.drop_last());
    }
}

/// The CPU count that a `/proc/cpuinfo` text lists: one `processor` line
/// per CPU.
pub fn count_processors(cpuinfo: &str) -> (r: usize)
    ensures
        r == spec_processor_lines(spec_split(cpuinfo@, '\n')),
{
    let lines = split_at_char(cpuinfo, '\n');
    let ghost lv = lines@.map_values(|p: &str| p@);
    let mut c: usize = 0;
    let mut i: usize = 0;
    assert(lv.subrange(0, 0) =~= Seq::<Seq<char>>::empty());
    proof {
        reveal_strlit("processor\t");
    }
    while i < lines.len()
        invariant
            lv == lines@.map_values(|p: &str| p@),
            i <= lines@.len(),
            c == spec_processor_lines(lv.subrange(0, i as int)),
            "processor\t"@.len() == 10,
        decreases lines@.len() - i,
    {
        assert(lv.subrange(0, i + 1).drop_last() == lv.subrange(0, i as int));
        assert(lv[i as int] == lines@[i as int]@);
        proof {
            lemma_processor_lines_bound(lv.subrange(0, i as int));
        }
        if starts_with(lines[i], "processor\t") {
            c = c + 1;
        }
        i = i + 1;
    }
    assert(lv.subrange(0, lines@.len() as int) == lv);
    c
}

} // verus!
