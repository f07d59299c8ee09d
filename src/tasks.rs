use vstd::prelude::*;

pub use crate::stats::{
    as_u16_max, info_ordered, sat_u16, spec_info, spec_reported, JitterStats, ThreadInfo, ThreadStats,
};
use crate::stats::lemma_reported_wf;

use crate::text::{parse_i32, parse_u64, spec_parse_i32, spec_parse_u64, spec_split, split_at_char, str_eq};

verus! {

/// Controller status. The wire value of each status is given by `code`.
#[derive(Debug, Clone, Copy, PartialEq, Eq, Structural)]
pub enum Status {
    /// The controller process is launched.
    Inactive,
    /// The controller is starting.
    Starting,
    /// Inputs may run.
    Syncing,
    /// Programs may run.
    Preparing,
    /// Everything runs.
    Active,
    /// Shutdown began: inputs and programs must quit.
    Stopping,
    /// Final data sync of the outputs.
    StopSyncing,
    /// Outputs completed, the controller is stopped.
    Stopped,
    /// A wire value that names no status.
    Unknown,
}

impl Status {
    /// The wire value of a status.
    pub open spec fn code(self) -> int {
        match self {
            Status::Inactive => 0,
            Status::Starting => 1,
            Status::Syncing => 2,
            Status::Preparing => 3,
            Status::Active => 100,
            Status::Stopping => -1,
            Status::StopSyncing => -2,
            Status::Stopped => -100,
            Status::Unknown => -200,
        }
    }

    /// The status lies on the shutdown path.
    pub open spec fn is_shutdown(self) -> bool {
        self.code() < 0
    }

    /// The status whose wire value is `v`, `Unknown` where there is none.
    pub open spec fn spec_from_code(v: int) -> Status {
        if v == 0 {
            Status::Inactive
        } else if v == 1 {
            Status::Starting
        } else if v == 2 {
            Status::Syncing
        } else if v == 3 {
            Status::Preparing
        } else if v == 100 {
            Status::Active
        } else if v == -1 {
            Status::Stopping
        } else if v == -2 {
            Status::StopSyncing
        } else if v == -100 {
            Status::Stopped
        } else {
            Status::Unknown
        }
    }

    /// The wire value of the status.
    pub fn as_i16(self) -> (r: i16)
        ensures
            r as int == self.code(),
    {
        match self {
            Status::Inactive => 0,
            Status::Starting => 1,
            Status::Syncing => 2,
            Status::Preparing => 3,
            Status::Active => 100,
            Status::Stopping => -1,
            Status::StopSyncing => -2,
            Status::Stopped => -100,
            Status::Unknown => -200,
        }
    }

    /// Decodes a wire value; values that name no status give `Unknown`.
    pub fn from_i16(v: i16) -> (r: Status)
        ensures
            r == Status::spec_from_code(v as int),
            r != Status::Unknown ==> r.code() == v as int,
    {
        if v == 0 {
            Status::Inactive
        } else if v == 1 {
            Status::Starting
        } else if v == 2 {
            Status::Syncing
        } else if v == 3 {
            Status::Preparing
        } else if v == 100 {
            Status::Active
        } else if v == -1 {
            Status::Stopping
        } else if v == -2 {
            Status::StopSyncing
        } else if v == -100 {
            Status::Stopped
        } else {
            Status::Unknown
        }
    }

    /// The upper-case name of the status.
    pub fn as_str(self) -> (r: &'static str)
        ensures
            r@ == self.name(),
    {
        match self {
            Status::Inactive => "INACTIVE",
            Status::Starting => "STARTING",
            Status::Syncing => "SYNCING",
            Status::Preparing => "PREPARING",
            Status::Active => "ACTIVE",
            Status::Stopping => "STOPPING",
            Status::StopSyncing => "STOPSYNCING",
            Status::Stopped => "STOPPED",
            Status::Unknown => "UNKNOWN",
        }
    }

    pub open spec fn name(self) -> Seq<char> {
        match self {
            Status::Inactive => "INACTIVE"@,
            Status::Starting => "STARTING"@,
            Status::Syncing => "SYNCING"@,
            Status::Preparing => "PREPARING"@,
            Status::Active => "ACTIVE"@,
            Status::Stopping => "STOPPING"@,
            Status::StopSyncing => "STOPSYNCING"@,
            Status::Stopped => "STOPPED"@,
            Status::Unknown => "UNKNOWN"@,
        }
    }
}

/// Decoding the wire value of a status gives the status back.
pub proof fn lemma_status_code_round_trip(s: Status)
    ensures
        Status::spec_from_code(s.code()) == s,
{
}

/// Thread kind, fixed at registration.
#[derive(Debug, Clone, Copy, PartialEq, Eq, Structural)]
pub enum Kind {
    Input,
    Output,
    Program,
    Service,
}

impl Kind {
    pub open spec fn prefix(self) -> char {
        match self {
            Kind::Input => 'I',
            Kind::Output => 'O',
            Kind::Program => 'P',
            Kind::Service => 'S',
        }
    }

    /// The one-letter marker put before the thread's name.
    pub fn thread_prefix(self) -> (r: &'static str)
        ensures
            r@ == seq![self.prefix()],
    {
        proof {
            reveal_strlit("I");
            reveal_strlit("O");
            reveal_strlit("P");
            reveal_strlit("S");
        }
        match self {
            Kind::Input => "I",
            Kind::Output => "O",
            Kind::Program => "P",
            Kind::Service => "S",
        }
    }

    /// The lower-case name of the kind.
    pub fn as_str(self) -> (r: &'static str)
        ensures
            r@ == self.name(),
    {
        match self {
            Kind::Input => "input",
            Kind::Output => "output",
            Kind::Program => "program",
            Kind::Service => "service",
        }
    }

    pub open spec fn name(self) -> Seq<char> {
        match self {
            Kind::Input => "input"@,
            Kind::Output => "output"@,
            Kind::Program => "program"@,
            Kind::Service => "service"@,
        }
    }
}

/// Inputs may run once the controller is syncing.
pub fn can_run_inputs(status: Status) -> (r: bool)
    ensures
        r == (status.code() >= Status::Syncing.code()),
{
    status.as_i16() >= Status::Syncing.as_i16()
}

/// Programs may run once the controller is preparing.
pub fn can_run_programs(status: Status) -> (r: bool)
    ensures
        r == (status.code() >= Status::Preparing.code()),
{
    status.as_i16() >= Status::Preparing.as_i16()
}

/// Outputs run in every phase but the initial ones: during normal operation
/// and during shutdown, to flush state.
pub fn can_run_outputs(status: Status) -> (r: bool)
    ensures
        r == (status.code() >= Status::Preparing.code() || status.code()
            <= Status::Stopping.code()),
{
    let code = status.as_i16();
    code >= Status::Preparing.as_i16() || code <= Status::Stopping.as_i16()
}

pub open spec fn spec_need_stop(kind: Kind, status: Status) -> bool {
    match kind {
        Kind::Input | Kind::Program => status.code() <= Status::Stopping.code(),
        Kind::Output => status.code() <= Status::StopSyncing.code(),
        Kind::Service => false,
    }
}

/// Whether a loop of the given kind must stop in the given status.
pub fn need_stop(kind: Kind, status: Status) -> (r: bool)
    ensures
        r == spec_need_stop(kind, status),
{
    match kind {
        Kind::Input | Kind::Program => status.as_i16() <= Status::Stopping.as_i16(),
        Kind::Output => status.as_i16() <= Status::StopSyncing.as_i16(),
        Kind::Service => false,
    }
}

/// Whether an output loop is about to run its final sync.
pub fn output_last_sync(status: Status) -> (r: bool)
    ensures
        r == (status == Status::StopSyncing),
{
    status == Status::StopSyncing
}


/// Errors of registration and lifecycle requests.
#[derive(Debug, Clone, Copy, PartialEq, Eq, Structural)]
pub enum TaskError {
    /// A thread of that name is already registered, or the shutdown hook is
    /// already installed.
    Busy,
    /// The thread name is longer than 14 characters.
    NameTooLong,
    /// The controller runs already; only service threads may still start.
    AlreadyRunning,
}

/// One registered thread. `flag` is the readiness of an input or program
/// thread, and the stopped mark of an output thread.
#[derive(Debug)]
pub struct ThreadRecord {
    pub name: String,
    pub kind: Kind,
    pub flag: bool,
    pub stats: ThreadStats,
}

pub struct ThreadRecordView {
    pub name: Seq<char>,
    pub kind: Kind,
    pub flag: bool,
    pub stats: ThreadStats,
}

impl View for ThreadRecord {
    type V = ThreadRecordView;

    open spec fn view(&self) -> ThreadRecordView {
        ThreadRecordView { name: self.name@, kind: self.kind, flag: self.flag, stats: self.stats }
    }
}

pub open spec fn registered(ts: Seq<ThreadRecordView>, name: Seq<char>) -> bool {
    exists|i: int| 0 <= i < ts.len() && #[trigger] ts[i].name == name
}

pub open spec fn unique_names(ts: Seq<ThreadRecordView>) -> bool {
    forall|i: int, j: int| 0 <= i < ts.len() && 0 <= j < ts.len() && i != j ==> #[trigger] ts[i].name != #[trigger] ts[j].name
}

/// Every registered thread of kind `k` has its flag set (true when there is none).
pub open spec fn all_flagged(ts: Seq<ThreadRecordView>, k: Kind) -> bool {
    forall|i: int| 0 <= i < ts.len() && #[trigger] ts[i].kind == k ==> ts[i].flag
}

/// No thread of kind `k` is registered.
pub open spec fn none_of_kind(ts: Seq<ThreadRecordView>, k: Kind) -> bool {
    forall|i: int| 0 <= i < ts.len() ==> #[trigger] ts[i].kind != k
}

/// The registry after the thread `name` of kind `k` set its flag.
pub open spec fn flag_named(ts: Seq<ThreadRecordView>, name: Seq<char>, k: Kind) -> Seq<ThreadRecordView> {
    ts.map_values(
        |r: ThreadRecordView|
            if r.name == name && r.kind == k {
                ThreadRecordView { flag: true, ..r }
            } else {
                r
            },
    )
}

/// The registry after every thread's statistics were cleared.
pub open spec fn reset_all(ts: Seq<ThreadRecordView>) -> Seq<ThreadRecordView> {
    ts.map_values(|r: ThreadRecordView| ThreadRecordView { stats: ThreadStats { iters: 0, jitter: None }, ..r })
}

/// The registry after a jitter sample for the thread `name`.
pub open spec fn reported_named(ts: Seq<ThreadRecordView>, name: Seq<char>, jitter: u16) -> Seq<ThreadRecordView> {
    ts.map_values(
        |r: ThreadRecordView|
            if r.name == name {
                ThreadRecordView { stats: spec_reported(r.stats, jitter), ..r }
            } else {
                r
            },
    )
}

/// The snapshot of the thread `name`, `None` when it is not registered or
/// has no sample yet.
pub open spec fn info_of(ts: Seq<ThreadRecordView>, name: Seq<char>) -> Option<ThreadInfo> {
    if registered(ts, name) {
        spec_info(ts[choose|i: int| 0 <= i < ts.len() && #[trigger] ts[i].name == name].stats)
    } else {
        None
    }
}

/// The table of registered threads, keyed by name, with the readiness
/// summaries of the inputs, the programs and the outputs.
pub struct ControllerStats {
    threads: Vec<ThreadRecord>,
    inputs_ready: bool,
    programs_ready: bool,
    outputs_stopped: bool,
}

impl ControllerStats {
    pub closed spec fn threads(&self) -> Seq<ThreadRecordView> {
        self.threads@.map_values(|r: ThreadRecord| r@)
    }

    /// All registered inputs have marked themselves ready.
    pub closed spec fn spec_inputs_ready(&self) -> bool {
        self.inputs_ready
    }

    /// All registered programs have marked themselves ready.
    pub closed spec fn spec_programs_ready(&self) -> bool {
        self.programs_ready
    }

    /// All registered outputs have marked themselves stopped.
    pub closed spec fn spec_outputs_stopped(&self) -> bool {
        self.outputs_stopped
    }

    /// Names are unique, and each summary flag holds exactly when every
    /// thread of its kind has set its own flag.
    pub open spec fn wf(&self) -> bool {
        &&& unique_names(self.threads())
        &&& forall|i: int| 0 <= i < self.threads().len() ==> (#[trigger] self.threads()[i]).stats.wf()
        &&& self.spec_inputs_ready() == all_flagged(self.threads(), Kind::Input)
        &&& self.spec_programs_ready() == all_flagged(self.threads(), Kind::Program)
        &&& self.spec_outputs_stopped() == all_flagged(self.threads(), Kind::Output)
    }

    /// An empty table.
    pub fn new() -> (r: ControllerStats)
        ensures
            r.wf(),
            r.threads() == Seq::<ThreadRecordView>::empty(),
    {
        let r = ControllerStats {
            threads: Vec::new(),
            inputs_ready: true,
            programs_ready: true,
            outputs_stopped: true,
        };
        assert(r.threads() =~= Seq::<ThreadRecordView>::empty());
        r
    }

    /// Whether every registered input thread has marked itself ready.
    pub fn inputs_ready(&self) -> (r: bool)
        ensures
            r == self.spec_inputs_ready(),
    {
        self.inputs_ready
    }

    /// Whether every registered program thread has marked itself ready.
    pub fn programs_ready(&self) -> (r: bool)
        ensures
            r == self.spec_programs_ready(),
    {
        self.programs_ready
    }

    /// Whether every registered output thread has marked itself stopped.
    pub fn outputs_stopped(&self) -> (r: bool)
        ensures
            r == self.spec_outputs_stopped(),
    {
        self.outputs_stopped
    }

    /// The number of registered threads.
    pub fn len(&self) -> (r: usize)
        ensures
            r == self.threads().len(),
    {
        self.threads.len()
    }

    /// Whether a thread of kind `k` is registered.
    pub fn has_kind(&self, k: Kind) -> (r: bool)
        ensures
            r == !none_of_kind(self.threads(), k),
    {
        let mut i: usize = 0;
        while i < self.threads.len()
            invariant
                i <= self.threads@.len(),
                forall|j: int| 0 <= j < i ==> #[trigger] self.threads()[j].kind != k,
            decreases self.threads@.len() - i,
        {
            if self.threads[i].kind == k {
                assert(self.threads()[i as int].kind == k);
                return true;
            }
            i = i + 1;
        }
        false
    }

    /// The position of the thread `name` in the table.
    pub fn find(&self, name: &str) -> (r: Option<usize>)
        ensures
            r matches Some(i) ==> i < self.threads().len() && self.threads()[i as int].name == name@,
            r is None <==> !registered(self.threads(), name@),
    {
        let mut i: usize = 0;
        while i < self.threads.len()
            invariant
                i <= self.threads@.len(),
                forall|j: int| 0 <= j < i ==> #[trigger] self.threads()[j].name != name@,
            decreases self.threads@.len() - i,
        {
            if str_eq(self.threads[i].name.as_str(), name) {
                assert(self.threads()[i as int].name == name@);
                return Some(i);
            }
            i = i + 1;
        }
        None
    }

    proof fn lemma_flag_summary(self, ts: Seq<ThreadRecordView>, k: Kind)
        requires
            ts.len() == self.threads().len(),
            forall|i: int| 0 <= i < ts.len() ==> (#[trigger] ts[i]).kind == self.threads()[i].kind,
            forall|i: int| 0 <= i < ts.len() && ts[i].kind != k ==> (#[trigger] ts[i]).flag == self.threads()[i].flag,
        ensures
            forall|k2: Kind| k2 != k ==> (all_flagged(ts, k2) == all_flagged(self.threads(), k2)),
    {
        assert forall|k2: Kind| k2 != k implies (all_flagged(ts, k2) == all_flagged(self.threads(), k2)) by {
            if all_flagged(ts, k2) {
                assert forall|i: int| 0 <= i < self.threads().len() && #[trigger] self.threads()[i].kind == k2 implies self.threads()[i].flag by {
                    assert(ts[i].kind == k2);
                }
            }
            if all_flagged(self.threads(), k2) {
                assert forall|i: int| 0 <= i < ts.len() && #[trigger] ts[i].kind == k2 implies ts[i].flag by {
                    assert(self.threads()[i].kind == k2);
                }
            }
        }
    }

    /// Adds a thread record; fails with `Busy` when the name is taken.
    fn register_thread_stats(&mut self, name: &str, kind: Kind) -> (r: Result<(), TaskError>)
        requires
            old(self).wf(),
        ensures
            final(self).wf(),
            r is Err <==> registered(old(self).threads(), name@),
            r is Err ==> r == Err::<(), TaskError>(TaskError::Busy) && *final(self) == *old(self),
            r is Ok ==> final(self).threads() == old(self).threads().push(
                ThreadRecordView { name: name@, kind, flag: false, stats: ThreadStats { iters: 0, jitter: None } },
            ),
            r is Ok ==> final(self).spec_inputs_ready() == (old(self).spec_inputs_ready() && kind != Kind::Input),
            r is Ok ==> final(self).spec_programs_ready() == (old(self).spec_programs_ready() && kind != Kind::Program),
            r is Ok ==> final(self).spec_outputs_stopped() == (old(self).spec_outputs_stopped() && kind != Kind::Output),
    {
        if self.find(name).is_some() {
            return Err(TaskError::Busy);
        }
        let ghost old_ts = self.threads();
        let rec = ThreadRecord { name: String::from_str(name), kind, flag: false, stats: ThreadStats::new() };
        self.threads.push(rec);
        match kind {
            Kind::Input => self.inputs_ready = false,
            Kind::Program => self.programs_ready = false,
            Kind::Output => self.outputs_stopped = false,
            Kind::Service => {},
        }
        let ghost new_rec = ThreadRecordView { name: name@, kind, flag: false, stats: ThreadStats { iters: 0, jitter: None } };
        assert(self.threads() =~= old_ts.push(new_rec));
        proof {
            let ts = self.threads();
            assert forall|k: Kind| #![auto] all_flagged(ts, k) == (all_flagged(old_ts, k) && kind != k) by {
                if all_flagged(ts, k) {
                    assert forall|i: int| 0 <= i < old_ts.len() && #[trigger] old_ts[i].kind == k implies old_ts[i].flag by {
                        assert(ts[i] == old_ts[i]);
                    }
                    if kind == k {
                        assert(ts[old_ts.len() as int].kind == k);
                    }
                }
                if all_flagged(old_ts, k) && kind != k {
                    assert forall|i: int| 0 <= i < ts.len() && #[trigger] ts[i].kind == k implies ts[i].flag by {
                        if i < old_ts.len() {
                            assert(ts[i] == old_ts[i]);
                        }
                    }
                }
            }
            assert forall|i: int, j: int| 0 <= i < ts.len() && 0 <= j < ts.len() && i != j implies #[trigger] ts[i].name != #[trigger] ts[j].name by {
                if i < old_ts.len() && j < old_ts.len() {
                    assert(ts[i] == old_ts[i]);
                    assert(ts[j] == old_ts[j]);
                } else if i < old_ts.len() {
                    assert(ts[i] == old_ts[i]);
                } else {
                    assert(ts[j] == old_ts[j]);
                }
            }
        }
        Ok(())
    }

    /// Registers an input thread, which is then not ready.
    pub fn register_input_thread(&mut self, name: &str) -> (r: Result<(), TaskError>)
        requires
            old(self).wf(),
        ensures
            final(self).wf(),
            r is Err <==> registered(old(self).threads(), name@),
            r is Err ==> r == Err::<(), TaskError>(TaskError::Busy) && *final(self) == *old(self),
            r is Ok ==> final(self).threads() == old(self).threads().push(
                ThreadRecordView { name: name@, kind: Kind::Input, flag: false, stats: ThreadStats { iters: 0, jitter: None } },
            ),
    {
        self.register_thread_stats(name, Kind::Input)
    }

    /// Registers an output thread, which is then not stopped.
    pub fn register_output_thread(&mut self, name: &str) -> (r: Result<(), TaskError>)
        requires
            old(self).wf(),
        ensures
            final(self).wf(),
            r is Err <==> registered(old(self).threads(), name@),
            r is Err ==> r == Err::<(), TaskError>(TaskError::Busy) && *final(self) == *old(self),
            r is Ok ==> final(self).threads() == old(self).threads().push(
                ThreadRecordView { name: name@, kind: Kind::Output, flag: false, stats: ThreadStats { iters: 0, jitter: None } },
            ),
    {
        self.register_thread_stats(name, Kind::Output)
    }

    /// Registers a program thread, which is then not ready.
    pub fn register_program_thread(&mut self, name: &str) -> (r: Result<(), TaskError>)
        requires
            old(self).wf(),
        ensures
            final(self).wf(),
            r is Err <==> registered(old(self).threads(), name@),
            r is Err ==> r == Err::<(), TaskError>(TaskError::Busy) && *final(self) == *old(self),
            r is Ok ==> final(self).threads() == old(self).threads().push(
                ThreadRecordView { name: name@, kind: Kind::Program, flag: false, stats: ThreadStats { iters: 0, jitter: None } },
            ),
    {
        self.register_thread_stats(name, Kind::Program)
    }

    /// Registers a service thread.
    pub fn register_service_thread(&mut self, name: &str) -> (r: Result<(), TaskError>)
        requires
            old(self).wf(),
        ensures
            final(self).wf(),
            r is Err <==> registered(old(self).threads(), name@),
            r is Err ==> r == Err::<(), TaskError>(TaskError::Busy) && *final(self) == *old(self),
            r is Ok ==> final(self).threads() == old(self).threads().push(
                ThreadRecordView { name: name@, kind: Kind::Service, flag: false, stats: ThreadStats { iters: 0, jitter: None } },
            ),
    {
        self.register_thread_stats(name, Kind::Service)
    }
}


/// A status change that the lifecycle allows: along the start path the
/// status never decreases; once on the shutdown path it stays there and
/// never increases.
pub open spec fn status_step(a: Status, b: Status) -> bool {
    if a.is_shutdown() {
        b.is_shutdown() && b.code() <= a.code()
    } else {
        b.is_shutdown() || b.code() >= a.code()
    }
}

/// Moving forward along the start path to `t`: no effect once at or past
/// `t`, or on the shutdown path.
pub open spec fn advanced(s: Status, t: Status) -> Status {
    if s.is_shutdown() || s.code() >= t.code() {
        s
    } else {
        t
    }
}

/// Moving down the shutdown path to `t`: no effect when already at or below.
pub open spec fn descended(s: Status, t: Status) -> Status {
    if s.is_shutdown() && s.code() <= t.code() {
        s
    } else {
        t
    }
}

/// The status once all inputs are ready: preparing, and active at once when
/// no program is registered.
pub open spec fn after_inputs_ready(s: Status, no_programs: bool) -> Status {
    if no_programs {
        advanced(advanced(s, Status::Preparing), Status::Active)
    } else {
        advanced(s, Status::Preparing)
    }
}

fn advance(status: &mut Status, to: Status)
    requires
        !to.is_shutdown(),
    ensures
        *final(status) == advanced(*old(status), to),
        status_step(*old(status), *final(status)),
{
    if status.as_i16() >= 0 && status.as_i16() < to.as_i16() {
        *status = to;
    }
}

fn descend(status: &mut Status, to: Status)
    requires
        to.is_shutdown(),
    ensures
        *final(status) == descended(*old(status), to),
        status_step(*old(status), *final(status)),
{
    if !(status.as_i16() < 0 && status.as_i16() <= to.as_i16()) {
        *status = to;
    }
}

/// Lifecycle steps compose: a chain of allowed steps is an allowed step.
pub proof fn lemma_status_step_transitive(a: Status, b: Status, c: Status)
    requires
        status_step(a, b),
        status_step(b, c),
    ensures
        status_step(a, c),
{
}

/// Along any run of allowed status changes, once the status entered the
/// shutdown path every later status is on it and no higher.
pub proof fn lemma_shutdown_monotone(run: Seq<Status>, i: int, j: int)
    requires
        forall|k: int| 0 <= k < run.len() - 1 ==> status_step(#[trigger] run[k], run[k + 1]),
        0 <= i <= j < run.len(),
        run[i].is_shutdown(),
    ensures
        run[j].is_shutdown(),
        run[j].code() <= run[i].code(),
    decreases j - i,
{
    if i < j {
        lemma_shutdown_monotone(run, i, j - 1);
        assert(status_step(run[j - 1], run[j]));
    }
}

impl ControllerStats {
    /// Whether every registered thread of kind `k` has set its flag.
    fn all_kind_flagged(&self, k: Kind) -> (r: bool)
        ensures
            r == all_flagged(self.threads(), k),
    {
        let mut i: usize = 0;
        while i < self.threads.len()
            invariant
                i <= self.threads@.len(),
                forall|j: int| 0 <= j < i && #[trigger] self.threads()[j].kind == k ==> self.threads()[j].flag,
            decreases self.threads@.len() - i,
        {
            if self.threads[i].kind == k && !self.threads[i].flag {
                assert(self.threads()[i as int].kind == k);
                return false;
            }
            i = i + 1;
        }
        true
    }

    /// Sets the flag of the thread `name` when it is of kind `k`.
    fn set_flag(&mut self, name: &str, k: Kind)
        requires
            unique_names(old(self).threads()),
        ensures
            final(self).threads() == flag_named(old(self).threads(), name@, k),
            final(self).inputs_ready == old(self).inputs_ready,
            final(self).programs_ready == old(self).programs_ready,
            final(self).outputs_stopped == old(self).outputs_stopped,
    {
        let ghost old_ts = self.threads();
        match self.find(name) {
            Some(i) => {
                if self.threads[i].kind == k {
                    self.threads[i].flag = true;
                }
            },
            None => {},
        }
        assert(self.threads() =~= flag_named(old_ts, name@, k));
    }

    proof fn lemma_flag_keeps_wf(self, old_s: ControllerStats, name: Seq<char>, k: Kind)
        requires
            old_s.wf(),
            self.threads() == flag_named(old_s.threads(), name, k),
        ensures
            unique_names(self.threads()),
            forall|i: int| 0 <= i < self.threads().len() ==> (#[trigger] self.threads()[i]).stats.wf(),
            forall|k2: Kind| k2 != k ==> (all_flagged(self.threads(), k2) == all_flagged(old_s.threads(), k2)),
    {
        let ts = self.threads();
        let o = old_s.threads();
        assert forall|i: int, j: int| 0 <= i < ts.len() && 0 <= j < ts.len() && i != j implies #[trigger] ts[i].name != #[trigger] ts[j].name by {
            assert(o[i].name != o[j].name);
        }
        assert forall|i: int| 0 <= i < ts.len() implies (#[trigger] ts[i]).stats.wf() by {
            assert(o[i].stats.wf());
        }
        old_s.lemma_flag_summary(ts, k);
    }

    /// Records that the input thread `name` ran its first tick. This counts
    /// only while some input is not ready yet and inputs may run. When then
    /// every input is ready the controller moves to preparing, and on to
    /// active at once when no program is registered.
    pub fn mark_input_thread_ready(&mut self, name: &str, status: &mut Status)
        requires
            old(self).wf(),
        ensures
            final(self).wf(),
            status_step(*old(status), *final(status)),
            final(self).threads() == if !old(self).spec_inputs_ready() && old(status).code() >= 2 {
                flag_named(old(self).threads(), name@, Kind::Input)
            } else {
                old(self).threads()
            },
            *final(status) == if !old(self).spec_inputs_ready() && old(status).code() >= 2
                && all_flagged(final(self).threads(), Kind::Input) {
                after_inputs_ready(*old(status), none_of_kind(old(self).threads(), Kind::Program))
            } else {
                *old(status)
            },
    {
        if !self.inputs_ready && can_run_inputs(*status) {
            let ghost old_s = *self;
            self.set_flag(name, Kind::Input);
            proof {
                self.lemma_flag_keeps_wf(old_s, name@, Kind::Input);
                assert(self.threads().len() == old_s.threads().len());
                assert forall|i: int| 0 <= i < self.threads().len() implies (#[trigger] self.threads()[i]).kind == old_s.threads()[i].kind by {}
                if none_of_kind(self.threads(), Kind::Program) {
                    assert forall|i: int| 0 <= i < old_s.threads().len() implies #[trigger] old_s.threads()[i].kind != Kind::Program by {
                        assert(self.threads()[i].kind == old_s.threads()[i].kind);
                    }
                }
            }
            if self.all_kind_flagged(Kind::Input) {
                self.inputs_ready = true;
                advance(status, Status::Preparing);
                if !self.has_kind(Kind::Program) {
                    advance(status, Status::Active);
                }
            }
        }
    }

    /// Records that the program thread `name` ran its first tick. This counts
    /// only while some program is not ready yet and programs may run. When
    /// then every program is ready the controller becomes active.
    pub fn mark_program_thread_ready(&mut self, name: &str, status: &mut Status)
        requires
            old(self).wf(),
        ensures
            final(self).wf(),
            status_step(*old(status), *final(status)),
            final(self).threads() == if !old(self).spec_programs_ready() && old(status).code() >= 3 {
                flag_named(old(self).threads(), name@, Kind::Program)
            } else {
                old(self).threads()
            },
            *final(status) == if !old(self).spec_programs_ready() && old(status).code() >= 3
                && all_flagged(final(self).threads(), Kind::Program) {
                advanced(*old(status), Status::Active)
            } else {
                *old(status)
            },
    {
        if !self.programs_ready && can_run_programs(*status) {
            let ghost old_s = *self;
            self.set_flag(name, Kind::Program);
            proof {
                self.lemma_flag_keeps_wf(old_s, name@, Kind::Program);
            }
            if self.all_kind_flagged(Kind::Program) {
                self.programs_ready = true;
                advance(status, Status::Active);
            }
        }
    }

    /// Records that the output thread `name` completed its final sync. When
    /// then every output is stopped the controller is stopped.
    pub fn mark_output_thread_stopped(&mut self, name: &str, status: &mut Status)
        requires
            old(self).wf(),
        ensures
            final(self).wf(),
            status_step(*old(status), *final(status)),
            final(self).threads() == if !old(self).spec_outputs_stopped() {
                flag_named(old(self).threads(), name@, Kind::Output)
            } else {
                old(self).threads()
            },
            *final(status) == if !old(self).spec_outputs_stopped() && all_flagged(final(self).threads(), Kind::Output) {
                descended(*old(status), Status::Stopped)
            } else {
                *old(status)
            },
    {
        if !self.outputs_stopped {
            let ghost old_s = *self;
            self.set_flag(name, Kind::Output);
            proof {
                self.lemma_flag_keeps_wf(old_s, name@, Kind::Output);
            }
            if self.all_kind_flagged(Kind::Output) {
                self.outputs_stopped = true;
                descend(status, Status::Stopped);
            }
        }
    }
}


impl ControllerStats {
    /// Accounts a jitter sample of the thread `name`; a sample of a thread
    /// that is not registered is dropped.
    pub fn report_jitter(&mut self, name: &str, jitter: u16)
        requires
            old(self).wf(),
        ensures
            final(self).wf(),
            final(self).threads() == reported_named(old(self).threads(), name@, jitter),
            final(self).spec_inputs_ready() == old(self).spec_inputs_ready(),
            final(self).spec_programs_ready() == old(self).spec_programs_ready(),
            final(self).spec_outputs_stopped() == old(self).spec_outputs_stopped(),
    {
        let ghost old_s = *self;
        let ghost o = self.threads();
        match self.find(name) {
            Some(i) => {
                let mut st = self.threads[i].stats;
                st.report_jitter(jitter);
                self.threads[i].stats = st;
            },
            None => {},
        }
        let ghost ts = self.threads();
        assert(ts =~= reported_named(o, name@, jitter));
        proof {
            assert forall|i: int, j: int| 0 <= i < ts.len() && 0 <= j < ts.len() && i != j implies #[trigger] ts[i].name != #[trigger] ts[j].name by {
                assert(o[i].name != o[j].name);
            }
            assert forall|i: int| 0 <= i < ts.len() implies (#[trigger] ts[i]).stats.wf() by {
                assert(o[i].stats.wf());
                if o[i].name == name@ {
                    lemma_reported_wf(o[i].stats, jitter);
                }
            }
            assert forall|k: Kind| #![auto] all_flagged(ts, k) == all_flagged(o, k) by {
                if all_flagged(ts, k) {
                    assert forall|i: int| 0 <= i < o.len() && #[trigger] o[i].kind == k implies o[i].flag by {
                        assert(ts[i].kind == k);
                    }
                }
                if all_flagged(o, k) {
                    assert forall|i: int| 0 <= i < ts.len() && #[trigger] ts[i].kind == k implies ts[i].flag by {
                        assert(o[i].kind == k);
                    }
                }
            }
        }
    }

    /// Clears the iteration count and the jitter record of every thread;
    /// readiness and stopped flags stay as they are.
    pub fn reset(&mut self)
        requires
            old(self).wf(),
        ensures
            final(self).wf(),
            final(self).threads() == reset_all(old(self).threads()),
            final(self).spec_inputs_ready() == old(self).spec_inputs_ready(),
            final(self).spec_programs_ready() == old(self).spec_programs_ready(),
            final(self).spec_outputs_stopped() == old(self).spec_outputs_stopped(),
    {
        let ghost o = self.threads();
        let n = self.threads.len();
        let mut i: usize = 0;
        while i < n
            invariant
                n == self.threads@.len(),
                n == o.len(),
                i <= n,
                self.inputs_ready == old(self).inputs_ready,
                self.programs_ready == old(self).programs_ready,
                self.outputs_stopped == old(self).outputs_stopped,
                forall|j: int| 0 <= j < i ==> #[trigger] self.threads()[j] == reset_all(o)[j],
                forall|j: int| i <= j < n ==> #[trigger] self.threads()[j] == o[j],
            decreases n - i,
        {
            let ghost before = self.threads@;
            let ghost before_v = self.threads();
            assert(before_v[i as int] == o[i as int]);
            self.threads[i].stats = ThreadStats::new();
            proof {
                assert forall|j: int| 0 <= j <= i implies #[trigger] self.threads()[j] == reset_all(o)[j] by {
                    if j < i {
                        assert(self.threads@[j] == before[j]);
                        assert(before_v[j] == before[j]@);
                        assert(before_v[j] == reset_all(o)[j]);
                    }
                }
                assert forall|j: int| i < j < n implies #[trigger] self.threads()[j] == o[j] by {
                    assert(self.threads@[j] == before[j]);
                    assert(before_v[j] == before[j]@);
                    assert(before_v[j] == o[j]);
                }
            }
            i = i + 1;
        }
        let ghost ts = self.threads();
        assert(ts =~= reset_all(o));
        proof {
            assert forall|i: int, j: int| 0 <= i < ts.len() && 0 <= j < ts.len() && i != j implies #[trigger] ts[i].name != #[trigger] ts[j].name by {
                assert(o[i].name != o[j].name);
            }
            assert forall|k: Kind| #![auto] all_flagged(ts, k) == all_flagged(o, k) by {
                if all_flagged(ts, k) {
                    assert forall|i: int| 0 <= i < o.len() && #[trigger] o[i].kind == k implies o[i].flag by {
                        assert(ts[i].kind == k);
                    }
                }
                if all_flagged(o, k) {
                    assert forall|i: int| 0 <= i < ts.len() && #[trigger] ts[i].kind == k implies ts[i].flag by {
                        assert(o[i].kind == k);
                    }
                }
            }
        }
    }

    /// The snapshot of the thread `name`: `None` when no such thread is
    /// registered or it has no sample yet.
    pub fn thread_info(&self, name: &str) -> (r: Option<ThreadInfo>)
        requires
            self.wf(),
        ensures
            r == info_of(self.threads(), name@),
            r matches Some(i) ==> info_ordered(i),
    {
        match self.find(name) {
            Some(i) => {
                let ghost ts = self.threads();
                proof {
                    let c = choose|k: int| 0 <= k < ts.len() && #[trigger] ts[k].name == name@;
                    assert(c == i as int) by {
                        if c != i as int {
                            assert(ts[c].name != ts[i as int].name);
                        }
                    }
                    assert(ts[i as int].stats.wf());
                }
                self.threads[i].stats.info()
            },
            None => None,
        }
    }

    /// The name and the snapshot of every registered thread, in the order of
    /// registration.
    pub fn thread_stats(&self) -> (r: Vec<(String, Option<ThreadInfo>)>)
        requires
            self.wf(),
        ensures
            r@.len() == self.threads().len(),
            forall|i: int| 0 <= i < r@.len() ==> (#[trigger] r@[i]).0@ == self.threads()[i].name
                && r@[i].1 == spec_info(self.threads()[i].stats),
    {
        let mut r: Vec<(String, Option<ThreadInfo>)> = Vec::new();
        let mut i: usize = 0;
        while i < self.threads.len()
            invariant
                self.wf(),
                i <= self.threads@.len(),
                r@.len() == i,
                forall|j: int| 0 <= j < i ==> (#[trigger] r@[j]).0@ == self.threads()[j].name
                    && r@[j].1 == spec_info(self.threads()[j].stats),
            decreases self.threads@.len() - i,
        {
            assert(self.threads()[i as int].stats.wf());
            let info = self.threads[i].stats.info();
            r.push((self.threads[i].name.clone(), info));
            i = i + 1;
        }
        r
    }
}

/// Clearing the statistics twice leaves the table as clearing them once:
/// every count zero and every jitter record empty.
pub proof fn lemma_reset_idempotent(ts: Seq<ThreadRecordView>)
    ensures
        reset_all(reset_all(ts)) == reset_all(ts),
        forall|i: int| 0 <= i < ts.len() ==> (#[trigger] reset_all(ts)[i]).stats == (ThreadStats { iters: 0, jitter: None }),
{
    assert(reset_all(reset_all(ts)) =~= reset_all(ts));
}


/// The status after the start completed: syncing, then preparing when no
/// input is registered, then active when no input and no program is.
pub open spec fn spec_finish_start(s: Status, ts: Seq<ThreadRecordView>) -> Status {
    let s1 = advanced(s, Status::Syncing);
    let s2 = if none_of_kind(ts, Kind::Input) {
        advanced(s1, Status::Preparing)
    } else {
        s1
    };
    if none_of_kind(ts, Kind::Input) && none_of_kind(ts, Kind::Program) {
        advanced(s2, Status::Active)
    } else {
        s2
    }
}

/// The status right after a termination request: an active controller
/// starts an orderly shutdown, any other one stops at once.
pub open spec fn spec_shutdown(s: Status) -> Status {
    if s == Status::Active {
        descended(s, Status::Stopping)
    } else {
        descended(s, Status::Stopped)
    }
}

/// The status once inputs and programs have quit and the shutdown hook
/// returned: the final sync, and stopped at once when every registered
/// output is stopped already (so when there is none).
pub open spec fn spec_stop_syncing(s: Status, ts: Seq<ThreadRecordView>) -> Status {
    let s1 = descended(s, Status::StopSyncing);
    if all_flagged(ts, Kind::Output) {
        descended(s1, Status::Stopped)
    } else {
        s1
    }
}

/// The controller's runtime state: the lifecycle status, the thread
/// registry with its statistics, and the write-once shutdown hook cell.
pub struct Runtime {
    status: Status,
    stats: ControllerStats,
    shutdown_hook: bool,
}

impl Runtime {
    pub closed spec fn spec_status(&self) -> Status {
        self.status
    }

    pub closed spec fn spec_stats(&self) -> ControllerStats {
        self.stats
    }

    pub closed spec fn spec_hook(&self) -> bool {
        self.shutdown_hook
    }

    pub open spec fn wf(&self) -> bool {
        self.spec_stats().wf()
    }

    /// A runtime that is inactive, with no thread and no shutdown hook.
    pub fn new() -> (r: Runtime)
        ensures
            r.wf(),
            r.spec_status() == Status::Inactive,
            r.spec_stats().threads() == Seq::<ThreadRecordView>::empty(),
            !r.spec_hook(),
    {
        Runtime { status: Status::Inactive, stats: ControllerStats::new(), shutdown_hook: false }
    }

    /// The thread registry.
    pub fn controller_stats(&self) -> (r: &ControllerStats)
        ensures
            *r == self.spec_stats(),
    {
        &self.stats
    }
}

/// The current controller status.
pub fn status(rt: &Runtime) -> (r: Status)
    ensures
        r == rt.spec_status(),
{
    rt.status
}

/// Whether the controller is active.
pub fn is_active(rt: &Runtime) -> (r: bool)
    ensures
        r == (rt.spec_status() == Status::Active),
{
    rt.status == Status::Active
}

/// Installs the shutdown hook; the cell is written once, a second request
/// fails with `Busy`.
pub fn on_shutdown(rt: &mut Runtime) -> (r: Result<(), TaskError>)
    ensures
        r is Ok <==> !old(rt).spec_hook(),
        r is Err ==> r == Err::<(), TaskError>(TaskError::Busy),
        final(rt).spec_hook(),
        final(rt).spec_status() == old(rt).spec_status(),
        final(rt).spec_stats() == old(rt).spec_stats(),
{
    if rt.shutdown_hook {
        Err(TaskError::Busy)
    } else {
        rt.shutdown_hook = true;
        Ok(())
    }
}

/// Whether a shutdown hook is installed.
pub fn has_shutdown_hook(rt: &Runtime) -> (r: bool)
    ensures
        r == rt.spec_hook(),
{
    rt.shutdown_hook
}

/// Entry to the run: the controller is starting.
pub fn set_starting(rt: &mut Runtime)
    ensures
        final(rt).spec_status() == advanced(old(rt).spec_status(), Status::Starting),
        status_step(old(rt).spec_status(), final(rt).spec_status()),
        final(rt).spec_stats() == old(rt).spec_stats(),
        final(rt).spec_hook() == old(rt).spec_hook(),
{
    advance(&mut rt.status, Status::Starting);
}

/// The outside I/O is launched: inputs may run.
pub fn set_syncing(rt: &mut Runtime)
    ensures
        final(rt).spec_status() == advanced(old(rt).spec_status(), Status::Syncing),
        status_step(old(rt).spec_status(), final(rt).spec_status()),
        final(rt).spec_stats() == old(rt).spec_stats(),
        final(rt).spec_hook() == old(rt).spec_hook(),
{
    advance(&mut rt.status, Status::Syncing);
}

/// With no input registered there is nothing to wait for: programs may run.
pub fn set_preparing_if_no_inputs(rt: &mut Runtime)
    ensures
        final(rt).spec_status() == if none_of_kind(old(rt).spec_stats().threads(), Kind::Input) {
            advanced(old(rt).spec_status(), Status::Preparing)
        } else {
            old(rt).spec_status()
        },
        status_step(old(rt).spec_status(), final(rt).spec_status()),
        final(rt).spec_stats() == old(rt).spec_stats(),
        final(rt).spec_hook() == old(rt).spec_hook(),
{
    if !rt.stats.has_kind(Kind::Input) {
        advance(&mut rt.status, Status::Preparing);
    }
}

/// With no input and no program registered the controller is active.
pub fn set_active_if_no_inputs_and_programs(rt: &mut Runtime)
    ensures
        final(rt).spec_status() == if none_of_kind(old(rt).spec_stats().threads(), Kind::Input)
            && none_of_kind(old(rt).spec_stats().threads(), Kind::Program) {
            advanced(old(rt).spec_status(), Status::Active)
        } else {
            old(rt).spec_status()
        },
        status_step(old(rt).spec_status(), final(rt).spec_status()),
        final(rt).spec_stats() == old(rt).spec_stats(),
        final(rt).spec_hook() == old(rt).spec_hook(),
{
    if !rt.stats.has_kind(Kind::Input) && !rt.stats.has_kind(Kind::Program) {
        advance(&mut rt.status, Status::Active);
    }
}

/// The start completes once the outside I/O is launched.
pub fn finish_start(rt: &mut Runtime)
    ensures
        final(rt).spec_status() == spec_finish_start(old(rt).spec_status(), old(rt).spec_stats().threads()),
        status_step(old(rt).spec_status(), final(rt).spec_status()),
        final(rt).spec_stats() == old(rt).spec_stats(),
        final(rt).spec_hook() == old(rt).spec_hook(),
{
    set_syncing(rt);
    set_preparing_if_no_inputs(rt);
    set_active_if_no_inputs_and_programs(rt);
}

/// The controller is stopped.
pub fn set_stopped(rt: &mut Runtime)
    ensures
        final(rt).spec_status() == descended(old(rt).spec_status(), Status::Stopped),
        status_step(old(rt).spec_status(), final(rt).spec_status()),
        final(rt).spec_stats() == old(rt).spec_stats(),
        final(rt).spec_hook() == old(rt).spec_hook(),
{
    descend(&mut rt.status, Status::Stopped);
}

/// A termination request. An active controller starts an orderly shutdown
/// and the result is `true`: inputs and programs must quit, and the caller
/// joins them and runs the shutdown hook. Any other controller is stopped
/// at once, and the result is `false`.
pub fn shutdown(rt: &mut Runtime) -> (r: bool)
    ensures
        r == (old(rt).spec_status() == Status::Active),
        final(rt).spec_status() == spec_shutdown(old(rt).spec_status()),
        status_step(old(rt).spec_status(), final(rt).spec_status()),
        final(rt).spec_stats() == old(rt).spec_stats(),
        final(rt).spec_hook() == old(rt).spec_hook(),
{
    if rt.status == Status::Active {
        descend(&mut rt.status, Status::Stopping);
        true
    } else {
        descend(&mut rt.status, Status::Stopped);
        false
    }
}

/// Stops the controller when every registered output has completed its
/// final sync, at once when no output is registered.
pub fn stop_if_no_output_or_sfn(rt: &mut Runtime)
    ensures
        final(rt).spec_status() == if old(rt).spec_stats().spec_outputs_stopped() {
            descended(old(rt).spec_status(), Status::Stopped)
        } else {
            old(rt).spec_status()
        },
        status_step(old(rt).spec_status(), final(rt).spec_status()),
        final(rt).spec_stats() == old(rt).spec_stats(),
        final(rt).spec_hook() == old(rt).spec_hook(),
{
    if rt.stats.outputs_stopped() {
        descend(&mut rt.status, Status::Stopped);
    }
}

/// Inputs and programs have quit and the shutdown hook returned: the
/// outputs run their final sync, and the controller stops at once when no
/// output is left to do so.
pub fn stop_syncing(rt: &mut Runtime)
    requires
        old(rt).wf(),
    ensures
        final(rt).spec_status() == spec_stop_syncing(old(rt).spec_status(), old(rt).spec_stats().threads()),
        status_step(old(rt).spec_status(), final(rt).spec_status()),
        final(rt).spec_stats() == old(rt).spec_stats(),
        final(rt).spec_hook() == old(rt).spec_hook(),
{
    descend(&mut rt.status, Status::StopSyncing);
    stop_if_no_output_or_sfn(rt);
}

/// Records that the thread `name` ran its first tick; only inputs and
/// programs track readiness.
pub fn mark_thread_ready(rt: &mut Runtime, kind: Kind, name: &str)
    requires
        old(rt).wf(),
    ensures
        final(rt).wf(),
        status_step(old(rt).spec_status(), final(rt).spec_status()),
        kind == Kind::Output || kind == Kind::Service ==> *final(rt) == *old(rt),
        kind == Kind::Input ==> final(rt).spec_stats().threads() == if !old(rt).spec_stats().spec_inputs_ready()
            && old(rt).spec_status().code() >= 2 {
            flag_named(old(rt).spec_stats().threads(), name@, Kind::Input)
        } else {
            old(rt).spec_stats().threads()
        },
        kind == Kind::Input ==> final(rt).spec_status() == if !old(rt).spec_stats().spec_inputs_ready()
            && old(rt).spec_status().code() >= 2 && all_flagged(final(rt).spec_stats().threads(), Kind::Input) {
            after_inputs_ready(old(rt).spec_status(), none_of_kind(old(rt).spec_stats().threads(), Kind::Program))
        } else {
            old(rt).spec_status()
        },
        kind == Kind::Program ==> final(rt).spec_stats().threads() == if !old(rt).spec_stats().spec_programs_ready()
            && old(rt).spec_status().code() >= 3 {
            flag_named(old(rt).spec_stats().threads(), name@, Kind::Program)
        } else {
            old(rt).spec_stats().threads()
        },
        kind == Kind::Program ==> final(rt).spec_status() == if !old(rt).spec_stats().spec_programs_ready()
            && old(rt).spec_status().code() >= 3 && all_flagged(final(rt).spec_stats().threads(), Kind::Program) {
            advanced(old(rt).spec_status(), Status::Active)
        } else {
            old(rt).spec_status()
        },
        final(rt).spec_hook() == old(rt).spec_hook(),
{
    match kind {
        Kind::Input => mark_input_thread_ready(rt, name),
        Kind::Program => mark_program_thread_ready(rt, name),
        _ => {},
    }
}

/// Records that the input thread `name` ran its first tick.
pub fn mark_input_thread_ready(rt: &mut Runtime, name: &str)
    requires
        old(rt).wf(),
    ensures
        final(rt).wf(),
        status_step(old(rt).spec_status(), final(rt).spec_status()),
        final(rt).spec_stats().threads() == if !old(rt).spec_stats().spec_inputs_ready()
            && old(rt).spec_status().code() >= 2 {
            flag_named(old(rt).spec_stats().threads(), name@, Kind::Input)
        } else {
            old(rt).spec_stats().threads()
        },
        final(rt).spec_status() == if !old(rt).spec_stats().spec_inputs_ready() && old(rt).spec_status().code() >= 2
            && all_flagged(final(rt).spec_stats().threads(), Kind::Input) {
            after_inputs_ready(old(rt).spec_status(), none_of_kind(old(rt).spec_stats().threads(), Kind::Program))
        } else {
            old(rt).spec_status()
        },
        final(rt).spec_hook() == old(rt).spec_hook(),
{
    rt.stats.mark_input_thread_ready(name, &mut rt.status);
}

/// Records that the program thread `name` ran its first tick.
pub fn mark_program_thread_ready(rt: &mut Runtime, name: &str)
    requires
        old(rt).wf(),
    ensures
        final(rt).wf(),
        status_step(old(rt).spec_status(), final(rt).spec_status()),
        final(rt).spec_stats().threads() == if !old(rt).spec_stats().spec_programs_ready()
            && old(rt).spec_status().code() >= 3 {
            flag_named(old(rt).spec_stats().threads(), name@, Kind::Program)
        } else {
            old(rt).spec_stats().threads()
        },
        final(rt).spec_status() == if !old(rt).spec_stats().spec_programs_ready() && old(rt).spec_status().code() >= 3
            && all_flagged(final(rt).spec_stats().threads(), Kind::Program) {
            advanced(old(rt).spec_status(), Status::Active)
        } else {
            old(rt).spec_status()
        },
        final(rt).spec_hook() == old(rt).spec_hook(),
{
    rt.stats.mark_program_thread_ready(name, &mut rt.status);
}

/// Records that the output thread `name` completed its final sync.
pub fn mark_output_thread_stopped(rt: &mut Runtime, name: &str)
    requires
        old(rt).wf(),
    ensures
        final(rt).wf(),
        status_step(old(rt).spec_status(), final(rt).spec_status()),
        final(rt).spec_stats().threads() == if !old(rt).spec_stats().spec_outputs_stopped() {
            flag_named(old(rt).spec_stats().threads(), name@, Kind::Output)
        } else {
            old(rt).spec_stats().threads()
        },
        final(rt).spec_status() == if !old(rt).spec_stats().spec_outputs_stopped()
            && all_flagged(final(rt).spec_stats().threads(), Kind::Output) {
            descended(old(rt).spec_status(), Status::Stopped)
        } else {
            old(rt).spec_status()
        },
        final(rt).spec_hook() == old(rt).spec_hook(),
{
    rt.stats.mark_output_thread_stopped(name, &mut rt.status);
}

/// Accounts a jitter sample of the thread `name`.
pub fn report_jitter(rt: &mut Runtime, name: &str, jitter: u16)
    requires
        old(rt).wf(),
    ensures
        final(rt).wf(),
        final(rt).spec_stats().threads() == reported_named(old(rt).spec_stats().threads(), name@, jitter),
        final(rt).spec_status() == old(rt).spec_status(),
        final(rt).spec_hook() == old(rt).spec_hook(),
{
    rt.stats.report_jitter(name, jitter);
}

/// Clears the statistics of every thread.
pub fn reset_thread_stats(rt: &mut Runtime)
    requires
        old(rt).wf(),
    ensures
        final(rt).wf(),
        final(rt).spec_stats().threads() == reset_all(old(rt).spec_stats().threads()),
        final(rt).spec_status() == old(rt).spec_status(),
        final(rt).spec_hook() == old(rt).spec_hook(),
{
    rt.stats.reset();
}

/// A controller with no input, program or output thread becomes active as
/// soon as its start completes, and a termination request then takes it to
/// stopped through an orderly shutdown with nothing to flush.
pub proof fn lemma_empty_runtime_cycle(ts: Seq<ThreadRecordView>)
    requires
        none_of_kind(ts, Kind::Input),
        none_of_kind(ts, Kind::Program),
        none_of_kind(ts, Kind::Output),
    ensures
        spec_finish_start(advanced(Status::Inactive, Status::Starting), ts) == Status::Active,
        spec_shutdown(Status::Active) == Status::Stopping,
        spec_stop_syncing(spec_shutdown(Status::Active), ts) == Status::Stopped,
{
}


/// CPU pinning and real-time priority of a thread.
#[derive(Debug, Clone, Copy, PartialEq, Eq, Structural)]
pub struct Affinity {
    pub cpu_id: usize,
    pub sched_priority: i32,
}

/// Why an affinity descriptor `cpu_id,priority` was refused.
#[derive(Debug, Clone, Copy, PartialEq, Eq, Structural)]
pub enum AffinityError {
    /// The CPU id is no unsigned number.
    InvalidCpuId,
    /// There is no priority after the CPU id.
    NoPriority,
    /// The priority is no number.
    InvalidPriority,
    /// More than two fields.
    ExtraParams,
    /// The CPU id is not below the CPU count.
    CpuNotFound,
    /// The priority lies outside 1..=99.
    InvalidSchedPriority,
}

/// The outcome of reading the descriptor `s` on a host with `cpus` CPUs.
pub open spec fn spec_affinity(s: Seq<char>, cpus: nat) -> Result<Affinity, AffinityError> {
    let parts = spec_split(s, ',');
    let cpu = spec_parse_u64(parts[0]);
    if cpu is None || cpu.unwrap() > usize::MAX {
        Err(AffinityError::InvalidCpuId)
    } else if parts.len() < 2 {
        Err(AffinityError::NoPriority)
    } else if spec_parse_i32(parts[1]) is None {
        Err(AffinityError::InvalidPriority)
    } else if parts.len() > 2 {
        Err(AffinityError::ExtraParams)
    } else if cpu.unwrap() >= cpus {
        Err(AffinityError::CpuNotFound)
    } else if !(1 <= spec_parse_i32(parts[1]).unwrap() <= 99) {
        Err(AffinityError::InvalidSchedPriority)
    } else {
        Ok(Affinity { cpu_id: cpu.unwrap() as usize, sched_priority: spec_parse_i32(parts[1]).unwrap() })
    }
}

impl Affinity {
    /// Reads an affinity descriptor `cpu_id,priority` for a host with
    /// `cpus` CPUs.
    pub fn from_str(s: &str, cpus: usize) -> (r: Result<Affinity, AffinityError>)
        ensures
            r == spec_affinity(s@, cpus as nat),
    {
        let parts = split_at_char(s, ',');
        let ghost pv = parts@.map_values(|p: &str| p@);
        proof {
            crate::text::lemma_split_nonempty(s@, ',');
        }
        assert(parts@.len() == pv.len());
        assert(pv[0] == parts@[0]@);
        let cpu = match parse_u64(parts[0]) {
            Some(v) => {
                if v > usize::MAX as u64 {
                    return Err(AffinityError::InvalidCpuId);
                }
                v as usize
            },
            None => {
                return Err(AffinityError::InvalidCpuId);
            },
        };
        if parts.len() < 2 {
            return Err(AffinityError::NoPriority);
        }
        assert(pv[1] == parts@[1]@);
        let prio = match parse_i32(parts[1]) {
            Some(v) => v,
            None => {
                return Err(AffinityError::InvalidPriority);
            },
        };
        if parts.len() > 2 {
            return Err(AffinityError::ExtraParams);
        }
        if cpu >= cpus {
            return Err(AffinityError::CpuNotFound);
        }
        if !(1 <= prio && prio <= 99) {
            return Err(AffinityError::InvalidSchedPriority);
        }
        Ok(Affinity { cpu_id: cpu, sched_priority: prio })
    }
}

/// The kinds whose threads are joined when the controller shuts down.
pub fn joined_on_shutdown(kind: Kind) -> (r: bool)
    ensures
        r == (kind == Kind::Input || kind == Kind::Program),
{
    kind == Kind::Input || kind == Kind::Program
}

/// The outcome of a spawn request: the prefixed thread name, or why the
/// thread may not start.
pub open spec fn spec_spawn(status: Status, ts: Seq<ThreadRecordView>, name: Seq<char>, kind: Kind) -> Result<Seq<char>, TaskError> {
    if status != Status::Inactive && status != Status::Starting && kind != Kind::Service {
        Err(TaskError::AlreadyRunning)
    } else if name.len() > 14 {
        Err(TaskError::NameTooLong)
    } else if registered(ts, seq![kind.prefix()] + name) {
        Err(TaskError::Busy)
    } else {
        Ok(seq![kind.prefix()] + name)
    }
}

/// Registers a thread about to be spawned. Once the controller runs only
/// service threads may start; the name has at most 14 characters and is
/// prefixed with the kind's marker; the prefixed name must be free. On
/// success the result is the prefixed name, registered with the kind.
pub fn spawn(rt: &mut Runtime, name: &str, kind: Kind) -> (r: Result<String, TaskError>)
    requires
        old(rt).wf(),
    ensures
        final(rt).wf(),
        r matches Ok(t) ==> spec_spawn(old(rt).spec_status(), old(rt).spec_stats().threads(), name@, kind) == Ok::<Seq<char>, TaskError>(t@),
        r matches Err(e) ==> spec_spawn(old(rt).spec_status(), old(rt).spec_stats().threads(), name@, kind) == Err::<Seq<char>, TaskError>(e),
        r is Ok ==> final(rt).spec_stats().threads() == old(rt).spec_stats().threads().push(
            ThreadRecordView {
                name: seq![kind.prefix()] + name@,
                kind,
                flag: false,
                stats: ThreadStats { iters: 0, jitter: None },
            },
        ),
        r is Err ==> *final(rt) == *old(rt),
        final(rt).spec_status() == old(rt).spec_status(),
        final(rt).spec_hook() == old(rt).spec_hook(),
{
    if rt.status != Status::Inactive && rt.status != Status::Starting && kind != Kind::Service {
        return Err(TaskError::AlreadyRunning);
    }
    if name.unicode_len() > 14 {
        return Err(TaskError::NameTooLong);
    }
    let full = String::from_str(kind.thread_prefix()).concat(name);
    let res = match kind {
        Kind::Input => rt.stats.register_input_thread(full.as_str()),
        Kind::Program => rt.stats.register_program_thread(full.as_str()),
        Kind::Output => rt.stats.register_output_thread(full.as_str()),
        Kind::Service => rt.stats.register_service_thread(full.as_str()),
    };
    match res {
        Ok(()) => Ok(full),
        Err(e) => Err(e),
    }
}

/// `s` with every dot written as a double underscore.
pub open spec fn encode_dots(s: Seq<char>) -> Seq<char>
    decreases s.len(),
{
    if s.len() == 0 {
        Seq::<char>::empty()
    } else {
        encode_dots(s.drop_last()) + if s.last() == '.' {
            seq!['_', '_']
        } else {
            seq![s.last()]
        }
    }
}

/// The environment variable that holds the affinity descriptor of a thread.
pub fn affinity_var(thread_name: &str) -> (r: String)
    ensures
        r@ == "PLC_THREAD_AFFINITY_"@ + encode_dots(thread_name@),
{
    let mut r = String::from_str("PLC_THREAD_AFFINITY_");
    let ghost head = r@;
    let n = thread_name.unicode_len();
    let mut i: usize = 0;
    while i < n
        invariant
            n == thread_name@.len(),
            i <= n,
            r@ == head + encode_dots(thread_name@.subrange(0, i as int)),
        decreases n - i,
    {
        let ghost cur = thread_name@.subrange(0, i as int);
        let ghost next = thread_name@.subrange(0, i + 1);
        assert(next.drop_last() == cur);
        let c = thread_name.get_char(i);
        if c == '.' {
            proof {
                reveal_strlit("__");
            }
            r.append("__");
        } else {
            let piece = thread_name.substring_char(i, i + 1);
            assert(piece@ =~= seq![c]);
            r.append(piece);
        }
        assert(r@ =~= head + encode_dots(next));
        i = i + 1;
    }
    assert(thread_name@.subrange(0, n as int) == thread_name@);
    r
}


/// Closes an iteration of the output loop of the thread `name`. `last_sync`
/// is whether the status was the final sync when the iteration began. After
/// that final iteration the loop ends (the result is `true`) and the thread
/// is marked stopped; after any other one the loop goes on and nothing
/// changes.
pub fn finish_output_iteration(rt: &mut Runtime, name: &str, last_sync: bool) -> (r: bool)
    requires
        old(rt).wf(),
    ensures
        final(rt).wf(),
        r == last_sync,
        !last_sync ==> *final(rt) == *old(rt),
        last_sync ==> final(rt).spec_stats().threads() == if !old(rt).spec_stats().spec_outputs_stopped() {
            flag_named(old(rt).spec_stats().threads(), name@, Kind::Output)
        } else {
            old(rt).spec_stats().threads()
        },
        last_sync ==> final(rt).spec_status() == if !old(rt).spec_stats().spec_outputs_stopped()
            && all_flagged(final(rt).spec_stats().threads(), Kind::Output) {
            descended(old(rt).spec_status(), Status::Stopped)
        } else {
            old(rt).spec_status()
        },
        status_step(old(rt).spec_status(), final(rt).spec_status()),
{
    if last_sync {
        mark_output_thread_stopped(rt, name);
    }
    last_sync
}


impl ControllerStats {
    /// The snapshot of the calling thread, given its name; a thread without
    /// a name has none.
    pub fn current_thread_info(&self, thread_name: Option<&str>) -> (r: Option<ThreadInfo>)
        requires
            self.wf(),
        ensures
            r == match thread_name {
                Some(n) => info_of(self.threads(), n@),
                None => None,
            },
    {
        match thread_name {
            Some(n) => self.thread_info(n),
            None => None,
        }
    }
}


/// In a well-formed registry the inputs are ready exactly when every
/// registered input thread has marked itself ready, which holds at once when
/// none is registered; likewise for programs, and for outputs being stopped.
pub proof fn lemma_ready_summaries(cs: ControllerStats)
    requires
        cs.wf(),
    ensures
        cs.spec_inputs_ready() <==> (forall|i: int|
            0 <= i < cs.threads().len() && #[trigger] cs.threads()[i].kind == Kind::Input ==> cs.threads()[i].flag),
        cs.spec_programs_ready() <==> (forall|i: int|
            0 <= i < cs.threads().len() && #[trigger] cs.threads()[i].kind == Kind::Program ==> cs.threads()[i].flag),
        cs.spec_outputs_stopped() <==> (forall|i: int|
            0 <= i < cs.threads().len() && #[trigger] cs.threads()[i].kind == Kind::Output ==> cs.threads()[i].flag),
        none_of_kind(cs.threads(), Kind::Input) ==> cs.spec_inputs_ready(),
{
}

} // verus!
