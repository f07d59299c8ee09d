use vstd::prelude::*;

use crate::tasks::TaskError;
use crate::text::{parse_u64, spec_parse_u64, spec_split, split_at_char, str_eq};
use crate::PlcIdentity;

verus! {

/// The methods that the controller serves on the event bus.
#[derive(Debug, Clone, Copy, PartialEq, Eq, Structural)]
pub enum BusMethod {
    Test,
    Info,
    ThreadStatsGet,
    ThreadStatsReset,
    Action,
}

/// Why a bus call was refused.
#[derive(Debug, Clone, Copy, PartialEq, Eq, Structural)]
pub enum BusError {
    /// No such method.
    Method,
    /// A payload where the method takes none, or none where it needs one.
    Params,
}

/// The outcome of a call of `method`: the status methods take no payload,
/// `action` needs one.
pub open spec fn spec_bus_method(method: Seq<char>, payload_empty: bool) -> Result<BusMethod, BusError> {
    let m = if method == "test"@ {
        Some(BusMethod::Test)
    } else if method == "info"@ {
        Some(BusMethod::Info)
    } else if method == "thread_stats.get"@ {
        Some(BusMethod::ThreadStatsGet)
    } else if method == "thread_stats.reset"@ {
        Some(BusMethod::ThreadStatsReset)
    } else if method == "action"@ {
        Some(BusMethod::Action)
    } else {
        None
    };
    match m {
        None => Err(BusError::Method),
        Some(BusMethod::Action) => if payload_empty {
            Err(BusError::Params)
        } else {
            Ok(BusMethod::Action)
        },
        Some(x) => if payload_empty {
            Ok(x)
        } else {
            Err(BusError::Params)
        },
    }
}

/// Resolves a bus call.
pub fn resolve_bus_method(method: &str, payload_empty: bool) -> (r: Result<BusMethod, BusError>)
    ensures
        r == spec_bus_method(method@, payload_empty),
{
    let m = if str_eq(method, "test") {
        BusMethod::Test
    } else if str_eq(method, "info") {
        BusMethod::Info
    } else if str_eq(method, "thread_stats.get") {
        BusMethod::ThreadStatsGet
    } else if str_eq(method, "thread_stats.reset") {
        BusMethod::ThreadStatsReset
    } else if str_eq(method, "action") {
        BusMethod::Action
    } else {
        return Err(BusError::Method);
    };
    match m {
        BusMethod::Action => if payload_empty {
            Err(BusError::Params)
        } else {
            Ok(BusMethod::Action)
        },
        x => if payload_empty {
            Ok(x)
        } else {
            Err(BusError::Params)
        },
    }
}

/// The item ids that have an action handler, each at most once. The
/// position of an id is where the caller keeps its handler.
pub struct ActionHandlers {
    oids: Vec<String>,
}

impl View for ActionHandlers {
    type V = Seq<Seq<char>>;

    closed spec fn view(&self) -> Seq<Seq<char>> {
        self.oids@.map_values(|s: String| s@)
    }
}

impl ActionHandlers {
    /// No id appears twice.
    pub open spec fn wf(&self) -> bool {
        forall|i: int, j: int| 0 <= i < self@.len() && 0 <= j < self@.len() && i != j ==> #[trigger] self@[i] != #[trigger] self@[j]
    }

    /// An empty table.
    pub fn new() -> (r: ActionHandlers)
        ensures
            r.wf(),
            r@ == Seq::<Seq<char>>::empty(),
    {
        let r = ActionHandlers { oids: Vec::new() };
        assert(r@ =~= Seq::<Seq<char>>::empty());
        r
    }

    /// The position of the handler of `oid`.
    pub fn find(&self, oid: &str) -> (r: Option<usize>)
        ensures
            r matches Some(i) ==> i < self@.len() && self@[i as int] == oid@,
            r is None <==> !self@.contains(oid@),
    {
        let mut i: usize = 0;
        while i < self.oids.len()
            invariant
                i <= self.oids@.len(),
                forall|j: int| 0 <= j < i ==> #[trigger] self@[j] != oid@,
            decreases self.oids@.len() - i,
        {
            if str_eq(self.oids[i].as_str(), oid) {
                assert(self@[i as int] == oid@);
                return Some(i);
            }
            i = i + 1;
        }
        None
    }
}

/// Enters a handler for `oid`; each id may enter once, a second entry
/// fails with `Busy`. On success the result is the handler's position.
pub fn register_action(t: &mut ActionHandlers, oid: &str) -> (r: Result<usize, TaskError>)
    requires
        old(t).wf(),
    ensures
        final(t).wf(),
        r is Err <==> old(t)@.contains(oid@),
        r is Err ==> r == Err::<usize, TaskError>(TaskError::Busy) && *final(t) == *old(t),
        r matches Ok(i) ==> final(t)@ == old(t)@.push(oid@) && i == old(t)@.len(),
{
    if t.find(oid).is_some() {
        return Err(TaskError::Busy);
    }
    let ghost o = t@;
    let i = t.oids.len();
    t.oids.push(String::from_str(oid));
    assert(t@ =~= o.push(oid@));
    assert forall|a: int, b: int| 0 <= a < t@.len() && 0 <= b < t@.len() && a != b implies #[trigger] t@[a] != #[trigger] t@[b] by {
        if a < o.len() && b < o.len() {
        } else if a < o.len() {
            assert(o[a] != oid@);
        } else {
            assert(o[b] != oid@);
        }
    }
    Ok(i)
}

/// An event that an action publishes.
#[derive(Debug, Clone, Copy, PartialEq, Eq, Structural)]
pub enum ActionEvent {
    Running,
    Completed,
    Failed,
}

/// The events of an action. Without a handler for its item, or without a
/// connected publisher, it fails at once. Otherwise it is announced as
/// running, the handler runs, and the action completes or fails with it.
/// `handler_ok` is the handler's outcome, `None` when it did not run.
pub open spec fn spec_action_events(handler_found: bool, publisher: bool, handler_ok: Option<bool>) -> Seq<ActionEvent> {
    if !handler_found || !publisher {
        seq![ActionEvent::Failed]
    } else if handler_ok == Some(true) {
        seq![ActionEvent::Running, ActionEvent::Completed]
    } else {
        seq![ActionEvent::Running, ActionEvent::Failed]
    }
}

/// Whether an action's handler is to run.
pub fn action_runs_handler(handler_found: bool, publisher: bool) -> (r: bool)
    ensures
        r == (handler_found && publisher),
{
    handler_found && publisher
}

/// The events that an action publishes, in order.
pub fn action_events(handler_found: bool, publisher: bool, handler_ok: Option<bool>) -> (r: Vec<ActionEvent>)
    ensures
        r@ == spec_action_events(handler_found, publisher, handler_ok),
{
    let mut v: Vec<ActionEvent> = Vec::new();
    if !handler_found || !publisher {
        v.push(ActionEvent::Failed);
    } else {
        v.push(ActionEvent::Running);
        if handler_ok == Some(true) {
            v.push(ActionEvent::Completed);
        } else {
            v.push(ActionEvent::Failed);
        }
    }
    assert(v@ =~= spec_action_events(handler_found, publisher, handler_ok));
    v
}

/// Why an event-bus descriptor was refused.
#[derive(Debug, Clone, Copy, PartialEq, Eq, Structural)]
pub enum ParamsError {
    /// An option without `=value`.
    NoValue,
    /// A number option whose value is no unsigned number.
    InvalidNumber,
    /// An unknown option.
    Unsupported,
}

/// The event-bus connection options. The timeout, in seconds, is kept as
/// written; the buffer TTL is in microseconds.
pub struct Params {
    pub path: String,
    pub timeout: Option<String>,
    pub buf_size: Option<usize>,
    pub queue_size: Option<usize>,
    pub buf_ttl: Option<u64>,
}

pub struct BusOptions {
    pub timeout: Option<Seq<char>>,
    pub buf_size: Option<usize>,
    pub queue_size: Option<usize>,
    pub buf_ttl: Option<u64>,
}

pub open spec fn no_options() -> BusOptions {
    BusOptions { timeout: None, buf_size: None, queue_size: None, buf_ttl: None }
}

pub open spec fn spec_usize(v: Seq<char>) -> Option<usize> {
    match spec_parse_u64(v) {
        Some(n) => if n <= usize::MAX {
            Some(n as usize)
        } else {
            None
        },
        None => None,
    }
}

/// One option `key=value` applied to `o`; a later option overrides an
/// earlier one with the same key.
pub open spec fn spec_apply_option(o: BusOptions, p: Seq<char>) -> Result<BusOptions, ParamsError> {
    let kv = spec_split(p, '=');
    if kv.len() < 2 {
        Err(ParamsError::NoValue)
    } else if kv[0] == "timeout"@ {
        Ok(BusOptions { timeout: Some(kv[1]), ..o })
    } else if kv[0] == "buf_size"@ {
        match spec_usize(kv[1]) {
            Some(n) => Ok(BusOptions { buf_size: Some(n), ..o }),
            None => Err(ParamsError::InvalidNumber),
        }
    } else if kv[0] == "queue_size"@ {
        match spec_usize(kv[1]) {
            Some(n) => Ok(BusOptions { queue_size: Some(n), ..o }),
            None => Err(ParamsError::InvalidNumber),
        }
    } else if kv[0] == "buf_ttl"@ {
        match spec_parse_u64(kv[1]) {
            Some(n) => Ok(BusOptions { buf_ttl: Some(n), ..o }),
            None => Err(ParamsError::InvalidNumber),
        }
    } else {
        Err(ParamsError::Unsupported)
    }
}

/// The options `ps` applied in order; the first refused one decides.
pub open spec fn spec_options(ps: Seq<Seq<char>>) -> Result<BusOptions, ParamsError>
    decreases ps.len(),
{
    if ps.len() == 0 {
        Ok(no_options())
    } else {
        match spec_options(ps.drop_last()) {
            Err(e) => Err(e),
            Ok(o) => spec_apply_option(o, ps.last()),
        }
    }
}

/// A descriptor `path[,key=value]...`: its path and its options.
pub open spec fn spec_params(s: Seq<char>) -> Result<(Seq<char>, BusOptions), ParamsError> {
    let parts = spec_split(s, ',');
    match spec_options(parts.drop_first()) {
        Err(e) => Err(e),
        Ok(o) => Ok((parts[0], o)),
    }
}

impl Params {
    pub open spec fn options(&self) -> BusOptions {
        BusOptions {
            timeout: match self.timeout {
                Some(t) => Some(t@),
                None => None,
            },
            buf_size: self.buf_size,
            queue_size: self.queue_size,
            buf_ttl: self.buf_ttl,
        }
    }

    /// Reads an event-bus descriptor such as
    /// `/run/bus.sock,timeout=2.5,buf_size=8192,queue_size=1024,buf_ttl=10`.
    pub fn from_str(s: &str) -> (r: Result<Params, ParamsError>)
        ensures
            r matches Err(e) ==> spec_params(s@) == Err::<(Seq<char>, BusOptions), ParamsError>(e),
            r matches Ok(p) ==> spec_params(s@) is Ok && spec_params(s@).unwrap().0 == p.path@
                && spec_params(s@).unwrap().1 == p.options(),
    {
        let sp = split_at_char(s, ',');
        let ghost pv = sp@.map_values(|p: &str| p@);
        proof {
            crate::text::lemma_split_nonempty(s@, ',');
        }
        assert(sp@.len() == pv.len());
        assert(pv[0] == sp@[0]@);
        let mut p = Params {
            path: String::from_str(sp[0]),
            timeout: None,
            buf_size: None,
            queue_size: None,
            buf_ttl: None,
        };
        let mut i: usize = 1;
        assert(pv.subrange(1, 1) =~= Seq::<Seq<char>>::empty());
        while i < sp.len()
            invariant
                pv == sp@.map_values(|q: &str| q@),
                pv == spec_split(s@, ','),
                pv.len() >= 1,
                1 <= i <= sp@.len(),
                p.path@ == pv[0],
                spec_options(pv.subrange(1, i as int)) == Ok::<BusOptions, ParamsError>(p.options()),
            decreases sp@.len() - i,
        {
            let ghost before = p.options();
            assert(pv.subrange(1, i + 1).drop_last() == pv.subrange(1, i as int));
            assert(pv.subrange(1, i + 1).last() == pv[i as int]);
            assert(pv[i as int] == sp@[i as int]@);
            assert(pv.drop_first().subrange(0, i - 1) =~= pv.subrange(1, i as int));
            assert(pv.drop_first()[i - 1] == pv[i as int]);
            let kv = split_at_char(sp[i], '=');
            let ghost kvv = kv@.map_values(|q: &str| q@);
            proof {
                crate::text::lemma_split_nonempty(sp@[i as int]@, '=');
            }
            assert(kv@.len() == kvv.len());
            if kv.len() < 2 {
                assert(spec_apply_option(before, pv[i as int]) == Err::<BusOptions, ParamsError>(ParamsError::NoValue));
                proof {
                    lemma_options_err_stays(pv.drop_first(), i - 1);
                }
                return Err(ParamsError::NoValue);
            }
            assert(kvv[0] == kv@[0]@ && kvv[1] == kv@[1]@);
            let key = kv[0];
            let value = kv[1];
            if str_eq(key, "timeout") {
                p.timeout = Some(String::from_str(value));
            } else if str_eq(key, "buf_size") || str_eq(key, "queue_size") {
                let n = match parse_u64(value) {
                    Some(n) => if n <= usize::MAX as u64 {
                        n as usize
                    } else {
                        assert(spec_usize(kvv[1]) is None);
                        assert(spec_apply_option(before, pv[i as int]) == Err::<BusOptions, ParamsError>(ParamsError::InvalidNumber));
                        proof {
                            lemma_options_err_stays(pv.drop_first(), i - 1);
                        }
                        return Err(ParamsError::InvalidNumber);
                    },
                    None => {
                        assert(spec_usize(kvv[1]) is None);
                        assert(spec_apply_option(before, pv[i as int]) == Err::<BusOptions, ParamsError>(ParamsError::InvalidNumber));
                        proof {
                            lemma_options_err_stays(pv.drop_first(), i - 1);
                        }
                        return Err(ParamsError::InvalidNumber);
                    },
                };
                if str_eq(key, "buf_size") {
                    p.buf_size = Some(n);
                } else {
                    p.queue_size = Some(n);
                }
            } else if str_eq(key, "buf_ttl") {
                match parse_u64(value) {
                    Some(n) => p.buf_ttl = Some(n),
                    None => {
                        proof {
                            lemma_options_err_stays(pv.drop_first(), i - 1);
                        }
                        return Err(ParamsError::InvalidNumber);
                    },
                }
            } else {
                proof {
                    lemma_options_err_stays(pv.drop_first(), i - 1);
                }
                return Err(ParamsError::Unsupported);
            }
            assert(p.options() == spec_apply_option(before, pv[i as int]).unwrap());
            i = i + 1;
        }
        assert(pv.subrange(1, sp@.len() as int) == pv.drop_first());
        Ok(p)
    }
}

/// Once an option is refused, the options from that point on are refused
/// with the same error.
proof fn lemma_options_err_stays(ps: Seq<Seq<char>>, k: int)
    requires
        0 <= k < ps.len(),
        spec_options(ps.subrange(0, k)) is Ok,
        spec_apply_option(spec_options(ps.subrange(0, k)).unwrap(), ps[k]) is Err,
    ensures
        spec_options(ps) == spec_apply_option(spec_options(ps.subrange(0, k)).unwrap(), ps[k]),
    decreases ps.len(),
{
    if k + 1 == ps.len() {
        assert(ps.drop_last() == ps.subrange(0, k));
    } else {
        assert(ps.drop_last().subrange(0, k) == ps.subrange(0, k));
        assert(ps.drop_last()[k] == ps[k]);
        lemma_options_err_stays(ps.drop_last(), k);
    }
}

/// Whether the start stops waiting for the event bus: it connected, or
/// more than `timeout_ns` passed since the wait began.
pub fn bus_wait_done(connected: bool, elapsed_ns: u64, timeout_ns: u64) -> (r: bool)
    ensures
        r == (connected || elapsed_ns > timeout_ns),
{
    connected || elapsed_ns > timeout_ns
}

/// The name under which the controller joins the event bus.
pub fn bus_client_name(id: &PlcIdentity) -> (r: String)
    ensures
        r@ == "fieldbus."@ + id.hostname@ + ".plc."@ + id.name@,
{
    String::from_str("fieldbus.").concat(id.hostname.as_str()).concat(".plc.").concat(id.name.as_str())
}

} // verus!
