use vstd::prelude::*;

use crate::tasks::{self, ControllerStats, Runtime, ThreadInfo};
use crate::text::str_eq;
use crate::{plc_info, spec_uptime, PlcIdentity, PlcInfo};

verus! {

/// The protocol version that every request and response carries.
pub const JSON_RPC: &'static str = "2.0";

/// The most connections served at once.
pub const MAX_API_CONN: usize = 10;

/// Errors of the control API.
#[derive(Debug, Clone, Copy, PartialEq, Eq, Structural)]
pub enum ApiError {
    /// A frame does not start with a zero byte.
    InvalidHeader,
    /// A payload too long for a frame.
    FrameTooLarge,
    /// A request of another protocol version.
    UnsupportedVersion,
    /// A method called with parameters it does not take.
    InvalidParams,
    /// An unknown method.
    NotImplemented,
}

/// The methods of the control API.
#[derive(Debug, Clone, Copy, PartialEq, Eq, Structural)]
pub enum ApiMethod {
    Test,
    Info,
    ThreadStatsGet,
    ThreadStatsReset,
}

/// The little-endian value of four bytes.
pub open spec fn le_u32(b0: u8, b1: u8, b2: u8, b3: u8) -> int {
    b0 as int + b1 as int * 256 + b2 as int * 65536 + b3 as int * 16777216
}

/// The five-byte header of a frame with a payload of `len` bytes: a zero
/// byte, then the length in four little-endian bytes.
pub open spec fn spec_header(len: u32) -> Seq<u8> {
    seq![
        0u8,
        (len % 256) as u8,
        (len / 256 % 256) as u8,
        (len / 65536 % 256) as u8,
        (len / 16777216) as u8,
    ]
}

/// Reads a frame header: the payload length, or `InvalidHeader` when the
/// first byte is not zero.
pub fn parse_header(buf: &[u8]) -> (r: Result<u32, ApiError>)
    requires
        buf@.len() == 5,
    ensures
        r is Err <==> buf@[0] != 0,
        r is Err ==> r == Err::<u32, ApiError>(ApiError::InvalidHeader),
        r matches Ok(len) ==> len as int == le_u32(buf@[1], buf@[2], buf@[3], buf@[4]),
{
    if buf[0] != 0 {
        return Err(ApiError::InvalidHeader);
    }
    let len: u32 = buf[1] as u32 + buf[2] as u32 * 256 + buf[3] as u32 * 65536 + buf[4] as u32 * 16777216;
    Ok(len)
}

/// Frames a payload: the header, then the payload. A payload longer than
/// `u32::MAX` bytes cannot be framed.
pub fn frame(payload: &[u8]) -> (r: Result<Vec<u8>, ApiError>)
    ensures
        r is Err <==> payload@.len() > u32::MAX,
        r is Err ==> r == Err::<Vec<u8>, ApiError>(ApiError::FrameTooLarge),
        r matches Ok(v) ==> v@ == spec_header(payload@.len() as u32) + payload@,
{
    if payload.len() > u32::MAX as usize {
        return Err(ApiError::FrameTooLarge);
    }
    let len = payload.len() as u32;
    let mut v: Vec<u8> = Vec::new();
    v.push(0u8);
    v.push((len % 256) as u8);
    v.push((len / 256 % 256) as u8);
    v.push((len / 65536 % 256) as u8);
    v.push((len / 16777216) as u8);
    let mut i: usize = 0;
    while i < payload.len()
        invariant
            i <= payload@.len(),
            v@ == spec_header(len) + payload@.subrange(0, i as int),
        decreases payload@.len() - i,
    {
        v.push(payload[i]);
        assert(payload@.subrange(0, i + 1) == payload@.subrange(0, i as int).push(payload@[i as int]));
        i = i + 1;
    }
    assert(payload@.subrange(0, payload@.len() as int) == payload@);
    Ok(v)
}

/// A header read back gives the length it was written with.
pub proof fn lemma_header_round_trip(len: u32)
    ensures
        spec_header(len)[0] == 0,
        le_u32(spec_header(len)[1], spec_header(len)[2], spec_header(len)[3], spec_header(len)[4]) == len as int,
{
}

/// Accepts a request of the protocol version this API speaks.
pub fn check_version(version: &str) -> (r: Result<(), ApiError>)
    ensures
        r is Ok <==> version@ == JSON_RPC@,
        r is Err ==> r == Err::<(), ApiError>(ApiError::UnsupportedVersion),
{
    if str_eq(version, JSON_RPC) {
        Ok(())
    } else {
        Err(ApiError::UnsupportedVersion)
    }
}

/// The method named `method`, if any.
pub open spec fn spec_method(method: Seq<char>) -> Option<ApiMethod> {
    if method == "test"@ {
        Some(ApiMethod::Test)
    } else if method == "info"@ {
        Some(ApiMethod::Info)
    } else if method == "thread_stats.get"@ {
        Some(ApiMethod::ThreadStatsGet)
    } else if method == "thread_stats.reset"@ {
        Some(ApiMethod::ThreadStatsReset)
    } else {
        None
    }
}

/// Resolves a call: an unknown method gives `NotImplemented`, a known one
/// called with parameters gives `InvalidParams`; no method takes any.
pub fn resolve_method(method: &str, has_params: bool) -> (r: Result<ApiMethod, ApiError>)
    ensures
        r == (match spec_method(method@) {
            None => Err(ApiError::NotImplemented),
            Some(m) => if has_params {
                Err(ApiError::InvalidParams)
            } else {
                Ok(m)
            },
        }),
{
    let m = if str_eq(method, "test") {
        ApiMethod::Test
    } else if str_eq(method, "info") {
        ApiMethod::Info
    } else if str_eq(method, "thread_stats.get") {
        ApiMethod::ThreadStatsGet
    } else if str_eq(method, "thread_stats.reset") {
        ApiMethod::ThreadStatsReset
    } else {
        return Err(ApiError::NotImplemented);
    };
    if has_params {
        Err(ApiError::InvalidParams)
    } else {
        Ok(m)
    }
}

/// The result of a call.
pub enum ApiReply {
    /// No value.
    Unit,
    /// The controller's report.
    Info(PlcInfo),
    /// Every registered thread's name and snapshot.
    ThreadStats(Vec<(String, Option<ThreadInfo>)>),
}

/// Serves a call of `method` on the runtime `rt` of the controller `id`,
/// running as process `pid`, at time `now`. Only `thread_stats.reset`
/// changes the runtime: it clears the statistics of every thread.
pub fn handle_api_call(
    rt: &mut Runtime,
    id: &PlcIdentity,
    method: &str,
    has_params: bool,
    pid: u32,
    now: u64,
) -> (r: Result<ApiReply, ApiError>)
    requires
        old(rt).wf(),
    ensures
        final(rt).wf(),
        r is Err ==> r == (match spec_method(method@) {
            None => Err::<ApiReply, ApiError>(ApiError::NotImplemented),
            Some(_) => Err(ApiError::InvalidParams),
        }),
        r is Ok <==> spec_method(method@) is Some && !has_params,
        r is Ok && spec_method(method@) == Some(ApiMethod::ThreadStatsReset) ==> final(rt).spec_stats().threads()
            == tasks::reset_all(old(rt).spec_stats().threads()),
        !(r is Ok && spec_method(method@) == Some(ApiMethod::ThreadStatsReset)) ==> *final(rt) == *old(rt),
        final(rt).spec_status() == old(rt).spec_status(),
        r matches Ok(ApiReply::Unit) ==> spec_method(method@) == Some(ApiMethod::Test) || spec_method(method@)
            == Some(ApiMethod::ThreadStatsReset),
        r matches Ok(ApiReply::Info(info)) ==> spec_method(method@) == Some(ApiMethod::Info) && info.pid == pid
            && info.status as int == old(rt).spec_status().code() && info.uptime == spec_uptime(id.started_at, now)
            && info.name@ == id.name@ && info.system_name@ == id.hostname@ && info.description@ == id.description@
            && info.version@ == id.version@,
        r matches Ok(ApiReply::ThreadStats(v)) ==> spec_method(method@) == Some(ApiMethod::ThreadStatsGet)
            && v@.len() == old(rt).spec_stats().threads().len() && (forall|i: int|
            0 <= i < v@.len() ==> (#[trigger] v@[i]).0@ == old(rt).spec_stats().threads()[i].name && v@[i].1
                == tasks::spec_info(old(rt).spec_stats().threads()[i].stats)),
        spec_method(method@) == Some(ApiMethod::Test) && !has_params ==> r matches Ok(ApiReply::Unit),
        spec_method(method@) == Some(ApiMethod::ThreadStatsReset) && !has_params ==> r matches Ok(ApiReply::Unit),
        spec_method(method@) == Some(ApiMethod::Info) && !has_params ==> r matches Ok(ApiReply::Info(_)),
        spec_method(method@) == Some(ApiMethod::ThreadStatsGet) && !has_params ==> r matches Ok(ApiReply::ThreadStats(_)),
{
    match resolve_method(method, has_params) {
        Err(e) => Err(e),
        Ok(ApiMethod::Test) => Ok(ApiReply::Unit),
        Ok(ApiMethod::Info) => Ok(ApiReply::Info(plc_info(id, tasks::status(rt), pid, now))),
        Ok(ApiMethod::ThreadStatsGet) => {
            let cs: &ControllerStats = rt.controller_stats();
            Ok(ApiReply::ThreadStats(cs.thread_stats()))
        },
        Ok(ApiMethod::ThreadStatsReset) => {
            tasks::reset_thread_stats(rt);
            Ok(ApiReply::Unit)
        },
    }
}


/// What a connection does after reading a frame header: `None` is the end
/// of the stream.
#[derive(Debug, Clone, Copy, PartialEq, Eq, Structural)]
pub enum StreamStep {
    /// Read a payload of this many bytes, then answer it.
    ReadPayload(u32),
    /// The peer closed the stream: end the connection without an error.
    Close,
    /// A malformed frame: end the connection with this error, reading and
    /// writing nothing more.
    Fail(ApiError),
}

/// Decides the next step of a connection from the header just read, `None`
/// when the stream ended before a header.
pub fn stream_step(header: Option<&[u8]>) -> (r: StreamStep)
    requires
        header matches Some(h) ==> h@.len() == 5,
    ensures
        header is None ==> r == StreamStep::Close,
        header matches Some(h) ==> (h@[0] != 0 <==> r == StreamStep::Fail(ApiError::InvalidHeader)),
        header matches Some(h) ==> (h@[0] == 0 <==> r matches StreamStep::ReadPayload(_)),
        r matches StreamStep::ReadPayload(len) ==> header matches Some(h) && len as int == le_u32(
            h@[1],
            h@[2],
            h@[3],
            h@[4],
        ),
{
    match header {
        None => StreamStep::Close,
        Some(h) => match parse_header(h) {
            Ok(len) => StreamStep::ReadPayload(len),
            Err(e) => StreamStep::Fail(e),
        },
    }
}

} // verus!
