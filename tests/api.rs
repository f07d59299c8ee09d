use rplc::api::{stream_step, StreamStep, check_version, frame, handle_api_call, parse_header, resolve_method, ApiError, ApiMethod, ApiReply};
use rplc::tasks::{self, Kind, Runtime};
use rplc::PlcIdentity;

fn identity() -> PlcIdentity {
    PlcIdentity {
        hostname: "h".to_string(),
        name: "plc".to_string(),
        description: "test".to_string(),
        version: "1".to_string(),
        started_at: 0,
    }
}

#[test]
fn test_request_round_trip() {
    let payload = vec![0x81u8, 0xa1, 0x61, 0x01];
    let framed = frame(&payload).unwrap();
    assert_eq!(framed, vec![0, 4, 0, 0, 0, 0x81, 0xa1, 0x61, 0x01]);
    assert_eq!(parse_header(&framed[..5]), Ok(4));
    assert_eq!(parse_header(&[0, 0x10, 0x27, 0, 1]), Ok(16_787_216));
    assert_eq!(check_version("2.0"), Ok(()));
    let mut rt = Runtime::new();
    let reply = handle_api_call(&mut rt, &identity(), "test", false, 1, 0).unwrap();
    assert!(matches!(reply, ApiReply::Unit));
}

#[test]
fn malformed_first_byte_is_refused() {
    assert_eq!(parse_header(&[1, 4, 0, 0, 0]), Err(ApiError::InvalidHeader));
    assert_eq!(check_version("1.0"), Err(ApiError::UnsupportedVersion));
}

#[test]
fn methods_resolve() {
    assert_eq!(resolve_method("info", false), Ok(ApiMethod::Info));
    assert_eq!(resolve_method("thread_stats.get", false), Ok(ApiMethod::ThreadStatsGet));
    assert_eq!(resolve_method("thread_stats.reset", true), Err(ApiError::InvalidParams));
    assert_eq!(resolve_method("reboot", false), Err(ApiError::NotImplemented));
}

#[test]
fn api_calls_read_and_reset_stats() {
    let mut rt = Runtime::new();
    tasks::spawn(&mut rt, "p", Kind::Program).unwrap();
    tasks::spawn(&mut rt, "q", Kind::Program).unwrap();
    tasks::report_jitter(&mut rt, "Pp", 12);
    match handle_api_call(&mut rt, &identity(), "thread_stats.get", false, 1, 0).unwrap() {
        ApiReply::ThreadStats(v) => {
            assert_eq!(v.len(), 2);
            assert_eq!(v[0].0, "Pp");
            assert_eq!(v[0].1.unwrap().jitter_last, 12);
            assert!(v[1].1.is_none());
        }
        _ => panic!("unexpected reply"),
    }
    match handle_api_call(&mut rt, &identity(), "info", false, 77, 3_000_000_000).unwrap() {
        ApiReply::Info(info) => {
            assert_eq!(info.pid, 77);
            assert_eq!(info.name, "plc");
            assert_eq!(info.uptime, 3_000_000_000);
            assert_eq!(info.status, 0);
        }
        _ => panic!("unexpected reply"),
    }
    assert!(matches!(
        handle_api_call(&mut rt, &identity(), "thread_stats.reset", false, 1, 0),
        Ok(ApiReply::Unit)
    ));
    assert!(rt.controller_stats().thread_info("Pp").is_none());
    assert_eq!(
        handle_api_call(&mut rt, &identity(), "info", true, 1, 0).err(),
        Some(ApiError::InvalidParams)
    );
    assert_eq!(
        handle_api_call(&mut rt, &identity(), "nope", false, 1, 0).err(),
        Some(ApiError::NotImplemented)
    );
}

#[test]
fn stream_steps() {
    assert_eq!(stream_step(None), StreamStep::Close);
    assert_eq!(stream_step(Some(&[0, 9, 0, 0, 0])), StreamStep::ReadPayload(9));
    assert_eq!(
        stream_step(Some(&[0xff, 9, 0, 0, 0])),
        StreamStep::Fail(ApiError::InvalidHeader)
    );
}
