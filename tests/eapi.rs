use rplc::eapi::{
    action_events, action_runs_handler, bus_client_name, bus_wait_done, register_action,
    resolve_bus_method, ActionEvent, ActionHandlers, BusError, BusMethod, Params, ParamsError,
};
use rplc::tasks::TaskError;
use rplc::PlcIdentity;

#[test]
fn bus_methods_resolve() {
    assert_eq!(resolve_bus_method("test", true), Ok(BusMethod::Test));
    assert_eq!(resolve_bus_method("info", false), Err(BusError::Params));
    assert_eq!(resolve_bus_method("thread_stats.get", true), Ok(BusMethod::ThreadStatsGet));
    assert_eq!(resolve_bus_method("thread_stats.reset", true), Ok(BusMethod::ThreadStatsReset));
    assert_eq!(resolve_bus_method("action", false), Ok(BusMethod::Action));
    assert_eq!(resolve_bus_method("action", true), Err(BusError::Params));
    assert_eq!(resolve_bus_method("kill", true), Err(BusError::Method));
}

#[test]
fn action_handlers_are_write_once() {
    let mut t = ActionHandlers::new();
    assert_eq!(register_action(&mut t, "unit:tests/u1"), Ok(0));
    assert_eq!(register_action(&mut t, "unit:tests/u2"), Ok(1));
    assert_eq!(register_action(&mut t, "unit:tests/u1"), Err(TaskError::Busy));
    assert_eq!(t.find("unit:tests/u2"), Some(1));
    assert_eq!(t.find("unit:tests/u3"), None);
}

#[test]
fn action_event_sequences() {
    assert_eq!(action_events(false, true, None), vec![ActionEvent::Failed]);
    assert_eq!(action_events(true, false, None), vec![ActionEvent::Failed]);
    assert_eq!(
        action_events(true, true, Some(true)),
        vec![ActionEvent::Running, ActionEvent::Completed]
    );
    assert_eq!(
        action_events(true, true, Some(false)),
        vec![ActionEvent::Running, ActionEvent::Failed]
    );
    assert!(action_runs_handler(true, true));
    assert!(!action_runs_handler(true, false));
}

#[test]
fn bus_descriptor_parses() {
    let p = Params::from_str("/run/bus.sock,timeout=2.5,buf_size=8192,queue_size=1024,buf_ttl=10")
        .unwrap();
    assert_eq!(p.path, "/run/bus.sock");
    assert_eq!(p.timeout.as_deref(), Some("2.5"));
    assert_eq!(p.buf_size, Some(8192));
    assert_eq!(p.queue_size, Some(1024));
    assert_eq!(p.buf_ttl, Some(10));
    let p = Params::from_str("/run/bus.sock").unwrap();
    assert!(p.timeout.is_none() && p.buf_size.is_none() && p.buf_ttl.is_none());
    assert_eq!(Params::from_str("/b,timeout").err(), Some(ParamsError::NoValue));
    assert_eq!(Params::from_str("/b,buf_size=x").err(), Some(ParamsError::InvalidNumber));
    assert_eq!(Params::from_str("/b,colour=red").err(), Some(ParamsError::Unsupported));
    assert_eq!(Params::from_str("/b,colour=red,timeout").err(), Some(ParamsError::Unsupported));
}

#[test]
fn bus_connection_wait_and_name() {
    assert!(bus_wait_done(true, 0, 1_000));
    assert!(!bus_wait_done(false, 1_000, 1_000));
    assert!(bus_wait_done(false, 1_001, 1_000));
    let id = PlcIdentity {
        hostname: "h1".to_string(),
        name: "plc1".to_string(),
        description: String::new(),
        version: "1".to_string(),
        started_at: 0,
    };
    assert_eq!(bus_client_name(&id), "fieldbus.h1.plc.plc1");
}
