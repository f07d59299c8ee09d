use rplc::tasks::{
    self, can_run_inputs, can_run_outputs, can_run_programs, need_stop, output_last_sync, Kind, Runtime,
    Status, TaskError, ThreadStats,
};

#[test]
fn status_codes_round_trip() {
    for st in [
        Status::Inactive,
        Status::Starting,
        Status::Syncing,
        Status::Preparing,
        Status::Active,
        Status::Stopping,
        Status::StopSyncing,
        Status::Stopped,
    ] {
        assert_eq!(Status::from_i16(st.as_i16()), st);
    }
    assert_eq!(Status::Active.as_i16(), 100);
    assert_eq!(Status::Stopped.as_i16(), -100);
    assert_eq!(Status::from_i16(7), Status::Unknown);
    assert_eq!(Status::StopSyncing.as_str(), "STOPSYNCING");
}

#[test]
fn phase_predicates() {
    assert!(!can_run_inputs(Status::Starting));
    assert!(can_run_inputs(Status::Syncing));
    assert!(!can_run_programs(Status::Syncing));
    assert!(can_run_programs(Status::Active));
    assert!(!can_run_outputs(Status::Syncing));
    assert!(can_run_outputs(Status::Preparing));
    assert!(can_run_outputs(Status::StopSyncing));
    assert!(need_stop(Kind::Input, Status::Stopping));
    assert!(!need_stop(Kind::Output, Status::Stopping));
    assert!(need_stop(Kind::Output, Status::StopSyncing));
    assert!(!need_stop(Kind::Service, Status::Stopped));
    assert!(output_last_sync(Status::StopSyncing));
}

#[test]
fn empty_runtime_goes_active_and_stops() {
    let mut rt = Runtime::new();
    tasks::set_starting(&mut rt);
    assert_eq!(tasks::status(&rt), Status::Starting);
    tasks::finish_start(&mut rt);
    assert!(tasks::is_active(&rt));
    assert!(tasks::shutdown(&mut rt));
    assert_eq!(tasks::status(&rt), Status::Stopping);
    tasks::stop_syncing(&mut rt);
    assert_eq!(tasks::status(&rt), Status::Stopped);
}

#[test]
fn jitter_stats_stay_ordered() {
    let mut st = ThreadStats::new();
    assert!(st.info().is_none());
    for j in [120u16, 80, 300, 95] {
        st.report_jitter(j);
    }
    let info = st.info().unwrap();
    assert_eq!(info.iters, 4);
    assert_eq!(info.jitter_min, 80);
    assert_eq!(info.jitter_max, 300);
    assert_eq!(info.jitter_last, 95);
    assert_eq!(info.jitter_avg, 148);
    assert!(info.jitter_min <= info.jitter_last && info.jitter_last <= info.jitter_max);
    assert!(info.jitter_avg <= info.jitter_max);
}

#[test]
fn duplicate_thread_is_busy() {
    let mut rt = Runtime::new();
    assert_eq!(tasks::spawn(&mut rt, "reader", Kind::Input).unwrap(), "Ireader");
    assert_eq!(tasks::spawn(&mut rt, "reader", Kind::Input), Err(TaskError::Busy));
    assert_eq!(
        tasks::spawn(&mut rt, "a_name_too_long", Kind::Input),
        Err(TaskError::NameTooLong)
    );
}
