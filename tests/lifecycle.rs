use rplc::interval::{parse_interval, IntervalError, Loop};
use rplc::tasks::{
    self, affinity_var, Affinity, AffinityError, Kind, Runtime, Status, TaskError,
};
use rplc::{count_processors, plc_info, uptime, PlcIdentity};

const MS: u64 = 1_000_000;

#[test]
fn single_program_status_progression() {
    let mut rt = Runtime::new();
    assert_eq!(tasks::status(&rt), Status::Inactive);
    assert_eq!(tasks::spawn(&mut rt, "prog", Kind::Program).unwrap(), "Pprog");
    tasks::set_starting(&mut rt);
    assert_eq!(tasks::status(&rt), Status::Starting);
    tasks::set_syncing(&mut rt);
    assert_eq!(tasks::status(&rt), Status::Syncing);
    tasks::set_preparing_if_no_inputs(&mut rt);
    assert_eq!(tasks::status(&rt), Status::Preparing);
    tasks::set_active_if_no_inputs_and_programs(&mut rt);
    assert_eq!(tasks::status(&rt), Status::Preparing);
    // the program ticks every 200 ms; its first tick marks it ready
    let mut lp = Loop::prepare_reported(200 * MS, "Pprog", 0);
    let plan = lp.tick(200 * MS);
    assert_eq!(plan.mark_ready, Some(Kind::Program));
    tasks::mark_thread_ready(&mut rt, Kind::Program, "Pprog");
    assert_eq!(tasks::status(&rt), Status::Active);
    let jitter = lp.finish_iteration(200 * MS).unwrap();
    tasks::report_jitter(&mut rt, "Pprog", jitter);
    for k in 2..=10u64 {
        let plan = lp.tick(k * 200 * MS - 1_000);
        assert!(plan.on_time);
        assert_eq!(plan.sleep_ns, 1_000);
        assert_eq!(plan.mark_ready, None);
        let jitter = lp.finish_iteration(k * 200 * MS).unwrap();
        tasks::report_jitter(&mut rt, "Pprog", jitter);
    }
    let info = rt.controller_stats().thread_info("Pprog").unwrap();
    assert_eq!(info.iters, 10);
    assert!(info.jitter_max < 50_000);
    assert!(tasks::shutdown(&mut rt));
    assert_eq!(tasks::status(&rt), Status::Stopping);
    tasks::stop_syncing(&mut rt);
    assert_eq!(tasks::status(&rt), Status::Stopped);
}

#[test]
fn gated_start_waits_for_input() {
    let mut rt = Runtime::new();
    tasks::spawn(&mut rt, "slow", Kind::Input).unwrap();
    tasks::set_starting(&mut rt);
    tasks::finish_start(&mut rt);
    assert_eq!(tasks::status(&rt), Status::Syncing);
    assert!(!rt.controller_stats().inputs_ready());
    // three seconds later the input runs its first tick
    tasks::mark_input_thread_ready(&mut rt, "Islow");
    assert!(rt.controller_stats().inputs_ready());
    assert_eq!(tasks::status(&rt), Status::Active);
}

#[test]
fn inputs_ready_only_when_all_marked() {
    let mut rt = Runtime::new();
    tasks::spawn(&mut rt, "a", Kind::Input).unwrap();
    tasks::spawn(&mut rt, "b", Kind::Input).unwrap();
    tasks::spawn(&mut rt, "p", Kind::Program).unwrap();
    tasks::set_starting(&mut rt);
    // marks before inputs may run do not count
    tasks::mark_input_thread_ready(&mut rt, "Ia");
    assert!(!rt.controller_stats().inputs_ready());
    tasks::finish_start(&mut rt);
    tasks::mark_input_thread_ready(&mut rt, "Ia");
    assert!(!rt.controller_stats().inputs_ready());
    assert_eq!(tasks::status(&rt), Status::Syncing);
    tasks::mark_input_thread_ready(&mut rt, "Iunknown");
    assert!(!rt.controller_stats().inputs_ready());
    tasks::mark_input_thread_ready(&mut rt, "Ib");
    assert!(rt.controller_stats().inputs_ready());
    assert_eq!(tasks::status(&rt), Status::Preparing);
    tasks::mark_program_thread_ready(&mut rt, "Pp");
    assert!(rt.controller_stats().programs_ready());
    assert_eq!(tasks::status(&rt), Status::Active);
}

#[test]
fn overrun_skips_missed_iterations() {
    let period = 100 * MS;
    let mut lp = Loop::prepare0(period, "Iinput", 0);
    let mut now = 0u64;
    let mut calls = 0u32;
    let mut overruns = 0u32;
    // ten seconds of simulated time; every fifth body takes two periods
    while now < 10_000 * MS {
        calls += 1;
        now += if calls % 5 == 0 { 2 * period } else { 0 };
        let deadline = lp.next_deadline();
        let plan = lp.tick(now);
        if plan.on_time {
            now += plan.sleep_ns;
            assert_eq!(lp.next_deadline(), deadline + period);
        } else {
            overruns += 1;
            assert_eq!(lp.next_deadline(), now + period);
        }
    }
    assert!(overruns > 0);
    assert!(calls < 100);
    assert!(calls >= 70);
}

#[test]
fn output_marks_stopped_after_final_sync() {
    let mut rt = Runtime::new();
    tasks::spawn(&mut rt, "out", Kind::Output).unwrap();
    tasks::set_starting(&mut rt);
    tasks::finish_start(&mut rt);
    assert_eq!(tasks::status(&rt), Status::Active);
    assert!(!tasks::finish_output_iteration(&mut rt, "Oout", false));
    assert!(!rt.controller_stats().outputs_stopped());
    assert!(tasks::shutdown(&mut rt));
    tasks::stop_syncing(&mut rt);
    assert_eq!(tasks::status(&rt), Status::StopSyncing);
    let last_sync = tasks::output_last_sync(tasks::status(&rt));
    assert!(tasks::finish_output_iteration(&mut rt, "Oout", last_sync));
    assert!(rt.controller_stats().outputs_stopped());
    assert_eq!(tasks::status(&rt), Status::Stopped);
}

#[test]
fn shutdown_before_active_stops_at_once() {
    let mut rt = Runtime::new();
    tasks::spawn(&mut rt, "in", Kind::Input).unwrap();
    tasks::set_starting(&mut rt);
    tasks::finish_start(&mut rt);
    assert!(!tasks::shutdown(&mut rt));
    assert_eq!(tasks::status(&rt), Status::Stopped);
    // once stopped nothing moves the controller back
    tasks::set_starting(&mut rt);
    tasks::finish_start(&mut rt);
    assert_eq!(tasks::status(&rt), Status::Stopped);
}

#[test]
fn spawn_rules() {
    let mut rt = Runtime::new();
    tasks::set_starting(&mut rt);
    tasks::finish_start(&mut rt);
    assert!(tasks::is_active(&rt));
    assert_eq!(tasks::spawn(&mut rt, "late", Kind::Input), Err(TaskError::AlreadyRunning));
    assert_eq!(tasks::spawn(&mut rt, "api", Kind::Service).unwrap(), "Sapi");
    assert_eq!(rt.controller_stats().len(), 1);
    assert_eq!(affinity_var("Ia.b.c"), "PLC_THREAD_AFFINITY_Ia__b__c");
    assert!(tasks::joined_on_shutdown(Kind::Program));
    assert!(!tasks::joined_on_shutdown(Kind::Output));
}

#[test]
fn shutdown_hook_is_write_once() {
    let mut rt = Runtime::new();
    assert!(!tasks::has_shutdown_hook(&rt));
    assert_eq!(tasks::on_shutdown(&mut rt), Ok(()));
    assert_eq!(tasks::on_shutdown(&mut rt), Err(TaskError::Busy));
    assert!(tasks::has_shutdown_hook(&rt));
}

#[test]
fn affinity_descriptors() {
    assert_eq!(
        Affinity::from_str("2,50", 4),
        Ok(Affinity { cpu_id: 2, sched_priority: 50 })
    );
    assert_eq!(Affinity::from_str("x,50", 4), Err(AffinityError::InvalidCpuId));
    assert_eq!(Affinity::from_str("1", 4), Err(AffinityError::NoPriority));
    assert_eq!(Affinity::from_str("1,p", 4), Err(AffinityError::InvalidPriority));
    assert_eq!(Affinity::from_str("1,5,7", 4), Err(AffinityError::ExtraParams));
    assert_eq!(Affinity::from_str("4,5", 4), Err(AffinityError::CpuNotFound));
    assert_eq!(Affinity::from_str("1,0", 4), Err(AffinityError::InvalidSchedPriority));
    assert_eq!(Affinity::from_str("1,-3", 4), Err(AffinityError::InvalidSchedPriority));
    assert_eq!(Affinity::from_str("1,100", 4), Err(AffinityError::InvalidSchedPriority));
}

#[test]
fn intervals() {
    assert_eq!(parse_interval("200ms"), Ok(200_000_000));
    assert_eq!(parse_interval("50us"), Ok(50_000));
    assert_eq!(parse_interval("10ns"), Ok(10));
    assert_eq!(parse_interval("2s"), Ok(2_000_000_000));
    assert_eq!(parse_interval("3"), Ok(3_000_000_000));
    assert_eq!(parse_interval("fast"), Err(IntervalError::InvalidNumber));
    assert_eq!(parse_interval("18446744073709551615s"), Err(IntervalError::Overflow));
}

#[test]
fn reset_twice_equals_reset_once() {
    let mut rt = Runtime::new();
    tasks::spawn(&mut rt, "p", Kind::Program).unwrap();
    tasks::report_jitter(&mut rt, "Pp", 40);
    tasks::report_jitter(&mut rt, "Pp", 60);
    assert_eq!(rt.controller_stats().thread_info("Pp").unwrap().jitter_avg, 50);
    tasks::reset_thread_stats(&mut rt);
    assert!(rt.controller_stats().thread_info("Pp").is_none());
    tasks::reset_thread_stats(&mut rt);
    let all = rt.controller_stats().thread_stats();
    assert_eq!(all.len(), 1);
    assert_eq!(all[0].0, "Pp");
    assert!(all[0].1.is_none());
}

#[test]
fn stats_counter_restarts_on_overflow() {
    let mut rt = Runtime::new();
    tasks::spawn(&mut rt, "flood", Kind::Service).unwrap();
    for _ in 0..65_538u32 {
        tasks::report_jitter(&mut rt, "Sflood", u16::MAX);
    }
    let info = rt.controller_stats().thread_info("Sflood").unwrap();
    assert_eq!(info.iters, 1);
    assert_eq!(info.jitter_avg, u16::MAX);
    assert!(info.jitter_avg <= info.jitter_max);
    // samples of unknown threads are dropped
    tasks::report_jitter(&mut rt, "Snobody", 5);
    assert_eq!(rt.controller_stats().len(), 1);
}

#[test]
fn info_reports_pid_and_uptime() {
    let id = PlcIdentity {
        hostname: "host1".to_string(),
        name: "plc1".to_string(),
        description: String::new(),
        version: "0.1".to_string(),
        started_at: 5_000,
    };
    let a = plc_info(&id, Status::Active, 4242, 7_000);
    assert_eq!(a.pid, 4242);
    assert_eq!(a.status, 100);
    assert_eq!(a.uptime, 2_000);
    let b = plc_info(&id, Status::Active, 4242, 9_000);
    assert!(b.uptime >= a.uptime);
    assert_eq!(uptime(&id, 1_000), 0);
    assert_eq!(rplc::hostname(&id), "host1");
}

#[test]
fn cpu_count_from_cpuinfo() {
    let text = "processor\t: 0\nmodel name\t: x\n\nprocessor\t: 1\nprocessor : 2\n";
    assert_eq!(count_processors(text), 2);
    assert_eq!(count_processors(""), 0);
}
