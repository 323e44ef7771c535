use edge_runtime::supervisor::{
    wall_clock_alert_interval, CPUTimerParam, Effect, Notice, ShutdownReason, Supervisor,
    SupervisorEvent,
};

fn supervisor(soft: u64, hard: u64, wall: u64) -> Supervisor {
    Supervisor::new(CPUTimerParam::new(soft, hard), wall)
}

#[test]
fn cpu_timer_param_limits_and_disabled() {
    let p = CPUTimerParam::new(10, 20);
    assert_eq!(p.limits(), (10, 20));
    assert!(!p.is_disabled());
    assert!(CPUTimerParam::new(0, 0).is_disabled());
    assert!(!CPUTimerParam::new(0, 5).is_disabled());
}

#[test]
fn supervise_cancel_ends_without_terminating() {
    let mut s = supervisor(10, 20, 1000);
    let fx = s.step(SupervisorEvent::SuperviseCancelled);
    assert_eq!(fx, vec![Effect::RaiseRetire]);
    assert_eq!(s.outcome(), Some((ShutdownReason::TerminationRequested, 0)));
    assert!(!s.accepts(SupervisorEvent::MemoryLimitReached));
}

#[test]
fn termination_request_terminates() {
    let mut s = supervisor(10, 20, 1000);
    let fx = s.step(SupervisorEvent::TerminationRequested);
    assert_eq!(fx, vec![Effect::Terminate, Effect::RaiseRetire]);
    assert_eq!(s.outcome(), Some((ShutdownReason::TerminationRequested, 0)));
}

#[test]
fn enter_arms_timer_only_with_limits() {
    let mut s = supervisor(10, 20, 0);
    assert_eq!(s.step(SupervisorEvent::CpuEnter), vec![Effect::ArmCpuTimer]);
    assert!(s.is_cpu_timer_armed());
    assert!(s.is_worker_entered());
    assert!(!s.accepts(SupervisorEvent::CpuEnter));

    let mut d = supervisor(0, 0, 0);
    assert_eq!(d.step(SupervisorEvent::CpuEnter), vec![]);
    assert!(!d.is_cpu_timer_armed());
}

#[test]
fn hard_limit_on_leave_stops_for_cpu_time() {
    let mut s = supervisor(10, 20, 0);
    s.step(SupervisorEvent::CpuEnter);
    let fx = s.step(SupervisorEvent::CpuLeave { accumulated: 25_000_000, demand: 1 });
    assert_eq!(
        fx,
        vec![Effect::Terminate, Effect::Log(Notice::CpuHardLimitReached), Effect::RaiseRetire]
    );
    assert_eq!(s.outcome(), Some((ShutdownReason::CPUTime, 25)));
}

#[test]
fn soft_limit_with_requests_in_flight_retires() {
    let mut s = supervisor(10, 20, 0);
    s.step(SupervisorEvent::CpuEnter);
    let fx = s.step(SupervisorEvent::CpuLeave { accumulated: 12_500_000, demand: 1 });
    assert_eq!(fx, vec![Effect::RaiseRetire, Effect::Log(Notice::CpuSoftLimitReached)]);
    assert_eq!(s.outcome(), None);
    // a second time over the soft limit changes nothing
    s.step(SupervisorEvent::CpuEnter);
    let fx = s.step(SupervisorEvent::CpuLeave { accumulated: 15_000_000, demand: 1 });
    assert_eq!(fx, vec![]);
    // the last request completes: dropped early, no idle message
    let fx = s.step(SupervisorEvent::RequestEnded { demand: 1 });
    assert_eq!(
        fx,
        vec![Effect::Terminate, Effect::Log(Notice::EarlyTermination), Effect::RaiseRetire]
    );
    assert_eq!(s.outcome(), Some((ShutdownReason::EarlyDrop, 15)));
}

#[test]
fn soft_limit_when_drained_drops_early() {
    let mut s = supervisor(10, 20, 0);
    s.step(SupervisorEvent::CpuEnter);
    let fx = s.step(SupervisorEvent::CpuLeave { accumulated: 10_000_000, demand: 0 });
    assert_eq!(
        fx,
        vec![
            Effect::RaiseRetire,
            Effect::Log(Notice::CpuSoftLimitReached),
            Effect::Terminate,
            Effect::Log(Notice::EarlyTermination),
            Effect::RaiseRetire,
        ]
    );
    assert_eq!(s.outcome(), Some((ShutdownReason::EarlyDrop, 10)));
}

#[test]
fn request_end_sends_idle_before_soft_limit() {
    let mut s = supervisor(10, 20, 0);
    assert_eq!(s.step(SupervisorEvent::RequestEnded { demand: 2 }), vec![Effect::SendIdle]);
    assert_eq!(s.step(SupervisorEvent::RequestEnded { demand: 2 }), vec![Effect::SendIdle]);
    assert_eq!(s.outcome(), None);
}

#[test]
fn cpu_timer_fires_soft_then_hard() {
    let mut s = supervisor(10, 20, 0);
    s.step(SupervisorEvent::CpuEnter);
    let fx = s.step(SupervisorEvent::CpuTimerFired { demand: 3 });
    assert_eq!(fx, vec![Effect::RaiseRetire, Effect::Log(Notice::CpuSoftLimitReached)]);
    let fx = s.step(SupervisorEvent::CpuTimerFired { demand: 3 });
    assert_eq!(
        fx,
        vec![Effect::Terminate, Effect::Log(Notice::CpuHardLimitReached), Effect::RaiseRetire]
    );
    assert_eq!(s.outcome(), Some((ShutdownReason::CPUTime, 0)));
}

#[test]
fn cpu_timer_firing_while_away_does_nothing() {
    let mut s = supervisor(10, 20, 0);
    s.step(SupervisorEvent::CpuEnter);
    s.step(SupervisorEvent::CpuLeave { accumulated: 1_000_000, demand: 1 });
    assert_eq!(s.step(SupervisorEvent::CpuTimerFired { demand: 1 }), vec![]);
    assert_eq!(s.outcome(), None);
}

#[test]
fn disabled_cpu_limits_never_stop() {
    let mut s = supervisor(0, 0, 0);
    s.step(SupervisorEvent::CpuEnter);
    let fx = s.step(SupervisorEvent::CpuLeave { accumulated: i64::MAX, demand: 0 });
    assert_eq!(fx, vec![]);
    assert_eq!(s.outcome(), None);
    assert!(!s.accepts(SupervisorEvent::CpuTimerFired { demand: 0 }));
}

#[test]
fn three_wall_clock_ticks_stop() {
    let mut s = supervisor(10, 20, 1000);
    assert!(s.is_wall_clock_limited());
    assert_eq!(s.step(SupervisorEvent::WallClockTick { demand: 1 }), vec![]);
    assert_eq!(
        s.step(SupervisorEvent::WallClockTick { demand: 1 }),
        vec![Effect::RaiseRetire, Effect::Log(Notice::WallClockWarning)]
    );
    assert_eq!(
        s.step(SupervisorEvent::WallClockTick { demand: 1 }),
        vec![
            Effect::Terminate,
            Effect::Log(Notice::WallClockReached { in_flight_requests: true }),
            Effect::RaiseRetire,
        ]
    );
    assert_eq!(s.outcome(), Some((ShutdownReason::WallClockTime, 0)));
}

#[test]
fn wall_clock_unlimited_accepts_no_tick() {
    let s = supervisor(10, 20, 0);
    assert!(!s.is_wall_clock_limited());
    assert!(!s.accepts(SupervisorEvent::WallClockTick { demand: 0 }));
}

#[test]
fn memory_limit_stops() {
    let mut s = supervisor(10, 20, 0);
    s.step(SupervisorEvent::CpuEnter);
    s.step(SupervisorEvent::CpuLeave { accumulated: 3_999_999, demand: 1 });
    let fx = s.step(SupervisorEvent::MemoryLimitReached);
    assert_eq!(
        fx,
        vec![Effect::Terminate, Effect::Log(Notice::MemoryLimitReached), Effect::RaiseRetire]
    );
    assert_eq!(s.outcome(), Some((ShutdownReason::Memory, 3)));
}

#[test]
fn negative_cpu_time_rounds_toward_zero() {
    let mut s = supervisor(0, 0, 0);
    s.step(SupervisorEvent::CpuEnter);
    s.step(SupervisorEvent::CpuLeave { accumulated: -1_500_000, demand: 0 });
    s.step(SupervisorEvent::SuperviseCancelled);
    assert_eq!(s.outcome(), Some((ShutdownReason::TerminationRequested, -1)));
}

#[test]
fn huge_hard_limit_wraps_as_signed() {
    // the hard limit is compared as an i64: u64::MAX reads as -1
    let mut s = supervisor(5, u64::MAX, 0);
    s.step(SupervisorEvent::CpuEnter);
    s.step(SupervisorEvent::CpuLeave { accumulated: 0, demand: 0 });
    assert_eq!(s.outcome(), Some((ShutdownReason::CPUTime, 0)));
}

#[test]
fn wall_clock_interval_is_half_the_limit() {
    assert_eq!(wall_clock_alert_interval(0), (0, 1_000_000));
    assert_eq!(wall_clock_alert_interval(1), (0, 1_000_000));
    assert_eq!(wall_clock_alert_interval(3), (0, 1_500_000));
    assert_eq!(wall_clock_alert_interval(5000), (2, 500_000_000));
    assert_eq!(wall_clock_alert_interval(u64::MAX), (u64::MAX / 2000, 807_500_000));
}
