//! The per-worker supervisor: CPU-time, wall-clock and memory limits.
//!
//! The supervisor watches a user worker and decides when it must be retired
//! (no new requests routed to it) and when it must be terminated. The waiting
//! on channels, timers and cancellation tokens happens outside the library;
//! every event that wakes the supervisor is handed to [`Supervisor::step`],
//! which answers with the effects to perform, in order, and possibly the
//! reason for which supervision ended.
use vstd::prelude::*;

verus! {

/// Why a supervised worker was shut down.
#[derive(Clone, Copy, Debug, PartialEq, Eq, Structural)]
pub enum ShutdownReason {
    TerminationRequested,
    CPUTime,
    EarlyDrop,
    WallClockTime,
    Memory,
}

/// Soft and hard CPU-time limits of a worker, in milliseconds.
/// Both limits at zero disable CPU-time supervision.
#[derive(Clone, Copy)]
pub struct CPUTimerParam {
    soft_limit_ms: u64,
    hard_limit_ms: u64,
}

impl View for CPUTimerParam {
    /// `(soft_limit_ms, hard_limit_ms)`
    type V = (u64, u64);

    closed spec fn view(&self) -> (u64, u64) {
        (self.soft_limit_ms, self.hard_limit_ms)
    }
}

impl CPUTimerParam {
    pub fn new(soft_limit_ms: u64, hard_limit_ms: u64) -> (r: Self)
        ensures
            r@ == (soft_limit_ms, hard_limit_ms),
    {
        Self { soft_limit_ms, hard_limit_ms }
    }

    pub fn limits(&self) -> (r: (u64, u64))
        ensures
            r == self@,
    {
        (self.soft_limit_ms, self.hard_limit_ms)
    }

    pub fn is_disabled(&self) -> (r: bool)
        ensures
            r == (self@.0 == 0 && self@.1 == 0),
    {
        self.soft_limit_ms == 0 && self.hard_limit_ms == 0
    }
}

/// Heap figures reported by an isolate when it is interrupted.
pub struct IsolateMemoryStats {
    pub used_heap_size: usize,
    pub external_memory: usize,
}

/// CPU time of a worker, in nanoseconds, reported when it leaves a thread.
pub struct CPUUsage {
    pub accumulated: i64,
    pub diff: i64,
}

/// What woke the supervisor.
#[derive(Clone, Copy, Debug, PartialEq, Eq, Structural)]
pub enum SupervisorEvent {
    /// The supervisor's own cancellation token fired.
    SuperviseCancelled,
    /// An outside party asked for the worker's termination.
    TerminationRequested,
    /// The worker started running on a thread.
    CpuEnter,
    /// The worker stopped running; `accumulated` is its CPU time in
    /// nanoseconds and `demand` the number of requests handed to it so far.
    CpuLeave { accumulated: i64, demand: usize },
    /// The armed CPU timer signalled that a limit elapsed.
    CpuTimerFired { demand: usize },
    /// A request handled by the worker completed.
    RequestEnded { demand: usize },
    /// The wall-clock interval ticked (its first tick is immediate).
    WallClockTick { demand: usize },
    /// The worker went over its memory limit.
    MemoryLimitReached,
}

/// A message worth logging, with what it reports.
#[derive(Clone, Copy, Debug, PartialEq, Eq, Structural)]
pub enum Notice {
    CpuSoftLimitReached,
    CpuHardLimitReached,
    EarlyTermination,
    WallClockWarning,
    WallClockReached { in_flight_requests: bool },
    MemoryLimitReached,
}

/// One thing the caller must do, in the order given.
#[derive(Clone, Copy, Debug, PartialEq, Eq, Structural)]
pub enum Effect {
    /// Install the CPU timer's channel and reset the timer to the limits.
    ArmCpuTimer,
    /// Mark the worker as retired: it takes no further requests.
    RaiseRetire,
    /// Tell the worker pool that the worker is idle.
    SendIdle,
    /// Interrupt the isolate and terminate its execution.
    Terminate,
    /// Log the notice.
    Log(Notice),
}

/// The supervisor's state, as a mathematical value.
pub struct SupervisorView {
    pub soft_limit_ms: u64,
    pub hard_limit_ms: u64,
    pub wall_clock_limit_ms: u64,
    pub entered: bool,
    pub cpu_usage_ms: i64,
    pub timer_armed: bool,
    pub soft_limit_reached: bool,
    pub wall_clock_alerts: nat,
    pub req_ack_count: nat,
    pub retired: bool,
    pub outcome: Option<(ShutdownReason, i64)>,
}

pub open spec fn cpu_limits_enabled(v: SupervisorView) -> bool {
    !(v.soft_limit_ms == 0 && v.hard_limit_ms == 0)
}

pub open spec fn wall_clock_enabled(v: SupervisorView) -> bool {
    v.wall_clock_limit_ms != 0
}

/// CPU time in milliseconds from an accumulated CPU time in nanoseconds,
/// rounded toward zero.
pub open spec fn nanos_to_millis(accumulated: i64) -> int {
    if accumulated >= 0 {
        accumulated / 1_000_000
    } else {
        -((-accumulated) / 1_000_000)
    }
}

/// The state a fresh supervisor starts in.
pub open spec fn initial_view(soft_limit_ms: u64, hard_limit_ms: u64, wall_clock_limit_ms: u64) -> SupervisorView {
    SupervisorView {
        soft_limit_ms,
        hard_limit_ms,
        wall_clock_limit_ms,
        entered: false,
        cpu_usage_ms: 0,
        timer_armed: false,
        soft_limit_reached: false,
        wall_clock_alerts: 0,
        req_ack_count: 0,
        retired: false,
        outcome: None,
    }
}

/// The invariant that every reachable state keeps.
pub open spec fn view_wf(v: SupervisorView) -> bool {
    &&& v.wall_clock_alerts <= 2
    &&& v.req_ack_count <= usize::MAX
    &&& v.soft_limit_reached ==> v.retired
    &&& v.wall_clock_alerts == 2 ==> v.retired
    &&& v.timer_armed ==> cpu_limits_enabled(v)
    &&& v.outcome is Some ==> v.retired
}

/// Whether the event can reach a supervisor in this state: supervision has
/// not ended, the worker cannot enter twice or leave without entering, the
/// CPU timer only fires once armed, the wall clock only ticks when it is
/// limited, and the completed-request count still fits a `usize`.
pub open spec fn event_possible(v: SupervisorView, e: SupervisorEvent) -> bool {
    &&& v.outcome is None
    &&& match e {
        SupervisorEvent::CpuEnter => !v.entered,
        SupervisorEvent::CpuLeave { .. } => v.entered,
        SupervisorEvent::CpuTimerFired { .. } => v.timer_armed,
        SupervisorEvent::WallClockTick { .. } => wall_clock_enabled(v),
        SupervisorEvent::RequestEnded { .. } => v.req_ack_count < usize::MAX,
        _ => true,
    }
}

/// Ends supervision for `reason`; the retire flag is raised on the way out.
pub open spec fn finish(v: SupervisorView, reason: ShutdownReason, fx: Seq<Effect>) -> (SupervisorView, Seq<Effect>) {
    (
        SupervisorView { outcome: Some((reason, v.cpu_usage_ms)), retired: true, ..v },
        fx.push(Effect::RaiseRetire),
    )
}

/// Terminates the isolate, logs `notice` and ends supervision for `reason`.
pub open spec fn terminate(v: SupervisorView, reason: ShutdownReason, notice: Notice, fx: Seq<Effect>) -> (SupervisorView, Seq<Effect>) {
    finish(v, reason, fx.push(Effect::Terminate).push(Effect::Log(notice)))
}

/// The first time the soft CPU limit is reached: retire the worker, and
/// terminate it at once when every request it was given has completed.
pub open spec fn reach_soft_limit(v: SupervisorView, demand: usize, fx: Seq<Effect>) -> (SupervisorView, Seq<Effect>) {
    let v1 = SupervisorView { retired: true, soft_limit_reached: true, ..v };
    let fx1 = fx.push(Effect::RaiseRetire).push(Effect::Log(Notice::CpuSoftLimitReached));
    if v.req_ack_count == demand {
        terminate(v1, ShutdownReason::EarlyDrop, Notice::EarlyTermination, fx1)
    } else {
        (v1, fx1)
    }
}

/// What the supervisor does on an event: its next state and the effects.
pub open spec fn transition(v: SupervisorView, e: SupervisorEvent) -> (SupervisorView, Seq<Effect>) {
    let none = Seq::<Effect>::empty();
    match e {
        SupervisorEvent::SuperviseCancelled => finish(v, ShutdownReason::TerminationRequested, none),
        SupervisorEvent::TerminationRequested => finish(
            v,
            ShutdownReason::TerminationRequested,
            none.push(Effect::Terminate),
        ),
        SupervisorEvent::CpuEnter => {
            if cpu_limits_enabled(v) {
                (SupervisorView { entered: true, timer_armed: true, ..v }, none.push(Effect::ArmCpuTimer))
            } else {
                (SupervisorView { entered: true, ..v }, none)
            }
        },
        SupervisorEvent::CpuLeave { accumulated, demand } => {
            let v1 = SupervisorView {
                entered: false,
                cpu_usage_ms: nanos_to_millis(accumulated) as i64,
                ..v
            };
            if !cpu_limits_enabled(v) {
                (v1, none)
            } else if v1.cpu_usage_ms >= v.hard_limit_ms as i64 {
                terminate(v1, ShutdownReason::CPUTime, Notice::CpuHardLimitReached, none)
            } else if v1.cpu_usage_ms >= v.soft_limit_ms as i64 && !v.soft_limit_reached {
                reach_soft_limit(v1, demand, none)
            } else {
                (v1, none)
            }
        },
        SupervisorEvent::CpuTimerFired { demand } => {
            if !v.entered {
                (v, none)
            } else if !v.soft_limit_reached {
                reach_soft_limit(v, demand, none)
            } else {
                terminate(v, ShutdownReason::CPUTime, Notice::CpuHardLimitReached, none)
            }
        },
        SupervisorEvent::RequestEnded { demand } => {
            let v1 = SupervisorView { req_ack_count: v.req_ack_count + 1, ..v };
            let fx = if !v.soft_limit_reached { none.push(Effect::SendIdle) } else { none };
            if !v.soft_limit_reached || v1.req_ack_count != demand {
                (v1, fx)
            } else {
                terminate(v1, ShutdownReason::EarlyDrop, Notice::EarlyTermination, fx)
            }
        },
        SupervisorEvent::WallClockTick { demand } => {
            if v.wall_clock_alerts == 0 {
                (SupervisorView { wall_clock_alerts: 1, ..v }, none)
            } else if v.wall_clock_alerts == 1 {
                (
                    SupervisorView { wall_clock_alerts: 2, retired: true, ..v },
                    none.push(Effect::RaiseRetire).push(Effect::Log(Notice::WallClockWarning)),
                )
            } else {
                terminate(
                    v,
                    ShutdownReason::WallClockTime,
                    Notice::WallClockReached { in_flight_requests: v.req_ack_count != demand },
                    none,
                )
            }
        },
        SupervisorEvent::MemoryLimitReached => terminate(
            v,
            ShutdownReason::Memory,
            Notice::MemoryLimitReached,
            none,
        ),
    }
}


/// The demand carried by an event, where it carries one.
pub open spec fn event_demand(e: SupervisorEvent) -> Option<usize> {
    match e {
        SupervisorEvent::CpuLeave { demand, .. } => Some(demand),
        SupervisorEvent::CpuTimerFired { demand } => Some(demand),
        SupervisorEvent::RequestEnded { demand } => Some(demand),
        SupervisorEvent::WallClockTick { demand } => Some(demand),
        _ => None,
    }
}

/// A fresh supervisor is well formed.
pub proof fn lemma_initial_wf(soft_limit_ms: u64, hard_limit_ms: u64, wall_clock_limit_ms: u64)
    ensures
        view_wf(initial_view(soft_limit_ms, hard_limit_ms, wall_clock_limit_ms)),
{
}

/// Every event keeps the supervisor well formed: at most two wall-clock
/// alerts, a reached soft limit or a wall-clock warning has retired the
/// worker, the CPU timer is armed only when CPU limits are set, and a
/// finished supervision has retired the worker.
pub proof fn lemma_transition_wf(v: SupervisorView, e: SupervisorEvent)
    requires
        view_wf(v),
        event_possible(v, e),
    ensures
        view_wf(transition(v, e).0),
{
}

/// The limits never change, and the soft-limit flag, the retire flag, the
/// wall-clock alert count and the completed-request count never go back;
/// the count grows by one on each completed request and only then.
pub proof fn lemma_transition_monotone(v: SupervisorView, e: SupervisorEvent)
    requires
        view_wf(v),
        event_possible(v, e),
    ensures
        ({
            let w = transition(v, e).0;
            &&& w.soft_limit_ms == v.soft_limit_ms
            &&& w.hard_limit_ms == v.hard_limit_ms
            &&& w.wall_clock_limit_ms == v.wall_clock_limit_ms
            &&& v.soft_limit_reached ==> w.soft_limit_reached
            &&& v.retired ==> w.retired
            &&& v.wall_clock_alerts <= w.wall_clock_alerts
            &&& w.req_ack_count == (if e is RequestEnded { v.req_ack_count + 1 } else { v.req_ack_count })
        }),
{
}

/// The isolate is told to terminate exactly when supervision ends, unless it
/// ends because the supervisor itself was cancelled; and when supervision
/// ends the worker is left retired, the retire flag being the last effect.
pub proof fn lemma_terminate_iff_finished(v: SupervisorView, e: SupervisorEvent)
    requires
        view_wf(v),
        event_possible(v, e),
    ensures
        ({
            let (w, fx) = transition(v, e);
            &&& fx.contains(Effect::Terminate) <==> (w.outcome is Some && e != SupervisorEvent::SuperviseCancelled)
            &&& w.outcome is Some ==> w.retired && fx.len() > 0 && fx.last() == Effect::RaiseRetire
            &&& w.outcome is Some ==> w.outcome.unwrap().1 == w.cpu_usage_ms
        }),
{
    broadcast use vstd::seq_lib::group_seq_properties;
    let (w, fx) = transition(v, e);
    if fx.contains(Effect::Terminate) {
        let i = choose|i: int| 0 <= i < fx.len() && fx[i] == Effect::Terminate;
        assert(fx[i] == Effect::Terminate);
    }
    match e {
        SupervisorEvent::TerminationRequested => {
            assert(fx[0] == Effect::Terminate);
        },
        SupervisorEvent::CpuLeave { accumulated, demand } => {
            if w.outcome is Some {
                assert(fx.contains(Effect::Terminate)) by {
                    if w.outcome.unwrap().0 == ShutdownReason::CPUTime {
                        assert(fx[0] == Effect::Terminate);
                    } else {
                        assert(fx[2] == Effect::Terminate);
                    }
                }
            }
        },
        SupervisorEvent::CpuTimerFired { demand } => {
            if w.outcome is Some {
                assert(fx.contains(Effect::Terminate)) by {
                    if v.soft_limit_reached {
                        assert(fx[0] == Effect::Terminate);
                    } else {
                        assert(fx[2] == Effect::Terminate);
                    }
                }
            }
        },
        SupervisorEvent::RequestEnded { demand } => {
            if w.outcome is Some {
                assert(fx[0] == Effect::Terminate);
            }
        },
        SupervisorEvent::WallClockTick { demand } => {
            if w.outcome is Some {
                assert(fx[0] == Effect::Terminate);
            }
        },
        SupervisorEvent::MemoryLimitReached => {
            assert(fx[0] == Effect::Terminate);
        },
        _ => {},
    }
}

/// Without CPU limits, CPU events never retire, terminate or stop the worker.
pub proof fn lemma_cpu_limits_disabled(v: SupervisorView, e: SupervisorEvent)
    requires
        view_wf(v),
        event_possible(v, e),
        !cpu_limits_enabled(v),
        e is CpuEnter || e is CpuLeave || e is CpuTimerFired,
    ensures
        transition(v, e).0.outcome is None,
        transition(v, e).0.retired == v.retired,
        transition(v, e).1.len() == 0,
{
}

/// With CPU limits set, a worker that leaves its thread having used, in
/// milliseconds, less CPU time than both limits is neither retired nor
/// stopped, and nothing is done but recording the CPU time.
pub proof fn lemma_cpu_below_limits(v: SupervisorView, accumulated: i64, demand: usize)
    requires
        view_wf(v),
        event_possible(v, SupervisorEvent::CpuLeave { accumulated, demand }),
        nanos_to_millis(accumulated) < v.soft_limit_ms as i64,
        nanos_to_millis(accumulated) < v.hard_limit_ms as i64,
    ensures
        ({
            let (w, fx) = transition(v, SupervisorEvent::CpuLeave { accumulated, demand });
            &&& fx.len() == 0
            &&& w.outcome is None
            &&& w.retired == v.retired
            &&& w.soft_limit_reached == v.soft_limit_reached
            &&& !w.entered
            &&& w.cpu_usage_ms == nanos_to_millis(accumulated)
        }),
{
}

/// Leaving a thread reaches the soft limit, ends supervision or retires the
/// worker only when the CPU time used, in milliseconds, is at least the
/// soft or the hard limit; it stops the worker for CPU time only at the
/// hard limit, and reaches the soft limit only at the soft limit.
pub proof fn lemma_cpu_leave_needs_limit(v: SupervisorView, accumulated: i64, demand: usize)
    requires
        view_wf(v),
        event_possible(v, SupervisorEvent::CpuLeave { accumulated, demand }),
    ensures
        ({
            let (w, fx) = transition(v, SupervisorEvent::CpuLeave { accumulated, demand });
            let ms = nanos_to_millis(accumulated);
            &&& (w.outcome is Some || (w.retired && !v.retired) || fx.len() > 0) ==> (ms
                >= v.soft_limit_ms as i64 || ms >= v.hard_limit_ms as i64)
            &&& (w.soft_limit_reached && !v.soft_limit_reached) ==> ms >= v.soft_limit_ms as i64
            &&& (w.outcome is Some && w.outcome.unwrap().0 == ShutdownReason::CPUTime) ==> ms >= v.hard_limit_ms as i64
            &&& w.cpu_usage_ms == ms
        }),
{
}

/// With CPU limits set, a worker that leaves its thread having used at least
/// its hard limit of CPU time is stopped for CPU time, reporting that usage.
pub proof fn lemma_hard_limit_stops(v: SupervisorView, accumulated: i64, demand: usize)
    requires
        view_wf(v),
        event_possible(v, SupervisorEvent::CpuLeave { accumulated, demand }),
        cpu_limits_enabled(v),
        nanos_to_millis(accumulated) >= v.hard_limit_ms as i64,
    ensures
        transition(v, SupervisorEvent::CpuLeave { accumulated, demand }).0.outcome
            == Some((ShutdownReason::CPUTime, nanos_to_millis(accumulated) as i64)),
{
}

/// A worker is dropped early only after it reached its soft CPU limit and
/// every request handed to it has completed.
pub proof fn lemma_early_drop_only_when_drained(v: SupervisorView, e: SupervisorEvent)
    requires
        view_wf(v),
        event_possible(v, e),
        transition(v, e).0.outcome matches Some((r, _)) && r == ShutdownReason::EarlyDrop,
    ensures
        transition(v, e).0.soft_limit_reached,
        event_demand(e) == Some(transition(v, e).0.req_ack_count as usize),
{
}

/// The pool hears that the worker is idle exactly when a request completes
/// before the soft CPU limit was reached.
pub proof fn lemma_idle_before_soft_limit(v: SupervisorView, e: SupervisorEvent)
    requires
        view_wf(v),
        event_possible(v, e),
    ensures
        transition(v, e).1.contains(Effect::SendIdle) <==> (e is RequestEnded && !v.soft_limit_reached),
{
    broadcast use vstd::seq_lib::group_seq_properties;
    let fx = transition(v, e).1;
    if fx.contains(Effect::SendIdle) {
        let i = choose|i: int| 0 <= i < fx.len() && fx[i] == Effect::SendIdle;
        assert(fx[i] == Effect::SendIdle);
    }
    if e is RequestEnded && !v.soft_limit_reached {
        assert(fx[0] == Effect::SendIdle);
    }
}

/// The wall clock: the first tick does nothing, the second retires the
/// worker with a warning, the third stops it for wall-clock time.
pub proof fn lemma_wall_clock_ticks(v: SupervisorView, demand: usize)
    requires
        view_wf(v),
        event_possible(v, SupervisorEvent::WallClockTick { demand }),
    ensures
        ({
            let (w, fx) = transition(v, SupervisorEvent::WallClockTick { demand });
            &&& v.wall_clock_alerts == 0 ==> w == SupervisorView { wall_clock_alerts: 1, ..v } && fx.len() == 0
            &&& v.wall_clock_alerts == 1 ==> w.retired && w.outcome is None && w.wall_clock_alerts == 2
            &&& v.wall_clock_alerts == 2 ==> w.outcome == Some((ShutdownReason::WallClockTime, v.cpu_usage_ms))
        }),
{
}

/// From a fresh supervisor limited by the wall clock, three ticks in a row
/// stop the worker for wall-clock time, whatever the demand at each tick.
pub proof fn lemma_three_ticks_stop(
    soft_limit_ms: u64,
    hard_limit_ms: u64,
    wall_clock_limit_ms: u64,
    d1: usize,
    d2: usize,
    d3: usize,
)
    requires
        wall_clock_limit_ms != 0,
    ensures
        ({
            let v0 = initial_view(soft_limit_ms, hard_limit_ms, wall_clock_limit_ms);
            let v1 = transition(v0, SupervisorEvent::WallClockTick { demand: d1 }).0;
            let v2 = transition(v1, SupervisorEvent::WallClockTick { demand: d2 }).0;
            let v3 = transition(v2, SupervisorEvent::WallClockTick { demand: d3 }).0;
            &&& v1.outcome is None
            &&& v2.outcome is None && v2.retired
            &&& v3.outcome == Some((ShutdownReason::WallClockTime, 0i64))
        }),
{
}


/// The wall-clock limit actually enforced, in milliseconds: at least 2.
pub open spec fn effective_wall_clock_ms(wall_clock_limit_ms: u64) -> nat {
    if wall_clock_limit_ms < 2 { 2 } else { wall_clock_limit_ms as nat }
}

/// The period of the wall-clock interval, as whole seconds and the
/// nanoseconds past them: half the wall-clock limit, the limit being taken
/// as at least 2 ms. The interval's first tick is immediate and does
/// nothing; one period later the worker is warned and retired, two periods
/// later it is stopped.
pub fn wall_clock_alert_interval(wall_clock_limit_ms: u64) -> (r: (u64, u32))
    ensures
        r.1 < 1_000_000_000,
        r.0 as nat * 1_000_000_000 + r.1 as nat == effective_wall_clock_ms(wall_clock_limit_ms) * 500_000,
        2 * (r.0 as nat * 1_000_000_000 + r.1 as nat) == effective_wall_clock_ms(wall_clock_limit_ms) * 1_000_000,
{
    let ms: u64 = if wall_clock_limit_ms < 2 { 2 } else { wall_clock_limit_ms };
    let secs: u64 = ms / 2000;
    let rem: u64 = ms % 2000;
    let nanos: u64 = rem * 500_000;
    assert(nanos < 1_000_000_000);
    assert(secs as nat * 1_000_000_000 + nanos as nat == ms as nat * 500_000) by (nonlinear_arith)
        requires
            secs == ms / 2000,
            rem == ms % 2000,
            nanos == rem * 500_000,
    {
    }
    (secs, nanos as u32)
}

/// The decisions of a worker's supervisor.
pub struct Supervisor {
    cpu_timer_param: CPUTimerParam,
    wall_clock_limit_ms: u64,
    is_worker_entered: bool,
    cpu_usage_ms: i64,
    timer_armed: bool,
    cpu_time_soft_limit_reached: bool,
    wall_clock_alerts: u8,
    req_ack_count: usize,
    retired: bool,
    outcome: Option<(ShutdownReason, i64)>,
}

impl View for Supervisor {
    type V = SupervisorView;

    closed spec fn view(&self) -> SupervisorView {
        SupervisorView {
            soft_limit_ms: self.cpu_timer_param.soft_limit_ms,
            hard_limit_ms: self.cpu_timer_param.hard_limit_ms,
            wall_clock_limit_ms: self.wall_clock_limit_ms,
            entered: self.is_worker_entered,
            cpu_usage_ms: self.cpu_usage_ms,
            timer_armed: self.timer_armed,
            soft_limit_reached: self.cpu_time_soft_limit_reached,
            wall_clock_alerts: self.wall_clock_alerts as nat,
            req_ack_count: self.req_ack_count as nat,
            retired: self.retired,
            outcome: self.outcome,
        }
    }
}

impl Supervisor {
    /// Every supervisor is well formed.
    #[verifier::type_invariant]
    spec fn inv(self) -> bool {
        view_wf(self@)
    }

    /// A supervisor for a worker with these CPU limits and this wall-clock
    /// limit in milliseconds (zero: no wall-clock limit).
    pub fn new(cpu_timer_param: CPUTimerParam, wall_clock_limit_ms: u64) -> (r: Self)
        ensures
            r@ == initial_view(cpu_timer_param@.0, cpu_timer_param@.1, wall_clock_limit_ms),
            view_wf(r@),
    {
        Supervisor {
            cpu_timer_param,
            wall_clock_limit_ms,
            is_worker_entered: false,
            cpu_usage_ms: 0,
            timer_armed: false,
            cpu_time_soft_limit_reached: false,
            wall_clock_alerts: 0,
            req_ack_count: 0,
            retired: false,
            outcome: None,
        }
    }

    /// The reason supervision ended and the CPU time used, in milliseconds,
    /// once it has ended.
    pub fn outcome(&self) -> (r: Option<(ShutdownReason, i64)>)
        ensures
            r == self@.outcome,
    {
        self.outcome
    }

    /// Whether the wall clock limits this worker.
    pub fn is_wall_clock_limited(&self) -> (r: bool)
        ensures
            r == wall_clock_enabled(self@),
    {
        self.wall_clock_limit_ms != 0
    }

    /// Whether the CPU timer has been armed.
    pub fn is_cpu_timer_armed(&self) -> (r: bool)
        ensures
            r == self@.timer_armed,
    {
        self.timer_armed
    }

    /// Whether the worker is running on a thread.
    pub fn is_worker_entered(&self) -> (r: bool)
        ensures
            r == self@.entered,
    {
        self.is_worker_entered
    }

    /// Whether `event` can reach the supervisor now.
    pub fn accepts(&self, event: SupervisorEvent) -> (r: bool)
        ensures
            r == event_possible(self@, event),
    {
        if self.outcome.is_some() {
            return false;
        }
        match event {
            SupervisorEvent::CpuEnter => !self.is_worker_entered,
            SupervisorEvent::CpuLeave { .. } => self.is_worker_entered,
            SupervisorEvent::CpuTimerFired { .. } => self.timer_armed,
            SupervisorEvent::WallClockTick { .. } => self.wall_clock_limit_ms != 0,
            SupervisorEvent::RequestEnded { .. } => self.req_ack_count < usize::MAX,
            _ => true,
        }
    }

    fn end(&mut self, reason: ShutdownReason, effects: &mut Vec<Effect>)
        ensures
            (final(self)@, final(effects)@) == finish(old(self)@, reason, old(effects)@),
    {
        proof {
            use_type_invariant(&*self);
        }
        self.retired = true;
        self.outcome = Some((reason, self.cpu_usage_ms));
        effects.push(Effect::RaiseRetire);
    }

    fn terminate_for(&mut self, reason: ShutdownReason, notice: Notice, effects: &mut Vec<Effect>)
        ensures
            (final(self)@, final(effects)@) == terminate(old(self)@, reason, notice, old(effects)@),
    {
        effects.push(Effect::Terminate);
        effects.push(Effect::Log(notice));
        self.end(reason, effects);
    }

    fn reach_soft_limit(&mut self, demand: usize, effects: &mut Vec<Effect>)
        ensures
            (final(self)@, final(effects)@) == reach_soft_limit(old(self)@, demand, old(effects)@),
    {
        proof {
            use_type_invariant(&*self);
        }
        self.retired = true;
        self.cpu_time_soft_limit_reached = true;
        effects.push(Effect::RaiseRetire);
        effects.push(Effect::Log(Notice::CpuSoftLimitReached));
        if self.req_ack_count == demand {
            self.terminate_for(ShutdownReason::EarlyDrop, Notice::EarlyTermination, effects);
        }
    }

    /// Handles one event: the supervisor moves to its next state and answers
    /// with the effects to perform, in order.
    pub fn step(&mut self, event: SupervisorEvent) -> (effects: Vec<Effect>)
        requires
            event_possible(old(self)@, event),
        ensures
            (final(self)@, effects@) == transition(old(self)@, event),
            view_wf(final(self)@),
            event matches SupervisorEvent::CpuLeave { accumulated, .. } ==> final(self)@.cpu_usage_ms
                == nanos_to_millis(accumulated),
            event matches SupervisorEvent::CpuLeave { accumulated, .. } ==> ((
            nanos_to_millis(accumulated) < old(self)@.soft_limit_ms as i64 && nanos_to_millis(
                accumulated,
            ) < old(self)@.hard_limit_ms as i64) ==> effects@.len() == 0 && final(self)@.outcome is None
                && final(self)@.retired == old(self)@.retired && final(self)@.soft_limit_reached
                == old(self)@.soft_limit_reached),
    {
        proof {
            use_type_invariant(&*self);
            lemma_transition_wf(self@, event);
            if let SupervisorEvent::CpuLeave { accumulated, demand } = event {
                lemma_cpu_leave_needs_limit(self@, accumulated, demand);
            }
        }
        let mut effects: Vec<Effect> = Vec::new();
        match event {
            SupervisorEvent::SuperviseCancelled => {
                self.end(ShutdownReason::TerminationRequested, &mut effects);
            },
            SupervisorEvent::TerminationRequested => {
                effects.push(Effect::Terminate);
                self.end(ShutdownReason::TerminationRequested, &mut effects);
            },
            SupervisorEvent::CpuEnter => {
                self.is_worker_entered = true;
                if !self.cpu_timer_param.is_disabled() {
                    self.timer_armed = true;
                    effects.push(Effect::ArmCpuTimer);
                }
            },
            SupervisorEvent::CpuLeave { accumulated, demand } => {
                self.is_worker_entered = false;
                self.cpu_usage_ms = accumulated / 1_000_000;
                if !self.cpu_timer_param.is_disabled() {
                    let (soft_limit_ms, hard_limit_ms) = self.cpu_timer_param.limits();
                    if self.cpu_usage_ms >= hard_limit_ms as i64 {
                        self.terminate_for(
                            ShutdownReason::CPUTime,
                            Notice::CpuHardLimitReached,
                            &mut effects,
                        );
                    } else if self.cpu_usage_ms >= soft_limit_ms as i64
                        && !self.cpu_time_soft_limit_reached {
                        self.reach_soft_limit(demand, &mut effects);
                    }
                }
            },
            SupervisorEvent::CpuTimerFired { demand } => {
                if self.is_worker_entered {
                    if !self.cpu_time_soft_limit_reached {
                        self.reach_soft_limit(demand, &mut effects);
                    } else {
                        self.terminate_for(
                            ShutdownReason::CPUTime,
                            Notice::CpuHardLimitReached,
                            &mut effects,
                        );
                    }
                }
            },
            SupervisorEvent::RequestEnded { demand } => {
                self.req_ack_count = self.req_ack_count + 1;
                if !self.cpu_time_soft_limit_reached {
                    effects.push(Effect::SendIdle);
                }
                if self.cpu_time_soft_limit_reached && self.req_ack_count == demand {
                    self.terminate_for(
                        ShutdownReason::EarlyDrop,
                        Notice::EarlyTermination,
                        &mut effects,
                    );
                }
            },
            SupervisorEvent::WallClockTick { demand } => {
                if self.wall_clock_alerts == 0 {
                    self.wall_clock_alerts = 1;
                } else if self.wall_clock_alerts == 1 {
                    self.retired = true;
                    effects.push(Effect::RaiseRetire);
                    effects.push(Effect::Log(Notice::WallClockWarning));
                    self.wall_clock_alerts = 2;
                } else {
                    let in_flight_requests = self.req_ack_count != demand;
                    self.terminate_for(
                        ShutdownReason::WallClockTime,
                        Notice::WallClockReached { in_flight_requests },
                        &mut effects,
                    );
                }
            },
            SupervisorEvent::MemoryLimitReached => {
                self.terminate_for(ShutdownReason::Memory, Notice::MemoryLimitReached, &mut effects);
            },
        }
        effects
    }
}

} // verus!
