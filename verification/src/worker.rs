//! The decisions a worker makes when it is started: where it runs, what
//! watches over it, and what its end reports.
use vstd::prelude::*;

verus! {

/// The kinds of worker a runtime runs.
#[derive(Debug, Copy, Clone, PartialEq, Eq, Structural)]
pub enum WorkerKind {
    MainWorker,
    EventsWorker,
    UserWorker,
}

/// The thread pool a worker runs on.
#[derive(Debug, Copy, Clone, PartialEq, Eq, Structural)]
pub enum WorkerRuntime {
    UserWorker,
    PrimaryWorker,
}

/// What ends a worker from outside.
#[derive(Debug, Copy, Clone, PartialEq, Eq, Structural)]
pub enum TerminationPlan {
    /// A supervisor enforces the worker's limits.
    Supervise,
    /// A task waits for the termination token, then interrupts the isolate
    /// and reports a requested shutdown.
    WatchToken,
    /// Nothing: the worker runs until it ends by itself.
    Never,
}

/// The metrics a worker publishes.
#[derive(Debug, Copy, Clone, PartialEq, Eq, Structural)]
pub enum MetricSourceKind {
    /// The whole runtime's, published by the main worker.
    Runtime,
    /// The worker's own.
    Worker,
}

/// How a worker's run ended.
pub enum WorkerResult {
    Shutdown { cpu_time_used: i64 },
    UncaughtException { cpu_time_used: i64, exception: String },
    EventLoopCompleted { cpu_time_used: i64 },
    /// Another event, which reports no CPU time.
    OtherEvent,
    /// The run failed with this error message.
    Failed(String),
}

/// An exception that ended a worker.
pub struct UncaughtExceptionEvent {
    pub cpu_time_used: i64,
    pub exception: String,
}

pub fn runtime_for(kind: WorkerKind) -> (r: WorkerRuntime)
    ensures
        r == if kind == WorkerKind::UserWorker { WorkerRuntime::UserWorker } else { WorkerRuntime::PrimaryWorker },
{
    match kind {
        WorkerKind::UserWorker => WorkerRuntime::UserWorker,
        _ => WorkerRuntime::PrimaryWorker,
    }
}

/// User workers are supervised; other workers are watched when they were
/// given a termination token.
pub fn termination_plan(kind: WorkerKind, has_termination_token: bool) -> (r: TerminationPlan)
    ensures
        r == if kind == WorkerKind::UserWorker {
            TerminationPlan::Supervise
        } else if has_termination_token {
            TerminationPlan::WatchToken
        } else {
            TerminationPlan::Never
        },
{
    match kind {
        WorkerKind::UserWorker => TerminationPlan::Supervise,
        _ => if has_termination_token {
            TerminationPlan::WatchToken
        } else {
            TerminationPlan::Never
        },
    }
}

/// Whether, once its run is over, the worker waits for its termination
/// watch to finish and then signals that it is gone: only a worker that is
/// not a user worker and holds a termination token.
pub fn awaits_termination_watch(kind: WorkerKind, has_termination_token: bool) -> (r: bool)
    ensures
        r == (has_termination_token && kind != WorkerKind::UserWorker),
{
    has_termination_token && !(kind == WorkerKind::UserWorker)
}

pub fn metric_source_kind(kind: WorkerKind) -> (r: MetricSourceKind)
    ensures
        r == if kind == WorkerKind::MainWorker { MetricSourceKind::Runtime } else { MetricSourceKind::Worker },
{
    match kind {
        WorkerKind::MainWorker => MetricSourceKind::Runtime,
        _ => MetricSourceKind::Worker,
    }
}

/// The exception to record as the worker's exit status: the uncaught
/// exception it ended with, or its failure with no CPU time; none when it
/// ended otherwise.
pub fn uncaught_exception_of(result: &WorkerResult) -> (r: Option<UncaughtExceptionEvent>)
    ensures
        match result {
            WorkerResult::UncaughtException { cpu_time_used, exception } => r matches Some(e)
                && e.cpu_time_used == cpu_time_used && e.exception@ == exception@,
            WorkerResult::Failed(message) => r matches Some(e) && e.cpu_time_used == 0
                && e.exception@ == message@,
            _ => r is None,
        },
{
    match result {
        WorkerResult::UncaughtException { cpu_time_used, exception } => Some(
            UncaughtExceptionEvent { cpu_time_used: *cpu_time_used, exception: exception.clone() },
        ),
        WorkerResult::Failed(message) => Some(
            UncaughtExceptionEvent { cpu_time_used: 0, exception: message.clone() },
        ),
        _ => None,
    }
}

/// The CPU time the worker's end reports, if it reports one.
pub fn cpu_time_used(result: &WorkerResult) -> (r: Option<i64>)
    ensures
        r == match result {
            WorkerResult::Shutdown { cpu_time_used } => Some(*cpu_time_used),
            WorkerResult::UncaughtException { cpu_time_used, .. } => Some(*cpu_time_used),
            WorkerResult::EventLoopCompleted { cpu_time_used } => Some(*cpu_time_used),
            _ => None,
        },
{
    match result {
        WorkerResult::Shutdown { cpu_time_used } => Some(*cpu_time_used),
        WorkerResult::UncaughtException { cpu_time_used, .. } => Some(*cpu_time_used),
        WorkerResult::EventLoopCompleted { cpu_time_used } => Some(*cpu_time_used),
        _ => None,
    }
}

} // verus!
