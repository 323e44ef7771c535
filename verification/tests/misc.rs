use edge_runtime::cli::{
    decorator_from_lowercase, get_decorator_option, get_inspector_option,
    user_worker_max_parallelism, DecoratorType, InspectorKind,
};
use edge_runtime::compile_fs::{DenoCompileFileSystem, FsOp, FsRoute};
use edge_runtime::emitter::{lock_file_settings, LockfileOpts};
use edge_runtime::s3_fs::{S3Fs, S3Outcome};
use std::sync::Arc;

#[test]
fn decorator_option_any_case() {
    assert_eq!(get_decorator_option(Some("TC39")), Some(DecoratorType::Tc39));
    assert_eq!(get_decorator_option(Some("TypeScript")), Some(DecoratorType::Typescript));
    assert_eq!(
        get_decorator_option(Some("typescript_with_metadata")),
        Some(DecoratorType::TypescriptWithMetadata)
    );
    assert_eq!(get_decorator_option(Some("babel")), None);
    assert_eq!(get_decorator_option(None), None);
    assert_eq!(decorator_from_lowercase("TC39"), None);
}

#[test]
fn inspector_keys() {
    assert!(matches!(get_inspector_option("inspect"), Ok(InspectorKind::Inspect)));
    assert!(matches!(get_inspector_option("inspect-brk"), Ok(InspectorKind::WithBreak)));
    assert!(matches!(get_inspector_option("inspect-wait"), Ok(InspectorKind::WithWait)));
    match get_inspector_option("inspect-now") {
        Err(e) => assert_eq!(e.key, "inspect-now"),
        Ok(_) => panic!("expected an invalid key"),
    }
}

#[test]
fn oneshot_forces_single_worker() {
    assert_eq!(user_worker_max_parallelism(true, Some(4)), (Some(1), true));
    assert_eq!(user_worker_max_parallelism(true, Some(0)), (Some(1), true));
    assert_eq!(user_worker_max_parallelism(true, Some(1)), (Some(1), false));
    assert_eq!(user_worker_max_parallelism(true, None), (Some(1), false));
    assert_eq!(user_worker_max_parallelism(false, Some(4)), (Some(4), false));
    assert_eq!(user_worker_max_parallelism(false, None), (None, false));
}

#[test]
fn compile_fs_keeps_vfs_read_only() {
    let fs = DenoCompileFileSystem::new(7u32);
    assert_eq!(*fs.file_backed_vfs(), 7);
    let shared = DenoCompileFileSystem::from_rc(Arc::new(9u32));
    assert_eq!(*shared.file_backed_vfs(), 9);
    assert_eq!(fs.route(FsOp::Stat, true, false), FsRoute::Vfs);
    assert_eq!(fs.route(FsOp::Stat, false, false), FsRoute::RealFs);
    assert_eq!(fs.route(FsOp::Mkdir, true, false), FsRoute::NotSupported);
    assert_eq!(fs.route(FsOp::CopyFile, true, false), FsRoute::CopyFromVfs);
    assert_eq!(fs.route(FsOp::CopyFile, false, true), FsRoute::NotSupported);
    assert_eq!(fs.route(FsOp::Cp, true, false), FsRoute::RealFs);
    assert_eq!(fs.route(FsOp::Rename, false, true), FsRoute::NotSupported);
    assert_eq!(fs.route(FsOp::Cwd, true, true), FsRoute::RealFs);
}

#[test]
fn s3_fs_outcomes() {
    let fs = S3Fs::new("bucket".to_string());
    assert_eq!(fs.bucket_name(), "bucket");
    assert_eq!(fs.outcome(FsOp::Mkdir, false), S3Outcome::Succeeds);
    assert_eq!(fs.outcome(FsOp::ReadDir, true), S3Outcome::ListObjects);
    assert_eq!(fs.outcome(FsOp::ReadDir, false), S3Outcome::NotSupported);
    assert_eq!(fs.outcome(FsOp::Stat, true), S3Outcome::Unimplemented);
    assert_eq!(fs.outcome(FsOp::TmpDir, true), S3Outcome::NotSupported);
    assert_eq!(fs.list_prefix("dir/"), None);
    assert_eq!(fs.list_prefix("dir"), Some("/".to_string()));
    assert_eq!(fs.list_prefix(""), Some("/".to_string()));
}

#[test]
fn lock_file_defaults() {
    let opts = LockfileOpts::new("/tmp/x.lock".to_string(), false);
    assert_eq!(lock_file_settings(Some(&opts), "/d".to_string()), ("/tmp/x.lock".to_string(), false));
    assert_eq!(lock_file_settings(None, "/d/.supabase.lock".to_string()), ("/d/.supabase.lock".to_string(), true));
}

use edge_runtime::worker::{
    awaits_termination_watch, cpu_time_used, metric_source_kind, runtime_for, termination_plan,
    uncaught_exception_of, MetricSourceKind, TerminationPlan, WorkerKind, WorkerResult,
    WorkerRuntime,
};

#[test]
fn worker_start_decisions() {
    assert_eq!(runtime_for(WorkerKind::UserWorker), WorkerRuntime::UserWorker);
    assert_eq!(runtime_for(WorkerKind::MainWorker), WorkerRuntime::PrimaryWorker);
    assert_eq!(termination_plan(WorkerKind::UserWorker, true), TerminationPlan::Supervise);
    assert_eq!(termination_plan(WorkerKind::EventsWorker, true), TerminationPlan::WatchToken);
    assert_eq!(termination_plan(WorkerKind::MainWorker, false), TerminationPlan::Never);
    assert!(awaits_termination_watch(WorkerKind::MainWorker, true));
    assert!(!awaits_termination_watch(WorkerKind::UserWorker, true));
    assert!(!awaits_termination_watch(WorkerKind::EventsWorker, false));
    assert_eq!(metric_source_kind(WorkerKind::MainWorker), MetricSourceKind::Runtime);
    assert_eq!(metric_source_kind(WorkerKind::UserWorker), MetricSourceKind::Worker);
}

#[test]
fn worker_end_reports() {
    let failed = WorkerResult::Failed("boom".to_string());
    let e = uncaught_exception_of(&failed).unwrap();
    assert_eq!((e.cpu_time_used, e.exception.as_str()), (0, "boom"));
    let ex = WorkerResult::UncaughtException { cpu_time_used: 7, exception: "x".to_string() };
    let e = uncaught_exception_of(&ex).unwrap();
    assert_eq!((e.cpu_time_used, e.exception.as_str()), (7, "x"));
    assert!(uncaught_exception_of(&WorkerResult::Shutdown { cpu_time_used: 3 }).is_none());
    assert_eq!(cpu_time_used(&ex), Some(7));
    assert_eq!(cpu_time_used(&WorkerResult::EventLoopCompleted { cpu_time_used: 4 }), Some(4));
    assert_eq!(cpu_time_used(&WorkerResult::OtherEvent), None);
    assert_eq!(cpu_time_used(&failed), None);
}

use edge_runtime::emitter::{
    cjs_resolution_mode, file_fetcher_cache_setting, npm_cache_setting, CacheSetting,
    IsCjsResolutionMode,
};

#[test]
fn cjs_modes() {
    assert_eq!(cjs_resolution_mode(true, false, false), IsCjsResolutionMode::ImplicitTypeCommonJs);
    assert_eq!(cjs_resolution_mode(false, true, true), IsCjsResolutionMode::ImplicitTypeCommonJs);
    assert_eq!(cjs_resolution_mode(false, false, true), IsCjsResolutionMode::ExplicitTypeCommonJs);
    assert_eq!(cjs_resolution_mode(false, false, false), IsCjsResolutionMode::Disabled);
}

#[test]
fn cache_setting_defaults() {
    assert_eq!(file_fetcher_cache_setting(None), CacheSetting::ReloadAll);
    assert_eq!(npm_cache_setting(None), CacheSetting::Use);
    assert_eq!(file_fetcher_cache_setting(Some(CacheSetting::Only)), CacheSetting::Only);
    assert_eq!(
        npm_cache_setting(Some(CacheSetting::ReloadSome(vec!["npm:a".to_string()]))),
        CacheSetting::ReloadSome(vec!["npm:a".to_string()])
    );
}
