//! Verified core of an edge-function runtime: the per-worker supervisor's
//! decisions, scheduler metrics, npm tarball checks and extraction layout,
//! `deno.json` dependency reading, the compiled-bundle and S3 file-system
//! routing, and the decisions the command line and workers make.

pub mod cli;
pub mod compile_fs;
pub mod deno_json;
pub mod emitter;
pub mod s3_fs;
pub mod sched;
pub mod supervisor;
pub mod tarball;
pub mod text;
pub mod worker;
