//! A file system over an S3 bucket: which operations it serves, and how it
//! lists a directory. The bucket's client lives with the caller.
use crate::compile_fs::FsOp;
use crate::text::ends_with_char;
use vstd::prelude::*;

verus! {

/// What an operation of the S3 file system comes to.
#[derive(Debug, Copy, Clone, PartialEq, Eq, Structural)]
pub enum S3Outcome {
    /// Succeeds without doing anything: S3 has no directories to make, and
    /// its working directory is the empty path.
    Succeeds,
    /// Refused with a "not supported" error.
    NotSupported,
    /// Has no implementation yet.
    Unimplemented,
    /// Lists objects from the bucket.
    ListObjects,
}

/// The outcome of an operation, in its blocking or its asynchronous form.
/// Blocking forms of operations that need a round trip are refused.
pub open spec fn s3_outcome(op: FsOp, is_async: bool) -> S3Outcome {
    if op is Cwd || op is Mkdir {
        S3Outcome::Succeeds
    } else if op is ReadDir && is_async {
        S3Outcome::ListObjects
    } else if is_async && (op is Open || op is Remove || op is CopyFile || op is Cp || op is Stat
        || op is Lstat) {
        S3Outcome::Unimplemented
    } else {
        S3Outcome::NotSupported
    }
}

/// The working directory of the S3 file system always succeeds (as the
/// empty path), and so does making a directory, in either form; nothing
/// else succeeds, and the bucket is listed only by the asynchronous
/// directory read.
pub proof fn lemma_s3_successes(op: FsOp, is_async: bool)
    ensures
        s3_outcome(FsOp::Cwd, is_async) == S3Outcome::Succeeds,
        s3_outcome(FsOp::Mkdir, is_async) == S3Outcome::Succeeds,
        s3_outcome(op, is_async) == S3Outcome::Succeeds ==> (op is Cwd || op is Mkdir),
        s3_outcome(op, is_async) == S3Outcome::ListObjects <==> (op is ReadDir && is_async),
        !is_async ==> (s3_outcome(op, is_async) == S3Outcome::Succeeds || s3_outcome(op, is_async)
            == S3Outcome::NotSupported),
{
}

/// A file system over an S3 bucket.
#[derive(Debug, Clone)]
pub struct S3Fs {
    bucket_name: String,
}

impl S3Fs {
    pub closed spec fn spec_bucket_name(&self) -> Seq<char> {
        self.bucket_name@
    }

    pub fn new(bucket_name: String) -> (r: Self)
        ensures
            r.spec_bucket_name() == bucket_name@,
    {
        Self { bucket_name }
    }

    pub fn bucket_name(&self) -> (r: &str)
        ensures
            r@ == self.spec_bucket_name(),
    {
        self.bucket_name.as_str()
    }

    /// What the operation comes to.
    pub fn outcome(&self, op: FsOp, is_async: bool) -> (r: S3Outcome)
        ensures
            r == s3_outcome(op, is_async),
            op is Cwd || op is Mkdir ==> r == S3Outcome::Succeeds,
            op is ReadDir ==> r == (if is_async { S3Outcome::ListObjects } else { S3Outcome::NotSupported }),
            (op is Open || op is Remove || op is CopyFile || op is Cp || op is Stat || op is Lstat) ==> r == (
            if is_async { S3Outcome::Unimplemented } else { S3Outcome::NotSupported }),
            (op is TmpDir || op is Chdir || op is Umask || op is Chmod || op is Chown || op is Lchown
                || op is Realpath || op is Rename || op is Link || op is Symlink || op is ReadLink
                || op is Truncate || op is Utime || op is Lutime) ==> r == S3Outcome::NotSupported,
    {
        match op {
            FsOp::Cwd | FsOp::Mkdir => S3Outcome::Succeeds,
            FsOp::ReadDir => if is_async {
                S3Outcome::ListObjects
            } else {
                S3Outcome::NotSupported
            },
            FsOp::Open | FsOp::Remove | FsOp::CopyFile | FsOp::Cp | FsOp::Stat | FsOp::Lstat => {
                if is_async {
                    S3Outcome::Unimplemented
                } else {
                    S3Outcome::NotSupported
                }
            },
            _ => S3Outcome::NotSupported,
        }
    }

    /// The prefix under which a directory's objects are listed, delimited
    /// by `/`: `/` when the path does not end with a slash, none otherwise.
    pub fn list_prefix(&self, path: &str) -> (r: Option<String>)
        ensures
            r is None <==> (path@.len() > 0 && path@.last() == '/'),
            r matches Some(p) ==> p@ == seq!['/'],
    {
        let has_trailing_slash = ends_with_char(path, '/');
        if has_trailing_slash {
            None
        } else {
            let p = "/".to_owned();
            proof {
                reveal_strlit("/");
            }
            Some(p)
        }
    }
}

} // verus!
