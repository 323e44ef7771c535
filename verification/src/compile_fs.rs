//! The file system of a compiled bundle: a read-only virtual file system
//! embedded in the bundle, laid over the real file system.
//!
//! Reads of paths inside the virtual file system are served from it; any
//! change to a path inside it is refused; everything else goes to the real
//! file system. Copying a file out of the virtual file system reads it there
//! and writes it to the real one.
use std::sync::Arc;
use vstd::prelude::*;

verus! {

/// An operation of the file-system interface.
#[derive(Debug, Copy, Clone, PartialEq, Eq, Structural)]
pub enum FsOp {
    Cwd,
    TmpDir,
    Umask,
    Chdir,
    Open,
    Mkdir,
    Chmod,
    Chown,
    Lchown,
    Remove,
    CopyFile,
    Cp,
    Stat,
    Lstat,
    Realpath,
    ReadDir,
    Rename,
    Link,
    Symlink,
    ReadLink,
    Truncate,
    Utime,
    Lutime,
}

/// Where an operation is carried out.
#[derive(Debug, Copy, Clone, PartialEq, Eq, Structural)]
pub enum FsRoute {
    /// Refused with a "not supported" error.
    NotSupported,
    /// Served by the virtual file system.
    Vfs,
    /// Passed to the real file system.
    RealFs,
    /// The source is read from the virtual file system and written to the
    /// destination on the real file system.
    CopyFromVfs,
}

/// Operations that only read the file system.
pub open spec fn reads_only(op: FsOp) -> bool {
    op is Open || op is Stat || op is Lstat || op is Realpath || op is ReadDir || op is ReadLink
}

/// Operations that do not name a path.
pub open spec fn takes_no_path(op: FsOp) -> bool {
    op is Cwd || op is TmpDir || op is Umask
}

/// Operations that name two paths, checked in order.
pub open spec fn takes_two_paths(op: FsOp) -> bool {
    op is Rename || op is Link || op is Symlink
}

/// The route of an operation given whether its first path (the path, the
/// old path or the source) and its second path (the new path or the
/// destination) lie in the virtual file system.
pub open spec fn fs_route(op: FsOp, first_in_vfs: bool, second_in_vfs: bool) -> FsRoute {
    if takes_no_path(op) {
        FsRoute::RealFs
    } else if reads_only(op) {
        if first_in_vfs { FsRoute::Vfs } else { FsRoute::RealFs }
    } else if op is CopyFile {
        if second_in_vfs {
            FsRoute::NotSupported
        } else if first_in_vfs {
            FsRoute::CopyFromVfs
        } else {
            FsRoute::RealFs
        }
    } else if op is Cp {
        if second_in_vfs { FsRoute::NotSupported } else { FsRoute::RealFs }
    } else if takes_two_paths(op) {
        if first_in_vfs || second_in_vfs { FsRoute::NotSupported } else { FsRoute::RealFs }
    } else {
        if first_in_vfs { FsRoute::NotSupported } else { FsRoute::RealFs }
    }
}

/// A file system made of a virtual file system over the real one.
#[derive(Debug, Clone)]
pub struct DenoCompileFileSystem<V>(Arc<V>);

impl<V> DenoCompileFileSystem<V> {
    /// The virtual file system this file system serves.
    pub closed spec fn vfs(&self) -> V {
        *self.0
    }

    pub fn new(vfs: V) -> (r: Self)
        ensures
            r.vfs() == vfs,
    {
        Self(Arc::new(vfs))
    }

    pub fn from_rc(vfs: Arc<V>) -> (r: Self)
        ensures
            r.vfs() == *vfs,
    {
        Self(vfs)
    }

    pub fn file_backed_vfs(&self) -> (r: Arc<V>)
        ensures
            *r == self.vfs(),
    {
        self.0.clone()
    }

    /// Where an operation is carried out, given whether its first and
    /// second paths lie in the virtual file system (a path an operation does
    /// not take counts as lying outside).
    pub fn route(&self, op: FsOp, first_in_vfs: bool, second_in_vfs: bool) -> (r: FsRoute)
        ensures
            r == fs_route(op, first_in_vfs, second_in_vfs),
    {
        match op {
            FsOp::Cwd | FsOp::TmpDir | FsOp::Umask => FsRoute::RealFs,
            FsOp::Open | FsOp::Stat | FsOp::Lstat | FsOp::Realpath | FsOp::ReadDir | FsOp::ReadLink => {
                if first_in_vfs {
                    FsRoute::Vfs
                } else {
                    FsRoute::RealFs
                }
            },
            FsOp::CopyFile => {
                if second_in_vfs {
                    FsRoute::NotSupported
                } else if first_in_vfs {
                    FsRoute::CopyFromVfs
                } else {
                    FsRoute::RealFs
                }
            },
            FsOp::Cp => {
                if second_in_vfs {
                    FsRoute::NotSupported
                } else {
                    FsRoute::RealFs
                }
            },
            FsOp::Rename | FsOp::Link | FsOp::Symlink => {
                if first_in_vfs || second_in_vfs {
                    FsRoute::NotSupported
                } else {
                    FsRoute::RealFs
                }
            },
            _ => {
                if first_in_vfs {
                    FsRoute::NotSupported
                } else {
                    FsRoute::RealFs
                }
            },
        }
    }
}

/// The virtual file system is never changed: an operation that is not a
/// read is never served by it, a change naming a path inside it is refused,
/// and a copy never writes into it.
pub proof fn lemma_vfs_read_only(op: FsOp, first_in_vfs: bool, second_in_vfs: bool)
    ensures
        !reads_only(op) ==> fs_route(op, first_in_vfs, second_in_vfs) != FsRoute::Vfs,
        !reads_only(op) && !takes_no_path(op) && !(op is CopyFile) && !(op is Cp) && first_in_vfs
            ==> fs_route(op, first_in_vfs, second_in_vfs) == FsRoute::NotSupported,
        (op is CopyFile || op is Cp || takes_two_paths(op)) && second_in_vfs
            ==> fs_route(op, first_in_vfs, second_in_vfs) == FsRoute::NotSupported,
{
}

/// Paths outside the virtual file system behave as on the real file system,
/// and reads inside it are served by it.
pub proof fn lemma_outside_vfs_is_real(op: FsOp, first_in_vfs: bool, second_in_vfs: bool)
    ensures
        !first_in_vfs && !second_in_vfs ==> fs_route(op, first_in_vfs, second_in_vfs) == FsRoute::RealFs,
        reads_only(op) && first_in_vfs ==> fs_route(op, first_in_vfs, second_in_vfs) == FsRoute::Vfs,
{
}

} // verus!
