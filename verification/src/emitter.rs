//! Settings of the module emitter.
use vstd::prelude::*;

verus! {

/// Where the lock file lives and whether it is overwritten.
#[derive(Clone)]
pub struct LockfileOpts {
    path: String,
    overwrite: bool,
}

impl LockfileOpts {
    pub closed spec fn spec_path(&self) -> Seq<char> {
        self.path@
    }

    pub closed spec fn spec_overwrite(&self) -> bool {
        self.overwrite
    }

    pub fn new(path: String, overwrite: bool) -> (r: Self)
        ensures
            r.spec_path() == path@,
            r.spec_overwrite() == overwrite,
    {
        LockfileOpts { path, overwrite }
    }
}

/// The lock file to use, as its path and whether it is overwritten: the
/// configured one, else the default path, overwritten.
pub fn lock_file_settings(options: Option<&LockfileOpts>, default_path: String) -> (r: (String, bool))
    ensures
        match options {
            Some(o) => r.0@ == o.spec_path() && r.1 == o.spec_overwrite(),
            None => r.0@ == default_path@ && r.1,
        },
{
    match options {
        Some(o) => (o.path.clone(), o.overwrite),
        None => (default_path, true),
    }
}

/// How module files are recognized as CommonJS.
#[derive(Debug, Copy, Clone, PartialEq, Eq, Structural)]
pub enum IsCjsResolutionMode {
    /// Files count as CommonJS unless a package says otherwise.
    ImplicitTypeCommonJs,
    /// Only packages that declare it are CommonJS.
    ExplicitTypeCommonJs,
    Disabled,
}

/// The CommonJS detection the options ask for: implicit when running a
/// Node.js main module or when unstable detection is on, explicit when
/// detection is on, none otherwise.
pub fn cjs_resolution_mode(is_node_main: bool, unstable_detect_cjs: bool, detect_cjs: bool) -> (r:
    IsCjsResolutionMode)
    ensures
        r == if is_node_main || unstable_detect_cjs {
            IsCjsResolutionMode::ImplicitTypeCommonJs
        } else if detect_cjs {
            IsCjsResolutionMode::ExplicitTypeCommonJs
        } else {
            IsCjsResolutionMode::Disabled
        },
{
    if is_node_main || unstable_detect_cjs {
        IsCjsResolutionMode::ImplicitTypeCommonJs
    } else if detect_cjs {
        IsCjsResolutionMode::ExplicitTypeCommonJs
    } else {
        IsCjsResolutionMode::Disabled
    }
}

/// How cached remote modules and packages are used.
#[derive(Debug, Clone, PartialEq, Eq)]
pub enum CacheSetting {
    /// Only the cache is used; nothing is fetched.
    Only,
    /// Everything is fetched again.
    ReloadAll,
    /// The listed specifiers are fetched again.
    ReloadSome(Vec<String>),
    /// The cache is used as the remote's headers allow.
    RespectHeaders,
    /// The cache is used when it holds the module.
    Use,
}

/// The cache setting of the file fetcher: the configured one, else fetch
/// everything again.
pub fn file_fetcher_cache_setting(cache_strategy: Option<CacheSetting>) -> (r: CacheSetting)
    ensures
        r == match cache_strategy {
            Some(c) => c,
            None => CacheSetting::ReloadAll,
        },
{
    match cache_strategy {
        Some(c) => c,
        None => CacheSetting::ReloadAll,
    }
}

/// The cache setting of the npm resolver: the configured one, else use the
/// cache.
pub fn npm_cache_setting(cache_strategy: Option<CacheSetting>) -> (r: CacheSetting)
    ensures
        r == match cache_strategy {
            Some(c) => c,
            None => CacheSetting::Use,
        },
{
    match cache_strategy {
        Some(c) => c,
        None => CacheSetting::Use,
    }
}

} // verus!
