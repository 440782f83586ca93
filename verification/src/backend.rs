//! Storage backends of the language-test runner.

use vstd::prelude::*;
use vstd::string::*;
use crate::text::{str_eq, owned};

verus! {

/// The storage engine a test run is executed against.
#[derive(Clone, Copy, Debug, PartialEq, Eq, Structural)]
pub enum Backend {
    Memory,
    RocksDb,
    SurrealKv,
    TikV,
}

/// The name of a backend, as written on the command line and in the
/// `backend` lists of test configurations.
pub open spec fn backend_name(b: Backend) -> Seq<char> {
    match b {
        Backend::Memory => "mem"@,
        Backend::RocksDb => "rocksdb"@,
        Backend::SurrealKv => "surrealkv"@,
        Backend::TikV => "tikv"@,
    }
}

/// The backend named `s`, if any.
pub open spec fn backend_from_name(s: Seq<char>) -> Option<Backend> {
    if s == "mem"@ {
        Some(Backend::Memory)
    } else if s == "rocksdb"@ {
        Some(Backend::RocksDb)
    } else if s == "surrealkv"@ {
        Some(Backend::SurrealKv)
    } else if s == "tikv"@ {
        Some(Backend::TikV)
    } else {
        None
    }
}

impl Backend {
    /// The backend's name (its `Display` form).
    pub fn to_string(&self) -> (r: String)
        ensures
            r@ == backend_name(*self),
    {
        match self {
            Backend::Memory => owned("mem"),
            Backend::RocksDb => owned("rocksdb"),
            Backend::SurrealKv => owned("surrealkv"),
            Backend::TikV => owned("tikv"),
        }
    }

    /// Parses a backend name; an unknown name is handed back as the error.
    pub fn from_arg(s: &str) -> (r: Result<Backend, String>)
        ensures
            r matches Ok(b) ==> backend_from_name(s@) == Some(b),
            r matches Err(e) ==> backend_from_name(s@) is None && e@ == s@,
            r is Ok <==> backend_from_name(s@) is Some,
    {
        if str_eq(s, "mem") {
            Ok(Backend::Memory)
        } else if str_eq(s, "rocksdb") {
            Ok(Backend::RocksDb)
        } else if str_eq(s, "surrealkv") {
            Ok(Backend::SurrealKv)
        } else if str_eq(s, "tikv") {
            Ok(Backend::TikV)
        } else {
            Err(owned(s))
        }
    }
}

/// Every backend's name parses back to that backend.
pub proof fn lemma_backend_name_roundtrip(b: Backend)
    ensures
        backend_from_name(backend_name(b)) == Some(b),
{
    reveal_strlit("mem");
    reveal_strlit("rocksdb");
    reveal_strlit("surrealkv");
    reveal_strlit("tikv");
    assert("mem"@.len() == 3);
    assert("rocksdb"@.len() == 7);
    assert("surrealkv"@.len() == 9);
    assert("tikv"@.len() == 4);
}

} // verus!

verus! {

/// The infrastructure a backend needs while tests run: nothing for memory,
/// a temporary directory for the file-based engines, and a TiKV playground
/// managed through `tiup` (the playground process itself is held by the
/// caller).
pub enum BackendService {
    Memory,
    FileStore { dir: String },
    TikV { tiup: String, tiup_home: String },
}

/// Which kind of infrastructure a backend starts.
#[derive(Clone, Copy, Debug, PartialEq, Eq, Structural)]
pub enum ServiceKind {
    Memory,
    FileStore,
    TikV,
}

/// Memory needs nothing, RocksDB and SurrealKV a directory, TiKV a playground.
pub open spec fn service_kind_of(b: Backend) -> ServiceKind {
    match b {
        Backend::Memory => ServiceKind::Memory,
        Backend::RocksDb => ServiceKind::FileStore,
        Backend::SurrealKv => ServiceKind::FileStore,
        Backend::TikV => ServiceKind::TikV,
    }
}

/// Decides which infrastructure to start for a backend.
pub fn service_kind(b: Backend) -> (r: ServiceKind)
    ensures
        r == service_kind_of(b),
{
    match b {
        Backend::Memory => ServiceKind::Memory,
        Backend::RocksDb | Backend::SurrealKv => ServiceKind::FileStore,
        Backend::TikV => ServiceKind::TikV,
    }
}

impl BackendService {
    /// The base directory of file-based backends; `None` for memory and TiKV.
    pub fn base_dir(&self) -> (r: Option<&String>)
        ensures
            match *self {
                BackendService::FileStore { dir } => r == Some(&dir),
                _ => r is None,
            },
    {
        match self {
            BackendService::FileStore { dir } => Some(dir),
            _ => None,
        }
    }
}

/// The places inside a runfiles tree where `tiup` may be, in the order they
/// are tried: under the canonical repository name, then the apparent one.
pub open spec fn tiup_runfiles_candidates(runfiles: Seq<char>) -> Seq<Seq<char>> {
    seq![
        crate::provision::path_join(crate::provision::path_join(runfiles, "+tiup_repo+tiup"@), "tiup"@),
        crate::provision::path_join(crate::provision::path_join(runfiles, "tiup"@), "tiup"@),
    ]
}

fn join_path(dir: &str, name: &str) -> (r: String)
    ensures
        r@ == crate::provision::path_join(dir@, name@),
{
    let mut out = owned(dir);
    let n = dir.unicode_len();
    if n > 0 && dir.get_char(n - 1) != '/' {
        out.append("/");
    }
    out.append(name);
    proof {
        reveal_strlit("/");
    }
    out
}

/// The candidate locations of `tiup` inside a runfiles tree.
pub fn tiup_in_runfiles(runfiles: &str) -> (r: Vec<String>)
    ensures
        crate::text::string_views(r@) == tiup_runfiles_candidates(runfiles@),
{
    let a = join_path(runfiles, "+tiup_repo+tiup");
    let b = join_path(runfiles, "tiup");
    let mut v: Vec<String> = Vec::new();
    v.push(join_path(a.as_str(), "tiup"));
    v.push(join_path(b.as_str(), "tiup"));
    assert(crate::text::string_views(v@) =~= tiup_runfiles_candidates(runfiles@));
    v
}

/// Where a user installation of `tiup` lives under a home directory.
pub fn tiup_in_home(home: &str) -> (r: String)
    ensures
        r@ == crate::provision::path_join(home@, ".tiup/bin/tiup"@),
{
    join_path(home, ".tiup/bin/tiup")
}

/// The `TIUP_HOME` directory name of a process: `surreal_tiup_home_{pid}`.
pub fn tiup_home_name(pid: u32) -> (r: String)
    ensures
        r@ == "surreal_tiup_home_"@ + crate::text::decimal(pid as nat),
{
    let mut s = owned("surreal_tiup_home_");
    crate::text::push_decimal(&mut s, pid as u64);
    s
}

/// How many times the playground status is checked before giving up.
pub const PLAYGROUND_ATTEMPTS: u8 = 5u8;

/// What to do after a playground status check.
#[derive(Clone, Copy, Debug, PartialEq, Eq, Structural)]
pub enum PlaygroundStep {
    /// The playground answered: it is ready.
    Ready,
    /// Wait and check again, as check number `next`.
    Retry { next: u8 },
    /// Every check failed: starting the playground failed.
    GiveUp,
}

/// After check number `attempt` (1 to 5), which succeeded or not.
pub open spec fn playground_step_for(attempt: u8, succeeded: bool) -> PlaygroundStep {
    if succeeded {
        PlaygroundStep::Ready
    } else if attempt < PLAYGROUND_ATTEMPTS {
        PlaygroundStep::Retry { next: (attempt + 1) as u8 }
    } else {
        PlaygroundStep::GiveUp
    }
}

/// Decides what follows a playground status check.
pub fn playground_step(attempt: u8, succeeded: bool) -> (r: PlaygroundStep)
    requires
        1 <= attempt <= PLAYGROUND_ATTEMPTS,
    ensures
        r == playground_step_for(attempt, succeeded),
{
    if succeeded {
        PlaygroundStep::Ready
    } else if attempt < PLAYGROUND_ATTEMPTS {
        PlaygroundStep::Retry { next: attempt + 1 }
    } else {
        PlaygroundStep::GiveUp
    }
}

} // verus!
