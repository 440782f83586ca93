//! Datastore provisioning for test runs: where datastores live, how they are
//! addressed, the pool of reusable datastores, and what a permit does with
//! its datastore once a test is done.

use vstd::prelude::*;
use vstd::string::*;
use crate::backend::Backend;
use crate::text::{owned, push_decimal, decimal};

verus! {

#[verifier::external_type_specification]
#[verifier::external_body]
pub struct ExAnyhowError(anyhow::Error);

/// Why running a test with a permit failed: the test panicked (with the
/// panic's message), or the datastore could not be produced.
pub enum PermitError {
    Panic(String),
    Other(anyhow::Error),
}

} // verus!

verus! {

// ---------------------------------------------------------------------------
// Datastore locations
// ---------------------------------------------------------------------------

/// `dir` joined with a relative file name, as `Path::join` does on Unix: a
/// `/` is inserted unless `dir` is empty or already ends with one.
pub open spec fn path_join(dir: Seq<char>, name: Seq<char>) -> Seq<char> {
    if dir.len() > 0 && dir.last() != '/' {
        dir + seq!['/'] + name
    } else {
        dir + name
    }
}

/// The directory name of the `id`-th datastore: `store_{id}`.
pub open spec fn store_name(id: nat) -> Seq<char> {
    "store_"@ + decimal(id)
}

/// What is needed to create fresh datastores: the backend, the base
/// directory of file-based backends, and the number of the next datastore
/// directory.
pub struct CreateInfo {
    pub next_id: usize,
    pub backend: Backend,
    pub dir: Option<String>,
}

/// How to open one datastore: its connection string, the directory it owns
/// (to be removed afterwards), and whether all its keys must be cleared
/// first (a shared TiKV cluster).
pub struct DatastorePlan {
    pub url: String,
    pub path: Option<String>,
    pub clear_all: bool,
}

/// The connection string and owned directory of a datastore for `backend`,
/// given the directory `path` a file-based backend uses.
pub open spec fn datastore_url(backend: Backend, versioned: bool, path: Seq<char>) -> Seq<char> {
    match backend {
        Backend::Memory => if versioned { "mem://?versioned=true"@ } else { "mem://"@ },
        Backend::RocksDb => "rocksdb://"@ + path,
        Backend::SurrealKv => if versioned {
            "surrealkv://"@ + path + "?versioned=true"@
        } else {
            "surrealkv://"@ + path
        },
        Backend::TikV => "tikv://"@ + "127.0.0.1:2379"@,
    }
}

/// Whether a backend keeps its datastores in directories of their own.
pub open spec fn is_file_backend(b: Backend) -> bool {
    b is RocksDb || b is SurrealKv
}

impl CreateInfo {
    /// Starts numbering datastore directories at zero under `base_dir`.
    pub fn new(backend: Backend, base_dir: Option<&str>) -> (r: CreateInfo)
        ensures
            r.next_id == 0,
            r.backend == backend,
            match base_dir {
                Some(d) => r.dir matches Some(s) && s@ == d@,
                None => r.dir is None,
            },
    {
        CreateInfo {
            next_id: 0,
            backend,
            dir: match base_dir {
                Some(d) => Some(owned(d)),
                None => None,
            },
        }
    }

    /// Hands out the next datastore directory, `{dir}/store_{id}`, and
    /// advances the counter (wrapping, as an atomic `fetch_add` does).
    pub fn produce_path(&mut self) -> (r: String)
        requires
            old(self).dir is Some,
        ensures
            r@ == path_join(old(self).dir->0@, store_name(old(self).next_id as nat)),
            final(self).next_id == old(self).next_id.wrapping_add(1),
            final(self).backend == old(self).backend,
            final(self).dir == old(self).dir,
    {
        let id = self.next_id;
        self.next_id = id.wrapping_add(1);
        let dir = match &self.dir {
            Some(d) => d,
            None => { assert(false); return String::new(); },
        };
        let mut out = dir.clone();
        let n = dir.as_str().unicode_len();
        if n > 0 && dir.as_str().get_char(n - 1) != '/' {
            out.append("/");
        }
        out.append("store_");
        push_decimal(&mut out, id as u64);
        proof {
            reveal_strlit("/");
            assert(out@ =~= path_join(dir@, store_name(id as nat)));
        }
        out
    }

    /// Decides how to open the next fresh datastore: memory and TiKV need
    /// no directory, RocksDB and SurrealKV get the next one; the versioned
    /// flag applies to memory and SurrealKV; TiKV is cleared before use.
    pub fn datastore_plan(&mut self, versioned: bool) -> (r: DatastorePlan)
        requires
            is_file_backend(old(self).backend) ==> old(self).dir is Some,
        ensures
            final(self).backend == old(self).backend,
            final(self).dir == old(self).dir,
            r.clear_all == (old(self).backend is TikV),
            if is_file_backend(old(self).backend) {
                let p = path_join(old(self).dir->0@, store_name(old(self).next_id as nat));
                &&& final(self).next_id == old(self).next_id.wrapping_add(1)
                &&& r.path matches Some(s) && s@ == p
                &&& r.url@ == datastore_url(old(self).backend, versioned, p)
            } else {
                &&& final(self).next_id == old(self).next_id
                &&& r.path is None
                &&& r.url@ == datastore_url(old(self).backend, versioned, Seq::empty())
            },
    {
        match self.backend {
            Backend::Memory => {
                let url = if versioned { owned("mem://?versioned=true") } else { owned("mem://") };
                DatastorePlan { url, path: None, clear_all: false }
            },
            Backend::RocksDb => {
                let p = self.produce_path();
                let mut url = owned("rocksdb://");
                url.append(p.as_str());
                DatastorePlan { url, path: Some(p), clear_all: false }
            },
            Backend::SurrealKv => {
                let p = self.produce_path();
                let mut url = owned("surrealkv://");
                url.append(p.as_str());
                if versioned {
                    url.append("?versioned=true");
                }
                DatastorePlan { url, path: Some(p), clear_all: false }
            },
            Backend::TikV => {
                let mut url = owned("tikv://");
                url.append("127.0.0.1:2379");
                DatastorePlan { url, path: None, clear_all: true }
            },
        }
    }
}

} // verus!

verus! {

// ---------------------------------------------------------------------------
// The pool of reusable datastores
// ---------------------------------------------------------------------------

/// The bookkeeping of the reusable-datastore pool: a channel of `capacity`
/// slots, of which `available` hold an idle datastore and `lent` are out
/// with permits. A permit whose replacement datastore could not be created
/// gives its slot up for good.
pub struct Pool {
    pub capacity: usize,
    pub available: usize,
    pub lent: usize,
}

impl Pool {
    /// Idle and lent datastores together never exceed the channel's capacity.
    pub open spec fn wf(self) -> bool {
        self.available + self.lent <= self.capacity
    }

    /// A pool with room for `num_jobs` datastores and none in it yet.
    pub fn new(num_jobs: usize) -> (r: Pool)
        ensures
            r.wf(),
            r.capacity == num_jobs,
            r.available == 0,
            r.lent == 0,
    {
        Pool { capacity: num_jobs, available: 0, lent: 0 }
    }

    /// Whether another freshly created datastore fits into the channel.
    pub fn has_room(&self) -> (r: bool)
        requires
            self.wf(),
        ensures
            r == (self.available + self.lent < self.capacity),
    {
        self.available < self.capacity - self.lent
    }

    /// Puts a freshly created datastore into the channel while the pool is
    /// being filled.
    pub fn stock(&mut self)
        requires
            old(self).wf(),
            old(self).available + old(self).lent < old(self).capacity,
        ensures
            final(self).wf(),
            final(self).available == old(self).available + 1,
            final(self).lent == old(self).lent,
            final(self).capacity == old(self).capacity,
    {
        self.available = self.available + 1;
    }

    /// Takes an idle datastore out for a permit (the caller waits while none
    /// is available).
    pub fn obtain(&mut self)
        requires
            old(self).wf(),
            old(self).available > 0,
        ensures
            final(self).wf(),
            final(self).available == old(self).available - 1,
            final(self).lent == old(self).lent + 1,
            final(self).capacity == old(self).capacity,
    {
        self.available = self.available - 1;
        self.lent = self.lent + 1;
    }

    /// A permit hands its datastore (or a replacement) back. There is always
    /// room: the returned datastore's slot was reserved while it was lent.
    pub fn give_back(&mut self)
        requires
            old(self).wf(),
            old(self).lent > 0,
        ensures
            final(self).wf(),
            final(self).available == old(self).available + 1,
            final(self).available <= final(self).capacity,
            final(self).lent == old(self).lent - 1,
            final(self).capacity == old(self).capacity,
    {
        self.available = self.available + 1;
        self.lent = self.lent - 1;
    }

    /// A permit could not replace its datastore and gives its slot up.
    pub fn forfeit(&mut self)
        requires
            old(self).wf(),
            old(self).lent > 0,
        ensures
            final(self).wf(),
            final(self).available == old(self).available,
            final(self).lent == old(self).lent - 1,
            final(self).capacity == old(self).capacity,
    {
        self.lent = self.lent - 1;
    }

    /// Shutting down drains every idle datastore from the channel.
    pub fn drain(&mut self) -> (r: usize)
        requires
            old(self).wf(),
        ensures
            final(self).wf(),
            r == old(self).available,
            final(self).available == 0,
            final(self).lent == old(self).lent,
            final(self).capacity == old(self).capacity,
    {
        let r = self.available;
        self.available = 0;
        r
    }
}

/// Obtaining a datastore and handing it back leaves the pool as it was.
pub proof fn lemma_obtain_give_back(p: Pool)
    requires
        p.wf(),
        p.available > 0,
    ensures
        ({
            let q = Pool { available: (p.available - 1) as usize, lent: (p.lent + 1) as usize, ..p };
            let r = Pool { available: (q.available + 1) as usize, lent: (q.lent - 1) as usize, ..q };
            q.wf() && r == p
        }),
{
}

// ---------------------------------------------------------------------------
// What a permit does after its test
// ---------------------------------------------------------------------------

/// Where a permit's datastore came from.
pub enum PermitSource {
    /// Taken from the pool of reusable datastores.
    Reuse,
    /// Created for this test alone; `owns_dir` when it lives in a directory
    /// of its own.
    Create { owns_dir: bool },
}

/// What happens to a permit's datastore after the test ran.
#[derive(Debug, PartialEq, Eq, Structural)]
pub enum Cleanup {
    /// Hand the datastore back to the pool.
    ReturnToPool,
    /// Shut the (panicked) datastore down and put a fresh one into the pool
    /// in its place.
    ReplaceInPool,
    /// Shut the datastore down and remove its directory.
    ShutdownAndRemoveDir,
    /// Nothing: the datastore is dropped.
    Drop,
}

/// The cleanup owed after a test: a pooled datastore goes back to the pool,
/// or is replaced when the test panicked; a created datastore with its own
/// directory is shut down and its directory removed.
pub open spec fn cleanup_for(source: PermitSource, panicked: bool) -> Cleanup {
    match source {
        PermitSource::Reuse => if panicked { Cleanup::ReplaceInPool } else { Cleanup::ReturnToPool },
        PermitSource::Create { owns_dir } => if owns_dir { Cleanup::ShutdownAndRemoveDir } else { Cleanup::Drop },
    }
}

/// Decides the cleanup after a test ran with a permit.
pub fn permit_cleanup(source: &PermitSource, panicked: bool) -> (r: Cleanup)
    ensures
        r == cleanup_for(*source, panicked),
{
    match source {
        PermitSource::Reuse => if panicked { Cleanup::ReplaceInPool } else { Cleanup::ReturnToPool },
        PermitSource::Create { owns_dir } => if *owns_dir { Cleanup::ShutdownAndRemoveDir } else { Cleanup::Drop },
    }
}

} // verus!

verus! {

/// Datastores with different numbers get different directories under the
/// same base directory.
pub proof fn lemma_store_paths_distinct(dir: Seq<char>, i: nat, j: nat)
    requires
        i != j,
    ensures
        path_join(dir, store_name(i)) != path_join(dir, store_name(j)),
{
    reveal_strlit("store_");
    let pre = if dir.len() > 0 && dir.last() != '/' { dir + seq!['/'] } else { dir };
    assert(path_join(dir, store_name(i)) =~= pre + store_name(i));
    assert(path_join(dir, store_name(j)) =~= pre + store_name(j));
    if path_join(dir, store_name(i)) == path_join(dir, store_name(j)) {
        assert((pre + store_name(i)).skip(pre.len() as int) =~= store_name(i));
        assert((pre + store_name(j)).skip(pre.len() as int) =~= store_name(j));
        assert(store_name(i).skip(6) =~= decimal(i));
        assert(store_name(j).skip(6) =~= decimal(j));
        crate::text::lemma_decimal_injective(i, j);
    }
}

} // verus!
