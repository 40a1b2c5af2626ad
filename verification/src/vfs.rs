//! The engine-facing factory: registered under a fixed name, it opens one
//! connection per database the engine asks for, and refuses everything a
//! read-only filesystem cannot do.

use crate::conn::Connection;
use crate::VfsError;
use vstd::prelude::*;
use vstd::string::StringExecFns;

verus! {

/// The kinds of file the engine can ask a filesystem to open.
#[derive(Clone, Copy, Debug, PartialEq, Eq, Structural)]
pub enum OpenKind {
    MainDb,
    MainJournal,
    TempDb,
    TempJournal,
    TransientDb,
    SubJournal,
    SuperJournal,
    Wal,
}

/// Relies on rand's thread_rng and Rng::fill: fills the buffer with
/// random bytes from a cryptographically adequate generator.
#[verifier::external_body]
fn fill_random(buf: &mut Vec<i8>)
    ensures
        final(buf)@.len() == old(buf)@.len(),
{
    rand::Rng::fill(&mut rand::thread_rng(), buf.as_mut_slice());
}

/// The factory the engine drives: carries the registration-time tunables
/// and an optional shared HTTP client, and produces one connection per
/// opened database.
pub struct HttpVfs {
    /// An externally constructed client to share, if any.
    pub client: Option<reqwest::Client>,
    /// The cache granularity of every connection this factory opens.
    pub block_size: usize,
    /// The narrow-fetch threshold of every connection this factory opens.
    pub download_threshold: usize,
}

impl HttpVfs {
    /// The factory's tunables make sense: blocks are nonempty.
    pub open spec fn wf(&self) -> bool {
        self.block_size > 0
    }

    /// Open the remote database whose URL the engine passed as the file
    /// name. Only the main database is supported; every other kind is
    /// refused. On success the connection starts unlocked, with an empty
    /// cache over a nonempty file.
    pub fn open(&self, db: &str, kind: OpenKind) -> (r: Result<Connection, VfsError>)
        requires
            self.wf(),
        ensures
            kind != OpenKind::MainDb ==> r == Err::<Connection, VfsError>(
                VfsError::UnsupportedOpenKind,
            ),
            match r {
                Ok(c) => {
                    &&& kind == OpenKind::MainDb
                    &&& c.wf()
                    &&& c.lock == crate::conn::LockKind::NoLock
                    &&& c.lock_count == 0
                    &&& c.rt.available()
                    &&& c.buffer.block_size == self.block_size
                    &&& c.buffer.download_threshold == self.download_threshold
                    &&& c.buffer.length > 0
                    &&& c.buffer.fetches@ == 0
                    &&& c.url@ == db@
                },
                Err(e) => {
                    &&& (kind == OpenKind::MainDb ==> e == VfsError::InitFailed)
                    &&& (kind != OpenKind::MainDb ==> e == VfsError::UnsupportedOpenKind)
                },
            },
    {
        if kind != OpenKind::MainDb {
            return Err(VfsError::UnsupportedOpenKind);
        }
        let client = match &self.client {
            Some(c) => Some(crate::utils::clone_client(c)),
            None => None,
        };
        Connection::with_client(db, self.block_size, self.download_threshold, client)
    }

    /// Deleting is never supported: the filesystem is read-only.
    pub fn delete(&self, _db: &str) -> (r: Result<(), VfsError>)
        ensures
            r == Err::<(), VfsError>(VfsError::DeleteNotSupported),
    {
        Err(VfsError::DeleteNotSupported)
    }

    /// Always report that the database does not exist, which makes the
    /// engine attempt `open` and lets errors surface there.
    pub fn db_exists(&self, _db: &str) -> (r: Result<bool, VfsError>)
        ensures
            r == Ok::<bool, VfsError>(false),
    {
        Ok(false)
    }

    /// A fixed name for temporary files, which are never actually used
    /// because journaling is disabled.
    pub fn temporary_name(&self) -> (r: String)
        ensures
            r@ == "main.db"@,
    {
        String::from_str("main.db")
    }

    /// Fill the engine's buffer with random bytes; its length is kept.
    pub fn random(&self, buffer: &mut Vec<i8>)
        ensures
            final(buffer)@.len() == old(buffer)@.len(),
    {
        fill_random(buffer);
    }
}

} // verus!
