use vstd::prelude::*;

pub mod buffer;
pub mod conn;
pub mod vfs;
pub mod utils;

verus! {

/// The page size the embedded SQL engine uses by default; block size and
/// download threshold are configured in multiples of it.
pub const SQLITE_PAGE_SIZE: usize = 4096;

/// Everything a file operation can fail with. The engine-facing adapter
/// turns each variant into the matching I/O error.
#[derive(Clone, Copy, Debug, PartialEq, Eq, Structural)]
pub enum VfsError {
    /// A read past the end of the file, straddling a block boundary, or a
    /// narrow fetch that returned the wrong number of bytes.
    OutOfBounds,
    /// The remote fetch failed: HTTP error or a short full-block response.
    FetchFailed,
    /// The async bridge has been torn down; no further requests can be made.
    Unavailable,
    /// The remote server is unreachable, does not advertise byte-range
    /// support, or reports a missing, unparseable or zero content length.
    InitFailed,
    /// Writes are not supported on a remote read-only database.
    WriteNotSupported,
    /// Resizing is not supported on a remote read-only database.
    ResizeNotSupported,
    /// Deleting is not supported on a read-only filesystem.
    DeleteNotSupported,
    /// Only the main database can be opened through this filesystem.
    UnsupportedOpenKind,
}

/// Smaller of two lengths, used when the last block of a file is short.
pub fn min_usize(a: usize, b: usize) -> (r: usize)
    ensures
        r == if a <= b { a as int } else { b as int },
{
    if a <= b {
        a
    } else {
        b
    }
}

/// The name this filesystem is registered under with the engine.
pub const HTTP_VFS: &'static str = "http";

/// Registration-time tunables for the filesystem, collected builder-style
/// before the engine-facing adapter registers it.
pub struct HttpVfsRegister {
    /// Cache granularity in bytes; a power-of-two multiple of the page
    /// size, 8 MiB by default.
    pub block_size: usize,
    /// An externally constructed HTTP client to share, if any.
    pub client: Option<reqwest::Client>,
    /// Reads of at most this many bytes bypass the full-block fetch;
    /// zero disables the bypass.
    pub download_threshold: usize,
    /// The engine's page size; block size and threshold are set in pages.
    pub page_size: usize,
}

impl HttpVfsRegister {
    /// The defaults: 4 KiB pages, 8 MiB blocks, no narrow-fetch bypass,
    /// no injected client.
    pub fn new() -> (r: HttpVfsRegister)
        ensures
            r.block_size == SQLITE_PAGE_SIZE * 1024 * 2,
            r.client is None,
            r.download_threshold == 0,
            r.page_size == SQLITE_PAGE_SIZE,
    {
        HttpVfsRegister {
            client: None,
            block_size: SQLITE_PAGE_SIZE * 1024 * 2,
            download_threshold: 0,
            page_size: SQLITE_PAGE_SIZE,
        }
    }

    /// Set the block size to the given number of pages.
    pub fn with_block_size(self, page_num: usize) -> (r: HttpVfsRegister)
        requires
            page_num * self.page_size <= usize::MAX,
        ensures
            r.block_size == page_num * self.page_size,
            r.client == self.client,
            r.download_threshold == self.download_threshold,
            r.page_size == self.page_size,
    {
        HttpVfsRegister { block_size: page_num * self.page_size, ..self }
    }

    /// Inject an externally constructed HTTP client, shared by every
    /// connection the filesystem opens.
    pub fn with_client(self, client: reqwest::Client) -> (r: HttpVfsRegister)
        ensures
            r.client is Some,
            r.block_size == self.block_size,
            r.download_threshold == self.download_threshold,
            r.page_size == self.page_size,
    {
        HttpVfsRegister { client: Some(client), ..self }
    }

    /// Set how many pages a read may span and still skip the full-block
    /// fetch when its block is not cached.
    pub fn with_download_threshold(self, page_num: usize) -> (r: HttpVfsRegister)
        requires
            page_num * self.page_size <= usize::MAX,
        ensures
            r.download_threshold == page_num * self.page_size,
            r.client == self.client,
            r.block_size == self.block_size,
            r.page_size == self.page_size,
    {
        HttpVfsRegister { download_threshold: page_num * self.page_size, ..self }
    }

    /// Document a different engine page size; later page-counted settings
    /// are multiples of it.
    pub fn with_page_size(self, page_size: usize) -> (r: HttpVfsRegister)
        ensures
            r.page_size == page_size,
            r.client == self.client,
            r.block_size == self.block_size,
            r.download_threshold == self.download_threshold,
    {
        HttpVfsRegister { page_size, ..self }
    }

    /// The factory these tunables describe; the engine-facing adapter
    /// hands it to the engine's registration entry point.
    pub fn into_vfs(self) -> (r: crate::vfs::HttpVfs)
        ensures
            r.block_size == self.block_size,
            r.download_threshold == self.download_threshold,
            r.client == self.client,
    {
        crate::vfs::HttpVfs {
            client: self.client,
            block_size: self.block_size,
            download_threshold: self.download_threshold,
        }
    }
}

} // verus!
