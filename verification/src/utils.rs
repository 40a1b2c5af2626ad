//! The synchronous-over-asynchronous bridge: one HTTP client plus one
//! background executor, held behind a cell that teardown empties. The
//! engine's blocking read path drives asynchronous requests through it.
//!
//! Work is always spawned onto the executor's worker threads and awaited
//! from the calling thread, so entering the bridge from a thread that is
//! itself inside an async context cannot deadlock a nested executor.

use crate::VfsError;
use vstd::prelude::*;

verus! {

#[verifier::external_type_specification]
#[verifier::external_body]
pub struct ExClient(reqwest::Client);

#[verifier::external_type_specification]
#[verifier::external_body]
pub struct ExRuntime(tokio::runtime::Runtime);

#[verifier::external_type_specification]
#[verifier::external_body]
pub struct ExResponse(reqwest::Response);

/// The response headers the connection's initial probe inspects, as text.
pub struct ProbeHeaders {
    pub accept_ranges: Option<String>,
    pub content_length: Option<String>,
}

/// Relies on reqwest's ClientBuilder::build: constructs an HTTP client
/// with default configuration, or reports that it could not be built.
#[verifier::external_body]
fn build_default_client() -> (r: Result<reqwest::Client, VfsError>) {
    reqwest::Client::builder().build().map_err(|_| VfsError::InitFailed)
}

/// Relies on reqwest's Client::clone: a client is cheap to clone and the
/// clone shares its connection pool.
#[verifier::external_body]
pub fn clone_client(client: &reqwest::Client) -> (r: reqwest::Client) {
    client.clone()
}

/// Relies on tokio's Runtime::new: builds an executor with background
/// worker threads, or reports failure.
#[verifier::external_body]
fn make_runtime() -> (r: Option<tokio::runtime::Runtime>) {
    tokio::runtime::Runtime::new().ok()
}

/// Relies on tokio's Runtime::shutdown_background: releases the executor
/// without waiting for outstanding background tasks.
#[verifier::external_body]
fn shutdown_runtime(rt: tokio::runtime::Runtime) {
    rt.shutdown_background();
}

/// Relies on tokio's Runtime::spawn and reqwest's RequestBuilder::send:
/// issues a GET for `url` on the executor's workers and blocks the calling
/// thread until the response arrives.
#[verifier::external_body]
fn http_get(rt: &tokio::runtime::Runtime, client: &reqwest::Client, url: &str) -> (r: Result<
    reqwest::Response,
    VfsError,
>) {
    let task = rt.spawn(client.get(url).send());
    match futures::executor::block_on(task) {
        Ok(Ok(resp)) => Ok(resp),
        _ => Err(VfsError::InitFailed),
    }
}

/// Relies on tokio's Runtime::spawn and reqwest's RequestBuilder::send:
/// issues a GET for `url` carrying `Range: bytes=start-end` (inclusive
/// bounds) and blocks until the response arrives.
#[verifier::external_body]
fn http_get_range(
    rt: &tokio::runtime::Runtime,
    client: &reqwest::Client,
    url: &str,
    start: usize,
    end_inclusive: usize,
) -> (r: Result<reqwest::Response, VfsError>) {
    let range = format!("bytes={}-{}", start, end_inclusive);
    let task = rt.spawn(client.get(url).header(reqwest::header::RANGE, range).send());
    match futures::executor::block_on(task) {
        Ok(Ok(resp)) => Ok(resp),
        _ => Err(VfsError::FetchFailed),
    }
}

/// Relies on reqwest's Response::bytes, driven on the executor's workers:
/// reads the whole response body.
#[verifier::external_body]
fn response_body(rt: &tokio::runtime::Runtime, resp: reqwest::Response) -> (r: Result<
    Vec<u8>,
    VfsError,
>) {
    let task = rt.spawn(resp.bytes());
    match futures::executor::block_on(task) {
        Ok(Ok(bytes)) => Ok(bytes.to_vec()),
        _ => Err(VfsError::FetchFailed),
    }
}

/// Relies on reqwest's Response::headers and HeaderValue::to_str: the
/// Accept-Ranges header as text, if present and readable.
#[verifier::external_body]
fn accept_ranges_text(resp: &reqwest::Response) -> (r: Option<String>) {
    resp.headers().get(reqwest::header::ACCEPT_RANGES).and_then(|v| v.to_str().ok()).map(
        |s| s.to_string(),
    )
}

/// Relies on reqwest's Response::headers and HeaderValue::to_str: the
/// Content-Length header as text, if present and readable.
#[verifier::external_body]
fn content_length_text(resp: &reqwest::Response) -> (r: Option<String>) {
    resp.headers().get(reqwest::header::CONTENT_LENGTH).and_then(|v| v.to_str().ok()).map(
        |s| s.to_string(),
    )
}

/// What the bridge owns while it is alive.
pub struct RuntimeCore {
    pub client: reqwest::Client,
    pub rt: tokio::runtime::Runtime,
}

/// The bridge itself: after `drop` empties the cell, every entry point
/// reports unavailability instead of running work.
pub struct AtomicRuntime {
    pub core: Option<RuntimeCore>,
}

impl AtomicRuntime {
    /// The bridge can still run work.
    pub open spec fn available(&self) -> bool {
        self.core is Some
    }

    /// Build a bridge around the given client, or around a default one.
    /// When no executor (or no default client) can be built, the bridge
    /// starts out already unavailable, as if torn down; whether an
    /// executor can be built depends on the environment, so availability
    /// itself cannot be promised.
    pub fn new(client: Option<reqwest::Client>) -> (r: AtomicRuntime)
        ensures
            client is Some && r.available() ==> r.core->Some_0.client == client->Some_0,
    {
        let c = match client {
            Some(c) => c,
            None => {
                match build_default_client() {
                    Ok(c) => c,
                    Err(_) => {
                        return AtomicRuntime { core: None };
                    },
                }
            },
        };
        match make_runtime() {
            Some(rt) => AtomicRuntime { core: Some(RuntimeCore { client: c, rt }) },
            None => AtomicRuntime { core: None },
        }
    }

    /// Probe `url` with a plain GET and hand back the two headers the
    /// connection inspects. `None` exactly when the bridge is torn down;
    /// what the headers hold depends on the server alone.
    pub fn probe(&self, url: &str) -> (r: Option<Result<ProbeHeaders, VfsError>>)
        ensures
            r is Some <==> self.available(),
    {
        match &self.core {
            Some(core) => {
                match http_get(&core.rt, &core.client, url) {
                    Ok(resp) => Some(
                        Ok(
                            ProbeHeaders {
                                accept_ranges: accept_ranges_text(&resp),
                                content_length: content_length_text(&resp),
                            },
                        ),
                    ),
                    Err(e) => Some(Err(e)),
                }
            },
            None => None,
        }
    }

    /// Fetch `size` bytes at `offset` through a ranged GET. `None` exactly
    /// when the bridge is torn down. The body is handed back as it came,
    /// so the caller must check its length against `size`.
    pub fn fetch_range(&self, url: &str, offset: usize, size: usize) -> (r: Option<
        Result<Vec<u8>, VfsError>,
    >)
        requires
            0 < size,
            offset + size <= usize::MAX,
        ensures
            r is Some <==> self.available(),
    {
        match &self.core {
            Some(core) => {
                let end_inclusive = offset + size - 1;
                match http_get_range(&core.rt, &core.client, url, offset, end_inclusive) {
                    Ok(resp) => Some(response_body(&core.rt, resp)),
                    Err(e) => Some(Err(e)),
                }
            },
            None => None,
        }
    }

    /// Tear the bridge down: empty the cell and release the executor in
    /// the background. Idempotent; a second call finds the cell already
    /// empty and changes nothing.
    pub fn drop(&mut self)
        ensures
            !final(self).available(),
            !old(self).available() ==> *final(self) == *old(self),
    {
        match self.core.take() {
            Some(core) => shutdown_runtime(core.rt),
            None => (),
        }
    }
}

} // verus!
