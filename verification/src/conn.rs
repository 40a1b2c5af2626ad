//! One open remote database: the engine-facing file handle. It owns the
//! async bridge and one lazy buffer, tracks its lock state, and answers
//! the engine's file operations for a read-only remote file.

use crate::buffer::{fetch_callable, LazyBlock, LazyBuffer};
use crate::utils::{AtomicRuntime, ProbeHeaders};
use crate::VfsError;
use vstd::prelude::*;
use vstd::string::StrSliceExecFns;
use vstd::string::StringExecFns;

verus! {

/// A decimal digit.
pub open spec fn spec_is_digit(c: char) -> bool {
    '0' <= c && c <= '9'
}

/// The numeric value of one digit.
pub open spec fn spec_digit_val(c: char) -> int {
    c as int - '0' as int
}

/// Every character of `s` is a decimal digit.
pub open spec fn spec_all_digits(s: Seq<char>) -> bool {
    forall|i: int| 0 <= i < s.len() ==> spec_is_digit(#[trigger] s[i])
}

/// The number a digit string denotes, most significant digit first.
pub open spec fn spec_digits_val(s: Seq<char>) -> int
    decreases s.len(),
{
    if s.len() == 0 {
        0
    } else {
        spec_digits_val(s.drop_last()) * 10 + spec_digit_val(s.last())
    }
}

/// What parsing a decimal `usize` yields: an optional leading `+`, then
/// one or more digits whose value fits the type; anything else is
/// rejected.
pub open spec fn spec_parse_usize(s: Seq<char>) -> Option<usize> {
    let t = if s.len() > 0 && s[0] == '+' {
        s.subrange(1, s.len() as int)
    } else {
        s
    };
    if t.len() > 0 && spec_all_digits(t) && spec_digits_val(t) <= usize::MAX {
        Some(spec_digits_val(t) as usize)
    } else {
        None
    }
}

/// A digit string denotes a nonnegative number.
proof fn lemma_digits_val_nonneg(s: Seq<char>)
    requires
        spec_all_digits(s),
    ensures
        spec_digits_val(s) >= 0,
    decreases s.len(),
{
    if s.len() > 0 {
        assert(spec_all_digits(s.drop_last()));
        lemma_digits_val_nonneg(s.drop_last());
    }
}

/// Extending a digit string on the right never decreases its value, so
/// every prefix denotes at most the whole string's value.
proof fn lemma_digits_val_prefix_le(s: Seq<char>, k: int)
    requires
        spec_all_digits(s),
        0 <= k <= s.len(),
    ensures
        spec_digits_val(s.subrange(0, k)) <= spec_digits_val(s),
    decreases s.len() - k,
{
    if k == s.len() {
        assert(s.subrange(0, k) =~= s);
    } else {
        let shorter = s.subrange(0, k);
        let longer = s.subrange(0, k + 1);
        assert(longer.drop_last() =~= shorter);
        assert(longer.last() == s[k]);
        assert(spec_all_digits(shorter));
        lemma_digits_val_nonneg(shorter);
        assert(spec_digits_val(longer) == spec_digits_val(shorter) * 10 + spec_digit_val(s[k]));
        lemma_digits_val_prefix_le(s, k + 1);
    }
}

/// Parse a decimal `usize`, accepting exactly what `spec_parse_usize`
/// describes: an optional leading `+`, then digits; overflow is rejected.
pub fn parse_usize(s: &str) -> (r: Option<usize>)
    ensures
        r == spec_parse_usize(s@),
{
    let n = s.unicode_len();
    let mut start: usize = 0;
    if n > 0 && s.get_char(0) == '+' {
        start = 1;
    }
    let ghost t = if s@.len() > 0 && s@[0] == '+' {
        s@.subrange(1, s@.len() as int)
    } else {
        s@
    };
    proof {
        assert(t =~= s@.subrange(start as int, n as int));
    }
    if start == n {
        return None;
    }
    let mut val: usize = 0;
    let mut i: usize = start;
    while i < n
        invariant
            start <= i <= n,
            n == s@.len(),
            start == 0 || start == 1,
            t == s@.subrange(start as int, n as int),
            t == (if s@.len() > 0 && s@[0] == '+' {
                s@.subrange(1, s@.len() as int)
            } else {
                s@
            }),
            spec_all_digits(t.subrange(0, i - start)),
            val == spec_digits_val(t.subrange(0, i - start)),
        decreases n - i,
    {
        let c = s.get_char(i);
        if (c as u32) < ('0' as u32) || (c as u32) > ('9' as u32) {
            proof {
                assert(t[i - start] == s@[i as int]);
                assert(!spec_is_digit(t[i - start]));
                assert(!spec_all_digits(t));
                assert(t.len() > 0);
            }
            return None;
        }
        let d = (c as u32 - '0' as u32) as usize;
        let ghost prefix = t.subrange(0, i - start);
        let ghost extended = t.subrange(0, i + 1 - start);
        proof {
            assert(extended.drop_last() =~= prefix);
            assert(extended.last() == t[i - start]);
            assert(t[i - start] == s@[i as int]);
            assert(spec_digits_val(extended) == val * 10 + d);
            assert(spec_all_digits(extended));
        }
        if val > (usize::MAX - d) / 10 {
            proof {
                lemma_digits_val_nonneg(prefix);
                assert(val * 10 + d > usize::MAX) by {
                    vstd::arithmetic::div_mod::lemma_fundamental_div_mod(
                        (usize::MAX - d) as int,
                        10,
                    );
                    vstd::arithmetic::div_mod::lemma_mod_division_less_than_divisor(
                        (usize::MAX - d) as int,
                        10,
                    );
                }
                assert(spec_digits_val(extended) > usize::MAX);
                if spec_all_digits(t) {
                    lemma_digits_val_prefix_le(t, i + 1 - start);
                    assert(spec_digits_val(t) > usize::MAX);
                }
            }
            return None;
        }
        proof {
            assert(val * 10 + d <= usize::MAX) by {
                vstd::arithmetic::div_mod::lemma_fundamental_div_mod((usize::MAX - d) as int, 10);
                vstd::arithmetic::div_mod::lemma_mod_division_less_than_divisor(
                    (usize::MAX - d) as int,
                    10,
                );
            }
        }
        val = val * 10 + d;
        i += 1;
    }
    proof {
        assert(t.subrange(0, n - start) =~= t);
    }
    Some(val)
}

/// Whether a header value is exactly the token `bytes`.
pub fn is_bytes_token(s: &String) -> (r: bool)
    ensures
        r == (s@ == "bytes"@),
{
    let lit = String::from_str("bytes");
    *s == lit
}

/// What the probe headers decide: `Some(length)` exactly when the server
/// advertises `Accept-Ranges: bytes`, with the parsed Content-Length (a
/// missing or unparseable one counts as zero); `None` otherwise.
pub open spec fn spec_decide_length(ar: Option<Seq<char>>, cl: Option<Seq<char>>) -> Option<
    usize,
> {
    match ar {
        Some(a) => if a == "bytes"@ {
            Some(
                match cl {
                    Some(t) => match spec_parse_usize(t) {
                        Some(v) => v,
                        None => 0,
                    },
                    None => 0,
                },
            )
        } else {
            None
        },
        None => None,
    }
}

/// The view of an optional header value.
pub open spec fn spec_opt_text(o: Option<String>) -> Option<Seq<char>> {
    match o {
        Some(s) => Some(s@),
        None => None,
    }
}

/// Decide the file length from the probe headers, exactly as
/// `spec_decide_length` describes.
pub fn decide_length(h: &ProbeHeaders) -> (r: Option<usize>)
    ensures
        r == spec_decide_length(spec_opt_text(h.accept_ranges), spec_opt_text(h.content_length)),
{
    match &h.accept_ranges {
        Some(a) => {
            if is_bytes_token(a) {
                match &h.content_length {
                    Some(t) => {
                        match parse_usize(t.as_str()) {
                            Some(v) => Some(v),
                            None => Some(0),
                        }
                    },
                    None => Some(0),
                }
            } else {
                None
            }
        },
        None => None,
    }
}

/// The lock levels of the engine's locking protocol.
#[derive(Clone, Copy, Debug, PartialEq, Eq, Structural)]
pub enum LockKind {
    NoLock,
    Shared,
    Reserved,
    Pending,
    Exclusive,
}

/// The lock state machine of a read-only handle, as a pure transition:
/// from a held lock and the shared-holder counter, a requested target
/// yields the new lock, the new counter, and whether the request was
/// granted. Releasing decrements the counter only when a shared lock was
/// held; acquiring shared always increments it; every other target is
/// refused without any change.
pub open spec fn spec_lock_step(lock: LockKind, count: nat, target: LockKind) -> (
    LockKind,
    nat,
    bool,
) {
    match target {
        LockKind::NoLock => (
            LockKind::NoLock,
            if lock is Shared {
                (count - 1) as nat
            } else {
                count
            },
            true,
        ),
        LockKind::Shared => (LockKind::Shared, (count + 1) as nat, true),
        _ => (lock, count, false),
    }
}

/// Releasing from the unlocked state is a no-op at the counter: the
/// request is granted and neither the lock nor the counter changes.
pub proof fn lemma_unlock_from_none_is_noop(count: nat)
    ensures
        spec_lock_step(LockKind::NoLock, count, LockKind::NoLock) == (
            LockKind::NoLock,
            count,
            true,
        ),
{
}

/// A shared acquire followed by a release restores the counter: the one
/// increment is matched by exactly one decrement, whatever was held
/// before.
pub proof fn lemma_shared_then_unlock_restores_count(lock: LockKind, count: nat)
    ensures
        ({
            let step1 = spec_lock_step(lock, count, LockKind::Shared);
            let step2 = spec_lock_step(step1.0, step1.1, LockKind::NoLock);
            step1.2 && step2.2 && step2.0 == LockKind::NoLock && step2.1 == count
        }),
{
}

/// One open remote database file handle.
pub struct Connection {
    /// The shared-lock holder counter this handle maintains.
    pub lock_count: usize,
    /// The lock this handle currently holds.
    pub lock: LockKind,
    /// The async bridge this handle owns and tears down on close.
    pub rt: AtomicRuntime,
    /// The block-cached view of the remote file.
    pub buffer: LazyBuffer,
    /// The URL the handle reads from.
    pub url: String,
}

impl Connection {
    /// Handle invariant: the buffer is well formed, the file is nonempty
    /// (an empty remote file is rejected at construction), and a held
    /// shared lock is counted.
    pub open spec fn wf(&self) -> bool {
        &&& self.buffer.wf()
        &&& self.buffer.length > 0
        &&& (self.lock is Shared ==> self.lock_count >= 1)
    }

    /// Probe the URL and decide the total length from the response
    /// headers. `None` when the server cannot be reached, does not
    /// advertise byte-range support, or the bridge is torn down.
    pub fn get_length(rt: &AtomicRuntime, url: &str) -> (r: Option<usize>)
        ensures
            r is Some ==> rt.available(),
    {
        match rt.probe(url) {
            Some(res) => match res {
                Ok(h) => decide_length(&h),
                Err(_) => None,
            },
            None => None,
        }
    }

    /// Open a remote database with a default HTTP client.
    pub fn new(url: &str, block_size: usize, download_threshold: usize) -> (r: Result<
        Connection,
        VfsError,
    >)
        requires
            0 < block_size,
        ensures
            match r {
                Ok(c) => {
                    &&& c.wf()
                    &&& c.lock == LockKind::NoLock
                    &&& c.lock_count == 0
                    &&& c.rt.available()
                    &&& c.buffer.block_size == block_size
                    &&& c.buffer.download_threshold == download_threshold
                    &&& c.buffer.length > 0
                    &&& c.buffer.blocks@ == Map::<usize, LazyBlock>::empty()
                    &&& c.buffer.fetches@ == 0
                    &&& c.url@ == url@
                },
                Err(e) => e == VfsError::InitFailed,
            },
    {
        Self::with_client(url, block_size, download_threshold, None)
    }

    /// Open a remote database, injecting an externally constructed HTTP
    /// client where one is given. The probe must show `Accept-Ranges:
    /// bytes` and a nonzero parsed Content-Length, else the bridge is
    /// torn down and initialization fails.
    pub fn with_client(
        url: &str,
        block_size: usize,
        download_threshold: usize,
        client: Option<reqwest::Client>,
    ) -> (r: Result<Connection, VfsError>)
        requires
            0 < block_size,
        ensures
            match r {
                Ok(c) => {
                    &&& c.wf()
                    &&& c.lock == LockKind::NoLock
                    &&& c.lock_count == 0
                    &&& c.rt.available()
                    &&& c.buffer.block_size == block_size
                    &&& c.buffer.download_threshold == download_threshold
                    &&& c.buffer.length > 0
                    &&& c.buffer.blocks@ == Map::<usize, LazyBlock>::empty()
                    &&& c.buffer.fetches@ == 0
                    &&& c.url@ == url@
                },
                Err(e) => e == VfsError::InitFailed,
            },
    {
        let mut rt = AtomicRuntime::new(client);
        match Self::get_length(&rt, url) {
            Some(length) => {
                if length > 0 {
                    Ok(
                        Connection {
                            lock_count: 0,
                            lock: LockKind::NoLock,
                            rt,
                            buffer: LazyBuffer::new(length, block_size, download_threshold),
                            url: url.to_owned(),
                        },
                    )
                } else {
                    rt.drop();
                    Err(VfsError::InitFailed)
                }
            },
            None => {
                rt.drop();
                Err(VfsError::InitFailed)
            },
        }
    }

    /// The immutable total length of the remote file.
    pub fn size(&self) -> (r: Result<u64, VfsError>)
        ensures
            r == Ok::<u64, VfsError>(self.buffer.length as u64),
    {
        Ok(self.buffer.size() as u64)
    }

    /// Serve the engine's read through the lazy buffer, fetching missing
    /// data over HTTP through the bridge. Out-of-bounds and straddling
    /// requests fail exactly as the buffer's contract says; a read whose
    /// target block is cached succeeds from memory without touching the
    /// network.
    pub fn read_exact_at(&mut self, buf: &mut Vec<u8>, offset: u64) -> (r: Result<(), VfsError>)
        requires
            old(self).wf(),
        ensures
            final(self).wf(),
            final(self).lock == old(self).lock,
            final(self).lock_count == old(self).lock_count,
            final(self).url == old(self).url,
            final(self).rt == old(self).rt,
            final(self).buffer.block_size == old(self).buffer.block_size,
            final(self).buffer.length == old(self).buffer.length,
            final(self).buffer.download_threshold == old(self).buffer.download_threshold,
            final(buf)@.len() == old(buf)@.len(),
            old(self).buffer.blocks@.submap_of(final(self).buffer.blocks@),
            r is Ok && old(buf)@.len() > 0 ==> offset + old(buf)@.len()
                <= old(self).buffer.length && old(self).buffer.spec_single_block(
                offset as int,
                old(buf)@.len() as int,
            ),
            offset + old(buf)@.len() > old(self).buffer.length ==> r == Err::<(), VfsError>(
                VfsError::OutOfBounds,
            ) && *final(self) == *old(self) && final(buf)@ == old(buf)@,
            offset + old(buf)@.len() <= old(self).buffer.length && old(buf)@.len() == 0 ==> r is Ok
                && *final(self) == *old(self) && final(buf)@ == old(buf)@,
            ({
                let len = old(buf)@.len() as int;
                offset + len <= old(self).buffer.length && len > 0
                    && !old(self).buffer.spec_single_block(offset as int, len) ==> r == Err::<
                    (),
                    VfsError,
                >(VfsError::OutOfBounds) && *final(self) == *old(self) && final(buf)@ == old(buf)@
            }),
            ({
                let len = old(buf)@.len() as int;
                let bi = old(self).buffer.spec_block_index(offset as int);
                let bo = old(self).buffer.spec_block_offset(offset as int);
                let cached_hit = offset + len <= old(self).buffer.length && len > 0
                    && old(self).buffer.spec_single_block(offset as int, len)
                    && old(self).buffer.blocks@.contains_key(bi as usize);
                cached_hit ==> r is Ok && *final(self) == *old(self)
                    && final(buf)@ == old(self).buffer.blocks@[bi as usize].data@.subrange(
                    bo,
                    bo + len,
                )
            }),
            ({
                let len = old(buf)@.len() as int;
                let bi = old(self).buffer.spec_block_index(offset as int);
                let narrow = offset + len <= old(self).buffer.length && len > 0
                    && old(self).buffer.spec_single_block(offset as int, len)
                    && !old(self).buffer.blocks@.contains_key(bi as usize)
                    && len <= old(self).buffer.download_threshold;
                narrow ==> final(self).buffer.blocks@ == old(self).buffer.blocks@
                    && final(self).buffer.fetches@ == old(self).buffer.fetches@ + 1
            }),
            ({
                let len = old(buf)@.len() as int;
                let bi = old(self).buffer.spec_block_index(offset as int);
                let full = offset + len <= old(self).buffer.length && len > 0
                    && old(self).buffer.spec_single_block(offset as int, len)
                    && !old(self).buffer.blocks@.contains_key(bi as usize)
                    && len > old(self).buffer.download_threshold;
                full ==> {
                    &&& final(self).buffer.fetches@ == old(self).buffer.fetches@ + 1
                    &&& (r is Ok ==> final(self).buffer.blocks@ == old(
                        self,
                    ).buffer.blocks@.insert(
                        bi as usize,
                        final(self).buffer.blocks@[bi as usize],
                    ) && final(self).buffer.blocks@.contains_key(bi as usize))
                    &&& (r is Err ==> final(self).buffer.blocks@ == old(self).buffer.blocks@)
                }
            }),
            !old(self).rt.available() && !old(self).buffer.blocks@.contains_key(
                old(self).buffer.spec_block_index(offset as int) as usize,
            ) && 0 < old(buf)@.len() && offset + old(buf)@.len() <= old(self).buffer.length && old(
                self,
            ).buffer.spec_single_block(offset as int, old(buf)@.len() as int) ==> r == Err::<
                (),
                VfsError,
            >(VfsError::Unavailable),
    {
        let len = buf.len();
        if offset > (usize::MAX as u64) {
            return Err(VfsError::OutOfBounds);
        }
        let off = offset as usize;
        let rt = &self.rt;
        let url = &self.url;
        let fetch = |o: usize, s: usize| -> (res: Result<Vec<u8>, VfsError>)
            requires
                0 < s,
                o + s <= usize::MAX,
            ensures
                !rt.available() ==> res == Err::<Vec<u8>, VfsError>(VfsError::Unavailable),
            {
                match rt.fetch_range(url.as_str(), o, s) {
                    Some(fetched) => fetched,
                    None => Err(VfsError::Unavailable),
                }
            };
        proof {
            assert forall|o: usize, s: usize|
                0 < s && o + s <= self.buffer.length implies #[trigger] call_requires(
                fetch,
                (o, s),
            ) by {}
            assert(fetch_callable(fetch, self.buffer.length));
        }
        self.buffer.read(buf, off, fetch)
    }

    /// Writing is never supported: the file is read-only.
    pub fn write_all_at(&mut self, _buf: &[u8], _offset: u64) -> (r: Result<(), VfsError>)
        ensures
            r == Err::<(), VfsError>(VfsError::WriteNotSupported),
            *final(self) == *old(self),
    {
        Err(VfsError::WriteNotSupported)
    }

    /// Nothing is ever dirty, so syncing succeeds without doing anything.
    pub fn sync(&mut self, _data_only: bool) -> (r: Result<(), VfsError>)
        ensures
            r is Ok,
            *final(self) == *old(self),
    {
        Ok(())
    }

    /// Resizing is never supported: the file is read-only.
    pub fn set_len(&mut self, _size: u64) -> (r: Result<(), VfsError>)
        ensures
            r == Err::<(), VfsError>(VfsError::ResizeNotSupported),
            *final(self) == *old(self),
    {
        Err(VfsError::ResizeNotSupported)
    }

    /// Request a lock transition. Exactly `spec_lock_step`: releasing
    /// decrements the counter only from a held shared lock, acquiring
    /// shared increments it, and every other target is refused without
    /// any state change.
    pub fn lock(&mut self, target: LockKind) -> (r: Result<bool, VfsError>)
        requires
            old(self).wf(),
            old(self).lock_count < usize::MAX,
        ensures
            final(self).wf(),
            final(self).buffer == old(self).buffer,
            final(self).rt == old(self).rt,
            final(self).url == old(self).url,
            r is Ok,
            (final(self).lock, final(self).lock_count as nat, r->Ok_0) == spec_lock_step(
                old(self).lock,
                old(self).lock_count as nat,
                target,
            ),
    {
        match target {
            LockKind::NoLock => {
                if self.lock == LockKind::Shared {
                    self.lock_count = self.lock_count - 1;
                }
                self.lock = LockKind::NoLock;
                Ok(true)
            },
            LockKind::Shared => {
                self.lock_count = self.lock_count + 1;
                self.lock = LockKind::Shared;
                Ok(true)
            },
            _ => Ok(false),
        }
    }

    /// No other holder ever takes a reserved, pending or exclusive lock
    /// on a read-only remote file.
    pub fn reserved(&mut self) -> (r: Result<bool, VfsError>)
        ensures
            r == Ok::<bool, VfsError>(false),
            *final(self) == *old(self),
    {
        Ok(false)
    }

    /// The lock this handle currently holds.
    pub fn current_lock(&self) -> (r: Result<LockKind, VfsError>)
        ensures
            r == Ok::<LockKind, VfsError>(self.lock),
    {
        Ok(self.lock)
    }

    /// The shared-lock holder counter, as this handle sees it.
    pub fn shared_count(&self) -> (r: usize)
        ensures
            r == self.lock_count,
    {
        self.lock_count
    }

    /// Tear down the async bridge. Idempotent: the first call empties the
    /// executor cell, a second one finds it already empty and changes
    /// nothing. The engine-facing adapter calls this when the handle is
    /// dropped.
    pub fn shutdown(&mut self)
        ensures
            !final(self).rt.available(),
            final(self).buffer == old(self).buffer,
            final(self).lock == old(self).lock,
            final(self).lock_count == old(self).lock_count,
            final(self).url == old(self).url,
            !old(self).rt.available() ==> *final(self) == *old(self),
    {
        self.rt.drop();
    }
}


} // verus!
