//! The block-cached lazy buffer: a fixed-length byte range served from an
//! in-memory, block-aligned cache, with a fetch callback that materialises
//! missing ranges from the remote source.

use crate::VfsError;
use std::collections::HashMap;
use vstd::arithmetic::div_mod::{lemma_fundamental_div_mod, lemma_mod_division_less_than_divisor};
use vstd::arithmetic::mul::lemma_mul_is_commutative;
use vstd::pervasive::VecAdditionalExecFns;
use vstd::prelude::*;

verus! {

broadcast use vstd::std_specs::hash::group_hash_axioms;

/// The fetch callback may be invoked for any nonempty range that lies
/// within the file.
pub open spec fn fetch_callable<F: Fn(usize, usize) -> Result<Vec<u8>, VfsError>>(
    f: F,
    length: usize,
) -> bool {
    forall|o: usize, s: usize| 0 < s && o + s <= length ==> #[trigger] call_requires(f, (o, s))
}

/// Every successful outcome the fetch callback admits for an in-bounds
/// range returns exactly the bytes of `file` for that range.
pub open spec fn fetch_consistent<F: Fn(usize, usize) -> Result<Vec<u8>, VfsError>>(
    f: F,
    file: Seq<u8>,
) -> bool {
    forall|o: usize, s: usize, r: Result<Vec<u8>, VfsError>|
        #[trigger] call_ensures(f, (o, s), r) && r is Ok && o + s <= file.len()
            ==> r->Ok_0@ == file.subrange(o as int, o + s as int)
}

/// Overwrite `buf` with the contents of `src`, which has the same length.
fn fill_from(buf: &mut Vec<u8>, src: &Vec<u8>)
    requires
        old(buf)@.len() == src@.len(),
    ensures
        final(buf)@ == src@,
{
    let n = src.len();
    let mut j: usize = 0;
    while j < n
        invariant
            j <= n,
            buf@.len() == n,
            src@.len() == n,
            forall|k: int| 0 <= k < j ==> buf@[k] == src@[k],
        decreases n - j,
    {
        let b = src[j];
        buf.set(j, b);
        j += 1;
    }
    proof {
        assert(buf@ =~= src@);
    }
}

/// A window of a window of `s` is a window of `s`.
proof fn lemma_subrange_of_subrange(s: Seq<u8>, a: int, b: int, c: int, d: int)
    requires
        0 <= a <= b <= s.len(),
        0 <= c <= d <= b - a,
    ensures
        s.subrange(a, b).subrange(c, d) == s.subrange(a + c, a + d),
{
    assert(s.subrange(a, b).subrange(c, d) =~= s.subrange(a + c, a + d));
}

/// One cached block: a contiguous, block-aligned byte range of the remote
/// file. The payload of the last block may be shorter than the block size.
pub struct LazyBlock {
    pub data: Vec<u8>,
    pub size: usize,
}

impl LazyBlock {
    /// The payload holds exactly the advertised number of bytes.
    pub open spec fn wf(&self) -> bool {
        self.data@.len() == self.size
    }

    /// The error every out-of-range read reports.
    pub fn eof() -> (e: VfsError)
        ensures
            e == VfsError::OutOfBounds,
    {
        VfsError::OutOfBounds
    }

    /// Copy `buf.len()` bytes of the payload, starting at `offset`, into
    /// `buf`. Succeeds exactly when the request lies within the payload;
    /// a zero-length read always succeeds and touches nothing.
    pub fn read(&self, buf: &mut Vec<u8>, offset: usize) -> (r: Result<usize, VfsError>)
        requires
            self.wf(),
        ensures
            final(buf)@.len() == old(buf)@.len(),
            r is Ok <==> (old(buf)@.len() == 0 || offset + old(buf)@.len() <= self.size),
            match r {
                Ok(n) => {
                    &&& n == old(buf)@.len()
                    &&& (old(buf)@.len() > 0 ==> final(buf)@ == self.data@.subrange(
                        offset as int,
                        offset + old(buf)@.len(),
                    ))
                    &&& (old(buf)@.len() == 0 ==> final(buf)@ == old(buf)@)
                },
                Err(e) => {
                    &&& e == VfsError::OutOfBounds
                    &&& final(buf)@ == old(buf)@
                },
            },
    {
        let size = buf.len();
        if size == 0 {
            return Ok(0);
        }
        if offset >= self.size {
            return Err(Self::eof());
        }
        if size > self.size - offset {
            return Err(Self::eof());
        }
        let mut j: usize = 0;
        while j < size
            invariant
                self.wf(),
                j <= size,
                buf@.len() == size,
                offset + size <= self.size,
                forall|k: int| 0 <= k < j ==> buf@[k] == self.data@[offset + k],
            decreases size - j,
        {
            let b = self.data[offset + j];
            buf.set(j, b);
            j += 1;
        }
        proof {
            assert(buf@ =~= self.data@.subrange(offset as int, offset + size as int));
        }
        Ok(size)
    }
}

/// How long the payload of block `i` is in a file of length `length` split
/// into blocks of `block_size` bytes: a full block, except that the last
/// block holds only what remains of the file.
pub open spec fn block_payload_len(length: int, block_size: int, i: int) -> int {
    if block_size <= length - i * block_size {
        block_size
    } else {
        length - i * block_size
    }
}

/// A snapshot view of a remote file of known, immutable total length,
/// served through a block-aligned in-memory cache.
pub struct LazyBuffer {
    pub blocks: HashMap<usize, LazyBlock>,
    pub block_size: usize,
    pub download_threshold: usize,
    pub length: usize,
    /// How many times the fetch callback has been invoked.
    pub fetches: Ghost<nat>,
}

impl LazyBuffer {
    /// Cache structure invariant: the block size is nonzero, and every
    /// cached block has a valid index and exactly the payload length that
    /// its position in the file dictates.
    pub open spec fn wf(&self) -> bool {
        &&& self.block_size > 0
        &&& forall|i: usize|
            self.blocks@.contains_key(i) ==> {
                &&& (#[trigger] self.blocks@[i]).wf()
                &&& i * self.block_size < self.length
                &&& self.blocks@[i].size == block_payload_len(
                    self.length as int,
                    self.block_size as int,
                    i as int,
                )
            }
    }

    /// The buffer agrees with a backing file `file`: the lengths match and
    /// every cached block holds exactly the file's bytes for its range.
    pub open spec fn consistent_with(&self, file: Seq<u8>) -> bool {
        &&& file.len() == self.length
        &&& forall|i: usize|
            self.blocks@.contains_key(i) ==> (#[trigger] self.blocks@[i]).data@ == file.subrange(
                i * self.block_size,
                i * self.block_size + self.blocks@[i].size,
            )
    }

    /// An empty cache over a file of `length` bytes.
    pub fn new(length: usize, block_size: usize, download_threshold: usize) -> (r: LazyBuffer)
        requires
            block_size > 0,
        ensures
            r.wf(),
            r.length == length,
            r.block_size == block_size,
            r.download_threshold == download_threshold,
            r.blocks@ == Map::<usize, LazyBlock>::empty(),
            r.fetches@ == 0,
            forall|file: Seq<u8>| file.len() == length ==> r.consistent_with(file),
    {
        let r = LazyBuffer {
            blocks: HashMap::new(),
            block_size,
            download_threshold,
            length,
            fetches: Ghost(0),
        };
        proof {
            assert(r.blocks@ =~= Map::<usize, LazyBlock>::empty());
        }
        r
    }

    /// The total length of the remote file.
    pub fn size(&self) -> (r: usize)
        ensures
            r == self.length,
    {
        self.length
    }

    /// Whether the block of the given index is in the cache.
    pub fn cached(&self, block_index: usize) -> (r: bool)
        ensures
            r == self.blocks@.contains_key(block_index),
    {
        self.blocks.contains_key(&block_index)
    }

    /// The index of the block a byte offset falls into.
    pub open spec fn spec_block_index(&self, offset: int) -> int {
        offset / (self.block_size as int)
    }

    /// The position of a byte offset within its block.
    pub open spec fn spec_block_offset(&self, offset: int) -> int {
        offset % (self.block_size as int)
    }

    /// The byte offset at which block `i` starts.
    pub open spec fn spec_block_start(&self, i: int) -> int {
        i * self.block_size
    }

    /// The payload length of block `i`.
    pub open spec fn spec_block_len(&self, i: int) -> int {
        block_payload_len(self.length as int, self.block_size as int, i)
    }

    /// The arguments a full fetch of block `i` passes to the callback.
    pub open spec fn spec_fetch_args(&self, i: int) -> (usize, usize) {
        ((self.spec_block_start(i)) as usize, (self.spec_block_len(i)) as usize)
    }

    /// A request stays within the file.
    pub open spec fn spec_in_bounds(&self, offset: int, len: int) -> bool {
        offset + len <= self.length
    }

    /// A request stays within one block.
    pub open spec fn spec_single_block(&self, offset: int, len: int) -> bool {
        self.spec_block_offset(offset) + len <= self.block_size
    }

    /// Ensure the block of the given index is cached, fetching its full
    /// payload if it is missing. A short fetch is treated as a failure and
    /// caches nothing.
    pub fn get_block<F: Fn(usize, usize) -> Result<Vec<u8>, VfsError>>(
        &mut self,
        block_index: usize,
        fetch: F,
    ) -> (r: Result<(), VfsError>)
        requires
            old(self).wf(),
            fetch_callable(fetch, old(self).length),
            block_index * old(self).block_size < old(self).length,
        ensures
            final(self).wf(),
            final(self).block_size == old(self).block_size,
            final(self).length == old(self).length,
            final(self).download_threshold == old(self).download_threshold,
            old(self).blocks@.submap_of(final(self).blocks@),
            r is Ok ==> final(self).blocks@.contains_key(block_index),
            old(self).blocks@.contains_key(block_index) ==> r is Ok && *final(self) == *old(self),
            !old(self).blocks@.contains_key(block_index) ==> {
                &&& final(self).fetches@ == old(self).fetches@ + 1
                &&& match r {
                    Ok(_) => exists|d: Vec<u8>|
                        {
                            &&& #[trigger] call_ensures(
                                fetch,
                                old(self).spec_fetch_args(block_index as int),
                                Ok(d),
                            )
                            &&& d@.len() == old(self).spec_block_len(block_index as int)
                            &&& final(self).blocks@ == old(self).blocks@.insert(
                                block_index,
                                final(self).blocks@[block_index],
                            )
                            &&& final(self).blocks@[block_index].data@ == d@
                        },
                    Err(e) => {
                        &&& final(self).blocks@ == old(self).blocks@
                        &&& exists|res: Result<Vec<u8>, VfsError>|
                            {
                                &&& #[trigger] call_ensures(
                                    fetch,
                                    old(self).spec_fetch_args(block_index as int),
                                    res,
                                )
                                &&& match res {
                                    Ok(d) => d@.len() != old(self).spec_block_len(
                                        block_index as int,
                                    ) && e == VfsError::FetchFailed,
                                    Err(e2) => e2 == e,
                                }
                            }
                    },
                }
            },
            forall|file: Seq<u8>|
                old(self).consistent_with(file) && fetch_consistent(fetch, file)
                    ==> final(self).consistent_with(file),
    {
        if self.blocks.contains_key(&block_index) {
            return Ok(());
        }
        let start = block_index * self.block_size;
        let blen = crate::min_usize(self.block_size, self.length - start);
        proof {
            assert(old(self).spec_block_start(block_index as int) == start as int);
            assert(old(self).spec_block_len(block_index as int) == blen as int);
            assert(old(self).spec_fetch_args(block_index as int) == (start, blen));
        }
        self.fetches = Ghost((self.fetches@ + 1) as nat);
        match fetch(start, blen) {
            Ok(d) => {
                let ghost dv = d@;
                if d.len() != blen {
                    Err(VfsError::FetchFailed)
                } else {
                    self.blocks.insert(block_index, LazyBlock { data: d, size: blen });
                    proof {
                        assert(self.blocks@ =~= old(self).blocks@.insert(
                            block_index,
                            self.blocks@[block_index],
                        ));
                        assert forall|i: usize| self.blocks@.contains_key(i) implies {
                            &&& (#[trigger] self.blocks@[i]).wf()
                            &&& i * self.block_size < self.length
                            &&& self.blocks@[i].size == block_payload_len(
                                self.length as int,
                                self.block_size as int,
                                i as int,
                            )
                        } by {
                            if i != block_index {
                                assert(old(self).blocks@.contains_key(i));
                            }
                        }
                        assert forall|file: Seq<u8>|
                            old(self).consistent_with(file) && fetch_consistent(
                                fetch,
                                file,
                            ) implies self.consistent_with(file) by {
                            assert(dv == file.subrange(start as int, start + blen as int));
                            assert forall|i: usize| self.blocks@.contains_key(i) implies (
                            #[trigger] self.blocks@[i]).data@ == file.subrange(
                                i * self.block_size,
                                i * self.block_size + self.blocks@[i].size,
                            ) by {
                                if i != block_index {
                                    assert(old(self).blocks@.contains_key(i));
                                }
                            }
                        }
                    }
                    Ok(())
                }
            },
            Err(e) => Err(e),
        }
    }

    /// Serve a read of `buf.len()` bytes at `offset`: from the cache when
    /// the target block is present, through a narrow fetch when the request
    /// is small enough, and through a full-block fetch (which populates the
    /// cache) otherwise. Requests past the end of the file or straddling a
    /// block boundary fail out of bounds; a zero-length read at any offset
    /// within the file succeeds without fetching.
    #[verifier::rlimit(100)]
    #[verifier::spinoff_prover]
    pub fn read<F: Fn(usize, usize) -> Result<Vec<u8>, VfsError>>(
        &mut self,
        buf: &mut Vec<u8>,
        offset: usize,
        fetch: F,
    ) -> (r: Result<(), VfsError>)
        requires
            old(self).wf(),
            fetch_callable(fetch, old(self).length),
        ensures
            final(self).wf(),
            final(self).block_size == old(self).block_size,
            final(self).length == old(self).length,
            final(self).download_threshold == old(self).download_threshold,
            final(buf)@.len() == old(buf)@.len(),
            old(self).blocks@.submap_of(final(self).blocks@),
            ({
                let len = old(buf)@.len() as int;
                r is Ok && len > 0 ==> old(self).spec_in_bounds(offset as int, len)
                    && old(self).spec_single_block(offset as int, len)
            }),
            ({
                let len = old(buf)@.len() as int;
                !old(self).spec_in_bounds(offset as int, len)
                    ==> r == Err::<(), VfsError>(VfsError::OutOfBounds)
                    && *final(self) == *old(self) && final(buf)@ == old(buf)@
            }),
            ({
                let len = old(buf)@.len() as int;
                old(self).spec_in_bounds(offset as int, len) && len == 0 ==> r is Ok
                    && *final(self) == *old(self) && final(buf)@ == old(buf)@
            }),
            ({
                let len = old(buf)@.len() as int;
                old(self).spec_in_bounds(offset as int, len) && len > 0
                    && !old(self).spec_single_block(offset as int, len)
                    ==> r == Err::<(), VfsError>(VfsError::OutOfBounds)
                    && *final(self) == *old(self) && final(buf)@ == old(buf)@
            }),
            ({
                let len = old(buf)@.len() as int;
                let bi = old(self).spec_block_index(offset as int);
                let bo = old(self).spec_block_offset(offset as int);
                let cached_hit = old(self).spec_in_bounds(offset as int, len) && len > 0
                    && old(self).spec_single_block(offset as int, len)
                    && old(self).blocks@.contains_key(bi as usize);
                cached_hit ==> r is Ok && *final(self) == *old(self)
                    && final(buf)@ == old(self).blocks@[bi as usize].data@.subrange(bo, bo + len)
            }),
            ({
                let len = old(buf)@.len() as int;
                let bi = old(self).spec_block_index(offset as int);
                let narrow = old(self).spec_in_bounds(offset as int, len) && len > 0
                    && old(self).spec_single_block(offset as int, len)
                    && !old(self).blocks@.contains_key(bi as usize)
                    && len <= old(self).download_threshold;
                narrow ==> {
                    &&& final(self).blocks@ == old(self).blocks@
                    &&& final(self).fetches@ == old(self).fetches@ + 1
                    &&& exists|res: Result<Vec<u8>, VfsError>|
                        {
                            &&& #[trigger] call_ensures(
                                fetch,
                                (offset, old(buf)@.len() as usize),
                                res,
                            )
                            &&& match res {
                                Ok(d) => {
                                    if d@.len() == len {
                                        r is Ok && final(buf)@ == d@
                                    } else {
                                        r == Err::<(), VfsError>(VfsError::OutOfBounds)
                                            && final(buf)@ == old(buf)@
                                    }
                                },
                                Err(e) => r == Err::<(), VfsError>(e) && final(buf)@ == old(buf)@,
                            }
                        }
                }
            }),
            ({
                let len = old(buf)@.len() as int;
                let bi = old(self).spec_block_index(offset as int);
                let bo = old(self).spec_block_offset(offset as int);
                let full = old(self).spec_in_bounds(offset as int, len) && len > 0
                    && old(self).spec_single_block(offset as int, len)
                    && !old(self).blocks@.contains_key(bi as usize)
                    && len > old(self).download_threshold;
                full ==> {
                    &&& final(self).fetches@ == old(self).fetches@ + 1
                    &&& exists|res: Result<Vec<u8>, VfsError>|
                        {
                            &&& #[trigger] call_ensures(fetch, old(self).spec_fetch_args(bi), res)
                            &&& match res {
                                Ok(d) => {
                                    if d@.len() == old(self).spec_block_len(bi) {
                                        &&& r is Ok
                                        &&& final(self).blocks@ == old(self).blocks@.insert(
                                            bi as usize,
                                            final(self).blocks@[bi as usize],
                                        )
                                        &&& final(self).blocks@[bi as usize].data@ == d@
                                        &&& final(buf)@ == d@.subrange(bo, bo + len)
                                    } else {
                                        &&& r == Err::<(), VfsError>(VfsError::FetchFailed)
                                        &&& final(self).blocks@ == old(self).blocks@
                                        &&& final(buf)@ == old(buf)@
                                    }
                                },
                                Err(e) => r == Err::<(), VfsError>(e)
                                    && final(self).blocks@ == old(self).blocks@
                                    && final(buf)@ == old(buf)@,
                            }
                        }
                }
            }),
            forall|file: Seq<u8>|
                old(self).consistent_with(file) && fetch_consistent(fetch, file)
                    ==> final(self).consistent_with(file) && (r is Ok
                    ==> final(buf)@ == file.subrange(
                    offset as int,
                    offset + old(buf)@.len() as int,
                )),
    {
        let len = buf.len();
        if len > self.length {
            return Err(LazyBlock::eof());
        }
        if offset > self.length - len {
            return Err(LazyBlock::eof());
        }
        if len == 0 {
            return Ok(());
        }
        let bi = offset / self.block_size;
        let bo = offset % self.block_size;
        proof {
            assert(self.block_size > 0);
            lemma_fundamental_div_mod(offset as int, self.block_size as int);
            lemma_mod_division_less_than_divisor(offset as int, self.block_size as int);
            lemma_mul_is_commutative(bi as int, self.block_size as int);
            assert(offset == bi * self.block_size + bo);
        }
        if len > self.block_size - bo {
            return Err(LazyBlock::eof());
        }
        if self.blocks.contains_key(&bi) {
            proof {
                assert(bo + len <= self.blocks@[bi].size);
            }
            let block = match self.blocks.get(&bi) {
                Some(b) => b,
                Option::None => {
                    proof {
                        assert(false);
                    }
                    return Err(LazyBlock::eof());
                },
            };
            match block.read(buf, bo) {
                Ok(_) => {
                    proof {
                        assert forall|file: Seq<u8>|
                            old(self).consistent_with(file) && fetch_consistent(
                                fetch,
                                file,
                            ) implies self.consistent_with(file) && buf@ == file.subrange(
                            offset as int,
                            offset + len as int,
                        ) by {
                            let start = bi * self.block_size as int;
                            lemma_subrange_of_subrange(
                                file,
                                start,
                                start + self.blocks@[bi].size,
                                bo as int,
                                bo + len,
                            );
                        }
                        assert(self.wf());
                    }
                    Ok(())
                },
                Err(e) => {
                    proof {
                        assert(false);
                    }
                    Err(e)
                },
            }
        } else if len <= self.download_threshold {
            self.fetches = Ghost((self.fetches@ + 1) as nat);
            match fetch(offset, len) {
                Ok(d) => {
                    if d.len() != len {
                        proof {
                            assert(self.wf());
                        }
                        Err(LazyBlock::eof())
                    } else {
                        fill_from(buf, &d);
                        proof {
                            assert(self.wf());
                        }
                        proof {
                            assert forall|file: Seq<u8>|
                                old(self).consistent_with(file) && fetch_consistent(
                                    fetch,
                                    file,
                                ) implies self.consistent_with(file) && buf@ == file.subrange(
                                offset as int,
                                offset + len as int,
                            ) by {}
                        }
                        Ok(())
                    }
                },
                Err(e) => {
                    proof {
                        assert(self.wf());
                    }
                    Err(e)
                },
            }
        } else {
            let ghost pre = *self;
            match self.get_block(bi, fetch) {
                Ok(_) => {
                    proof {
                        assert(self.blocks@.contains_key(bi));
                        assert(bo + len <= self.blocks@[bi].size);
                    }
                    let block = match self.blocks.get(&bi) {
                        Some(b) => b,
                        Option::None => {
                            proof {
                                assert(false);
                            }
                            return Err(LazyBlock::eof());
                        },
                    };
                    match block.read(buf, bo) {
                        Ok(_) => {
                            proof {
                                let d = choose|d: Vec<u8>|
                                    {
                                        &&& #[trigger] call_ensures(
                                            fetch,
                                            pre.spec_fetch_args(bi as int),
                                            Ok(d),
                                        )
                                        &&& d@.len() == pre.spec_block_len(bi as int)
                                        &&& self.blocks@ == pre.blocks@.insert(
                                            bi,
                                            self.blocks@[bi],
                                        )
                                        &&& self.blocks@[bi].data@ == d@
                                    };
                                assert(call_ensures(fetch, pre.spec_fetch_args(bi as int), Ok(d)));
                                assert(buf@ == d@.subrange(bo as int, bo + len));
                                assert forall|file: Seq<u8>|
                                    old(self).consistent_with(file) && fetch_consistent(
                                        fetch,
                                        file,
                                    ) implies self.consistent_with(file) && buf@ == file.subrange(
                                    offset as int,
                                    offset + len as int,
                                ) by {
                                    let start = bi * self.block_size as int;
                                    lemma_subrange_of_subrange(
                                        file,
                                        start,
                                        start + self.blocks@[bi].size,
                                        bo as int,
                                        bo + len,
                                    );
                                }
                            }
                            Ok(())
                        },
                        Err(e) => {
                            proof {
                                assert(false);
                            }
                            Err(e)
                        },
                    }
                },
                Err(e) => Err(e),
            }
        }
    }
}

/// Every cached block holds exactly the payload its position dictates:
/// the block size, or what remains of the file for the last block, and
/// its payload buffer has exactly that many bytes.
pub proof fn lemma_cached_block_size(b: &LazyBuffer, i: usize)
    requires
        b.wf(),
        b.blocks@.contains_key(i),
    ensures
        b.blocks@[i].size == if b.block_size <= b.length - i * b.block_size {
            b.block_size as int
        } else {
            b.length - i * b.block_size
        },
        b.blocks@[i].data@.len() == b.blocks@[i].size,
        i * b.block_size < b.length,
{
}

/// Reads are deterministic against a consistent backing: `read` ensures
/// that a successful read yields exactly `file.subrange(offset, offset +
/// len)` whenever cache and fetch callback agree with `file`, so two
/// successful reads of the same range return byte-identical output,
/// whatever reads and cache fills happen in between.
pub proof fn lemma_reads_deterministic(
    file: Seq<u8>,
    offset: int,
    len: int,
    first: Seq<u8>,
    second: Seq<u8>,
)
    requires
        first == file.subrange(offset, offset + len),
        second == file.subrange(offset, offset + len),
    ensures
        first == second,
{
}

} // verus!
