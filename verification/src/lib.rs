//! A minimal, verified byte-oriented I/O layer: blocking and poll-based
//! reader/writer capability traits, a bounded-stream (`Take`) decorator,
//! all-or-nothing retry combinators, a hashing passthrough, and the copy
//! pump that drives bytes from a readable source to a writable sink
//! through a small fixed intermediate buffer.

use vstd::prelude::*;
use vstd::pervasive::VecAdditionalExecFns;

pub mod sync_traits;
pub mod async_traits;
pub mod hash_stream;
pub mod prelude;

pub use sync_traits::{Read, ReadExt, Write, WriteExt, WriteFmtError, copy, read_exact, write_all};
pub use sync_traits::{take_reads_exactly, take_write_budget, write_all_chunked};
pub use async_traits::{AsyncRead, AsyncSynchronous, AsyncWrite, Poll, all_poll, all_poll_write};
pub use async_traits::{AsyncReadExt, AsyncSynchronousExt, AsyncWriteExt, Duplex};
pub use async_traits::copy::{AsyncCopy, lemma_compaction_maximal_free, run_copy};
pub use async_traits::flush::AsyncFlush;
pub use async_traits::read_exact::{AsyncReadExact, run_read_exact};
pub use async_traits::read_write_all::{ReadWriteAll, read_write_all};
pub use async_traits::write_all::{AsyncWriteAll, run_write_all};
pub use hash_stream::{FnvHasher, HashStream, Hasher, fnv1a, fnv1a_step};

verus! {

/// Size of the intermediate buffer used by the copy pumps. Deliberately
/// small so that partial-transfer logic is exercised even by small copies.
pub const COPY_BUFFER_LEN: usize = 0x10;

/// The unified error currency: either "end of input encountered where more
/// data was required" or an underlying transport failure, carried through
/// unmodified.
#[derive(Debug, Copy, Clone, PartialOrd, Ord, PartialEq, Eq, Hash)]
pub enum AllError<E> {
    UnexpectedEof,
    Io(E),
}

impl<E> From<E> for AllError<E> {
    fn from(e: E) -> (r: Self)
        ensures
            r == AllError::Io(e),
    {
        AllError::Io(e)
    }
}

impl<E> vstd::std_specs::convert::FromSpecImpl<E> for AllError<E> {
    open spec fn obeys_from_spec() -> bool {
        true
    }

    open spec fn from_spec(e: E) -> Self {
        AllError::Io(e)
    }
}

/// Error type of a source or sink that never fails. No verified function
/// ever constructs a value of it.
#[derive(Debug, Copy, Clone, PartialOrd, Ord, PartialEq, Eq, Hash)]
pub struct NoError;

/// Error reported by a copy pump: the failure of its read half or of its
/// write half, so that heterogeneous source/sink error types are unified
/// without masking either.
#[derive(Debug, Copy, Clone, PartialOrd, Ord, PartialEq, Eq, Hash)]
pub enum PumpError<R, W> {
    Read(R),
    Write(W),
}

/// A sink that discards everything it is offered. The bytes it has
/// accepted are tracked in ghost state only.
#[derive(Copy, Clone)]
pub struct Sink {
    pub accepted: Ghost<Seq<u8>>,
}

impl Sink {
    pub fn new() -> (r: Self)
        ensures
            r.accepted@ == Seq::<u8>::empty(),
    {
        Sink { accepted: Ghost(Seq::empty()) }
    }
}

/// A source that is always at end of input.
#[derive(Debug, Copy, Clone)]
pub struct Empty;

/// A decorator enforcing a byte budget on an underlying readable or
/// writable stream.
#[derive(Debug, Copy, Clone)]
pub struct Take<S> {
    pub stream: S,
    pub limit: usize,
}

impl<S> Take<S> {
    pub fn new(stream: S, limit: usize) -> (r: Self)
        ensures
            r.stream == stream,
            r.limit == limit,
    {
        Take { stream, limit }
    }

    pub fn limit(&self) -> (r: usize)
        ensures
            r == self.limit,
    {
        self.limit
    }

    pub fn set_limit(&mut self, limit: usize)
        ensures
            final(self).limit == limit,
            final(self).stream == old(self).stream,
    {
        self.limit = limit;
    }
}

/// A readable source backed by an in-memory byte sequence; it hands the
/// bytes out from the front.
pub struct SliceReader {
    pub data: Vec<u8>,
    pub pos: usize,
}

impl SliceReader {
    pub open spec fn wf(&self) -> bool {
        self.pos <= self.data@.len()
    }

    pub open spec fn bytes_left(&self) -> Seq<u8> {
        self.data@.skip(spec_min(self.pos as int, self.data@.len() as int))
    }

    pub fn new(data: Vec<u8>) -> (r: Self)
        ensures
            r.wf(),
            r.bytes_left() == data@,
    {
        let r = SliceReader { data, pos: 0 };
        proof {
            assert(r.bytes_left() =~= r.data@);
        }
        r
    }
}

/// A writable sink backed by a caller-supplied region of fixed capacity;
/// it fails with `AllError::UnexpectedEof` once the region is full and a
/// non-empty write is attempted.
pub struct SliceWriter {
    pub data: Vec<u8>,
    pub space: usize,
}

impl SliceWriter {
    pub fn new(capacity: usize) -> (r: Self)
        ensures
            r.data@ == Seq::<u8>::empty(),
            r.space == capacity,
    {
        SliceWriter { data: Vec::new(), space: capacity }
    }
}

/// A writable sink of unbounded capacity that records every byte it
/// accepts, in order.
pub struct VecSink {
    pub data: Vec<u8>,
}

impl VecSink {
    pub fn new() -> (r: Self)
        ensures
            r.data@ == Seq::<u8>::empty(),
    {
        VecSink { data: Vec::new() }
    }
}

/// A writable sink of unbounded capacity that accepts at most `chunk`
/// bytes per call (at least one), recording every byte it accepts.
pub struct ChunkSink {
    pub data: Vec<u8>,
    pub chunk: usize,
}

impl ChunkSink {
    pub fn new(chunk: usize) -> (r: Self)
        ensures
            r.data@ == Seq::<u8>::empty(),
            r.chunk == chunk,
    {
        ChunkSink { data: Vec::new(), chunk }
    }
}

/// Copy `src[0..n]` over `dst[at..at + n]`, leaving the rest of `dst`
/// unchanged.
pub(crate) fn copy_into(dst: &mut Vec<u8>, at: usize, src: &Vec<u8>, n: usize)
    requires
        at + n <= old(dst)@.len(),
        n <= src@.len(),
    ensures
        final(dst)@.len() == old(dst)@.len(),
        final(dst)@ == old(dst)@.take(at as int) + src@.take(n as int) + old(dst)@.skip((at + n) as int),
{
    let dst_len = dst.len();
    let mut j: usize = 0;
    while j < n
        invariant
            j <= n,
            dst@.len() == dst_len,
            at + n <= dst@.len(),
            n <= src@.len(),
            dst@.len() == old(dst)@.len(),
            forall|i: int| 0 <= i < j ==> dst@[at + i] == src@[i],
            forall|i: int| 0 <= i < dst@.len() && !(at <= i < at + j) ==> dst@[i] == old(dst)@[i],
        decreases n - j,
    {
        dst.set(at + j, src[j]);
        j += 1;
    }
    proof {
        assert(dst@ =~= old(dst)@.take(at as int) + src@.take(n as int) + old(dst)@.skip(
            (at + n) as int,
        ));
    }
}

/// A fresh copy of `v[from..to]`.
pub(crate) fn sub_vec(v: &Vec<u8>, from: usize, to: usize) -> (r: Vec<u8>)
    requires
        from <= to <= v@.len(),
    ensures
        r@ == v@.subrange(from as int, to as int),
{
    let mut r: Vec<u8> = Vec::new();
    let mut i: usize = from;
    while i < to
        invariant
            from <= i <= to <= v@.len(),
            r@ == v@.subrange(from as int, i as int),
        decreases to - i,
    {
        let b = v[i];
        r.push(b);
        i += 1;
        proof {
            assert(r@ =~= v@.subrange(from as int, i as int));
        }
    }
    r
}

/// The smaller of two lengths.
pub(crate) fn min_usize(a: usize, b: usize) -> (r: usize)
    ensures
        r == spec_min(a as int, b as int),
{
    if a <= b {
        a
    } else {
        b
    }
}

pub open spec fn spec_min(a: int, b: int) -> int {
    if a <= b {
        a
    } else {
        b
    }
}

/// Append `src[from..to]` to `dst`.
pub(crate) fn push_range(dst: &mut Vec<u8>, src: &[u8], from: usize, to: usize)
    requires
        from <= to <= src@.len(),
    ensures
        final(dst)@ == old(dst)@ + src@.subrange(from as int, to as int),
{
    let mut i: usize = from;
    while i < to
        invariant
            from <= i <= to <= src@.len(),
            dst@ == old(dst)@ + src@.subrange(from as int, i as int),
        decreases to - i,
    {
        let b = src[i];
        dst.push(b);
        i += 1;
        proof {
            assert(dst@ =~= old(dst)@ + src@.subrange(from as int, i as int));
        }
    }
}

/// An adaptor that lets a byte sink serve as a plain text sink: strings
/// are written whole, with no partial-progress reporting.
#[allow(non_camel_case_types)]
pub struct uWriter<W> {
    pub inner: W,
}

impl<W> uWriter<W> {
    pub fn new(inner: W) -> (r: Self)
        ensures
            r.inner == inner,
    {
        uWriter { inner }
    }

    pub fn into_inner(self) -> (r: W)
        ensures
            r == self.inner,
    {
        self.inner
    }
}

} // verus!

