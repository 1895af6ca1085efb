//! Poll-based (cooperatively suspending) byte-stream capability traits.
//!
//! Every operation either completes within the call or reports
//! `Poll::Pending`, in which case an external scheduler is responsible for
//! invoking it again later; nothing here blocks.  The models mirror the
//! blocking traits: a source is the sequence of bytes it has yet to
//! produce, a sink the sequence it has accepted.

use vstd::prelude::*;
use crate::{AllError, ChunkSink, Empty, NoError, Read, Sink, SliceReader, SliceWriter, Take,
    VecSink, Write, copy_into, min_usize, spec_min, sub_vec};

pub mod copy;
pub mod flush;
pub mod read_exact;
pub mod write_all;
pub mod read_write_all;

use copy::AsyncCopy;
use flush::AsyncFlush;
use read_exact::AsyncReadExact;
use read_write_all::ReadWriteAll;
use write_all::AsyncWriteAll;

verus! {

/// The result of a one-shot, possibly-suspending operation: either it is
/// not ready yet (re-invoke later), or it completed with a value.
#[derive(Debug, Copy, Clone, PartialEq, Eq)]
pub enum Poll<T> {
    Pending,
    Ready(T),
}

/// A readable byte source that may suspend.
///
/// A pending poll delivers nothing; a ready poll behaves exactly like a
/// blocking read: 0 bytes into a non-empty buffer is the end-of-input
/// signal.
pub trait AsyncRead {
    type Error;

    /// The bytes this source has yet to produce, in order.
    spec fn remaining(&self) -> Seq<u8>;

    /// Whether this source always completes within one poll and never
    /// fails.
    spec fn always_ready(&self) -> bool;

    /// Read up to `buf.len()` bytes into the front of `buf`; the portion
    /// of `buf` beyond the bytes read keeps its old contents.
    fn poll_read(&mut self, buf: &mut Vec<u8>) -> (r: Poll<Result<usize, Self::Error>>)
        ensures
            final(buf)@.len() == old(buf)@.len(),
            old(self).always_ready() ==> final(self).always_ready() && (r matches Poll::Ready(res)
                && res is Ok),
            match r {
                Poll::Pending => {
                    &&& final(self).remaining() == old(self).remaining()
                    &&& final(buf)@ == old(buf)@
                },
                Poll::Ready(res) => match res {
                    Ok(n) => {
                        &&& n as int <= old(buf)@.len()
                        &&& n as int <= old(self).remaining().len()
                        &&& final(buf)@ == old(self).remaining().take(n as int) + old(buf)@.skip(
                            n as int,
                        )
                        &&& final(self).remaining() == old(self).remaining().skip(n as int)
                        &&& (n == 0 && old(buf)@.len() > 0 ==> old(self).remaining().len() == 0)
                    },
                    Err(_) => {
                        &&& final(self).remaining() == old(self).remaining()
                        &&& final(buf)@ == old(buf)@
                    },
                },
            },
    ;
}

/// A writable byte sink that may suspend.
///
/// A ready poll must make progress on non-empty input or fail: reporting
/// 0 bytes accepted over non-empty input would be a broken contract, the
/// condition the copy pump surfaces as `AllError::UnexpectedEof`.
pub trait AsyncWrite {
    type Error;

    /// The bytes this sink has accepted so far, in order.
    spec fn written(&self) -> Seq<u8>;

    /// Whether this sink always completes within one poll, never fails,
    /// and stays that way.
    spec fn always_ready(&self) -> bool;

    /// Whether this sink takes everything it is offered in one ready
    /// poll: a ready write to a greedy sink accepts the whole buffer, and
    /// the sink stays greedy.
    spec fn greedy(&self) -> bool;

    /// Write a prefix of `buf`, reporting how many bytes were accepted.
    fn poll_write(&mut self, buf: &[u8]) -> (r: Poll<Result<usize, Self::Error>>)
        ensures
            old(self).always_ready() ==> final(self).always_ready() && (r matches Poll::Ready(res)
                && res is Ok),
            old(self).greedy() ==> final(self).greedy() && (r matches Poll::Ready(res) ==> (
            res matches Ok(n) ==> n as int == buf@.len())),
            match r {
                Poll::Pending => final(self).written() == old(self).written(),
                Poll::Ready(res) => match res {
                    Ok(n) => {
                        &&& n as int <= buf@.len()
                        &&& (buf@.len() > 0 ==> n > 0)
                        &&& final(self).written() == old(self).written() + buf@.take(n as int)
                    },
                    Err(_) => final(self).written() == old(self).written(),
                },
            },
    ;

    /// Complete any buffered work; accepts no bytes.
    fn poll_flush(&mut self) -> (r: Poll<Result<(), Self::Error>>)
        ensures
            final(self).written() == old(self).written(),
            old(self).always_ready() ==> final(self).always_ready() && (r matches Poll::Ready(res)
                && res is Ok),
            old(self).greedy() ==> final(self).greedy(),
    ;

    /// Signal that no more data will ever be written; accepts no bytes.
    fn poll_close(&mut self) -> (r: Poll<Result<(), Self::Error>>)
        ensures
            final(self).written() == old(self).written(),
            old(self).always_ready() ==> final(self).always_ready() && (r matches Poll::Ready(res)
                && res is Ok),
            old(self).greedy() ==> final(self).greedy(),
    ;
}

/// A full-duplex transport that consumes and produces one byte per byte
/// exchanged: a ready poll of `n` bytes sends `buffer[..n]` and replaces
/// it with the next `n` incoming bytes.
pub trait AsyncSynchronous {
    type Error;

    /// The bytes this transport has consumed from caller buffers so far.
    spec fn outgoing(&self) -> Seq<u8>;

    /// The bytes this transport has yet to hand back.
    spec fn incoming(&self) -> Seq<u8>;

    /// Whether this transport always completes within one poll and never
    /// fails.
    spec fn always_ready(&self) -> bool;

    /// Exchange up to `buffer.len()` bytes: the consumed prefix of
    /// `buffer` is replaced in place by received bytes.
    fn poll_read_write(&mut self, buffer: &mut Vec<u8>) -> (r: Poll<Result<usize, Self::Error>>)
        ensures
            final(buffer)@.len() == old(buffer)@.len(),
            old(self).always_ready() ==> final(self).always_ready() && (r matches Poll::Ready(res)
                && res is Ok),
            match r {
                Poll::Pending => {
                    &&& final(self).outgoing() == old(self).outgoing()
                    &&& final(self).incoming() == old(self).incoming()
                    &&& final(buffer)@ == old(buffer)@
                },
                Poll::Ready(res) => match res {
                    Ok(n) => {
                        &&& n as int <= old(buffer)@.len()
                        &&& n as int <= old(self).incoming().len()
                        &&& final(self).outgoing() == old(self).outgoing() + old(buffer)@.take(
                            n as int,
                        )
                        &&& final(buffer)@ == old(self).incoming().take(n as int) + old(
                            buffer,
                        )@.skip(n as int)
                        &&& final(self).incoming() == old(self).incoming().skip(n as int)
                        &&& (n == 0 && old(buffer)@.len() > 0 ==> old(self).incoming().len() == 0)
                    },
                    Err(_) => {
                        &&& final(self).outgoing() == old(self).outgoing()
                        &&& final(self).incoming() == old(self).incoming()
                        &&& final(buffer)@ == old(buffer)@
                    },
                },
            },
    ;
}

impl AsyncRead for Empty {
    type Error = NoError;

    open spec fn remaining(&self) -> Seq<u8> {
        Seq::empty()
    }

    open spec fn always_ready(&self) -> bool {
        true
    }

    fn poll_read(&mut self, buf: &mut Vec<u8>) -> (r: Poll<Result<usize, NoError>>) {
        proof {
            assert(buf@ =~= AsyncRead::remaining(self).take(0) + buf@.skip(0));
        }
        Poll::Ready(Ok(0))
    }
}

impl AsyncRead for SliceReader {
    type Error = NoError;

    open spec fn remaining(&self) -> Seq<u8> {
        self.bytes_left()
    }

    open spec fn always_ready(&self) -> bool {
        true
    }

    fn poll_read(&mut self, buf: &mut Vec<u8>) -> (r: Poll<Result<usize, NoError>>) {
        Poll::Ready(Read::read(self, buf))
    }
}

impl AsyncWrite for Sink {
    type Error = NoError;

    open spec fn written(&self) -> Seq<u8> {
        self.accepted@
    }

    open spec fn always_ready(&self) -> bool {
        true
    }

    open spec fn greedy(&self) -> bool {
        true
    }

    fn poll_write(&mut self, buf: &[u8]) -> (r: Poll<Result<usize, NoError>>)
        ensures
            r matches Poll::Ready(res) && res matches Ok(n) && n as int == buf@.len(),
    {
        Poll::Ready(Write::write(self, buf))
    }

    fn poll_flush(&mut self) -> (r: Poll<Result<(), NoError>>) {
        Poll::Ready(Ok(()))
    }

    fn poll_close(&mut self) -> (r: Poll<Result<(), NoError>>) {
        Poll::Ready(Ok(()))
    }
}

impl AsyncWrite for VecSink {
    type Error = NoError;

    open spec fn written(&self) -> Seq<u8> {
        self.data@
    }

    open spec fn always_ready(&self) -> bool {
        true
    }

    open spec fn greedy(&self) -> bool {
        true
    }

    fn poll_write(&mut self, buf: &[u8]) -> (r: Poll<Result<usize, NoError>>)
        ensures
            r matches Poll::Ready(res) && res matches Ok(n) && n as int == buf@.len(),
    {
        Poll::Ready(Write::write(self, buf))
    }

    fn poll_flush(&mut self) -> (r: Poll<Result<(), NoError>>) {
        Poll::Ready(Ok(()))
    }

    fn poll_close(&mut self) -> (r: Poll<Result<(), NoError>>) {
        Poll::Ready(Ok(()))
    }
}

impl AsyncWrite for ChunkSink {
    type Error = NoError;

    open spec fn written(&self) -> Seq<u8> {
        self.data@
    }

    open spec fn always_ready(&self) -> bool {
        true
    }

    open spec fn greedy(&self) -> bool {
        false
    }

    fn poll_write(&mut self, buf: &[u8]) -> (r: Poll<Result<usize, NoError>>)
        ensures
            r matches Poll::Ready(res) && res matches Ok(n) && n as int == spec_min(
                if old(self).chunk == 0 {
                    1int
                } else {
                    old(self).chunk as int
                },
                buf@.len() as int,
            ),
    {
        Poll::Ready(Write::write(self, buf))
    }

    fn poll_flush(&mut self) -> (r: Poll<Result<(), NoError>>) {
        Poll::Ready(Ok(()))
    }

    fn poll_close(&mut self) -> (r: Poll<Result<(), NoError>>) {
        Poll::Ready(Ok(()))
    }
}

impl AsyncWrite for SliceWriter {
    type Error = AllError<NoError>;

    open spec fn written(&self) -> Seq<u8> {
        self.data@
    }

    open spec fn always_ready(&self) -> bool {
        false
    }

    open spec fn greedy(&self) -> bool {
        false
    }

    fn poll_write(&mut self, buf: &[u8]) -> (r: Poll<Result<usize, AllError<NoError>>>)
        ensures
            (r matches Poll::Ready(res) && res matches Err(e) && e
                == AllError::<NoError>::UnexpectedEof) <==> (old(self).space == 0 && buf@.len()
                > 0),
            old(self).space > 0 || buf@.len() == 0 ==> (r matches Poll::Ready(res) && res is Ok),
            match r {
                Poll::Ready(res) => match res {
                    Ok(n) => {
                        &&& n == spec_min(buf@.len() as int, old(self).space as int)
                        &&& final(self).space == old(self).space - n
                    },
                    Err(_) => *final(self) == *old(self),
                },
                Poll::Pending => false,
            },
    {
        Poll::Ready(Write::write(self, buf))
    }

    fn poll_flush(&mut self) -> (r: Poll<Result<(), AllError<NoError>>>) {
        Poll::Ready(Ok(()))
    }

    fn poll_close(&mut self) -> (r: Poll<Result<(), AllError<NoError>>>) {
        Poll::Ready(Ok(()))
    }
}

impl<S: AsyncRead> AsyncRead for Take<S> {
    type Error = S::Error;

    open spec fn remaining(&self) -> Seq<u8> {
        if self.limit as int <= self.stream.remaining().len() {
            self.stream.remaining().take(self.limit as int)
        } else {
            self.stream.remaining()
        }
    }

    open spec fn always_ready(&self) -> bool {
        self.stream.always_ready()
    }

    fn poll_read(&mut self, buf: &mut Vec<u8>) -> (r: Poll<Result<usize, S::Error>>)
        ensures
            old(self).limit == 0 ==> (r matches Poll::Ready(res) && res matches Ok(n) && n == 0
                && *final(self) == *old(self) && final(buf)@ == old(buf)@),
            match r {
                Poll::Ready(res) => match res {
                    Ok(n) => n as int <= old(self).limit && final(self).limit == old(self).limit
                        - n,
                    Err(_) => final(self).limit == old(self).limit,
                },
                Poll::Pending => final(self).limit == old(self).limit,
            },
    {
        if self.limit == 0 {
            // the budget is spent: signal end of input without consulting
            // the inner transport at all
            proof {
                assert(AsyncRead::remaining(self) =~= Seq::<u8>::empty());
                assert(buf@ =~= AsyncRead::remaining(self).take(0) + buf@.skip(0));
                assert(AsyncRead::remaining(self).skip(0) =~= AsyncRead::remaining(self));
            }
            return Poll::Ready(Ok(0));
        }
        let want = min_usize(buf.len(), self.limit);
        let mut tmp = sub_vec(buf, 0, want);
        proof {
            assert(tmp@ =~= buf@.take(want as int));
        }
        let res = self.stream.poll_read(&mut tmp);
        match res {
            Poll::Pending => Poll::Pending,
            Poll::Ready(Ok(n)) => {
                copy_into(buf, 0, &tmp, want);
                self.limit = self.limit - n;
                proof {
                    let srem = old(self).stream.remaining();
                    let rem0 = AsyncRead::remaining(old(self));
                    let ni = n as int;
                    assert(rem0.take(ni) =~= srem.take(ni));
                    assert(buf@ =~= rem0.take(ni) + old(buf)@.skip(ni));
                    assert(AsyncRead::remaining(self) =~= rem0.skip(ni));
                    if n == 0 && old(buf)@.len() > 0 {
                        if old(self).limit > 0 {
                            assert(srem.len() == 0);
                            assert(rem0.len() == 0);
                        } else {
                            assert(rem0 =~= srem.take(0));
                        }
                    }
                }
                Poll::Ready(Ok(n))
            },
            Poll::Ready(Err(e)) => Poll::Ready(Err(e)),
        }
    }
}

impl<S: AsyncWrite> AsyncWrite for Take<S> {
    type Error = AllError<S::Error>;

    open spec fn written(&self) -> Seq<u8> {
        self.stream.written()
    }

    open spec fn always_ready(&self) -> bool {
        false
    }

    open spec fn greedy(&self) -> bool {
        false
    }

    fn poll_write(&mut self, buf: &[u8]) -> (r: Poll<Result<usize, AllError<S::Error>>>)
        ensures
            (r matches Poll::Ready(res) && res matches Err(e) && e
                == AllError::<S::Error>::UnexpectedEof) <==> (old(self).limit == 0 && buf@.len()
                > 0),
            old(self).stream.always_ready() && (old(self).limit > 0 || buf@.len() == 0) ==> (
            r matches Poll::Ready(res) && res is Ok),
            old(self).stream.always_ready() && old(self).stream.greedy() && (old(self).limit > 0
                || buf@.len() == 0) ==> (r matches Poll::Ready(res) && res matches Ok(n)
                && n as int == spec_min(buf@.len() as int, old(self).limit as int)),
            match r {
                Poll::Ready(res) => match res {
                    Ok(n) => n as int <= old(self).limit && final(self).limit == old(self).limit
                        - n,
                    Err(_) => final(self).limit == old(self).limit,
                },
                Poll::Pending => final(self).limit == old(self).limit,
            },
    {
        if self.limit == 0 && buf.len() > 0 {
            return Poll::Ready(Err(AllError::UnexpectedEof));
        }
        let want = min_usize(buf.len(), self.limit);
        let sub = &buf[0..want];
        let res = self.stream.poll_write(sub);
        match res {
            Poll::Pending => Poll::Pending,
            Poll::Ready(Ok(n)) => {
                self.limit = self.limit - n;
                proof {
                    assert(sub@.take(n as int) =~= buf@.take(n as int));
                }
                Poll::Ready(Ok(n))
            },
            Poll::Ready(Err(e)) => Poll::Ready(Err(AllError::Io(e))),
        }
    }

    fn poll_flush(&mut self) -> (r: Poll<Result<(), AllError<S::Error>>>)
        ensures
            final(self).limit == old(self).limit,
            old(self).stream.always_ready() ==> (r matches Poll::Ready(res) && res is Ok),
    {
        match self.stream.poll_flush() {
            Poll::Pending => Poll::Pending,
            Poll::Ready(Ok(())) => Poll::Ready(Ok(())),
            Poll::Ready(Err(e)) => Poll::Ready(Err(AllError::Io(e))),
        }
    }

    fn poll_close(&mut self) -> (r: Poll<Result<(), AllError<S::Error>>>)
        ensures
            final(self).limit == old(self).limit,
            old(self).stream.always_ready() ==> (r matches Poll::Ready(res) && res is Ok),
    {
        match self.stream.poll_close() {
            Poll::Pending => Poll::Pending,
            Poll::Ready(Ok(())) => Poll::Ready(Ok(())),
            Poll::Ready(Err(e)) => Poll::Ready(Err(AllError::Io(e))),
        }
    }
}

/// An in-memory full-duplex transport: it records every byte it consumes
/// in `sent` and hands back the bytes of `source` in exchange.
pub struct Duplex {
    pub source: SliceReader,
    pub sent: Vec<u8>,
}

impl Duplex {
    /// A transport that will hand back the bytes of `incoming`.
    pub fn new(incoming: Vec<u8>) -> (r: Self)
        ensures
            r.source.bytes_left() == incoming@,
            r.sent@ == Seq::<u8>::empty(),
    {
        Duplex { source: SliceReader::new(incoming), sent: Vec::new() }
    }
}

impl AsyncSynchronous for Duplex {
    type Error = NoError;

    open spec fn outgoing(&self) -> Seq<u8> {
        self.sent@
    }

    open spec fn incoming(&self) -> Seq<u8> {
        self.source.bytes_left()
    }

    open spec fn always_ready(&self) -> bool {
        true
    }

    fn poll_read_write(&mut self, buffer: &mut Vec<u8>) -> (r: Poll<Result<usize, NoError>>) {
        let pos = min_usize(self.source.pos, self.source.data.len());
        let avail = self.source.data.len() - pos;
        let n = min_usize(buffer.len(), avail);
        crate::push_range(&mut self.sent, buffer.as_slice(), 0, n);
        let chunk = sub_vec(&self.source.data, pos, pos + n);
        copy_into(buffer, 0, &chunk, n);
        self.source.pos = pos + n;
        proof {
            assert(self.sent@ =~= old(self).sent@ + old(buffer)@.take(n as int));
            assert(buffer@ =~= old(self).source.bytes_left().take(n as int) + old(buffer)@.skip(
                n as int,
            ));
            let p0 = spec_min(old(self).source.pos as int, self.source.data@.len() as int);
            assert(old(self).source.bytes_left() =~= self.source.data@.skip(p0));
            assert(self.source.data@.skip(p0 + n as int) =~= self.source.data@.skip(p0).skip(
                n as int,
            ));
            assert(self.source.bytes_left() =~= old(self).source.bytes_left().skip(n as int));
        }
        Poll::Ready(Ok(n))
    }
}

/// The shared advance-or-declare-done step of the all-or-nothing
/// combinators: given the outcome of one one-shot operation over the
/// region `pos..len` of some buffer, either declare the whole buffer done
/// (`Ready(Ok)`), declare that the transport cannot finish it
/// (`Ready(Err)`, zero progress on a non-empty region), or record partial
/// progress by advancing `pos` and suspend.
pub fn all_poll(res: Poll<usize>, pos: &mut usize, len: usize) -> (r: Poll<Result<(), ()>>)
    requires
        *old(pos) <= len,
        res matches Poll::Ready(n) ==> n as int <= len - *old(pos),
    ensures
        *old(pos) <= *final(pos) <= len,
        match res {
            Poll::Pending => r is Pending && *final(pos) == *old(pos),
            Poll::Ready(n) => {
                if n as int == len - *old(pos) {
                    &&& r matches Poll::Ready(q) && q is Ok
                    &&& *final(pos) == *old(pos)
                } else if n == 0 {
                    &&& r matches Poll::Ready(q) && q is Err
                    &&& *final(pos) == *old(pos)
                } else {
                    &&& r is Pending
                    &&& *final(pos) == *old(pos) + n
                }
            },
        },
{
    match res {
        Poll::Pending => Poll::Pending,
        Poll::Ready(n) => {
            let rem = len - *pos;
            if n >= rem {
                Poll::Ready(Ok(()))
            } else if n == 0 {
                Poll::Ready(Err(()))
            } else {
                *pos = *pos + n;
                Poll::Pending
            }
        },
    }
}

/// `all_poll` for the write direction, where zero progress on a non-empty
/// region is a broken contract and so ruled out up front.
pub fn all_poll_write(res: Poll<usize>, pos: &mut usize, len: usize) -> (r: Poll<()>)
    requires
        *old(pos) <= len,
        res matches Poll::Ready(n) ==> n as int <= len - *old(pos),
        res matches Poll::Ready(n) ==> n > 0 || len == *old(pos),
    ensures
        *old(pos) <= *final(pos) <= len,
        match res {
            Poll::Pending => r is Pending && *final(pos) == *old(pos),
            Poll::Ready(n) => {
                if n as int == len - *old(pos) {
                    &&& r is Ready
                    &&& *final(pos) == *old(pos)
                } else {
                    &&& r is Pending
                    &&& *final(pos) == *old(pos) + n
                }
            },
        },
{
    match all_poll(res, pos, len) {
        Poll::Pending => Poll::Pending,
        Poll::Ready(q) => match q {
            Ok(()) => Poll::Ready(()),
            Err(()) => {
                proof {
                    assert(false);
                }
                Poll::Ready(())
            },
        },
    }
}

/// Extension constructors for readable sources.
pub trait AsyncReadExt: AsyncRead + Sized {
    /// The combinator that fills `buffer` completely from this source.
    fn read_exact(self, buffer: Vec<u8>) -> (r: AsyncReadExact<Self>)
        ensures
            r.wf(),
            r.this == self,
            r.buffer == buffer,
            r.pos == 0,
    ;

    /// The pump that copies everything this source has left into `write`.
    fn copy_to<W: AsyncWrite>(self, write: W) -> (r: AsyncCopy<Self, W>)
        ensures
            r.wf(),
            r.read == self,
            r.write == write,
            r.buffered() == Seq::<u8>::empty(),
            r.in_flight() == self.remaining(),
            r.buffer_write == 0,
            r.total == 0,
            !r.eof,
    ;

    /// Bound this source to at most `limit` further bytes.
    fn take(self, limit: usize) -> (r: Take<Self>)
        ensures
            r.stream == self,
            r.limit == limit,
    ;
}

impl<T: AsyncRead> AsyncReadExt for T {
    fn read_exact(self, buffer: Vec<u8>) -> (r: AsyncReadExact<Self>) {
        AsyncReadExact::new(self, buffer)
    }

    fn copy_to<W: AsyncWrite>(self, write: W) -> (r: AsyncCopy<Self, W>) {
        AsyncCopy::new(self, write)
    }

    fn take(self, limit: usize) -> (r: Take<Self>) {
        Take::new(self, limit)
    }
}

/// Extension constructors for writable sinks.
pub trait AsyncWriteExt: AsyncWrite + Sized {
    /// The combinator that writes the whole of `buffer` into this sink.
    fn write_all(self, buffer: Vec<u8>) -> (r: AsyncWriteAll<Self>)
        ensures
            r.wf(),
            r.this == self,
            r.buffer == buffer,
            r.pos == 0,
    ;

    /// The pump that copies everything `read` has left into this sink.
    fn copy_from<R: AsyncRead>(self, read: R) -> (r: AsyncCopy<R, Self>)
        ensures
            r.wf(),
            r.read == read,
            r.write == self,
            r.buffered() == Seq::<u8>::empty(),
            r.in_flight() == read.remaining(),
            r.buffer_write == 0,
            r.total == 0,
            !r.eof,
    ;

    /// Bound this sink to at most `limit` further bytes.
    fn take(self, limit: usize) -> (r: Take<Self>)
        ensures
            r.stream == self,
            r.limit == limit,
    ;

    /// The combinator that drives this sink's flush to completion.
    fn flush(self) -> (r: AsyncFlush<Self>)
        ensures
            r.this == self,
    ;
}

impl<T: AsyncWrite> AsyncWriteExt for T {
    fn write_all(self, buffer: Vec<u8>) -> (r: AsyncWriteAll<Self>) {
        AsyncWriteAll::new(self, buffer)
    }

    fn copy_from<R: AsyncRead>(self, read: R) -> (r: AsyncCopy<R, Self>) {
        AsyncCopy::new(read, self)
    }

    fn take(self, limit: usize) -> (r: Take<Self>) {
        Take::new(self, limit)
    }

    fn flush(self) -> (r: AsyncFlush<Self>) {
        AsyncFlush::new(self)
    }
}

/// Extension constructors for full-duplex transports.
pub trait AsyncSynchronousExt: AsyncSynchronous + Sized {
    /// The combinator that exchanges the whole of `buffer` through this
    /// transport.
    fn read_write_all(self, buffer: Vec<u8>) -> (r: ReadWriteAll<Self>)
        ensures
            r.wf(),
            r.this == self,
            r.buffer == buffer,
            r.pos == 0,
    ;
}

impl<T: AsyncSynchronous> AsyncSynchronousExt for T {
    fn read_write_all(self, buffer: Vec<u8>) -> (r: ReadWriteAll<Self>) {
        read_write_all::read_write_all(self, buffer)
    }
}

} // verus!
