//! A hashing passthrough: wraps a stream and feeds every byte that flows
//! through it — read or written — to a hasher, without disturbing the
//! stream itself.

use vstd::prelude::*;
use crate::async_traits::{AsyncRead, AsyncWrite, Poll};
use crate::sync_traits::{Read, Write};

verus! {

/// A byte hasher: a sink for bytes whose model is the exact sequence it
/// has been fed.
pub trait Hasher {
    /// The bytes fed to this hasher so far, in order.
    spec fn observed(&self) -> Seq<u8>;

    /// Feed `bytes` to the hasher.
    fn write(&mut self, bytes: &[u8])
        ensures
            final(self).observed() == old(self).observed() + bytes@,
    ;
}

/// One step of the FNV-1a (64-bit) round function.
pub open spec fn fnv1a_step(h: u64, b: u8) -> u64 {
    vstd::wrapping::u64_specs::wrapping_mul(h ^ (b as u64), 0x100000001b3u64)
}

/// The FNV-1a (64-bit) digest of a byte sequence.
pub open spec fn fnv1a(bytes: Seq<u8>) -> u64
    decreases bytes.len(),
{
    if bytes.len() == 0 {
        0xcbf29ce484222325u64
    } else {
        fnv1a_step(fnv1a(bytes.drop_last()), bytes.last())
    }
}

/// An FNV-1a (64-bit) hasher whose running state provably equals the
/// digest of the bytes fed so far.
pub struct FnvHasher {
    pub state: u64,
    pub fed: Ghost<Seq<u8>>,
}

impl FnvHasher {
    pub open spec fn wf(&self) -> bool {
        self.state == fnv1a(self.fed@)
    }

    pub fn new() -> (r: Self)
        ensures
            r.wf(),
            r.fed@ == Seq::<u8>::empty(),
    {
        FnvHasher { state: 0xcbf29ce484222325u64, fed: Ghost(Seq::empty()) }
    }

    /// The digest of everything fed so far.
    pub fn finish(&self) -> (r: u64)
        requires
            self.wf(),
        ensures
            r == fnv1a(self.fed@),
    {
        self.state
    }
}

impl Hasher for FnvHasher {
    open spec fn observed(&self) -> Seq<u8> {
        self.fed@
    }

    fn write(&mut self, bytes: &[u8])
        ensures
            old(self).wf() ==> final(self).wf(),
    {
        let len = bytes.len();
        let mut i: usize = 0;
        while i < len
            invariant
                i <= len,
                len == bytes@.len(),
                self.fed@ == old(self).fed@ + bytes@.take(i as int),
                old(self).wf() ==> self.wf(),
            decreases len - i,
        {
            let b = bytes[i];
            self.state = (self.state ^ (b as u64)).wrapping_mul(0x100000001b3u64);
            proof {
                let prev = self.fed@;
                self.fed@ = self.fed@.push(b);
                assert(self.fed@.drop_last() =~= prev);
                assert(old(self).fed@ + bytes@.take(i + 1) =~= prev.push(b));
            }
            i += 1;
        }
        proof {
            assert(old(self).fed@ + bytes@.take(len as int) =~= old(self).fed@ + bytes@);
        }
    }
}

/// A stream decorator that feeds every byte moved through it to `hasher`
/// as well.
pub struct HashStream<H, S> {
    pub hasher: H,
    pub stream: S,
}

impl<H, S> HashStream<H, S> {
    pub fn new(hasher: H, stream: S) -> (r: Self)
        ensures
            r.hasher == hasher,
            r.stream == stream,
    {
        HashStream { hasher, stream }
    }

    pub fn into_inner(self) -> (r: (H, S))
        ensures
            r.0 == self.hasher,
            r.1 == self.stream,
    {
        (self.hasher, self.stream)
    }
}

impl<H: Hasher, S: Read> Read for HashStream<H, S> {
    type Error = S::Error;

    open spec fn remaining(&self) -> Seq<u8> {
        self.stream.remaining()
    }

    open spec fn reliable(&self) -> bool {
        self.stream.reliable()
    }

    fn read(&mut self, buf: &mut Vec<u8>) -> (r: Result<usize, S::Error>)
        ensures
            match r {
                Ok(n) => final(self).hasher.observed() == old(self).hasher.observed() + old(
                    self,
                ).stream.remaining().take(n as int),
                Err(_) => final(self).hasher.observed() == old(self).hasher.observed(),
            },
    {
        let res = self.stream.read(buf);
        match res {
            Ok(n) => {
                proof {
                    assert(buf@.subrange(0, n as int) =~= old(self).stream.remaining().take(
                        n as int,
                    ));
                }
                self.hasher.write(&buf[0..n]);
                Ok(n)
            },
            Err(e) => Err(e),
        }
    }
}

impl<H: Hasher, S: Write> Write for HashStream<H, S> {
    type Error = S::Error;

    open spec fn written(&self) -> Seq<u8> {
        self.stream.written()
    }

    open spec fn accepting(&self) -> bool {
        self.stream.accepting()
    }

    open spec fn greedy(&self) -> bool {
        self.stream.greedy()
    }

    fn write(&mut self, buf: &[u8]) -> (r: Result<usize, S::Error>)
        ensures
            match r {
                Ok(n) => final(self).hasher.observed() == old(self).hasher.observed() + buf@.take(
                    n as int,
                ),
                Err(_) => final(self).hasher.observed() == old(self).hasher.observed(),
            },
    {
        let res = self.stream.write(buf);
        match res {
            Ok(n) => {
                self.hasher.write(&buf[0..n]);
                proof {
                    assert(buf@.subrange(0, n as int) =~= buf@.take(n as int));
                }
                Ok(n)
            },
            Err(e) => Err(e),
        }
    }

    fn flush(&mut self) -> (r: Result<(), S::Error>)
        ensures
            final(self).hasher.observed() == old(self).hasher.observed(),
    {
        self.stream.flush()
    }
}

impl<H: Hasher, S: AsyncRead> AsyncRead for HashStream<H, S> {
    type Error = S::Error;

    open spec fn remaining(&self) -> Seq<u8> {
        self.stream.remaining()
    }

    open spec fn always_ready(&self) -> bool {
        self.stream.always_ready()
    }

    fn poll_read(&mut self, buf: &mut Vec<u8>) -> (r: Poll<Result<usize, S::Error>>)
        ensures
            match r {
                Poll::Ready(res) => match res {
                    Ok(n) => final(self).hasher.observed() == old(self).hasher.observed() + old(
                        self,
                    ).stream.remaining().take(n as int),
                    Err(_) => final(self).hasher.observed() == old(self).hasher.observed(),
                },
                Poll::Pending => final(self).hasher.observed() == old(self).hasher.observed(),
            },
    {
        let res = self.stream.poll_read(buf);
        match res {
            Poll::Ready(Ok(n)) => {
                proof {
                    assert(buf@.subrange(0, n as int) =~= old(self).stream.remaining().take(
                        n as int,
                    ));
                }
                self.hasher.write(&buf[0..n]);
                Poll::Ready(Ok(n))
            },
            Poll::Ready(Err(e)) => Poll::Ready(Err(e)),
            Poll::Pending => Poll::Pending,
        }
    }
}

impl<H: Hasher, S: AsyncWrite> AsyncWrite for HashStream<H, S> {
    type Error = S::Error;

    open spec fn written(&self) -> Seq<u8> {
        self.stream.written()
    }

    open spec fn always_ready(&self) -> bool {
        self.stream.always_ready()
    }

    open spec fn greedy(&self) -> bool {
        self.stream.greedy()
    }

    fn poll_write(&mut self, buf: &[u8]) -> (r: Poll<Result<usize, S::Error>>)
        ensures
            match r {
                Poll::Ready(res) => match res {
                    Ok(n) => final(self).hasher.observed() == old(self).hasher.observed()
                        + buf@.take(n as int),
                    Err(_) => final(self).hasher.observed() == old(self).hasher.observed(),
                },
                Poll::Pending => final(self).hasher.observed() == old(self).hasher.observed(),
            },
    {
        let res = self.stream.poll_write(buf);
        match res {
            Poll::Ready(Ok(n)) => {
                self.hasher.write(&buf[0..n]);
                proof {
                    assert(buf@.subrange(0, n as int) =~= buf@.take(n as int));
                }
                Poll::Ready(Ok(n))
            },
            Poll::Ready(Err(e)) => Poll::Ready(Err(e)),
            Poll::Pending => Poll::Pending,
        }
    }

    fn poll_flush(&mut self) -> (r: Poll<Result<(), S::Error>>)
        ensures
            final(self).hasher.observed() == old(self).hasher.observed(),
    {
        self.stream.poll_flush()
    }

    fn poll_close(&mut self) -> (r: Poll<Result<(), S::Error>>)
        ensures
            final(self).hasher.observed() == old(self).hasher.observed(),
    {
        self.stream.poll_close()
    }
}

} // verus!
