//! The copy pump: drives bytes from a readable source to a writable sink
//! through a small fixed intermediate buffer, handling partial reads,
//! partial writes, end-of-input detection and cooperative suspension.

use vstd::prelude::*;
use vstd::pervasive::VecAdditionalExecFns;
use crate::async_traits::{AsyncRead, AsyncWrite, Poll};
use crate::{AllError, PumpError, copy_into, spec_min, sub_vec, COPY_BUFFER_LEN};

verus! {

/// A resumable copy of everything `read` has left into `write`.
///
/// `buffer[buffer_write..buffer_read]` holds bytes read but not yet
/// written; `buffer[buffer_read..]` is free.  `total` counts the bytes
/// the sink has accepted (saturating); `eof` records that the source
/// reported end of input, and once set is never cleared.
pub struct AsyncCopy<R, W> {
    pub read: R,
    pub write: W,
    pub buffer: Vec<u8>,
    pub buffer_read: usize,
    pub buffer_write: usize,
    pub total: usize,
    pub eof: bool,
}

/// Outcome of one half-step of the pump: the transport suspended, the
/// transport is done for good, the intermediate buffer blocks progress
/// (no room to read into, or nothing to write out), or progress was made.
#[derive(Debug, Copy, Clone)]
enum State {
    Pending,
    Eof,
    Buffer,
    Ready,
}

impl<R, W> AsyncCopy<R, W> {
    /// The two cursors sit inside the fixed-size buffer.
    pub open spec fn cursors_ok(&self) -> bool {
        &&& self.buffer_write <= self.buffer_read
        &&& self.buffer_read <= self.buffer@.len()
        &&& self.buffer@.len() == COPY_BUFFER_LEN
    }

    /// The bytes read from the source but not yet accepted by the sink.
    pub open spec fn buffered(&self) -> Seq<u8> {
        self.buffer@.subrange(self.buffer_write as int, self.buffer_read as int)
    }

    pub fn into_inner(self) -> (r: (R, W))
        ensures
            r.0 == self.read,
            r.1 == self.write,
    {
        (self.read, self.write)
    }

    /// Shift the still-unwritten bytes down to offset 0, so that the free
    /// region is contiguous at the tail and as large as the unwritten
    /// bytes allow.
    fn shuffle(&mut self)
        requires
            old(self).cursors_ok(),
        ensures
            final(self).cursors_ok(),
            final(self).buffer_write == 0,
            final(self).buffer_read == old(self).buffer_read - old(self).buffer_write,
            final(self).buffered() == old(self).buffered(),
            final(self).read == old(self).read,
            final(self).write == old(self).write,
            final(self).total == old(self).total,
            final(self).eof == old(self).eof,
    {
        let count = self.buffer_read - self.buffer_write;
        let mut i: usize = 0;
        while i < count
            invariant
                i <= count,
                count == old(self).buffer_read - old(self).buffer_write,
                old(self).cursors_ok(),
                self.buffer_write == old(self).buffer_write,
                self.buffer_read == old(self).buffer_read,
                self.buffer@.len() == old(self).buffer@.len(),
                forall|j: int| 0 <= j < i ==> self.buffer@[j] == old(self).buffer@[
                    old(self).buffer_write + j
                ],
                forall|j: int| i <= j < self.buffer@.len() ==> self.buffer@[j] == old(
                    self,
                ).buffer@[j],
                self.read == old(self).read,
                self.write == old(self).write,
                self.total == old(self).total,
                self.eof == old(self).eof,
            decreases count - i,
        {
            let b = self.buffer[self.buffer_write + i];
            self.buffer.set(i, b);
            i += 1;
        }
        self.buffer_read = count;
        self.buffer_write = 0;
        proof {
            assert(self.buffered() =~= old(self).buffered());
        }
    }
}

impl<R: AsyncRead, W: AsyncWrite> AsyncCopy<R, W> {
    /// The pump's well-formedness: cursors in range, and the end-of-input
    /// flag only ever set once the source is exhausted.  `poll` requires
    /// and preserves it, so it holds at every suspension point.
    pub open spec fn wf(&self) -> bool {
        &&& self.cursors_ok()
        &&& (self.eof ==> self.read.remaining().len() == 0)
    }

    /// The bytes the source still owes the pump (none once end of input
    /// was seen).
    pub open spec fn pending_source(&self) -> Seq<u8> {
        if self.eof {
            Seq::empty()
        } else {
            self.read.remaining()
        }
    }

    /// Every byte that has entered or will enter the pump but has not
    /// reached the sink yet.
    pub open spec fn in_flight(&self) -> Seq<u8> {
        self.buffered() + self.pending_source()
    }

    pub fn new(read: R, write: W) -> (r: Self)
        ensures
            r.wf(),
            r.read == read,
            r.write == write,
            r.buffered() == Seq::<u8>::empty(),
            r.in_flight() == read.remaining(),
            r.buffer_write == 0,
            r.total == 0,
            !r.eof,
    {
        let r = AsyncCopy {
            read,
            write,
            buffer: vec![0u8; COPY_BUFFER_LEN],
            buffer_read: 0,
            buffer_write: 0,
            total: 0,
            eof: false,
        };
        proof {
            assert(r.buffered() =~= Seq::<u8>::empty());
            assert(r.in_flight() =~= r.read.remaining());
        }
        r
    }

    /// The read half of one pump step: pull bytes into the free region of
    /// the buffer, unless the source is done or the buffer is full.
    fn do_read(&mut self) -> (r: Result<State, R::Error>)
        requires
            old(self).wf(),
        ensures
            final(self).wf(),
            final(self).write == old(self).write,
            final(self).total == old(self).total,
            final(self).buffer_write == old(self).buffer_write,
            old(self).eof ==> final(self).eof,
            old(self).read.always_ready() ==> final(self).read.always_ready(),
            final(self).buffered() + final(self).pending_source() == old(self).buffered() + old(
                self,
            ).pending_source(),
            match r {
                Ok(s) => match s {
                    State::Pending => {
                        &&& final(self).buffered() == old(self).buffered()
                        &&& final(self).pending_source() == old(self).pending_source()
                        &&& final(self).eof == old(self).eof
                        &&& final(self).buffer_read == old(self).buffer_read
                        &&& !old(self).read.always_ready()
                    },
                    State::Eof => {
                        &&& final(self).eof
                        &&& final(self).buffered() == old(self).buffered()
                        &&& final(self).buffer_read == old(self).buffer_read
                        &&& final(self).buffer@ == old(self).buffer@
                    },
                    State::Buffer => {
                        &&& final(self).buffered() == old(self).buffered()
                        &&& final(self).pending_source() == old(self).pending_source()
                        &&& final(self).eof == old(self).eof
                        &&& !old(self).eof
                        &&& old(self).buffer_read == COPY_BUFFER_LEN
                        &&& final(self).buffer_read == old(self).buffer_read
                    },
                    State::Ready => {
                        &&& !final(self).eof
                        &&& final(self).buffered().len() > old(self).buffered().len()
                        &&& final(self).pending_source().len() < old(self).pending_source().len()
                        &&& final(self).buffer_read > old(self).buffer_read
                    },
                },
                Err(_) => {
                    &&& final(self).buffered() == old(self).buffered()
                    &&& final(self).pending_source() == old(self).pending_source()
                    &&& final(self).eof == old(self).eof
                    &&& final(self).buffer_read == old(self).buffer_read
                    &&& !old(self).read.always_ready()
                },
            },
    {
        if self.eof {
            return Ok(State::Eof);
        }
        if self.buffer_read >= COPY_BUFFER_LEN {
            return Ok(State::Buffer);
        }
        let len = self.buffer.len();
        let mut tmp = sub_vec(&self.buffer, self.buffer_read, len);
        let res = self.read.poll_read(&mut tmp);
        match res {
            Poll::Pending => Ok(State::Pending),
            Poll::Ready(Err(e)) => Err(e),
            Poll::Ready(Ok(n)) => {
                if n == 0 {
                    self.eof = true;
                    proof {
                        assert(self.buffered() =~= old(self).buffered());
                        assert(self.buffered() + self.pending_source() =~= old(self).buffered()
                            + old(self).pending_source());
                    }
                    Ok(State::Eof)
                } else {
                    copy_into(&mut self.buffer, self.buffer_read, &tmp, len - self.buffer_read);
                    self.buffer_read = self.buffer_read + n;
                    proof {
                        let rem = old(self).read.remaining();
                        let ni = n as int;
                        assert(self.buffered() =~= old(self).buffered() + rem.take(ni));
                        assert(self.pending_source() =~= rem.skip(ni));
                        assert(self.buffered() + self.pending_source() =~= old(self).buffered()
                            + old(self).pending_source());
                    }
                    Ok(State::Ready)
                }
            },
        }
    }

    /// The write half of one pump step: offer the buffered bytes to the
    /// sink, then compact the buffer after progress.
    fn do_write(&mut self) -> (r: Result<State, AllError<W::Error>>)
        requires
            old(self).wf(),
        ensures
            final(self).wf(),
            final(self).read == old(self).read,
            final(self).eof == old(self).eof,
            old(self).write.always_ready() ==> final(self).write.always_ready(),
            final(self).pending_source() == old(self).pending_source(),
            final(self).write.written() + final(self).buffered() == old(self).write.written()
                + old(self).buffered(),
            final(self).total as int == spec_min(
                old(self).total + (final(self).write.written().len() - old(
                    self,
                ).write.written().len()),
                usize::MAX as int,
            ),
            match r {
                Ok(s) => match s {
                    State::Pending => {
                        &&& final(self).write.written() == old(self).write.written()
                        &&& final(self).buffered() == old(self).buffered()
                        &&& final(self).buffer_write == old(self).buffer_write
                        &&& final(self).buffer_read == old(self).buffer_read
                        &&& !old(self).write.always_ready()
                    },
                    State::Eof => {
                        &&& old(self).buffered().len() == 0
                        &&& old(self).eof
                        &&& final(self).write.written() == old(self).write.written()
                        &&& final(self).buffered() == old(self).buffered()
                        &&& final(self).buffer_write == old(self).buffer_write
                        &&& final(self).buffer_read == old(self).buffer_read
                    },
                    State::Buffer => {
                        &&& old(self).buffered().len() == 0
                        &&& !old(self).eof
                        &&& final(self).write.written() == old(self).write.written()
                        &&& final(self).buffered() == old(self).buffered()
                        &&& final(self).buffer_write == old(self).buffer_write
                        &&& final(self).buffer_read == old(self).buffer_read
                    },
                    State::Ready => {
                        &&& final(self).buffer_write == 0
                        &&& final(self).buffered().len() < old(self).buffered().len()
                        &&& final(self).buffer_read == final(self).buffered().len()
                        &&& final(self).write.written().len() > old(self).write.written().len()
                    },
                },
                Err(e) => {
                    &&& e is Io
                    &&& final(self).write.written() == old(self).write.written()
                    &&& final(self).buffered() == old(self).buffered()
                    &&& final(self).buffer_write == old(self).buffer_write
                    &&& final(self).buffer_read == old(self).buffer_read
                    &&& !old(self).write.always_ready()
                },
            },
    {
        if self.buffer_write >= self.buffer_read {
            return if self.eof {
                Ok(State::Eof)
            } else {
                Ok(State::Buffer)
            };
        }
        let tmp = sub_vec(&self.buffer, self.buffer_write, self.buffer_read);
        let res = self.write.poll_write(tmp.as_slice());
        match res {
            Poll::Pending => Ok(State::Pending),
            Poll::Ready(Err(e)) => Err(AllError::Io(e)),
            Poll::Ready(Ok(n)) => {
                if n == 0 {
                    // the sink broke its contract: zero progress over
                    // non-empty input; ruled out by the trait
                    proof {
                        assert(false);
                    }
                    Err(AllError::UnexpectedEof)
                } else {
                    self.buffer_write = self.buffer_write + n;
                    self.total = self.total.saturating_add(n);
                    proof {
                        assert(tmp@.take(n as int) =~= old(self).buffered().take(n as int));
                        assert(self.buffered() =~= old(self).buffered().skip(n as int));
                    }
                    self.shuffle();
                    proof {
                        assert(old(self).buffered().take(n as int) + old(self).buffered().skip(
                            n as int,
                        ) =~= old(self).buffered());
                    }
                    Ok(State::Ready)
                }
            },
        }
    }

    /// One resumption of the pump: loop moving bytes until the sink has
    /// drained everything and the source is exhausted (`Ready(Ok(total))`),
    /// a transport suspends (`Pending`), or a transport fails.
    pub fn poll(&mut self) -> (r: Poll<Result<usize, AllError<PumpError<R::Error, W::Error>>>>)
        requires
            old(self).wf(),
            old(self).buffer_write == 0,
        ensures
            final(self).wf(),
            final(self).buffer_write == 0,
            old(self).eof ==> final(self).eof,
            old(self).read.always_ready() ==> final(self).read.always_ready(),
            old(self).write.always_ready() ==> final(self).write.always_ready(),
            final(self).write.written() + final(self).in_flight() == old(self).write.written()
                + old(self).in_flight(),
            (exists|k: int|
                0 <= k <= old(self).in_flight().len() && final(self).write.written() == old(
                    self,
                ).write.written() + old(self).in_flight().take(k)),
            final(self).total as int == spec_min(
                old(self).total + (final(self).write.written().len() - old(
                    self,
                ).write.written().len()),
                usize::MAX as int,
            ),
            match r {
                Poll::Ready(res) => match res {
                    Ok(t) => {
                        &&& t == final(self).total
                        &&& final(self).eof
                        &&& final(self).buffered().len() == 0
                        &&& final(self).read.remaining().len() == 0
                        &&& final(self).write.written() == old(self).write.written() + old(
                            self,
                        ).in_flight()
                    },
                    Err(e) => e is Io,
                },
                Poll::Pending => !(old(self).read.always_ready()
                    && old(self).write.always_ready()),
            },
            old(self).read.always_ready() && old(self).write.always_ready() ==> (r matches
                Poll::Ready(res) && res is Ok),
    {
        loop
            invariant
                self.wf(),
                self.buffer_write == 0,
                old(self).eof ==> self.eof,
                old(self).read.always_ready() ==> self.read.always_ready(),
                old(self).write.always_ready() ==> self.write.always_ready(),
                old(self).write.written().len() <= self.write.written().len(),
                self.write.written() + self.in_flight() == old(self).write.written() + old(
                    self,
                ).in_flight(),
                self.total as int == spec_min(
                    old(self).total + (self.write.written().len() - old(
                        self,
                    ).write.written().len()),
                    usize::MAX as int,
                ),
            decreases
                    2 * self.pending_source().len() + self.buffered().len() + if self.eof {
                        0int
                    } else {
                        1int
                    },
        {
            let ghost pre = *self;
            let rs = match self.do_read() {
                Ok(s) => s,
                Err(e) => {
                    proof {
                        lemma_account_read(pre, *self);
                        lemma_prefix_frame(old(self).write.written(), old(self).in_flight(),
                            self.write.written(), self.in_flight());
                    }
                    return Poll::Ready(Err(AllError::Io(PumpError::Read(e))));
                },
            };
            proof {
                lemma_account_read(pre, *self);
            }
            let ghost mid = *self;
            let ws = match self.do_write() {
                Ok(s) => s,
                Err(e) => {
                    proof {
                        lemma_account_write(mid, *self);
                        lemma_prefix_frame(old(self).write.written(), old(self).in_flight(),
                            self.write.written(), self.in_flight());
                    }
                    match e {
                        AllError::Io(we) => {
                            return Poll::Ready(Err(AllError::Io(PumpError::Write(we))));
                        },
                        AllError::UnexpectedEof => {
                            return Poll::Ready(Err(AllError::UnexpectedEof));
                        },
                    }
                },
            };
            proof {
                lemma_account_write(mid, *self);
            }
            match (rs, ws) {
                (_, State::Eof) => {
                    proof {
                        assert(self.write.written() + self.in_flight() =~= self.write.written());
                        assert(self.write.written() =~= old(self).write.written() + old(
                            self,
                        ).in_flight());
                        lemma_prefix_frame(old(self).write.written(), old(self).in_flight(),
                            self.write.written(), self.in_flight());
                    }
                    return Poll::Ready(Ok(self.total));
                },
                (_, State::Pending) => {
                    proof {
                        lemma_prefix_frame(old(self).write.written(), old(self).in_flight(),
                            self.write.written(), self.in_flight());
                    }
                    return Poll::Pending;
                },
                (State::Pending, State::Buffer) => {
                    proof {
                        lemma_prefix_frame(old(self).write.written(), old(self).in_flight(),
                            self.write.written(), self.in_flight());
                    }
                    return Poll::Pending;
                },
                (State::Eof, State::Buffer) | (State::Buffer, State::Buffer) => {
                    // the buffer accounting makes these pairings
                    // impossible: an empty buffer cannot follow a full
                    // one, nor coexist with a fresh end-of-input
                    proof {
                        assert(false);
                    }
                    return Poll::Pending;
                },
                _ => {},
            }
        }
    }
}

/// Total preservation, demonstrated end to end: over a source that always
/// completes and a sink that always accepts, one resumption of a fresh
/// pump moves every byte the source had left into the sink, in order and
/// nothing else, and reports their number.  A source with no bytes gives
/// a total of 0 with the sink's bytes untouched.
pub fn run_copy<R: AsyncRead, W: AsyncWrite>(read: R, write: W) -> (r: Option<(usize, R, W)>)
    requires
        read.always_ready(),
        write.always_ready(),
    ensures
        r matches Some(out) && {
            &&& out.2.written() == write.written() + read.remaining()
            &&& out.1.remaining().len() == 0
            &&& out.0 as int == spec_min(read.remaining().len() as int, usize::MAX as int)
        },
{
    let mut pump = AsyncCopy::new(read, write);
    let res = pump.poll();
    match res {
        Poll::Ready(Ok(t)) => {
            let (rd, wr) = pump.into_inner();
            Some((t, rd, wr))
        },
        Poll::Ready(Err(_)) => {
            proof {
                assert(false);
            }
            None
        },
        Poll::Pending => {
            proof {
                assert(false);
            }
            None
        },
    }
}

/// Idempotent compaction: whenever the unwritten bytes sit at offset 0
/// (as they do after every write-half progress step, which ends in a
/// compaction), the free region left for the next read is the largest the
/// unwritten bytes allow: the whole buffer minus what is still to write.
pub proof fn lemma_compaction_maximal_free<R, W>(p: AsyncCopy<R, W>)
    requires
        p.cursors_ok(),
        p.buffer_write == 0,
    ensures
        p.buffer@.len() - p.buffer_read == COPY_BUFFER_LEN - p.buffered().len(),
{
}

/// When the account is preserved and the sink's tape only ever grows, the
/// new tape is the old one plus a prefix of the bytes that were in
/// flight: nothing already accepted is rolled back, and nothing foreign
/// appears.
proof fn lemma_prefix_frame(w0: Seq<u8>, f0: Seq<u8>, w1: Seq<u8>, f1: Seq<u8>)
    requires
        w1 + f1 == w0 + f0,
        w0.len() <= w1.len(),
    ensures
        exists|k: int| 0 <= k <= f0.len() && w1 == w0 + f0.take(k),
{
    let k = w1.len() - w0.len();
    assert((w1 + f1).len() == (w0 + f0).len());
    assert((w1 + f1).len() == w1.len() + f1.len());
    assert((w0 + f0).len() == w0.len() + f0.len());
    assert(0 <= k <= f0.len());
    assert forall|i: int| 0 <= i < w1.len() implies w1[i] == (w0 + f0)[i] by {
        assert((w1 + f1)[i] == w1[i]);
        assert((w1 + f1)[i] == (w0 + f0)[i]);
    }
    assert(w1 =~= (w0 + f0).take(w1.len() as int));
    assert forall|i: int| 0 <= i < w1.len() implies ((w0 + f0).take(w1.len() as int))[i] == (w0
        + f0.take(k))[i] by {
        if i < w0.len() {
        } else {
            assert((w0 + f0)[i] == f0[i - w0.len()]);
            assert(f0.take(k)[i - w0.len()] == f0[i - w0.len()]);
        }
    }
    assert((w0 + f0).take(w1.len() as int) =~= w0 + f0.take(k));
}

/// Stepping the read half preserves the pump's account: the bytes the
/// sink accepted plus the bytes still in flight.
proof fn lemma_account_read<R: AsyncRead, W: AsyncWrite>(pre: AsyncCopy<R, W>, post: AsyncCopy<R, W>)
    requires
        post.write == pre.write,
        post.buffered() + post.pending_source() == pre.buffered() + pre.pending_source(),
    ensures
        post.write.written() + post.in_flight() == pre.write.written() + pre.in_flight(),
{
    assert(post.write.written() + post.in_flight() =~= pre.write.written() + pre.in_flight());
}

/// Stepping the write half preserves the pump's account as well.
proof fn lemma_account_write<R: AsyncRead, W: AsyncWrite>(
    pre: AsyncCopy<R, W>,
    post: AsyncCopy<R, W>,
)
    requires
        post.pending_source() == pre.pending_source(),
        post.write.written() + post.buffered() == pre.write.written() + pre.buffered(),
    ensures
        post.write.written() + post.in_flight() == pre.write.written() + pre.in_flight(),
{
    assert(post.write.written() + post.in_flight() =~= (post.write.written() + post.buffered())
        + post.pending_source());
    assert(pre.write.written() + pre.in_flight() =~= (pre.write.written() + pre.buffered())
        + pre.pending_source());
}

} // verus!
