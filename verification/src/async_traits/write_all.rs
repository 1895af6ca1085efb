//! A resumable all-or-nothing write of one buffer into a sink.

use vstd::prelude::*;
use crate::async_traits::{AsyncWrite, Poll, all_poll_write};
use crate::sub_vec;

verus! {

/// Repeatedly offers the not-yet-accepted tail of `buffer` to the owned
/// sink, suspending after partial progress, until every byte has been
/// accepted.  `pos` is the start of that tail: `buffer[..pos]` has been
/// accepted already.
pub struct AsyncWriteAll<W> {
    pub this: W,
    pub buffer: Vec<u8>,
    pub pos: usize,
}

impl<W> AsyncWriteAll<W> {
    pub open spec fn wf(&self) -> bool {
        self.pos <= self.buffer@.len()
    }

    pub fn new(this: W, buffer: Vec<u8>) -> (r: Self)
        ensures
            r.wf(),
            r.this == this,
            r.buffer == buffer,
            r.pos == 0,
    {
        AsyncWriteAll { this, buffer, pos: 0 }
    }

    pub fn into_inner(self) -> (r: (W, Vec<u8>))
        ensures
            r.0 == self.this,
            r.1 == self.buffer,
    {
        (self.this, self.buffer)
    }
}

impl<W: AsyncWrite> AsyncWriteAll<W> {
    /// One step: offer the remaining tail once.  `Ready(Ok)` means the
    /// whole buffer has now been accepted; `Pending` preserves the
    /// narrowed position for the next resume.
    pub fn poll(&mut self) -> (r: Poll<Result<(), W::Error>>)
        requires
            old(self).wf(),
        ensures
            final(self).wf(),
            final(self).buffer == old(self).buffer,
            old(self).pos <= final(self).pos,
            old(self).this.always_ready() ==> final(self).this.always_ready() && !(r matches
                Poll::Ready(res) && res is Err),
            old(self).this.always_ready() && r is Pending ==> final(self).pos > old(self).pos,
            match r {
                Poll::Ready(res) => match res {
                    Ok(()) => final(self).pos == old(self).pos && final(self).this.written()
                        == old(self).this.written() + old(self).buffer@.skip(old(self).pos as int),
                    Err(_) => final(self).pos == old(self).pos && final(self).this.written()
                        == old(self).this.written(),
                },
                Poll::Pending => final(self).this.written() == old(self).this.written() + old(
                    self,
                ).buffer@.subrange(old(self).pos as int, final(self).pos as int),
            },
    {
        let len = self.buffer.len();
        let tmp = sub_vec(&self.buffer, self.pos, len);
        let res = self.this.poll_write(tmp.as_slice());
        match res {
            Poll::Pending => {
                proof {
                    assert(self.this.written() =~= old(self).this.written()
                        + old(self).buffer@.subrange(old(self).pos as int, self.pos as int));
                }
                Poll::Pending
            },
            Poll::Ready(Err(e)) => Poll::Ready(Err(e)),
            Poll::Ready(Ok(n)) => {
                proof {
                    assert(tmp@.take(n as int) =~= self.buffer@.subrange(
                        self.pos as int,
                        self.pos as int + n as int,
                    ));
                }
                match all_poll_write(Poll::Ready(n), &mut self.pos, len) {
                    Poll::Pending => {
                        proof {
                            assert(self.this.written() =~= old(self).this.written() + old(
                                self,
                            ).buffer@.subrange(old(self).pos as int, self.pos as int));
                        }
                        Poll::Pending
                    },
                    Poll::Ready(()) => {
                        proof {
                            assert(self.this.written() =~= old(self).this.written() + old(
                                self,
                            ).buffer@.skip(old(self).pos as int));
                        }
                        Poll::Ready(Ok(()))
                    },
                }
            },
        }
    }
}

/// All-or-nothing completion, demonstrated end to end: over a sink that
/// always accepts — however few bytes it takes per call — driving the
/// combinator to completion gets the whole buffer accepted, every byte
/// exactly once and in order.
pub fn run_write_all<W: AsyncWrite>(this: W, buffer: Vec<u8>) -> (r: Option<(W, Vec<u8>)>)
    requires
        this.always_ready(),
    ensures
        r matches Some(out) && {
            &&& out.0.written() == this.written() + buffer@
            &&& out.1 == buffer
        },
{
    let mut c = AsyncWriteAll::new(this, buffer);
    loop
        invariant
            c.wf(),
            c.this.always_ready(),
            c.buffer == buffer,
            c.this.written() == this.written() + buffer@.take(c.pos as int),
        decreases c.buffer@.len() - c.pos,
    {
        let ghost pre = c;
        let res = c.poll();
        match res {
            Poll::Ready(Ok(())) => {
                proof {
                    assert(buffer@.take(pre.pos as int) + buffer@.skip(pre.pos as int)
                        =~= buffer@);
                }
                let out = c.into_inner();
                return Some(out);
            },
            Poll::Ready(Err(_)) => {
                proof {
                    assert(false);
                }
                return None;
            },
            Poll::Pending => {
                proof {
                    assert(buffer@.take(pre.pos as int) + buffer@.subrange(
                        pre.pos as int,
                        c.pos as int,
                    ) =~= buffer@.take(c.pos as int));
                }
            },
        }
    }
}

} // verus!
