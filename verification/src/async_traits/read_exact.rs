//! A resumable all-or-nothing read into one buffer.

use vstd::prelude::*;
use crate::async_traits::{AsyncRead, Poll, all_poll};
use crate::{AllError, copy_into, sub_vec};

verus! {

/// Repeatedly asks the owned source to fill the not-yet-filled tail of
/// `buffer`, suspending after partial progress, until the buffer is full.
/// `pos` is the start of that tail: `buffer[..pos]` has been filled
/// already.  A source that ends first is an `AllError::UnexpectedEof`.
pub struct AsyncReadExact<R> {
    pub this: R,
    pub buffer: Vec<u8>,
    pub pos: usize,
}

impl<R> AsyncReadExact<R> {
    pub open spec fn wf(&self) -> bool {
        self.pos <= self.buffer@.len()
    }

    pub fn new(this: R, buffer: Vec<u8>) -> (r: Self)
        ensures
            r.wf(),
            r.this == this,
            r.buffer == buffer,
            r.pos == 0,
    {
        AsyncReadExact { this, buffer, pos: 0 }
    }

    pub fn into_inner(self) -> (r: (R, Vec<u8>))
        ensures
            r.0 == self.this,
            r.1 == self.buffer,
    {
        (self.this, self.buffer)
    }
}

impl<R: AsyncRead> AsyncReadExact<R> {
    /// One step: ask the source to fill the remaining tail once.
    /// `Ready(Ok)` means the buffer is now completely filled; `Pending`
    /// preserves the narrowed position for the next resume.
    pub fn poll(&mut self) -> (r: Poll<Result<(), AllError<R::Error>>>)
        requires
            old(self).wf(),
        ensures
            final(self).wf(),
            final(self).buffer@.len() == old(self).buffer@.len(),
            old(self).pos <= final(self).pos,
            old(self).this.always_ready() ==> final(self).this.always_ready() && !(r matches
                Poll::Ready(res) && res matches Err(e) && e is Io),
            old(self).this.always_ready() && r is Pending ==> final(self).pos > old(self).pos,
            match r {
                Poll::Ready(res) => match res {
                    Ok(()) => {
                        &&& final(self).pos == old(self).pos
                        &&& old(self).buffer@.len() - old(self).pos <= old(
                            self,
                        ).this.remaining().len()
                        &&& final(self).buffer@ == old(self).buffer@.take(old(self).pos as int)
                            + old(self).this.remaining().take(
                            old(self).buffer@.len() - old(self).pos,
                        )
                        &&& final(self).this.remaining() == old(self).this.remaining().skip(
                            old(self).buffer@.len() - old(self).pos,
                        )
                    },
                    Err(e) => match e {
                        AllError::UnexpectedEof => {
                            &&& final(self).pos == old(self).pos
                            &&& old(self).pos < old(self).buffer@.len()
                            &&& old(self).this.remaining().len() == 0
                            &&& final(self).buffer@ == old(self).buffer@
                            &&& final(self).this.remaining() == old(self).this.remaining()
                        },
                        AllError::Io(_) => {
                            &&& final(self).pos == old(self).pos
                            &&& final(self).buffer@ == old(self).buffer@
                            &&& final(self).this.remaining() == old(self).this.remaining()
                        },
                    },
                },
                Poll::Pending => {
                    &&& final(self).buffer@ == old(self).buffer@.take(old(self).pos as int) + old(
                        self,
                    ).this.remaining().take(final(self).pos - old(self).pos) + old(
                        self,
                    ).buffer@.skip(final(self).pos as int)
                    &&& final(self).this.remaining() == old(self).this.remaining().skip(
                        final(self).pos - old(self).pos,
                    )
                },
            },
    {
        let len = self.buffer.len();
        let mut tmp = sub_vec(&self.buffer, self.pos, len);
        proof {
            assert(tmp@ =~= self.buffer@.skip(self.pos as int));
        }
        let res = self.this.poll_read(&mut tmp);
        match res {
            Poll::Pending => {
                proof {
                    assert(self.buffer@ =~= old(self).buffer@.take(old(self).pos as int) + old(
                        self,
                    ).this.remaining().take(0) + old(self).buffer@.skip(self.pos as int));
                }
                Poll::Pending
            },
            Poll::Ready(Err(e)) => Poll::Ready(Err(AllError::Io(e))),
            Poll::Ready(Ok(n)) => {
                copy_into(&mut self.buffer, self.pos, &tmp, len - self.pos);
                proof {
                    let rem = old(self).this.remaining();
                    let p = old(self).pos as int;
                    let ni = n as int;
                    assert(self.buffer@ =~= old(self).buffer@.take(p) + rem.take(ni) + old(
                        self,
                    ).buffer@.skip(p + ni));
                }
                match all_poll(Poll::Ready(n), &mut self.pos, len) {
                    Poll::Pending => {
                        proof {
                            assert(self.buffer@ =~= old(self).buffer@.take(old(self).pos as int)
                                + old(self).this.remaining().take(self.pos - old(self).pos) + old(
                                self,
                            ).buffer@.skip(self.pos as int));
                        }
                        Poll::Pending
                    },
                    Poll::Ready(Ok(())) => {
                        proof {
                            assert(self.buffer@ =~= old(self).buffer@.take(old(self).pos as int)
                                + old(self).this.remaining().take(
                                old(self).buffer@.len() - old(self).pos,
                            ));
                        }
                        Poll::Ready(Ok(()))
                    },
                    Poll::Ready(Err(())) => {
                        proof {
                            assert(self.buffer@ =~= old(self).buffer@);
                            assert(old(self).this.remaining().skip(0) =~= old(
                                self,
                            ).this.remaining());
                        }
                        Poll::Ready(Err(AllError::UnexpectedEof))
                    },
                }
            },
        }
    }
}

/// All-or-nothing reading, demonstrated end to end: over a source that
/// always completes and has enough bytes left — however few it hands out
/// per call — driving the combinator to completion fills the whole buffer
/// with exactly the source's next bytes, in order.
pub fn run_read_exact<R: AsyncRead>(this: R, buffer: Vec<u8>) -> (r: Option<(R, Vec<u8>)>)
    requires
        this.always_ready(),
        buffer@.len() <= this.remaining().len(),
    ensures
        r is Some,
        r matches Some(out) ==> {
            &&& out.1@ == this.remaining().take(buffer@.len() as int)
            &&& out.0.remaining() == this.remaining().skip(buffer@.len() as int)
        },
{
    let ghost src = this;
    let ghost len = buffer@.len() as int;
    let mut c = AsyncReadExact::new(this, buffer);
    loop
        invariant
            src == this,
            len == buffer@.len(),
            c.wf(),
            c.buffer@.len() == len,
            len <= src.remaining().len(),
            c.this.always_ready(),
            c.this.remaining() == src.remaining().skip(c.pos as int),
            c.buffer@ == src.remaining().take(c.pos as int) + c.buffer@.skip(c.pos as int),
        decreases len - c.pos,
    {
        let ghost pre = c;
        let res = c.poll();
        match res {
            Poll::Ready(Ok(())) => {
                proof {
                    assert(c.buffer@ =~= src.remaining().take(len));
                    assert(pre.this.remaining().skip(len - pre.pos as int) =~= src.remaining().skip(
                        len,
                    ));
                }
                let out = c.into_inner();
                proof {
                    assert(out.1@ == src.remaining().take(len));
                    assert(out.0.remaining() == src.remaining().skip(len));
                }
                return Some(out);
            },
            Poll::Ready(Err(_)) => {
                proof {
                    assert(false);
                }
                return None;
            },
            Poll::Pending => {
                proof {
                    assert(pre.this.remaining().skip(c.pos - pre.pos as int) =~= src.remaining().skip(
                        c.pos as int,
                    ));
                    assert(c.buffer@ =~= src.remaining().take(c.pos as int) + c.buffer@.skip(
                        c.pos as int,
                    ));
                }
            },
        }
    }
}

} // verus!

