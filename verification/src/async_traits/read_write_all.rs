//! A resumable all-or-nothing exchange over a full-duplex transport.

use vstd::prelude::*;
use crate::async_traits::{AsyncSynchronous, Poll, all_poll};
use crate::{AllError, copy_into, sub_vec};

verus! {

/// Build the combinator that exchanges the whole of `buffer` through
/// `this`.
#[inline]
pub fn read_write_all<T>(this: T, buffer: Vec<u8>) -> (r: ReadWriteAll<T>)
    ensures
        r.wf(),
        r.this == this,
        r.buffer == buffer,
        r.pos == 0,
{
    ReadWriteAll { this, buffer, pos: 0 }
}

/// Repeatedly exchanges the not-yet-processed tail of `buffer` through
/// the owned transport, suspending after partial progress, until every
/// byte has been sent and replaced by a received byte.  `pos` is the
/// start of that tail.  A transport that ends first is an
/// `AllError::UnexpectedEof`.
pub struct ReadWriteAll<T> {
    pub this: T,
    pub buffer: Vec<u8>,
    pub pos: usize,
}

impl<T> ReadWriteAll<T> {
    pub open spec fn wf(&self) -> bool {
        self.pos <= self.buffer@.len()
    }

    pub fn into_inner(self) -> (r: (T, Vec<u8>))
        ensures
            r.0 == self.this,
            r.1 == self.buffer,
    {
        (self.this, self.buffer)
    }
}

impl<T: AsyncSynchronous> ReadWriteAll<T> {
    /// One step: offer the remaining tail once.  `Ready(Ok)` means the
    /// whole buffer has been exchanged; `Pending` preserves the narrowed
    /// position for the next resume.
    pub fn poll(&mut self) -> (r: Poll<Result<(), AllError<T::Error>>>)
        requires
            old(self).wf(),
        ensures
            final(self).wf(),
            final(self).buffer@.len() == old(self).buffer@.len(),
            old(self).pos <= final(self).pos,
            old(self).this.always_ready() ==> final(self).this.always_ready() && !(r matches
                Poll::Ready(res) && res matches Err(e) && e is Io),
            old(self).this.always_ready() && r is Pending ==> final(self).pos > old(self).pos,
            match r {
                Poll::Ready(res) => match res {
                    Ok(()) => {
                        &&& final(self).pos == old(self).pos
                        &&& old(self).buffer@.len() - old(self).pos <= old(
                            self,
                        ).this.incoming().len()
                        &&& final(self).this.outgoing() == old(self).this.outgoing() + old(
                            self,
                        ).buffer@.skip(old(self).pos as int)
                        &&& final(self).buffer@ == old(self).buffer@.take(old(self).pos as int)
                            + old(self).this.incoming().take(
                            old(self).buffer@.len() - old(self).pos,
                        )
                        &&& final(self).this.incoming() == old(self).this.incoming().skip(
                            old(self).buffer@.len() - old(self).pos,
                        )
                    },
                    Err(e) => match e {
                        AllError::UnexpectedEof => {
                            &&& final(self).pos == old(self).pos
                            &&& old(self).pos < old(self).buffer@.len()
                            &&& old(self).this.incoming().len() == 0
                            &&& final(self).buffer@ == old(self).buffer@
                            &&& final(self).this.outgoing() == old(self).this.outgoing()
                            &&& final(self).this.incoming() == old(self).this.incoming()
                        },
                        AllError::Io(_) => {
                            &&& final(self).pos == old(self).pos
                            &&& final(self).buffer@ == old(self).buffer@
                            &&& final(self).this.outgoing() == old(self).this.outgoing()
                            &&& final(self).this.incoming() == old(self).this.incoming()
                        },
                    },
                },
                Poll::Pending => {
                    &&& final(self).this.outgoing() == old(self).this.outgoing() + old(
                        self,
                    ).buffer@.subrange(old(self).pos as int, final(self).pos as int)
                    &&& final(self).buffer@ == old(self).buffer@.take(old(self).pos as int) + old(
                        self,
                    ).this.incoming().take(final(self).pos - old(self).pos) + old(
                        self,
                    ).buffer@.skip(final(self).pos as int)
                    &&& final(self).this.incoming() == old(self).this.incoming().skip(
                        final(self).pos - old(self).pos,
                    )
                },
            },
    {
        let len = self.buffer.len();
        let mut tmp = sub_vec(&self.buffer, self.pos, len);
        proof {
            assert(tmp@ =~= self.buffer@.skip(self.pos as int));
        }
        let res = self.this.poll_read_write(&mut tmp);
        match res {
            Poll::Pending => {
                proof {
                    assert(self.this.outgoing() =~= old(self).this.outgoing() + old(
                        self,
                    ).buffer@.subrange(self.pos as int, self.pos as int));
                    assert(self.buffer@ =~= old(self).buffer@.take(old(self).pos as int) + old(
                        self,
                    ).this.incoming().take(0) + old(self).buffer@.skip(self.pos as int));
                    assert(old(self).this.incoming().skip(0) =~= old(self).this.incoming());
                }
                Poll::Pending
            },
            Poll::Ready(Err(e)) => Poll::Ready(Err(AllError::Io(e))),
            Poll::Ready(Ok(n)) => {
                copy_into(&mut self.buffer, self.pos, &tmp, len - self.pos);
                proof {
                    let inc = old(self).this.incoming();
                    let p = old(self).pos as int;
                    let ni = n as int;
                    assert(tmp@.take(ni) =~= self.buffer@.skip(p).take(ni));
                    assert(self.buffer@ =~= old(self).buffer@.take(p) + inc.take(ni) + old(
                        self,
                    ).buffer@.skip(p + ni));
                    assert(self.this.outgoing() =~= old(self).this.outgoing() + old(
                        self,
                    ).buffer@.subrange(p, p + ni));
                }
                match all_poll(Poll::Ready(n), &mut self.pos, len) {
                    Poll::Pending => {
                        proof {
                            assert(self.buffer@ =~= old(self).buffer@.take(old(self).pos as int)
                                + old(self).this.incoming().take(self.pos - old(self).pos) + old(
                                self,
                            ).buffer@.skip(self.pos as int));
                        }
                        Poll::Pending
                    },
                    Poll::Ready(Ok(())) => {
                        proof {
                            assert(self.buffer@ =~= old(self).buffer@.take(old(self).pos as int)
                                + old(self).this.incoming().take(
                                old(self).buffer@.len() - old(self).pos,
                            ));
                            assert(self.this.outgoing() =~= old(self).this.outgoing() + old(
                                self,
                            ).buffer@.skip(old(self).pos as int));
                        }
                        Poll::Ready(Ok(()))
                    },
                    Poll::Ready(Err(())) => {
                        proof {
                            assert(self.buffer@ =~= old(self).buffer@);
                            assert(old(self).this.outgoing() + old(self).buffer@.subrange(
                                old(self).pos as int,
                                old(self).pos as int,
                            ) =~= old(self).this.outgoing());
                            assert(old(self).this.incoming().skip(0) =~= old(
                                self,
                            ).this.incoming());
                        }
                        Poll::Ready(Err(AllError::UnexpectedEof))
                    },
                }
            },
        }
    }
}

} // verus!
