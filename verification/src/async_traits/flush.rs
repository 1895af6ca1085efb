//! A resumable flush operation over a writable sink.

use vstd::prelude::*;
use crate::async_traits::{AsyncWrite, Poll};

verus! {

/// Drives `poll_flush` of the owned sink; resolves once the sink reports
/// the flush complete.
pub struct AsyncFlush<W> {
    pub this: W,
}

impl<W> AsyncFlush<W> {
    pub fn new(this: W) -> (r: Self)
        ensures
            r.this == this,
    {
        AsyncFlush { this }
    }

    pub fn into_inner(self) -> (r: W)
        ensures
            r == self.this,
    {
        self.this
    }
}

impl<W: AsyncWrite> AsyncFlush<W> {
    pub fn poll(&mut self) -> (r: Poll<Result<(), W::Error>>)
        ensures
            final(self).this.written() == old(self).this.written(),
            old(self).this.always_ready() ==> final(self).this.always_ready() && (r matches
                Poll::Ready(res) && res is Ok),
    {
        self.this.poll_flush()
    }
}

} // verus!
