//! Blocking byte-stream capability traits and their combinators.
//!
//! A `Read` source hands out a (finite) sequence of bytes from the front;
//! a `Write` sink accepts bytes and either makes progress or fails.  The
//! combinators (`read_exact`, `write_all`, `copy`) drive the one-shot
//! operations to completion, retrying after partial progress.

use vstd::prelude::*;
use vstd::string::StringSliceAdditionalSpecFns;
use crate::{AllError, ChunkSink, Empty, NoError, PumpError, Sink, SliceReader, SliceWriter, Take,
    VecSink, copy_into, min_usize, sub_vec, push_range, spec_min, uWriter, COPY_BUFFER_LEN};

verus! {

/// A readable byte source.
///
/// The model of a source is the sequence of bytes it has yet to produce
/// (`remaining`).  A successful read hands out a prefix of that sequence;
/// returning 0 bytes into a non-empty buffer is the end-of-input signal and
/// never an error.  A failed read delivers nothing.
pub trait Read {
    type Error;

    /// The bytes this source has yet to produce, in order.
    spec fn remaining(&self) -> Seq<u8>;

    /// Whether this source is free of transport failures: a reliable
    /// source never returns `Err`.
    spec fn reliable(&self) -> bool;

    /// Read up to `buf.len()` bytes into the front of `buf`; the portion
    /// of `buf` beyond the bytes read keeps its old contents.
    fn read(&mut self, buf: &mut Vec<u8>) -> (r: Result<usize, Self::Error>)
        ensures
            final(buf)@.len() == old(buf)@.len(),
            old(self).reliable() ==> final(self).reliable() && r is Ok,
            match r {
                Ok(n) => {
                    &&& n as int <= old(buf)@.len()
                    &&& n as int <= old(self).remaining().len()
                    &&& final(buf)@ == old(self).remaining().take(n as int) + old(buf)@.skip(
                        n as int,
                    )
                    &&& final(self).remaining() == old(self).remaining().skip(n as int)
                    &&& (n == 0 && old(buf)@.len() > 0 ==> old(self).remaining().len() == 0)
                },
                Err(_) => {
                    &&& final(self).remaining() == old(self).remaining()
                    &&& final(buf)@ == old(buf)@
                },
            },
    ;
}

/// A writable byte sink.
///
/// The model of a sink is the sequence of bytes it has accepted so far
/// (`written`).  A sink must make progress on non-empty input or fail; it
/// never reports success over zero bytes of non-empty input.
pub trait Write {
    type Error;

    /// The bytes this sink has accepted so far, in order.
    spec fn written(&self) -> Seq<u8>;

    /// Whether this sink always accepts data: an accepting sink never
    /// returns `Err`, and stays accepting.
    spec fn accepting(&self) -> bool;

    /// Whether this sink takes everything it is offered in one call: a
    /// successful write to a greedy sink accepts the whole buffer, and
    /// the sink stays greedy.
    spec fn greedy(&self) -> bool;

    /// Write a prefix of `buf`, returning how many bytes were accepted.
    fn write(&mut self, buf: &[u8]) -> (r: Result<usize, Self::Error>)
        ensures
            old(self).accepting() ==> final(self).accepting() && r is Ok,
            old(self).greedy() ==> final(self).greedy() && (r matches Ok(n) ==> n as int
                == buf@.len()),
            match r {
                Ok(n) => {
                    &&& n as int <= buf@.len()
                    &&& (buf@.len() > 0 ==> n > 0)
                    &&& final(self).written() == old(self).written() + buf@.take(n as int)
                },
                Err(_) => final(self).written() == old(self).written(),
            },
    ;

    /// Complete any buffered work; accepts no bytes.
    fn flush(&mut self) -> (r: Result<(), Self::Error>)
        ensures
            final(self).written() == old(self).written(),
            old(self).accepting() ==> final(self).accepting() && r is Ok,
            old(self).greedy() ==> final(self).greedy(),
    ;
}

impl Read for Empty {
    type Error = NoError;

    open spec fn remaining(&self) -> Seq<u8> {
        Seq::empty()
    }

    open spec fn reliable(&self) -> bool {
        true
    }

    fn read(&mut self, buf: &mut Vec<u8>) -> (r: Result<usize, NoError>) {
        proof {
            assert(buf@ =~= self.remaining().take(0) + buf@.skip(0));
        }
        Ok(0)
    }
}

impl Read for SliceReader {
    type Error = NoError;

    open spec fn remaining(&self) -> Seq<u8> {
        self.bytes_left()
    }

    open spec fn reliable(&self) -> bool {
        true
    }

    fn read(&mut self, buf: &mut Vec<u8>) -> (r: Result<usize, NoError>)
        ensures
            r matches Ok(n) && n == spec_min(old(buf)@.len() as int, old(self).bytes_left().len() as int),
    {
        let pos = min_usize(self.pos, self.data.len());
        let avail = self.data.len() - pos;
        let n = min_usize(buf.len(), avail);
        let chunk = sub_vec(&self.data, pos, pos + n);
        copy_into(buf, 0, &chunk, n);
        self.pos = pos + n;
        proof {
            assert(buf@ =~= old(self).remaining().take(n as int) + old(buf)@.skip(n as int));
            let p0 = spec_min(old(self).pos as int, self.data@.len() as int);
            assert(old(self).remaining() =~= self.data@.skip(p0));
            assert(self.data@.skip(p0 + n as int) =~= self.data@.skip(p0).skip(n as int));
            assert(self.remaining() =~= old(self).remaining().skip(n as int));
        }
        Ok(n)
    }
}

impl Write for Sink {
    type Error = NoError;

    open spec fn written(&self) -> Seq<u8> {
        self.accepted@
    }

    open spec fn accepting(&self) -> bool {
        true
    }

    open spec fn greedy(&self) -> bool {
        true
    }

    fn write(&mut self, buf: &[u8]) -> (r: Result<usize, NoError>)
        ensures
            r matches Ok(n) && n as int == buf@.len(),
    {
        let n = buf.len();
        self.accepted = Ghost(self.accepted@ + buf@);
        proof {
            assert(self.written() =~= old(self).written() + buf@.take(n as int));
        }
        Ok(n)
    }

    fn flush(&mut self) -> (r: Result<(), NoError>) {
        Ok(())
    }
}

impl Write for VecSink {
    type Error = NoError;

    open spec fn written(&self) -> Seq<u8> {
        self.data@
    }

    open spec fn accepting(&self) -> bool {
        true
    }

    open spec fn greedy(&self) -> bool {
        true
    }

    fn write(&mut self, buf: &[u8]) -> (r: Result<usize, NoError>)
        ensures
            r matches Ok(n) && n as int == buf@.len(),
    {
        let n = buf.len();
        push_range(&mut self.data, buf, 0, n);
        proof {
            assert(buf@.subrange(0, n as int) =~= buf@.take(n as int));
        }
        Ok(n)
    }

    fn flush(&mut self) -> (r: Result<(), NoError>) {
        Ok(())
    }
}

impl Write for ChunkSink {
    type Error = NoError;

    open spec fn written(&self) -> Seq<u8> {
        self.data@
    }

    open spec fn accepting(&self) -> bool {
        true
    }

    open spec fn greedy(&self) -> bool {
        false
    }

    fn write(&mut self, buf: &[u8]) -> (r: Result<usize, NoError>)
        ensures
            r matches Ok(n) && n as int == spec_min(
                if old(self).chunk == 0 {
                    1int
                } else {
                    old(self).chunk as int
                },
                buf@.len() as int,
            ),
    {
        let step = if self.chunk == 0 {
            1
        } else {
            self.chunk
        };
        let n = min_usize(step, buf.len());
        push_range(&mut self.data, buf, 0, n);
        proof {
            assert(buf@.subrange(0, n as int) =~= buf@.take(n as int));
        }
        Ok(n)
    }

    fn flush(&mut self) -> (r: Result<(), NoError>) {
        Ok(())
    }
}

impl Write for SliceWriter {
    type Error = AllError<NoError>;

    open spec fn written(&self) -> Seq<u8> {
        self.data@
    }

    open spec fn accepting(&self) -> bool {
        false
    }

    open spec fn greedy(&self) -> bool {
        false
    }

    fn write(&mut self, buf: &[u8]) -> (r: Result<usize, AllError<NoError>>)
        ensures
            (r matches Err(e) && e == AllError::<NoError>::UnexpectedEof) <==> (old(self).space
                == 0 && buf@.len() > 0),
            old(self).space > 0 || buf@.len() == 0 ==> r is Ok,
            match r {
                Ok(n) => {
                    &&& n == spec_min(buf@.len() as int, old(self).space as int)
                    &&& final(self).space == old(self).space - n
                },
                Err(_) => *final(self) == *old(self),
            },
    {
        let n = min_usize(buf.len(), self.space);
        if n == 0 {
            if buf.len() == 0 {
                proof {
                    assert(self.written() =~= old(self).written() + buf@.take(0));
                }
                Ok(0)
            } else {
                Err(AllError::UnexpectedEof)
            }
        } else {
            push_range(&mut self.data, buf, 0, n);
            self.space = self.space - n;
            proof {
                assert(buf@.subrange(0, n as int) =~= buf@.take(n as int));
            }
            Ok(n)
        }
    }

    fn flush(&mut self) -> (r: Result<(), AllError<NoError>>) {
        Ok(())
    }
}

impl<S: Read> Read for Take<S> {
    type Error = S::Error;

    open spec fn remaining(&self) -> Seq<u8> {
        if self.limit as int <= self.stream.remaining().len() {
            self.stream.remaining().take(self.limit as int)
        } else {
            self.stream.remaining()
        }
    }

    open spec fn reliable(&self) -> bool {
        self.stream.reliable()
    }

    fn read(&mut self, buf: &mut Vec<u8>) -> (r: Result<usize, S::Error>)
        ensures
            old(self).limit == 0 ==> (r matches Ok(n) && n == 0 && *final(self) == *old(self)
                && final(buf)@ == old(buf)@),
            match r {
                Ok(n) => n as int <= old(self).limit && final(self).limit == old(self).limit - n
                    && final(self).stream.remaining() == old(self).stream.remaining().skip(
                    n as int,
                ),
                Err(_) => final(self).limit == old(self).limit,
            },
    {
        if self.limit == 0 {
            // the budget is spent: signal end of input without consulting
            // the inner transport at all
            proof {
                assert(self.remaining() =~= Seq::<u8>::empty());
                assert(buf@ =~= self.remaining().take(0) + buf@.skip(0));
                assert(self.remaining().skip(0) =~= self.remaining());
                assert(self.stream.remaining().skip(0) =~= self.stream.remaining());
            }
            return Ok(0);
        }
        let want = min_usize(buf.len(), self.limit);
        let mut tmp = sub_vec(buf, 0, want);
        proof {
            assert(tmp@ =~= buf@.take(want as int));
        }
        let res = self.stream.read(&mut tmp);
        match res {
            Ok(n) => {
                copy_into(buf, 0, &tmp, want);
                self.limit = self.limit - n;
                proof {
                    let srem = old(self).stream.remaining();
                    let rem0 = old(self).remaining();
                    let ni = n as int;
                    assert(rem0.take(ni) =~= srem.take(ni));
                    assert(buf@ =~= rem0.take(ni) + old(buf)@.skip(ni));
                    assert(self.remaining() =~= rem0.skip(ni));
                    if n == 0 && old(buf)@.len() > 0 {
                        if old(self).limit > 0 {
                            assert(srem.len() == 0);
                            assert(rem0.len() == 0);
                        } else {
                            assert(rem0 =~= srem.take(0));
                        }
                    }
                }
                Ok(n)
            },
            Err(e) => Err(e),
        }
    }
}

impl<S: Write> Write for Take<S> {
    type Error = AllError<S::Error>;

    open spec fn written(&self) -> Seq<u8> {
        self.stream.written()
    }

    open spec fn accepting(&self) -> bool {
        false
    }

    open spec fn greedy(&self) -> bool {
        false
    }

    fn write(&mut self, buf: &[u8]) -> (r: Result<usize, AllError<S::Error>>)
        ensures
            (r matches Err(e) && e == AllError::<S::Error>::UnexpectedEof) <==> (old(self).limit
                == 0 && buf@.len() > 0),
            old(self).stream.accepting() && (old(self).limit > 0 || buf@.len() == 0) ==> r is Ok,
            old(self).stream.accepting() && old(self).stream.greedy() && (old(self).limit > 0
                || buf@.len() == 0) ==> (r matches Ok(n) && n as int == spec_min(
                buf@.len() as int,
                old(self).limit as int,
            )),
            match r {
                Ok(n) => n as int <= old(self).limit && final(self).limit == old(self).limit - n,
                Err(_) => final(self).limit == old(self).limit,
            },
    {
        if self.limit == 0 && buf.len() > 0 {
            return Err(AllError::UnexpectedEof);
        }
        let want = min_usize(buf.len(), self.limit);
        let sub = &buf[0..want];
        let res = self.stream.write(sub);
        match res {
            Ok(n) => {
                self.limit = self.limit - n;
                proof {
                    assert(sub@.take(n as int) =~= buf@.take(n as int));
                }
                Ok(n)
            },
            Err(e) => Err(AllError::Io(e)),
        }
    }

    fn flush(&mut self) -> (r: Result<(), AllError<S::Error>>)
        ensures
            final(self).limit == old(self).limit,
            old(self).stream.accepting() ==> r is Ok,
    {
        match self.stream.flush() {
            Ok(()) => Ok(()),
            Err(e) => Err(AllError::Io(e)),
        }
    }
}

/// Fill `buf` completely from `read`, retrying after partial reads.  Fails
/// with `AllError::UnexpectedEof` if the source ends first, and with
/// `AllError::Io` if the source fails; on failure the bytes already read
/// stay in the front of `buf`.
pub fn read_exact<R: Read>(read: &mut R, buf: &mut Vec<u8>) -> (r: Result<(), AllError<R::Error>>)
    ensures
        final(buf)@.len() == old(buf)@.len(),
        old(read).reliable() ==> final(read).reliable() && !(r matches Err(e) && e is Io),
        match r {
            Ok(()) => {
                &&& old(buf)@.len() <= old(read).remaining().len()
                &&& final(buf)@ == old(read).remaining().take(old(buf)@.len() as int)
                &&& final(read).remaining() == old(read).remaining().skip(old(buf)@.len() as int)
            },
            Err(e) => match e {
                AllError::UnexpectedEof => {
                    &&& old(read).remaining().len() < old(buf)@.len()
                    &&& final(read).remaining().len() == 0
                    &&& final(buf)@ == old(read).remaining() + old(buf)@.skip(
                        old(read).remaining().len() as int,
                    )
                },
                AllError::Io(_) => (exists|k: int|
                    {
                        &&& 0 <= k <= old(buf)@.len()
                        &&& k <= old(read).remaining().len()
                        &&& final(buf)@ == old(read).remaining().take(k) + old(buf)@.skip(k)
                        &&& final(read).remaining() == old(read).remaining().skip(k)
                    }),
            },
        },
{
    let len = buf.len();
    let mut pos: usize = 0;
    while pos < len
        invariant
            pos <= len,
            len == buf@.len(),
            len == old(buf)@.len(),
            pos as int <= old(read).remaining().len(),
            buf@ == old(read).remaining().take(pos as int) + old(buf)@.skip(pos as int),
            read.remaining() == old(read).remaining().skip(pos as int),
            old(read).reliable() ==> read.reliable(),
        decreases len - pos,
    {
        let mut tmp = sub_vec(buf, pos, len);
        proof {
            assert(tmp@ =~= buf@.skip(pos as int));
        }
        let res = read.read(&mut tmp);
        match res {
            Err(e) => {
                proof {
                    assert(buf@ =~= old(read).remaining().take(pos as int) + old(buf)@.skip(
                        pos as int,
                    ));
                }
                return Err(AllError::Io(e));
            },
            Ok(n) => {
                if n == 0 {
                    proof {
                        assert(old(read).remaining().skip(pos as int).len() == 0);
                        assert(old(read).remaining().len() == pos as int);
                        assert(buf@ =~= old(read).remaining() + old(buf)@.skip(
                            old(read).remaining().len() as int,
                        ));
                    }
                    return Err(AllError::UnexpectedEof);
                }
                copy_into(buf, pos, &tmp, len - pos);
                proof {
                    let rem = old(read).remaining();
                    let p = pos as int;
                    let ni = n as int;
                    assert(rem.skip(p).skip(ni) =~= rem.skip(p + ni));
                    assert(buf@ =~= rem.take(p + ni) + old(buf)@.skip(p + ni));
                }
                pos = pos + n;
            },
        }
    }
    proof {
        assert(buf@ =~= old(read).remaining().take(len as int) + old(buf)@.skip(len as int));
    }
    Ok(())
}

/// Write the whole of `buf` to `write`, retrying after partial writes.  A
/// failure of the sink is returned as it is; the bytes already accepted
/// stay accepted.
pub fn write_all<W: Write>(write: &mut W, buf: &[u8]) -> (r: Result<(), W::Error>)
    ensures
        old(write).accepting() ==> final(write).accepting() && r is Ok,
        match r {
            Ok(()) => final(write).written() == old(write).written() + buf@,
            Err(_) => exists|k: int|
                0 <= k <= buf@.len() && final(write).written() == old(write).written() + buf@.take(
                    k,
                ),
        },
{
    let len = buf.len();
    let mut pos: usize = 0;
    while pos < len
        invariant
            pos <= len,
            len == buf@.len(),
            write.written() == old(write).written() + buf@.take(pos as int),
            old(write).accepting() ==> write.accepting(),
        decreases len - pos,
    {
        let res = write.write(&buf[pos..len]);
        match res {
            Ok(n) => {
                proof {
                    assert(old(write).written() + buf@.take(pos as int) + buf@.subrange(
                        pos as int,
                        len as int,
                    ).take(n as int) =~= old(write).written() + buf@.take(pos as int + n as int));
                }
                pos = pos + n;
            },
            Err(e) => {
                return Err(e);
            },
        }
    }
    proof {
        assert(buf@.take(len as int) =~= buf@);
    }
    Ok(())
}

/// Move every byte of `read` into `write` through a fixed intermediate
/// buffer, until the source reports end of input.  Reports the number of
/// bytes moved, saturated at `usize::MAX`; the first failure of either
/// side aborts the copy, with the bytes already accepted by the sink kept.
pub fn copy<R: Read, W: Write>(read: &mut R, write: &mut W) -> (r: Result<
    usize,
    PumpError<R::Error, W::Error>,
>)
    ensures
        old(read).reliable() && old(write).accepting() ==> r is Ok,
        match r {
            Ok(total) => {
                &&& final(read).remaining().len() == 0
                &&& final(write).written() == old(write).written() + old(read).remaining()
                &&& total as int == spec_min(
                    old(read).remaining().len() as int,
                    usize::MAX as int,
                )
            },
            Err(_) => (exists|consumed: int, accepted: int|
                {
                    &&& 0 <= accepted <= consumed <= old(read).remaining().len()
                    &&& final(read).remaining() == old(read).remaining().skip(consumed)
                    &&& final(write).written() == old(write).written() + old(
                        read,
                    ).remaining().take(accepted)
                }),
        },
{
    let mut buf: Vec<u8> = vec![0u8; COPY_BUFFER_LEN];
    let mut total: usize = 0;
    let ghost mut consumed: int = 0;
    loop
        invariant
            buf@.len() == COPY_BUFFER_LEN,
            0 <= consumed <= old(read).remaining().len(),
            read.remaining() == old(read).remaining().skip(consumed),
            write.written() == old(write).written() + old(read).remaining().take(consumed),
            total as int == spec_min(consumed, usize::MAX as int),
            old(read).reliable() ==> read.reliable(),
            old(write).accepting() ==> write.accepting(),
        decreases old(read).remaining().len() - consumed,
    {
        let res = read.read(&mut buf);
        match res {
            Err(e) => {
                return Err(PumpError::Read(e));
            },
            Ok(n) => {
                if n == 0 {
                    proof {
                        assert(old(read).remaining().len() == consumed);
                        assert(old(read).remaining().take(consumed) =~= old(read).remaining());
                    }
                    return Ok(total);
                }
                let res2 = write_all(write, &buf[0..n]);
                match res2 {
                    Err(e) => {
                        proof {
                            let rem = old(read).remaining();
                            let written_pre = old(write).written() + rem.take(consumed);
                            let chunk = buf@.subrange(0, n as int);
                            assert(chunk =~= rem.skip(consumed).take(n as int));
                            let k2 = choose|k2: int|
                                0 <= k2 <= chunk.len() && write.written() == written_pre
                                    + chunk.take(k2);
                            assert(written_pre + chunk.take(k2) =~= old(write).written()
                                + rem.take(consumed + k2));
                            assert(rem.skip(consumed).skip(n as int) =~= rem.skip(
                                consumed + n as int,
                            ));
                        }
                        return Err(PumpError::Write(e));
                    },
                    Ok(()) => {
                        total = total.saturating_add(n);
                        proof {
                            let rem = old(read).remaining();
                            assert(buf@.subrange(0, n as int) =~= rem.skip(consumed).take(
                                n as int,
                            ));
                            assert(rem.take(consumed) + rem.skip(consumed).take(n as int)
                                =~= rem.take(consumed + n as int));
                            assert(rem.skip(consumed).skip(n as int) =~= rem.skip(
                                consumed + n as int,
                            ));
                            consumed = consumed + n as int;
                        }
                    },
                }
            },
        }
    }
}

/// Bounded-stream exactness, read side: a `Take` with limit L over a
/// source of at least L bytes yields exactly the source's first L bytes,
/// and is then at end of input, so any further read attempt reports end
/// of input rather than more data.
pub fn take_reads_exactly(data: Vec<u8>, limit: usize) -> (r: Option<(VecSink, Take<SliceReader>)>)
    requires
        limit as int <= data@.len(),
    ensures
        r matches Some(out) && {
            &&& out.0.data@ == data@.take(limit as int)
            &&& <Take<SliceReader> as Read>::remaining(&out.1).len() == 0
        },
{
    let reader = SliceReader::new(data);
    let mut t = Take::new(reader, limit);
    let mut sink = VecSink::new();
    let res = copy(&mut t, &mut sink);
    match res {
        Ok(_) => {
            proof {
                assert(Seq::<u8>::empty() + data@.take(limit as int) =~= data@.take(
                    limit as int,
                ));
            }
            Some((sink, t))
        },
        Err(_) => {
            proof {
                assert(false);
            }
            None
        },
    }
}

/// Bounded-stream exactness, write side: into a `Take` with limit L over
/// a sink that accepts everything, writing exactly L bytes succeeds
/// whole; the next non-empty write fails with `UnexpectedEof` and leaves
/// nothing more written.
pub fn take_write_budget(payload: Vec<u8>, probe: Vec<u8>) -> (r: Option<
    (AllError<NoError>, Take<VecSink>),
>)
    requires
        probe@.len() > 0,
    ensures
        r matches Some(out) && {
            &&& out.0 == AllError::<NoError>::UnexpectedEof
            &&& out.1.stream.data@ == payload@
            &&& out.1.limit == 0
        },
{
    let len = payload.len();
    let sink = VecSink::new();
    let mut t = Take::new(sink, len);
    let mut pos: usize = 0;
    while pos < len
        invariant
            pos <= len,
            len == payload@.len(),
            t.limit == len - pos,
            t.stream.data@ == payload@.take(pos as int),
        decreases len - pos,
    {
        let res = t.write(&payload[pos..len]);
        match res {
            Ok(n) => {
                proof {
                    assert(payload@.take(pos as int) + payload@.subrange(
                        pos as int,
                        len as int,
                    ).take(n as int) =~= payload@.take(pos as int + n as int));
                }
                pos = pos + n;
            },
            Err(_) => {
                proof {
                    assert(false);
                }
                return None;
            },
        }
    }
    proof {
        assert(payload@.take(len as int) =~= payload@);
    }
    let res2 = t.write(probe.as_slice());
    match res2 {
        Err(e) => Some((e, t)),
        Ok(_) => {
            proof {
                assert(false);
            }
            None
        },
    }
}

/// All-or-nothing completion over a sink that accepts only `chunk` bytes
/// per call: `write_all` still gets the whole buffer accepted, every byte
/// exactly once and in order.
pub fn write_all_chunked(payload: Vec<u8>, chunk: usize) -> (r: Option<ChunkSink>)
    ensures
        r matches Some(out) && out.data@ == payload@,
{
    let mut sink = ChunkSink::new(chunk);
    let res = write_all(&mut sink, payload.as_slice());
    match res {
        Ok(()) => {
            proof {
                assert(Seq::<u8>::empty() + payload@ =~= payload@);
            }
            Some(sink)
        },
        Err(_) => {
            proof {
                assert(false);
            }
            None
        },
    }
}

/// Extension methods for readable sources.
pub trait ReadExt: Read + Sized {
    /// Copy everything this source has left into `write`; see `copy`.
    fn copy_to<W: Write>(&mut self, write: &mut W) -> (r: Result<
        usize,
        PumpError<Self::Error, W::Error>,
    >)
        ensures
            old(self).reliable() && old(write).accepting() ==> r is Ok,
            match r {
                Ok(total) => {
                    &&& final(self).remaining().len() == 0
                    &&& final(write).written() == old(write).written() + old(self).remaining()
                    &&& total as int == spec_min(
                        old(self).remaining().len() as int,
                        usize::MAX as int,
                    )
                },
                Err(_) => (exists|consumed: int, accepted: int|
                    {
                        &&& 0 <= accepted <= consumed <= old(self).remaining().len()
                        &&& final(self).remaining() == old(self).remaining().skip(consumed)
                        &&& final(write).written() == old(write).written() + old(
                            self,
                        ).remaining().take(accepted)
                    }),
            },
    ;

    /// Bound this source to at most `limit` further bytes.
    fn take(self, limit: usize) -> (r: Take<Self>)
        ensures
            r.stream == self,
            r.limit == limit,
    ;
}

impl<T: Read> ReadExt for T {
    fn copy_to<W: Write>(&mut self, write: &mut W) -> (r: Result<
        usize,
        PumpError<Self::Error, W::Error>,
    >) {
        copy(self, write)
    }

    fn take(self, limit: usize) -> (r: Take<Self>) {
        Take::new(self, limit)
    }
}

/// Extension methods for writable sinks.
pub trait WriteExt: Write + Sized {
    /// Copy everything `read` has left into this sink; see `copy`.
    fn copy_from<R: Read>(&mut self, read: &mut R) -> (r: Result<
        usize,
        PumpError<R::Error, Self::Error>,
    >)
        ensures
            old(read).reliable() && old(self).accepting() ==> r is Ok,
            match r {
                Ok(total) => {
                    &&& final(read).remaining().len() == 0
                    &&& final(self).written() == old(self).written() + old(read).remaining()
                    &&& total as int == spec_min(
                        old(read).remaining().len() as int,
                        usize::MAX as int,
                    )
                },
                Err(_) => (exists|consumed: int, accepted: int|
                    {
                        &&& 0 <= accepted <= consumed <= old(read).remaining().len()
                        &&& final(read).remaining() == old(read).remaining().skip(consumed)
                        &&& final(self).written() == old(self).written() + old(
                            read,
                        ).remaining().take(accepted)
                    }),
            },
    ;

    /// Bound this sink to at most `limit` further bytes.
    fn take(self, limit: usize) -> (r: Take<Self>)
        ensures
            r.stream == self,
            r.limit == limit,
    ;

    /// Wrap this sink in the plain text-sink adaptor.
    fn uwriter(self) -> (r: uWriter<Self>)
        ensures
            r.inner == self,
    ;
}

impl<T: Write> WriteExt for T {
    fn copy_from<R: Read>(&mut self, read: &mut R) -> (r: Result<
        usize,
        PumpError<R::Error, Self::Error>,
    >) {
        copy(read, self)
    }

    fn take(self, limit: usize) -> (r: Take<Self>) {
        Take::new(self, limit)
    }

    fn uwriter(self) -> (r: uWriter<Self>) {
        uWriter::new(self)
    }
}

/// Error of a formatted write: either the formatter itself failed, or the
/// underlying sink did.
#[derive(Debug, Copy, Clone)]
pub enum WriteFmtError<E> {
    FormatterError,
    Io(E),
}

impl<W: Write> uWriter<W> {
    /// Write a whole string to the wrapped sink; the text-sink interface
    /// has no partial-progress reporting, so this retries like
    /// `write_all`.
    pub fn write_str(&mut self, s: &str) -> (r: Result<(), W::Error>)
        ensures
            old(self).inner.accepting() ==> final(self).inner.accepting() && r is Ok,
            match r {
                Ok(()) => final(self).inner.written() == old(self).inner.written()
                    + s.spec_bytes(),
                Err(_) => exists|k: int|
                    0 <= k <= s.spec_bytes().len() && final(self).inner.written() == old(
                        self,
                    ).inner.written() + s.spec_bytes().take(k),
            },
    {
        write_all(&mut self.inner, s.as_bytes())
    }
}

} // verus!
