use bytepump::{
    AllError, AsyncCopy, AsyncFlush, AsyncRead, AsyncReadExt, AsyncSynchronousExt, AsyncWrite,
    AsyncWriteExt, ChunkSink, Duplex, Empty, Poll, PumpError, SliceReader, SliceWriter, Take,
    VecSink, all_poll, all_poll_write, read_write_all, run_copy, run_read_exact, run_write_all,
};

/// A source whose transport always fails, for the error-propagation
/// scenarios.
struct FailingReader;

impl AsyncRead for FailingReader {
    type Error = u8;

    fn remaining(&self) -> vstd::seq::Seq<u8> {
        unreachable!("specification-only item");
    }

    fn always_ready(&self) -> bool {
        unreachable!("specification-only item");
    }

    fn poll_read(&mut self, _buf: &mut Vec<u8>) -> Poll<Result<usize, u8>> {
        Poll::Ready(Err(42))
    }
}

#[test]
fn pump_read_failure_aborts() {
    let mut pump = AsyncCopy::new(FailingReader, VecSink::new());
    match pump.poll() {
        Poll::Ready(Err(AllError::Io(PumpError::Read(42)))) => {},
        _ => panic!("a failing source fails the pump"),
    }
}

#[test]
fn pump_moves_hello_world_in_one_poll() {
    let reader = SliceReader::new(b"hello world".to_vec());
    let sink = VecSink::new();
    let mut pump = AsyncCopy::new(reader, sink);
    match pump.poll() {
        Poll::Ready(Ok(total)) => assert_eq!(total, 11),
        _ => panic!("an in-memory pump completes in one poll"),
    }
    let (_, sink) = pump.into_inner();
    assert_eq!(sink.data, b"hello world".to_vec());
}

#[test]
fn pump_empty_source_reports_zero() {
    let mut pump = AsyncCopy::new(Empty, VecSink::new());
    match pump.poll() {
        Poll::Ready(Ok(total)) => assert_eq!(total, 0),
        _ => panic!("an empty copy completes at once"),
    }
    let (_, sink) = pump.into_inner();
    assert!(sink.data.is_empty());
}

#[test]
fn pump_through_one_byte_sink_compacts() {
    // 20 source bytes, a 16-byte intermediate buffer and a sink taking one
    // byte per call force several fills and at least one compaction
    let data: Vec<u8> = (0u8..20).collect();
    let reader = SliceReader::new(data.clone());
    let sink = ChunkSink::new(1);
    let mut pump = AsyncCopy::new(reader, sink);
    match pump.poll() {
        Poll::Ready(Ok(total)) => assert_eq!(total, 20),
        _ => panic!("always-ready transports complete in one poll"),
    }
    let (_, sink) = pump.into_inner();
    assert_eq!(sink.data, data);
}

#[test]
fn pump_write_failure_aborts() {
    let reader = SliceReader::new(b"hello".to_vec());
    let limited = Take::new(VecSink::new(), 2);
    let mut pump = AsyncCopy::new(reader, limited);
    match pump.poll() {
        Poll::Ready(Err(AllError::Io(_))) => {},
        _ => panic!("a sink over budget fails the pump"),
    }
    let (_, limited) = pump.into_inner();
    assert_eq!(limited.stream.data, b"he".to_vec());
}

#[test]
fn run_copy_returns_everything() {
    let reader = SliceReader::new(b"hello world".to_vec());
    let sink = VecSink::new();
    let (total, _, sink) = run_copy(reader, sink).unwrap();
    assert_eq!(total, 11);
    assert_eq!(sink.data, b"hello world".to_vec());
}

#[test]
fn run_write_all_through_one_byte_sink() {
    let sink = ChunkSink::new(1);
    let (sink, buffer) = run_write_all(sink, b"hello world".to_vec()).unwrap();
    assert_eq!(sink.data, b"hello world".to_vec());
    assert_eq!(buffer, b"hello world".to_vec());
}

#[test]
fn take_spent_budget_never_polls_inner() {
    let mut limited = AsyncReadExt::take(FailingReader, 0);
    let mut buf = vec![0u8; 4];
    match limited.poll_read(&mut buf) {
        Poll::Ready(Ok(0)) => {},
        _ => panic!("a spent budget is end of input, without an inner poll"),
    }
}

#[test]
fn run_read_exact_fills_from_partial_sources() {
    let reader = SliceReader::new(b"abcdefgh".to_vec());
    let (reader, buffer) = run_read_exact(reader, vec![0u8; 5]).unwrap();
    assert_eq!(buffer, b"abcde".to_vec());
    let mut rest = vec![0u8; 3];
    let mut reader = reader;
    match reader.poll_read(&mut rest) {
        Poll::Ready(Ok(3)) => assert_eq!(rest, b"fgh".to_vec()),
        _ => panic!("the source continues where the combinator stopped"),
    }
}

#[test]
fn read_exact_combinator_fills_buffer() {
    let reader = SliceReader::new(b"abcdefgh".to_vec());
    let mut fut = reader.read_exact(vec![0u8; 5]);
    loop {
        match fut.poll() {
            Poll::Ready(res) => {
                res.unwrap();
                break;
            },
            Poll::Pending => {},
        }
    }
    let (_, buffer) = fut.into_inner();
    assert_eq!(buffer, b"abcde".to_vec());
}

#[test]
fn read_exact_combinator_reports_eof() {
    let reader = SliceReader::new(b"ab".to_vec());
    let mut fut = reader.read_exact(vec![0u8; 4]);
    loop {
        match fut.poll() {
            Poll::Ready(res) => {
                assert!(matches!(res, Err(AllError::UnexpectedEof)));
                break;
            },
            Poll::Pending => {},
        }
    }
}

#[test]
fn write_all_combinator_drives_partial_sinks() {
    let sink = ChunkSink::new(3);
    let mut fut = sink.write_all(b"hello world".to_vec());
    let mut polls = 0;
    loop {
        match fut.poll() {
            Poll::Ready(res) => {
                res.unwrap();
                break;
            },
            Poll::Pending => {
                polls += 1;
                assert!(polls < 100, "the combinator must make progress");
            },
        }
    }
    let (sink, _) = fut.into_inner();
    assert_eq!(sink.data, b"hello world".to_vec());
}

#[test]
fn read_write_all_exchanges_buffer() {
    let transport = Duplex::new(b"XYZ".to_vec());
    let mut fut = read_write_all(transport, b"abc".to_vec());
    loop {
        match fut.poll() {
            Poll::Ready(res) => {
                res.unwrap();
                break;
            },
            Poll::Pending => {},
        }
    }
    let (transport, buffer) = fut.into_inner();
    assert_eq!(buffer, b"XYZ".to_vec());
    assert_eq!(transport.sent, b"abc".to_vec());
}

#[test]
fn read_write_all_reports_eof_when_incoming_runs_dry() {
    let transport = Duplex::new(b"X".to_vec());
    let mut fut = transport.read_write_all(b"abc".to_vec());
    loop {
        match fut.poll() {
            Poll::Ready(res) => {
                assert!(matches!(res, Err(AllError::UnexpectedEof)));
                break;
            },
            Poll::Pending => {},
        }
    }
}

#[test]
fn flush_combinator_completes() {
    let sink = VecSink::new();
    let mut fut = AsyncFlush::new(sink);
    match fut.poll() {
        Poll::Ready(Ok(())) => {},
        _ => panic!("an in-memory sink flushes at once"),
    }
}

#[test]
fn flush_via_ext_trait() {
    let sink = VecSink::new();
    let mut fut = AsyncWriteExt::flush(sink);
    assert!(matches!(fut.poll(), Poll::Ready(Ok(()))));
}

#[test]
fn take_poll_read_respects_limit() {
    let reader = SliceReader::new(b"hello world".to_vec());
    let mut limited = AsyncReadExt::take(reader, 5);
    let mut buf = vec![0u8; 16];
    match limited.poll_read(&mut buf) {
        Poll::Ready(Ok(n)) => assert_eq!(n, 5),
        _ => panic!("an in-memory read completes at once"),
    }
    assert_eq!(&buf[..5], b"hello");
    match limited.poll_read(&mut buf) {
        Poll::Ready(Ok(n)) => assert_eq!(n, 0),
        _ => panic!("a spent budget reads as end of input"),
    }
}

#[test]
fn take_poll_write_budget_exhaustion() {
    let sink = VecSink::new();
    let mut limited = AsyncWriteExt::take(sink, 5);
    match limited.poll_write(b"hello world") {
        Poll::Ready(Ok(n)) => assert_eq!(n, 5),
        _ => panic!("an in-memory write completes at once"),
    }
    match limited.poll_write(b"!") {
        Poll::Ready(Err(AllError::UnexpectedEof)) => {},
        _ => panic!("a spent budget rejects non-empty writes"),
    }
    assert!(matches!(limited.poll_flush(), Poll::Ready(Ok(()))));
    assert!(matches!(limited.poll_close(), Poll::Ready(Ok(()))));
}

#[test]
fn slice_writer_async_rejects_when_full() {
    let mut writer = SliceWriter::new(2);
    match writer.poll_write(b"hello") {
        Poll::Ready(Ok(n)) => assert_eq!(n, 2),
        _ => panic!("an in-memory write completes at once"),
    }
    match writer.poll_write(b"more") {
        Poll::Ready(Err(AllError::UnexpectedEof)) => {},
        _ => panic!("a full writer rejects non-empty writes"),
    }
    assert_eq!(writer.data, b"he".to_vec());
}

#[test]
fn all_poll_advances_position() {
    let mut pos: usize = 0;
    // partial progress: advance and suspend
    assert!(matches!(all_poll(Poll::Ready(3), &mut pos, 10), Poll::Pending));
    assert_eq!(pos, 3);
    // completion: report done without moving the cursor
    assert!(matches!(all_poll(Poll::Ready(7), &mut pos, 10), Poll::Ready(Ok(()))));
    assert_eq!(pos, 3);
    // zero progress over a non-empty region: an error
    assert!(matches!(all_poll(Poll::Ready(0), &mut pos, 10), Poll::Ready(Err(()))));
    // transport suspension: no movement
    assert!(matches!(all_poll(Poll::Pending, &mut pos, 10), Poll::Pending));
    assert_eq!(pos, 3);
}

#[test]
fn all_poll_write_advances_position() {
    let mut pos: usize = 0;
    assert!(matches!(all_poll_write(Poll::Ready(4), &mut pos, 10), Poll::Pending));
    assert_eq!(pos, 4);
    assert!(matches!(all_poll_write(Poll::Ready(6), &mut pos, 10), Poll::Ready(())));
    assert_eq!(pos, 4);
    assert!(matches!(all_poll_write(Poll::Pending, &mut pos, 10), Poll::Pending));
}

#[test]
fn async_copy_via_ext_traits() {
    let reader = SliceReader::new(b"abc".to_vec());
    let mut pump = reader.copy_to(VecSink::new());
    assert!(matches!(pump.poll(), Poll::Ready(Ok(3))));

    let sink = VecSink::new();
    let mut pump2 = sink.copy_from(SliceReader::new(b"de".to_vec()));
    assert!(matches!(pump2.poll(), Poll::Ready(Ok(2))));
    let (_, sink2) = pump2.into_inner();
    assert_eq!(sink2.data, b"de".to_vec());
}

#[test]
fn empty_async_read_is_immediate_eof() {
    let mut reader = Empty;
    let mut buf = vec![1u8; 4];
    match AsyncRead::poll_read(&mut reader, &mut buf) {
        Poll::Ready(Ok(0)) => {},
        _ => panic!("the empty source ends immediately"),
    }
    assert_eq!(buf, vec![1u8; 4]);
}
