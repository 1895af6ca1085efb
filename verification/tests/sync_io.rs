use bytepump::{
    AllError, ChunkSink, Empty, NoError, PumpError, Read, ReadExt, SliceReader, SliceWriter, Sink,
    Take, VecSink, Write, WriteExt, copy, read_exact, take_reads_exactly, take_write_budget,
    write_all, write_all_chunked,
};

/// A sink that must never be asked for data: the empty-source scenario
/// requires the pump to finish without a single write call.
struct PanicSink;

impl Write for PanicSink {
    type Error = NoError;

    fn written(&self) -> vstd::seq::Seq<u8> {
        unreachable!("specification-only item");
    }

    fn accepting(&self) -> bool {
        unreachable!("specification-only item");
    }

    fn greedy(&self) -> bool {
        unreachable!("specification-only item");
    }

    fn write(&mut self, _buf: &[u8]) -> Result<usize, NoError> {
        panic!("the pump called write on an empty copy");
    }

    fn flush(&mut self) -> Result<(), NoError> {
        Ok(())
    }
}

#[test]
fn copy_moves_hello_world() {
    let mut reader = SliceReader::new(b"hello world".to_vec());
    let mut sink = VecSink::new();
    let total = copy(&mut reader, &mut sink).unwrap();
    assert_eq!(total, 11);
    assert_eq!(sink.data, b"hello world".to_vec());
}

#[test]
fn copy_empty_source_never_writes() {
    let mut reader = Empty;
    let mut sink = PanicSink;
    let total = copy(&mut reader, &mut sink).unwrap();
    assert_eq!(total, 0);
}

#[test]
fn copy_through_one_byte_sink() {
    let data: Vec<u8> = (0u8..20).collect();
    let mut reader = SliceReader::new(data.clone());
    let mut sink = ChunkSink::new(1);
    let total = copy(&mut reader, &mut sink).unwrap();
    assert_eq!(total, 20);
    assert_eq!(sink.data, data);
}

#[test]
fn copy_larger_than_buffer() {
    let data: Vec<u8> = (0..100u32).map(|i| (i % 251) as u8).collect();
    let mut reader = SliceReader::new(data.clone());
    let mut sink = VecSink::new();
    let total = copy(&mut reader, &mut sink).unwrap();
    assert_eq!(total, 100);
    assert_eq!(sink.data, data);
}

#[test]
fn read_exact_fills_buffer() {
    let mut reader = SliceReader::new(b"abcdefgh".to_vec());
    let mut buf = vec![0u8; 5];
    read_exact(&mut reader, &mut buf).unwrap();
    assert_eq!(buf, b"abcde".to_vec());
    let mut rest = vec![0u8; 3];
    read_exact(&mut reader, &mut rest).unwrap();
    assert_eq!(rest, b"fgh".to_vec());
}

#[test]
fn read_exact_reports_unexpected_eof() {
    let mut reader = SliceReader::new(b"ab".to_vec());
    let mut buf = vec![9u8; 4];
    let err = read_exact(&mut reader, &mut buf).unwrap_err();
    assert!(matches!(err, AllError::UnexpectedEof));
    // the bytes that were available stay at the front of the buffer
    assert_eq!(buf, vec![b'a', b'b', 9, 9]);
}

#[test]
fn write_all_into_exact_capacity() {
    let mut writer = SliceWriter::new(5);
    write_all(&mut writer, b"hello").unwrap();
    assert_eq!(writer.data, b"hello".to_vec());
    assert_eq!(writer.space, 0);
}

#[test]
fn write_into_full_writer_fails() {
    let mut writer = SliceWriter::new(0);
    let err = writer.write(b"x").unwrap_err();
    assert!(matches!(err, AllError::UnexpectedEof));
    // an empty write is still fine
    assert_eq!(writer.write(b"").unwrap(), 0);
}

#[test]
fn slice_writer_partial_write() {
    let mut writer = SliceWriter::new(3);
    let n = writer.write(b"hello").unwrap();
    assert_eq!(n, 3);
    assert_eq!(writer.data, b"hel".to_vec());
    let err = write_all(&mut writer, b"lo").unwrap_err();
    assert!(matches!(err, AllError::UnexpectedEof));
}

#[test]
fn sink_accepts_everything() {
    let mut sink = Sink::new();
    assert_eq!(sink.write(b"anything").unwrap(), 8);
    sink.flush().unwrap();
}

#[test]
fn take_limits_reading() {
    let reader = SliceReader::new(b"hello world".to_vec());
    let mut limited = Take::new(reader, 5);
    assert_eq!(limited.limit(), 5);
    let mut buf = vec![0u8; 16];
    let n = limited.read(&mut buf).unwrap();
    assert_eq!(n, 5);
    assert_eq!(&buf[..5], b"hello");
    // the budget is spent: the next read reports end of input
    let n2 = limited.read(&mut buf).unwrap();
    assert_eq!(n2, 0);
}

#[test]
fn take_set_limit_restores_budget() {
    let reader = SliceReader::new(b"hello world".to_vec());
    let mut limited = Take::new(reader, 0);
    let mut buf = vec![0u8; 4];
    assert_eq!(limited.read(&mut buf).unwrap(), 0);
    limited.set_limit(4);
    assert_eq!(limited.limit(), 4);
    assert_eq!(limited.read(&mut buf).unwrap(), 4);
    assert_eq!(buf, b"hell".to_vec());
}

#[test]
fn take_limits_writing() {
    let sink = VecSink::new();
    let mut limited = Take::new(sink, 5);
    let n = limited.write(b"hello world").unwrap();
    assert_eq!(n, 5);
    let err = limited.write(b"again").unwrap_err();
    assert!(matches!(err, AllError::UnexpectedEof));
    assert_eq!(limited.stream.data, b"hello".to_vec());
    limited.flush().unwrap();
}

#[test]
fn take_write_empty_at_zero_budget_is_ok() {
    let sink = VecSink::new();
    let mut limited = Take::new(sink, 0);
    assert_eq!(limited.write(b"").unwrap(), 0);
}

#[test]
fn take_reads_exactly_law_holds_on_values() {
    let out = take_reads_exactly(b"hello world".to_vec(), 5).unwrap();
    assert_eq!(out.0.data, b"hello".to_vec());
}

#[test]
fn take_write_budget_law_holds_on_values() {
    let out = take_write_budget(b"hello".to_vec(), b"!".to_vec()).unwrap();
    assert!(matches!(out.0, AllError::UnexpectedEof));
    assert_eq!(out.1.stream.data, b"hello".to_vec());
    assert_eq!(out.1.limit(), 0);
}

#[test]
fn write_all_chunked_law_holds_on_values() {
    let sink = write_all_chunked(b"hello world".to_vec(), 1).unwrap();
    assert_eq!(sink.data, b"hello world".to_vec());
    let sink3 = write_all_chunked(b"hello world".to_vec(), 3).unwrap();
    assert_eq!(sink3.data, b"hello world".to_vec());
}

#[test]
fn chunk_sink_takes_bounded_bites() {
    let mut sink = ChunkSink::new(4);
    assert_eq!(sink.write(b"hello world").unwrap(), 4);
    assert_eq!(sink.data, b"hell".to_vec());
    // a chunk size of zero still makes one byte of progress
    let mut tiny = ChunkSink::new(0);
    assert_eq!(tiny.write(b"hi").unwrap(), 1);
}

#[test]
fn empty_always_reports_end_of_input() {
    let mut reader = Empty;
    let mut buf = vec![7u8; 4];
    assert_eq!(reader.read(&mut buf).unwrap(), 0);
    assert_eq!(buf, vec![7u8; 4]);
}

#[test]
fn ext_trait_copy_both_directions() {
    let mut reader = SliceReader::new(b"one two".to_vec());
    let mut sink = VecSink::new();
    let total = reader.copy_to(&mut sink).unwrap();
    assert_eq!(total, 7);
    assert_eq!(sink.data, b"one two".to_vec());

    let mut reader2 = SliceReader::new(b"three".to_vec());
    let mut sink2 = VecSink::new();
    let total2 = sink2.copy_from(&mut reader2).unwrap();
    assert_eq!(total2, 5);
    assert_eq!(sink2.data, b"three".to_vec());
}

#[test]
fn ext_trait_take_builders() {
    let limited = SliceReader::new(b"abc".to_vec()).take(2);
    assert_eq!(limited.limit(), 2);
    let limited_sink = VecSink::new().take(3);
    assert_eq!(limited_sink.limit(), 3);
}

/// A source whose transport always fails, for the error-propagation
/// scenarios.
struct FailingReader;

impl Read for FailingReader {
    type Error = u8;

    fn remaining(&self) -> vstd::seq::Seq<u8> {
        unreachable!("specification-only item");
    }

    fn reliable(&self) -> bool {
        unreachable!("specification-only item");
    }

    fn read(&mut self, _buf: &mut Vec<u8>) -> Result<usize, u8> {
        Err(42)
    }
}

#[test]
fn take_spent_budget_never_consults_inner() {
    // a failing source behind a spent budget is never reached: the read
    // is end of input, not an error
    let mut limited = Take::new(FailingReader, 0);
    let mut buf = vec![0u8; 4];
    assert_eq!(limited.read(&mut buf).unwrap(), 0);
    assert_eq!(buf, vec![0u8; 4]);
}

#[test]
fn take_single_write_is_whole_within_budget() {
    let mut limited = Take::new(VecSink::new(), 5);
    assert_eq!(limited.write(b"abc").unwrap(), 3);
    assert_eq!(limited.limit(), 2);
    assert_eq!(limited.write(b"de").unwrap(), 2);
    assert_eq!(limited.stream.data, b"abcde".to_vec());
    assert_eq!(limited.limit(), 0);
}

#[test]
fn read_exact_reports_transport_error() {
    let mut reader = FailingReader;
    let mut buf = vec![0u8; 4];
    let err = read_exact(&mut reader, &mut buf).unwrap_err();
    assert!(matches!(err, AllError::Io(42)));
    assert_eq!(buf, vec![0u8; 4]);
}

#[test]
fn copy_reports_read_side_error() {
    let mut reader = FailingReader;
    let mut sink = VecSink::new();
    let err = copy(&mut reader, &mut sink).unwrap_err();
    assert!(matches!(err, PumpError::Read(42)));
}

#[test]
fn copy_reports_write_side_error() {
    let mut reader = SliceReader::new(b"hello".to_vec());
    let sink = VecSink::new();
    let mut limited = Take::new(sink, 2);
    let err = copy(&mut reader, &mut limited).unwrap_err();
    assert!(matches!(err, PumpError::Write(AllError::UnexpectedEof)));
    // the bytes that fit were committed and stay committed
    assert_eq!(limited.stream.data, b"he".to_vec());
}

#[test]
fn all_error_from_wraps_io() {
    let e: AllError<u8> = AllError::from(42u8);
    assert_eq!(e, AllError::Io(42));
    assert_ne!(e, AllError::UnexpectedEof);
}

#[test]
fn uwriter_writes_strings_whole() {
    let sink = VecSink::new();
    let mut writer = sink.uwriter();
    writer.write_str("hello ").unwrap();
    writer.write_str("world").unwrap();
    let inner = writer.into_inner();
    assert_eq!(inner.data, b"hello world".to_vec());
}
