use bytepump::{
    AsyncRead, AsyncWrite, FnvHasher, HashStream, Hasher, Poll, Read, SliceReader, Take, VecSink,
    Write, copy,
};

#[test]
fn fnv1a_of_empty_is_the_offset_basis() {
    let hasher = FnvHasher::new();
    assert_eq!(hasher.finish(), 0xcbf29ce484222325);
}

#[test]
fn fnv1a_of_hello_matches_reference() {
    let mut hasher = FnvHasher::new();
    hasher.write(b"hello");
    assert_eq!(hasher.finish(), 0xa430d84680aabd0b);
}

#[test]
fn fnv1a_is_incremental() {
    let mut split = FnvHasher::new();
    split.write(b"hello");
    split.write(b" world");
    let mut whole = FnvHasher::new();
    whole.write(b"hello world");
    assert_eq!(split.finish(), whole.finish());
    assert_eq!(whole.finish(), 0x779a65e7023cd2e7);
}

#[test]
fn hash_stream_observes_reads() {
    let reader = SliceReader::new(b"hello world".to_vec());
    let mut hashed = HashStream::new(FnvHasher::new(), reader);
    let mut sink = VecSink::new();
    let total = copy(&mut hashed, &mut sink).unwrap();
    assert_eq!(total, 11);
    assert_eq!(sink.data, b"hello world".to_vec());
    let (hasher, _) = hashed.into_inner();
    assert_eq!(hasher.finish(), 0x779a65e7023cd2e7);
}

#[test]
fn hash_stream_observes_writes() {
    let mut hashed = HashStream::new(FnvHasher::new(), VecSink::new());
    let n = hashed.write(b"hello").unwrap();
    assert_eq!(n, 5);
    hashed.flush().unwrap();
    let (hasher, sink) = hashed.into_inner();
    assert_eq!(hasher.finish(), 0xa430d84680aabd0b);
    assert_eq!(sink.data, b"hello".to_vec());
}

#[test]
fn hash_stream_observes_async_reads() {
    let reader = SliceReader::new(b"hello".to_vec());
    let mut hashed = HashStream::new(FnvHasher::new(), reader);
    let mut buf = vec![0u8; 16];
    match hashed.poll_read(&mut buf) {
        Poll::Ready(Ok(n)) => assert_eq!(n, 5),
        _ => panic!("an in-memory read completes at once"),
    }
    let (hasher, _) = hashed.into_inner();
    assert_eq!(hasher.finish(), 0xa430d84680aabd0b);
}

#[test]
fn hash_stream_observes_async_writes() {
    let mut hashed = HashStream::new(FnvHasher::new(), VecSink::new());
    match hashed.poll_write(b"hello") {
        Poll::Ready(Ok(n)) => assert_eq!(n, 5),
        _ => panic!("an in-memory write completes at once"),
    }
    assert!(matches!(hashed.poll_flush(), Poll::Ready(Ok(()))));
    assert!(matches!(hashed.poll_close(), Poll::Ready(Ok(()))));
    let (hasher, sink) = hashed.into_inner();
    assert_eq!(hasher.finish(), 0xa430d84680aabd0b);
    assert_eq!(sink.data, b"hello".to_vec());
}

#[test]
fn hash_stream_only_observes_accepted_bytes() {
    let limited = Take::new(VecSink::new(), 3);
    let mut hashed = HashStream::new(FnvHasher::new(), limited);
    let n = hashed.write(b"hello").unwrap();
    assert_eq!(n, 3);
    let (hasher, limited) = hashed.into_inner();
    let mut expect = FnvHasher::new();
    expect.write(b"hel");
    assert_eq!(hasher.finish(), expect.finish());
    assert_eq!(limited.stream.data, b"hel".to_vec());
}
