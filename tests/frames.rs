use telemetry_frames::frame::FrameBuffer;

#[test]
fn frame_split_across_chunks_comes_out_whole() {
    let mut buf = FrameBuffer::new(256);
    let a: &[u8] = b"{\"timestamp\":1,\"x\":0";
    let b: &[u8] = b".0,\"y\":0.0,\"z\":0.0,\"w\":1.0}\n";
    let first = buf.ingest(a);
    assert!(first.frames.is_empty());
    assert!(!first.overflowed);
    assert_eq!(buf.pending(), a);
    let second = buf.ingest(b);
    assert!(!second.overflowed);
    let mut whole = a.to_vec();
    whole.extend_from_slice(&b[..b.len() - 1]);
    assert_eq!(second.frames, vec![whole]);
    assert!(buf.pending().is_empty());
}

#[test]
fn two_frames_in_one_chunk_keep_their_order() {
    let mut buf = FrameBuffer::new(256);
    let r = buf.ingest(b"first\nsecond\ntail");
    assert_eq!(r.frames, vec![b"first".to_vec(), b"second".to_vec()]);
    assert_eq!(buf.pending(), b"tail");
}

#[test]
fn empty_chunks_never_repeat_a_frame() {
    let mut buf = FrameBuffer::new(64);
    let r = buf.ingest(b"done\n");
    assert_eq!(r.frames, vec![b"done".to_vec()]);
    for _ in 0..5 {
        let r = buf.ingest(b"");
        assert!(r.frames.is_empty());
        assert!(!r.overflowed);
        assert!(buf.pending().is_empty());
    }
}

#[test]
fn empty_lines_are_empty_frames() {
    let mut buf = FrameBuffer::new(8);
    let r = buf.ingest(b"\n\n");
    assert_eq!(r.frames, vec![Vec::<u8>::new(), Vec::<u8>::new()]);
}

#[test]
fn overflow_reported_once_at_the_cap() {
    let mut buf = FrameBuffer::new(10);
    assert_eq!(buf.cap(), 10);
    let r = buf.ingest(b"0123456");
    assert!(!r.overflowed);
    let r = buf.ingest(b"789");
    assert!(!r.overflowed);
    assert_eq!(buf.pending(), b"0123456789");
    let r = buf.ingest(b"a");
    assert!(r.overflowed);
    assert!(r.frames.is_empty());
    assert!(buf.pending().is_empty());
    let r = buf.ingest(b"bcd");
    assert!(!r.overflowed);
    assert_eq!(buf.pending(), b"bcd");
}

#[test]
fn frames_before_the_partial_are_kept_on_overflow() {
    let mut buf = FrameBuffer::new(3);
    let r = buf.ingest(b"ok\nlonger");
    assert!(r.overflowed);
    assert_eq!(r.frames, vec![b"ok".to_vec()]);
    assert!(buf.pending().is_empty());
}
