use telemetry_frames::monitor::{Monitor, Outcome, PollEvent, Session, TransportFault};
use telemetry_frames::record::{decode, Field, Malformed, TelemetryRecord};

fn bytes(s: &str) -> PollEvent {
    PollEvent::Bytes(s.as_bytes().to_vec())
}

fn rec(text: &str) -> TelemetryRecord {
    decode(text.as_bytes()).unwrap()
}

#[test]
fn new_monitor_holds_the_identity() {
    let m = Monitor::new(256);
    assert_eq!(m.current(), TelemetryRecord::identity());
    assert_eq!(m.session(), Session::Monitoring);
    assert!(m.pending().is_empty());
}

#[test]
fn frame_split_across_polls_is_accepted() {
    let mut m = Monitor::new(256);
    assert_eq!(m.poll(bytes("{\"timestamp\":1,\"x\":0")), Outcome::NoData);
    let o = m.poll(bytes(".0,\"y\":0.0,\"z\":0.0,\"w\":1.0}\n"));
    let want = rec("{\"timestamp\":1,\"x\":0.0,\"y\":0.0,\"z\":0.0,\"w\":1.0}");
    assert_eq!(o, Outcome::Accepted(want));
    assert_eq!(m.current(), want);
}

#[test]
fn latest_frame_of_a_poll_wins() {
    let mut m = Monitor::new(256);
    let o = m.poll(bytes(
        "{\"timestamp\":1,\"x\":0.0,\"y\":0.0,\"z\":0.0,\"w\":1.0}\n{\"timestamp\":2,\"x\":1.0,\"y\":0.0,\"z\":0.0,\"w\":0.0}\n",
    ));
    let second = rec("{\"timestamp\":2,\"x\":1.0,\"y\":0.0,\"z\":0.0,\"w\":0.0}");
    assert_eq!(o, Outcome::Accepted(second));
    assert_eq!(m.current(), second);
    assert_eq!(m.current().time, 2);
}

#[test]
fn malformed_frame_keeps_the_previous_record() {
    let mut m = Monitor::new(256);
    m.poll(bytes("{\"timestamp\":5,\"x\":0.0,\"y\":0.0,\"z\":0.0,\"w\":1.0}\n"));
    let before = m.current();
    let o = m.poll(bytes("{\"timestamp\":6,\"x\":0.0,\"y\":0.0,\"z\":0.0}\n"));
    assert_eq!(o, Outcome::Malformed(Malformed::Missing(Field::W)));
    assert_eq!(m.current(), before);
    assert_eq!(m.session(), Session::Monitoring);
}

#[test]
fn empty_polls_after_a_frame_are_no_data() {
    let mut m = Monitor::new(256);
    let o = m.poll(bytes("{\"timestamp\":5,\"x\":0.0,\"y\":0.0,\"z\":0.0,\"w\":1.0}\n"));
    assert!(matches!(o, Outcome::Accepted(_)));
    let held = m.current();
    for _ in 0..4 {
        assert_eq!(m.poll(PollEvent::Bytes(Vec::new())), Outcome::NoData);
        assert_eq!(m.current(), held);
    }
}

#[test]
fn endless_line_is_too_long_once() {
    let mut m = Monitor::new(8);
    assert_eq!(m.poll(bytes("abcd")), Outcome::NoData);
    assert_eq!(m.poll(bytes("efgh")), Outcome::NoData);
    assert_eq!(m.poll(bytes("i")), Outcome::Malformed(Malformed::FrameTooLong));
    assert!(m.pending().is_empty());
    assert_eq!(m.poll(bytes("jk")), Outcome::NoData);
    assert_eq!(m.pending(), b"jk");
    assert_eq!(m.current(), TelemetryRecord::identity());
}

#[test]
fn timeout_is_no_data() {
    let mut m = Monitor::new(16);
    m.poll(bytes("part"));
    assert_eq!(m.poll(PollEvent::TimedOut), Outcome::NoData);
    assert_eq!(m.pending(), b"part");
    assert_eq!(m.session(), Session::Monitoring);
}

#[test]
fn transport_failure_ends_the_session() {
    let mut m = Monitor::new(16);
    let o = m.poll(PollEvent::Failed(TransportFault::Disconnected));
    assert_eq!(o, Outcome::TransportError(TransportFault::Disconnected));
    assert_eq!(m.session(), Session::Idle);
    assert_eq!(m.poll(bytes("{\"timestamp\":5,\"x\":0.0,\"y\":0.0,\"z\":0.0,\"w\":1.0}\n")), Outcome::NoData);
    assert_eq!(m.current(), TelemetryRecord::identity());
}

#[test]
fn stopped_monitor_ignores_events() {
    let mut m = Monitor::new(16);
    m.stop();
    assert_eq!(m.session(), Session::Idle);
    assert_eq!(m.poll(PollEvent::Failed(TransportFault::Other)), Outcome::NoData);
    assert_eq!(m.poll(bytes("x\n")), Outcome::NoData);
}

#[test]
fn garbage_line_is_a_syntax_error() {
    let mut m = Monitor::new(64);
    assert_eq!(m.poll(bytes("hello\n")), Outcome::Malformed(Malformed::Syntax));
    assert_eq!(m.current(), TelemetryRecord::identity());
}
