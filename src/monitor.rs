//! One poll cycle: transport event in, outcome out, with the latest-wins
//! update of the telemetry state and the monitoring session's state machine.
use vstd::prelude::*;
use crate::frame::{
    byte_seqs, complete_frames, has_no_newline, lemma_empty_chunk_is_quiet,
    lemma_two_frames_in_order, trailing_partial, FrameBuffer, Ingested, NEWLINE,
};
use crate::record::{decode, decoded, Malformed, TelemetryRecord};

verus! {

/// How a transport failed, other than by timing out.
#[derive(Clone, Copy, Debug, PartialEq, Eq, Structural)]
pub enum TransportFault {
    /// The device went away.
    Disconnected,
    /// Any other failure of the link.
    Other,
}

/// What one poll of the transport brought.
pub enum PollEvent {
    /// Zero or more bytes.
    Bytes(Vec<u8>),
    /// Nothing arrived within the poll's budget.
    TimedOut,
    /// The transport failed.
    Failed(TransportFault),
}

/// The result of one poll cycle.
#[derive(Clone, Copy, Debug, PartialEq, Eq, Structural)]
pub enum Outcome {
    NoData,
    Accepted(TelemetryRecord),
    Malformed(Malformed),
    TransportError(TransportFault),
}

#[derive(Clone, Copy, Debug, PartialEq, Eq, Structural)]
pub enum Session {
    Idle,
    Monitoring,
}

/// The outcome of a cycle whose chunk completed `frames`: only the last frame
/// is decoded; an overflow of the pending bytes is reported first.
pub open spec fn latest_outcome(frames: Seq<Seq<u8>>, overflowed: bool) -> Outcome {
    if overflowed {
        Outcome::Malformed(Malformed::FrameTooLong)
    } else if frames.len() == 0 {
        Outcome::NoData
    } else {
        match decoded(frames.last()) {
            Ok(rec) => Outcome::Accepted(rec),
            Err(e) => Outcome::Malformed(e),
        }
    }
}

/// The record held after a cycle with outcome `o`.
pub open spec fn applied(current: TelemetryRecord, o: Outcome) -> TelemetryRecord {
    match o {
        Outcome::Accepted(rec) => rec,
        _ => current,
    }
}

/// When one chunk completes two frames, the second decides the cycle: its
/// record is accepted, or its defect reported, and the first is dropped.
pub proof fn lemma_latest_wins(pending: Seq<u8>, first: Seq<u8>, second: Seq<u8>)
    requires
        has_no_newline(pending),
        has_no_newline(first),
        has_no_newline(second),
    ensures
        ({
            let all = pending + (first.push(NEWLINE) + second.push(NEWLINE));
            &&& trailing_partial(all) == Seq::<u8>::empty()
            &&& latest_outcome(complete_frames(all), false) == match decoded(second) {
                Ok(rec) => Outcome::Accepted(rec),
                Err(e) => Outcome::Malformed(e),
            }
        }),
{
    let all = pending + (first.push(NEWLINE) + second.push(NEWLINE));
    lemma_two_frames_in_order(pending, first, second);
    assert(all.last() == NEWLINE);
}

/// A cycle whose last frame does not decode reports why and leaves the
/// current record as it was.
pub proof fn lemma_rejected_frame_keeps_record(current: TelemetryRecord, frames: Seq<Seq<u8>>)
    requires
        frames.len() > 0,
        decoded(frames.last()) is Err,
    ensures
        latest_outcome(frames, false) == Outcome::Malformed(decoded(frames.last())->Err_0),
        applied(current, latest_outcome(frames, false)) == current,
{
}

/// Once the complete frames are handed out, an empty chunk yields no data and
/// leaves everything as it was, however often it comes.
pub proof fn lemma_empty_poll_is_no_data(pending: Seq<u8>, cap: nat)
    requires
        has_no_newline(pending),
        pending.len() <= cap,
    ensures
        ({
            let all = pending + Seq::<u8>::empty();
            &&& trailing_partial(all) == pending
            &&& latest_outcome(complete_frames(all), trailing_partial(all).len() > cap)
                == Outcome::NoData
        }),
{
    lemma_empty_chunk_is_quiet(pending);
}

/// Applies the latest-wins policy to what one chunk produced.
pub fn outcome_of(ingested: &Ingested) -> (r: Outcome)
    ensures
        r == latest_outcome(byte_seqs(ingested.frames@), ingested.overflowed),
{
    if ingested.overflowed {
        return Outcome::Malformed(Malformed::FrameTooLong);
    }
    let n = ingested.frames.len();
    if n == 0 {
        return Outcome::NoData;
    }
    let last = &ingested.frames[n - 1];
    proof {
        assert(byte_seqs(ingested.frames@).last() == last@);
    }
    match decode(last.as_slice()) {
        Ok(rec) => Outcome::Accepted(rec),
        Err(e) => Outcome::Malformed(e),
    }
}

/// The core of a monitoring session: the frame buffer, the most recently
/// accepted record, and whether the session still runs.
pub struct Monitor {
    buffer: FrameBuffer,
    current: TelemetryRecord,
    session: Session,
}

impl Monitor {
    pub closed spec fn pending_spec(&self) -> Seq<u8> {
        self.buffer@
    }

    pub closed spec fn cap_spec(&self) -> nat {
        self.buffer.cap_spec()
    }

    pub closed spec fn current_spec(&self) -> TelemetryRecord {
        self.current
    }

    pub closed spec fn session_spec(&self) -> Session {
        self.session
    }

    pub closed spec fn wf(&self) -> bool {
        self.buffer.wf()
    }

    /// Starts a session: nothing pending, the identity orientation at time
    /// zero, partial frames kept up to `cap` bytes.
    pub fn new(cap: usize) -> (r: Monitor)
        ensures
            r.wf(),
            r.pending_spec() == Seq::<u8>::empty(),
            r.cap_spec() == cap,
            r.current_spec() == TelemetryRecord::identity_spec(),
            r.session_spec() == Session::Monitoring,
    {
        Monitor {
            buffer: FrameBuffer::new(cap),
            current: TelemetryRecord::identity(),
            session: Session::Monitoring,
        }
    }

    /// The most recently accepted record.
    pub fn current(&self) -> (r: TelemetryRecord)
        ensures
            r == self.current_spec(),
    {
        self.current
    }

    pub fn session(&self) -> (r: Session)
        ensures
            r == self.session_spec(),
    {
        self.session
    }

    /// The bytes of the partial frame held for the next poll.
    pub fn pending(&self) -> (r: &[u8])
        ensures
            r@ == self.pending_spec(),
    {
        self.buffer.pending()
    }

    /// Ends the session; the state is kept for a last read.
    pub fn stop(&mut self)
        requires
            old(self).wf(),
        ensures
            final(self).wf(),
            final(self).session_spec() == Session::Idle,
            final(self).pending_spec() == old(self).pending_spec(),
            final(self).cap_spec() == old(self).cap_spec(),
            final(self).current_spec() == old(self).current_spec(),
    {
        self.session = Session::Idle;
    }

    /// Runs one poll cycle on what the transport brought. A timeout is no
    /// data; any other transport failure ends the session. Bytes go through
    /// the frame buffer, and the last frame they complete, if it decodes,
    /// becomes the current record. An idle monitor ignores every event.
    pub fn poll(&mut self, event: PollEvent) -> (r: Outcome)
        requires
            old(self).wf(),
        ensures
            final(self).wf(),
            final(self).cap_spec() == old(self).cap_spec(),
            old(self).session_spec() == Session::Idle ==> r == Outcome::NoData && *final(self)
                == *old(self),
            old(self).session_spec() == Session::Monitoring ==> match event {
                PollEvent::TimedOut => r == Outcome::NoData && *final(self) == *old(self),
                PollEvent::Failed(fault) => r == Outcome::TransportError(fault)
                    && final(self).session_spec() == Session::Idle
                    && final(self).pending_spec() == old(self).pending_spec()
                    && final(self).current_spec() == old(self).current_spec(),
                PollEvent::Bytes(chunk) => {
                    let all = old(self).pending_spec() + chunk@;
                    let overflowed = trailing_partial(all).len() > old(self).cap_spec();
                    &&& r == latest_outcome(complete_frames(all), overflowed)
                    &&& final(self).current_spec() == applied(old(self).current_spec(), r)
                    &&& final(self).session_spec() == Session::Monitoring
                    &&& final(self).pending_spec() == if overflowed {
                        Seq::<u8>::empty()
                    } else {
                        trailing_partial(all)
                    }
                },
            },
    {
        if let Session::Idle = self.session {
            return Outcome::NoData;
        }
        match event {
            PollEvent::TimedOut => Outcome::NoData,
            PollEvent::Failed(fault) => {
                self.session = Session::Idle;
                Outcome::TransportError(fault)
            },
            PollEvent::Bytes(chunk) => {
                let ingested = self.buffer.ingest(chunk.as_slice());
                let r = outcome_of(&ingested);
                if let Outcome::Accepted(rec) = r {
                    self.current = rec;
                }
                r
            },
        }
    }
}

} // verus!
