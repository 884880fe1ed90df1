//! The frame buffer: bytes in, complete newline-terminated frames out.
use vstd::prelude::*;

verus! {

/// The byte that ends a frame on the wire.
pub const NEWLINE: u8 = 0x0a;

/// The complete frames of `s`, in order: every span that a newline ends,
/// without that newline.
pub open spec fn complete_frames(s: Seq<u8>) -> Seq<Seq<u8>>
    decreases s.len(),
{
    if s.len() == 0 {
        seq![]
    } else if s.last() == NEWLINE {
        complete_frames(s.drop_last()).push(trailing_partial(s.drop_last()))
    } else {
        complete_frames(s.drop_last())
    }
}

/// What follows the last newline of `s` (all of `s` when it holds none).
pub open spec fn trailing_partial(s: Seq<u8>) -> Seq<u8>
    decreases s.len(),
{
    if s.len() == 0 {
        seq![]
    } else if s.last() == NEWLINE {
        seq![]
    } else {
        trailing_partial(s.drop_last()).push(s.last())
    }
}

/// The contents of each buffer of `v`.
pub open spec fn byte_seqs(v: Seq<Vec<u8>>) -> Seq<Seq<u8>> {
    v.map_values(|f: Vec<u8>| f@)
}

pub open spec fn has_no_newline(s: Seq<u8>) -> bool {
    forall|i: int| 0 <= i < s.len() ==> s[i] != NEWLINE
}


/// The trailing partial frame never holds a newline, and is no longer than
/// its input.
pub proof fn lemma_partial_is_open(s: Seq<u8>)
    ensures
        has_no_newline(trailing_partial(s)),
        trailing_partial(s).len() <= s.len(),
    decreases s.len(),
{
    if s.len() > 0 {
        lemma_partial_is_open(s.drop_last());
    }
}

/// Bytes without a newline make no frame and stay pending as they are.
pub proof fn lemma_open_text_stays(s: Seq<u8>)
    requires
        has_no_newline(s),
    ensures
        complete_frames(s) == Seq::<Seq<u8>>::empty(),
        trailing_partial(s) == s,
    decreases s.len(),
{
    if s.len() > 0 {
        lemma_open_text_stays(s.drop_last());
        assert(s.drop_last().push(s.last()) =~= s);
    }
}

/// Splitting a byte stream at any point loses nothing: the frames of `a + b`
/// are the frames of `a` followed by those of what `a` left pending and `b`,
/// and both leave the same partial frame.
pub proof fn lemma_split_anywhere(a: Seq<u8>, b: Seq<u8>)
    ensures
        complete_frames(a + b) == complete_frames(a) + complete_frames(trailing_partial(a) + b),
        trailing_partial(a + b) == trailing_partial(trailing_partial(a) + b),
    decreases b.len(),
{
    let p = trailing_partial(a);
    if b.len() == 0 {
        lemma_partial_is_open(a);
        lemma_open_text_stays(p);
        assert(a + b =~= a);
        assert(p + b =~= p);
        assert(complete_frames(a) + complete_frames(p) =~= complete_frames(a));
    } else {
        lemma_split_anywhere(a, b.drop_last());
        assert((a + b).drop_last() =~= a + b.drop_last());
        assert((p + b).drop_last() =~= p + b.drop_last());
        assert((a + b).last() == b.last());
        assert((p + b).last() == b.last());
        if b.last() == NEWLINE {
            assert(complete_frames(a + b) =~= complete_frames(a) + complete_frames(p + b));
        }
    }
}


/// An empty chunk after the frames were handed out completes nothing and
/// leaves the pending bytes as they were, however often it comes.
pub proof fn lemma_empty_chunk_is_quiet(pending: Seq<u8>)
    requires
        has_no_newline(pending),
    ensures
        complete_frames(pending + Seq::<u8>::empty()) == Seq::<Seq<u8>>::empty(),
        trailing_partial(pending + Seq::<u8>::empty()) == pending,
{
    assert(pending + Seq::<u8>::empty() =~= pending);
    lemma_open_text_stays(pending);
}

/// Two frames that arrive in one chunk both come out, in the order they came.
pub proof fn lemma_two_frames_in_order(pending: Seq<u8>, first: Seq<u8>, second: Seq<u8>)
    requires
        has_no_newline(pending),
        has_no_newline(first),
        has_no_newline(second),
    ensures
        complete_frames(pending + (first.push(NEWLINE) + second.push(NEWLINE))) == seq![
            pending + first,
            second,
        ],
{
    let a = pending + first.push(NEWLINE);
    let whole = pending + (first.push(NEWLINE) + second.push(NEWLINE));
    assert(whole =~= a + second.push(NEWLINE));
    lemma_split_anywhere(a, second.push(NEWLINE));
    assert(a.drop_last() =~= pending + first);
    lemma_open_text_stays(pending + first);
    assert(complete_frames(a) =~= seq![pending + first]);
    assert(trailing_partial(a) == Seq::<u8>::empty());
    assert(Seq::<u8>::empty() + second.push(NEWLINE) =~= second.push(NEWLINE));
    assert(second.push(NEWLINE).drop_last() =~= second);
    lemma_open_text_stays(second);
    assert(complete_frames(second.push(NEWLINE)) =~= seq![second]);
    assert(seq![pending + first] + seq![second] =~= seq![pending + first, second]);
}

/// In a stream without newlines the pending bytes are everything received
/// since the last reset, so the cap is crossed exactly when their total length
/// passes it; after the reset a chunk no longer than the cap crosses nothing.
pub proof fn lemma_cap_crossed_once(pending: Seq<u8>, chunk: Seq<u8>, next: Seq<u8>, cap: nat)
    requires
        has_no_newline(pending + chunk),
        next.len() <= cap,
    ensures
        trailing_partial(pending + chunk) == pending + chunk,
        trailing_partial(Seq::<u8>::empty() + next).len() <= cap,
{
    lemma_open_text_stays(pending + chunk);
    lemma_partial_is_open(Seq::<u8>::empty() + next);
}

/// Unconsumed input between polls: at most one partial frame, never longer
/// than the cap it was made with.
pub struct FrameBuffer {
    pending: Vec<u8>,
    cap: usize,
}

/// What one chunk produced: the frames it completed, in arrival order, and
/// whether the partial frame outgrew the cap and was dropped.
pub struct Ingested {
    pub frames: Vec<Vec<u8>>,
    pub overflowed: bool,
}

impl View for FrameBuffer {
    type V = Seq<u8>;

    closed spec fn view(&self) -> Seq<u8> {
        self.pending@
    }
}

impl FrameBuffer {
    /// The longest partial frame this buffer keeps.
    pub closed spec fn cap_spec(&self) -> nat {
        self.cap as nat
    }

    pub open spec fn wf(&self) -> bool {
        has_no_newline(self@) && self@.len() <= self.cap_spec()
    }

    /// An empty buffer that keeps partial frames of up to `cap` bytes.
    pub fn new(cap: usize) -> (r: FrameBuffer)
        ensures
            r.wf(),
            r@ == Seq::<u8>::empty(),
            r.cap_spec() == cap,
    {
        FrameBuffer { pending: Vec::new(), cap }
    }

    pub fn cap(&self) -> (r: usize)
        ensures
            r == self.cap_spec(),
    {
        self.cap
    }

    /// The bytes held for the next chunk.
    pub fn pending(&self) -> (r: &[u8])
        ensures
            r@ == self@,
    {
        self.pending.as_slice()
    }

    /// Appends `chunk` to the pending bytes, hands out every frame that is now
    /// complete and keeps what follows the last newline. A partial frame longer
    /// than the cap is dropped whole, and the result says so.
    pub fn ingest(&mut self, chunk: &[u8]) -> (r: Ingested)
        requires
            old(self).wf(),
        ensures
            final(self).wf(),
            final(self).cap_spec() == old(self).cap_spec(),
            byte_seqs(r.frames@) == complete_frames(old(self)@ + chunk@),
            r.overflowed == (trailing_partial(old(self)@ + chunk@).len() > old(self).cap_spec()),
            r.overflowed ==> final(self)@ == Seq::<u8>::empty(),
            !r.overflowed ==> final(self)@ == trailing_partial(old(self)@ + chunk@),
    {
        let ghost p = self@;
        proof {
            lemma_open_text_stays(p);
            assert(p + chunk@.take(0) =~= p);
            assert(byte_seqs(Seq::<Vec<u8>>::empty()) =~= Seq::<Seq<u8>>::empty());
        }
        let mut cur: Vec<u8> = Vec::new();
        std::mem::swap(&mut cur, &mut self.pending);
        let mut frames: Vec<Vec<u8>> = Vec::new();
        let mut i: usize = 0;
        while i < chunk.len()
            invariant
                i <= chunk@.len(),
                self.cap == old(self).cap,
                byte_seqs(frames@) == complete_frames(p + chunk@.take(i as int)),
                cur@ == trailing_partial(p + chunk@.take(i as int)),
            decreases chunk@.len() - i,
        {
            let b = chunk[i];
            proof {
                assert((p + chunk@.take(i + 1)).drop_last() =~= p + chunk@.take(i as int));
                assert((p + chunk@.take(i + 1)).last() == b);
            }
            if b == NEWLINE {
                let mut done: Vec<u8> = Vec::new();
                std::mem::swap(&mut done, &mut cur);
                let ghost before = frames@;
                frames.push(done);
                proof {
                    assert(byte_seqs(frames@) =~= byte_seqs(before).push(done@));
                }
            } else {
                cur.push(b);
            }
            i = i + 1;
        }
        proof {
            assert(p + chunk@.take(chunk@.len() as int) =~= p + chunk@);
            lemma_partial_is_open(p + chunk@);
        }
        let overflowed = cur.len() > self.cap;
        if overflowed {
            cur.clear();
        }
        self.pending = cur;
        Ingested { frames, overflowed }
    }
}

} // verus!
