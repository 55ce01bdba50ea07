//! Byte-stuffed framing of the serial command stream.
//!
//! Frames are separated by a single reserved delimiter byte, zero.
//! Inside a frame the payload's zeroes are elided by byte stuffing: the
//! frame is a chain of blocks, each a header byte `c >= 1` followed by
//! `c - 1` payload bytes; a block with `c < 255` that is not the last
//! block of the frame stands for its data bytes followed by one zero.
//!
//! [`decode_blocks`] is the mathematical meaning of one frame's raw
//! bytes, [`encode_frame`] the canonical stuffing of a payload, and
//! [`StreamDecoder`] the executable byte-at-a-time decoder whose every
//! step is pinned to the model transition [`step_spec`].

use vstd::prelude::*;

verus! {

/// Capacity of the scratch buffer holding one frame's raw bytes.
/// Input beyond it is a framing error, never a stall.
pub const FRAME_CAPACITY: usize = 128;

/// Why a frame was rejected.
#[derive(Clone, Copy, Debug, PartialEq, Eq, Structural)]
pub enum FrameError {
    /// The stuffing was malformed: a block promised more bytes than the
    /// frame held.
    Malformed,
    /// The frame outgrew the scratch buffer.
    Overflow,
}

/// The payload encoded by one frame's raw bytes (the bytes between two
/// delimiters), or `None` when the stuffing is malformed.
pub open spec fn decode_blocks(raw: Seq<u8>) -> Option<Seq<u8>>
    decreases raw.len(),
{
    if raw.len() == 0 {
        Some(Seq::empty())
    } else {
        let c = raw[0] as int;
        if c == 0 {
            None
        } else if raw.len() < c {
            None
        } else {
            let data = raw.subrange(1, c);
            let rest = raw.subrange(c, raw.len() as int);
            match decode_blocks(rest) {
                None => None,
                Some(tail) => if rest.len() == 0 {
                    Some(data)
                } else if c < 255 {
                    Some(data + seq![0u8] + tail)
                } else {
                    Some(data + tail)
                },
            }
        }
    }
}

/// Decode one complete frame's raw bytes into its payload.
pub fn decode_frame(raw: &Vec<u8>) -> (r: Result<Vec<u8>, FrameError>)
    ensures
        match r {
            Ok(p) => decode_blocks(raw@) == Some(p@),
            Err(e) => decode_blocks(raw@) is None && e == FrameError::Malformed,
        },
{
    let n = raw.len();
    let mut out: Vec<u8> = Vec::new();
    let mut i: usize = 0;
    proof {
        assert(raw@.subrange(0, n as int) =~= raw@);
        if decode_blocks(raw@) is Some {
            assert(Seq::<u8>::empty() + decode_blocks(raw@).unwrap() =~= decode_blocks(
                raw@,
            ).unwrap());
        }
    }
    while i < n
        invariant
            0 <= i <= n,
            n == raw@.len(),
            decode_blocks(raw@) == (match decode_blocks(raw@.subrange(i as int, n as int)) {
                Some(tail) => Some(out@ + tail),
                None => None::<Seq<u8>>,
            }),
        decreases n - i,
    {
        let ghost suffix = raw@.subrange(i as int, n as int);
        let c = raw[i];
        if c == 0 {
            return Err(FrameError::Malformed);
        }
        let c_len: usize = c as usize;
        if c_len > n - i {
            assert(suffix.len() < c as int);
            return Err(FrameError::Malformed);
        }
        let ghost out_before = out@;
        let mut j: usize = i + 1;
        while j < i + c_len
            invariant
                i + 1 <= j <= i + c_len,
                i + c_len <= n,
                n == raw@.len(),
                out@ == out_before + raw@.subrange(i as int + 1, j as int),
            decreases i + c_len - j,
        {
            out.push(raw[j]);
            j += 1;
        }
        assert(out@ == out_before + raw@.subrange(i as int + 1, i as int + c as int));
        let next = i + c_len;
        proof {
            assert(suffix[0] == raw@[i as int]);
            assert(suffix.subrange(1, c as int) =~= raw@.subrange(
                i as int + 1,
                i as int + c as int,
            ));
            assert(suffix.subrange(c as int, suffix.len() as int) =~= raw@.subrange(
                next as int,
                n as int,
            ));
        }
        if next < n && c < 255 {
            out.push(0);
            proof {
                let tail_suffix = raw@.subrange(next as int, n as int);
                if decode_blocks(tail_suffix) is Some {
                    let tail = decode_blocks(tail_suffix).unwrap();
                    assert(out@ + tail =~= out_before + (suffix.subrange(1, c as int) + seq![0u8]
                        + tail));
                }
            }
        } else {
            proof {
                let tail_suffix = raw@.subrange(next as int, n as int);
                if decode_blocks(tail_suffix) is Some {
                    let tail = decode_blocks(tail_suffix).unwrap();
                    if tail_suffix.len() == 0 {
                        assert(tail =~= Seq::<u8>::empty());
                        assert(out@ + tail =~= out_before + suffix.subrange(1, c as int));
                    } else {
                        assert(out@ + tail =~= out_before + (suffix.subrange(1, c as int) + tail));
                    }
                }
            }
        }
        i = next;
    }
    proof {
        assert(raw@.subrange(n as int, n as int) =~= Seq::<u8>::empty());
        assert(out@ + Seq::<u8>::empty() =~= out@);
    }
    Ok(out)
}

/// Model state of the streaming decoder: the raw bytes gathered since
/// the last delimiter, and whether the current frame already failed.
pub struct DecoderModel {
    pub pending: Seq<u8>,
    pub failed: bool,
}

/// The state a decoder starts in, and returns to at every delimiter.
pub open spec fn init_model() -> DecoderModel {
    DecoderModel { pending: Seq::empty(), failed: false }
}

/// Model of one streaming step's outcome.
pub enum OutcomeModel {
    /// Byte absorbed; nothing to report yet.
    Pending,
    /// A delimiter closed a well-formed frame with this payload.
    Frame(Seq<u8>),
    /// The current frame is corrupt; it will be discarded and the
    /// stream resynchronizes at the next delimiter.
    Corrupt(FrameError),
}

/// One byte's effect on the streaming decoder.
///
/// A delimiter always resets the state — the stream resynchronizes at
/// every frame boundary no matter what preceded it.  A delimiter after
/// a failed or empty frame reports nothing (the failure was reported
/// when it happened); otherwise it reports the decoded frame or its
/// malformed stuffing.  A non-delimiter byte is gathered, overflowing
/// the scratch capacity at most once per frame.
pub open spec fn step_spec(m: DecoderModel, b: u8) -> (DecoderModel, OutcomeModel) {
    if b == 0 {
        if m.failed || m.pending.len() == 0 {
            (init_model(), OutcomeModel::Pending)
        } else {
            match decode_blocks(m.pending) {
                Some(p) => (init_model(), OutcomeModel::Frame(p)),
                None => (init_model(), OutcomeModel::Corrupt(FrameError::Malformed)),
            }
        }
    } else {
        if m.failed {
            (m, OutcomeModel::Pending)
        } else if m.pending.len() >= FRAME_CAPACITY {
            (DecoderModel { pending: Seq::empty(), failed: true }, OutcomeModel::Corrupt(
                FrameError::Overflow,
            ))
        } else {
            (DecoderModel { pending: m.pending.push(b), failed: false }, OutcomeModel::Pending)
        }
    }
}

/// Index of the first zero at or after `i` in `s`, or `s.len()` if the
/// rest of `s` holds none.
pub open spec fn zero_scan(s: Seq<u8>, i: int) -> int
    recommends
        0 <= i <= s.len(),
    decreases s.len() - i,
        when 0 <= i <= s.len()
{
    if i < s.len() {
        if s[i] == 0 {
            i
        } else {
            zero_scan(s, i + 1)
        }
    } else {
        i
    }
}

/// `zero_scan` finds the least zero index: everything before it is
/// non-zero, and it lands on a zero unless none remains.
pub proof fn lemma_zero_scan(s: Seq<u8>, i: int)
    requires
        0 <= i <= s.len(),
    ensures
        i <= zero_scan(s, i) <= s.len(),
        zero_scan(s, i) < s.len() ==> s[zero_scan(s, i)] == 0,
        forall|j: int| i <= j < zero_scan(s, i) ==> s[j] != 0,
    decreases s.len() - i,
{
    if i < s.len() && s[i] != 0 {
        lemma_zero_scan(s, i + 1);
    }
}

/// The canonical stuffing of a payload: blocks of at most 254 bytes,
/// each header counting the bytes to the next elided zero or chain end.
pub open spec fn encode_frame(p: Seq<u8>) -> Seq<u8>
    decreases p.len(),
        via encode_frame_decreases
{
    let z = zero_scan(p, 0);
    if z < p.len() && z < 254 {
        seq![(z + 1) as u8] + p.subrange(0, z) + encode_frame(p.subrange(z + 1, p.len() as int))
    } else if p.len() <= 254 {
        seq![(p.len() + 1) as u8] + p
    } else {
        seq![255u8] + p.subrange(0, 254) + encode_frame(p.subrange(254, p.len() as int))
    }
}

#[via_fn]
proof fn encode_frame_decreases(p: Seq<u8>) {
    lemma_zero_scan(p, 0);
}

/// Round trip: stuffing is lossless.  The encoding of any payload is a
/// non-empty, delimiter-free byte string that decodes back to exactly
/// that payload.
pub proof fn lemma_encode_frame(p: Seq<u8>)
    ensures
        decode_blocks(encode_frame(p)) == Some(p),
        forall|k: int| 0 <= k < encode_frame(p).len() ==> encode_frame(p)[k] != 0,
        encode_frame(p).len() >= 1,
    decreases p.len(),
{
    lemma_zero_scan(p, 0);
    let z = zero_scan(p, 0);
    let e = encode_frame(p);
    if z < p.len() && z < 254 {
        let rest = p.subrange(z + 1, p.len() as int);
        lemma_encode_frame(rest);
        let er = encode_frame(rest);
        assert(e =~= seq![(z + 1) as u8] + p.subrange(0, z) + er);
        let c = e[0] as int;
        assert(c == z + 1);
        assert(e.len() == 1 + z + er.len());
        assert(e.subrange(1, c) =~= p.subrange(0, z));
        assert(e.subrange(c, e.len() as int) =~= er);
        assert(decode_blocks(e) == Some(p.subrange(0, z) + seq![0u8] + rest));
        assert(p.subrange(0, z) + seq![0u8] + rest =~= p);
    } else if p.len() <= 254 {
        assert(e =~= seq![(p.len() + 1) as u8] + p);
        let c = e[0] as int;
        assert(c == p.len() + 1);
        assert(e.subrange(1, c) =~= p);
        assert(e.subrange(c, e.len() as int) =~= Seq::<u8>::empty());
        assert(decode_blocks(e.subrange(c, e.len() as int)) == Some(Seq::<u8>::empty()));
        assert(decode_blocks(e) == Some(p));
    } else {
        let rest = p.subrange(254, p.len() as int);
        lemma_encode_frame(rest);
        let er = encode_frame(rest);
        assert(e =~= seq![255u8] + p.subrange(0, 254) + er);
        let c = e[0] as int;
        assert(c == 255);
        assert(e.len() == 255 + er.len());
        assert(e.subrange(1, c) =~= p.subrange(0, 254));
        assert(e.subrange(c, e.len() as int) =~= er);
        assert(decode_blocks(e) == Some(p.subrange(0, 254) + rest));
        assert(p.subrange(0, 254) + rest =~= p);
    }
}

/// Fold the streaming step over a byte string, collecting every
/// reported frame or corruption in order.
pub open spec fn run_model(m: DecoderModel, bytes: Seq<u8>) -> (DecoderModel, Seq<OutcomeModel>)
    decreases bytes.len(),
{
    if bytes.len() == 0 {
        (m, Seq::empty())
    } else {
        let s = step_spec(m, bytes[0]);
        let r = run_model(s.0, bytes.drop_first());
        if s.1 is Pending {
            (r.0, r.1)
        } else {
            (r.0, seq![s.1] + r.1)
        }
    }
}

/// Running over concatenated input equals running over the pieces in
/// turn; reported events concatenate likewise.  No bytes are lost or
/// duplicated across chunk boundaries, however the input is split.
pub proof fn lemma_run_append(m: DecoderModel, a: Seq<u8>, b: Seq<u8>)
    ensures
        run_model(m, a + b).0 == run_model(run_model(m, a).0, b).0,
        run_model(m, a + b).1 == run_model(m, a).1 + run_model(run_model(m, a).0, b).1,
    decreases a.len(),
{
    if a.len() == 0 {
        assert(a + b =~= b);
        assert(run_model(m, a).1 + run_model(run_model(m, a).0, b).1 =~= run_model(m, b).1);
    } else {
        let s = step_spec(m, a[0]);
        assert((a + b)[0] == a[0]);
        assert((a + b).drop_first() =~= a.drop_first() + b);
        lemma_run_append(s.0, a.drop_first(), b);
        let x = run_model(s.0, a.drop_first()).1;
        let y = run_model(run_model(s.0, a.drop_first()).0, b).1;
        if !(s.1 is Pending) {
            assert(seq![s.1] + (x + y) =~= (seq![s.1] + x) + y);
        }
    }
}

/// Feeding delimiter-free bytes that fit the scratch buffer only
/// gathers them: nothing is reported and nothing is dropped.
pub proof fn lemma_feed_nonzero(m: DecoderModel, s: Seq<u8>)
    requires
        !m.failed,
        m.pending.len() + s.len() <= FRAME_CAPACITY,
        forall|k: int| 0 <= k < s.len() ==> s[k] != 0,
    ensures
        run_model(m, s).0 == (DecoderModel { pending: m.pending + s, failed: false }),
        run_model(m, s).1 == Seq::<OutcomeModel>::empty(),
    decreases s.len(),
{
    if s.len() == 0 {
        assert(m.pending + s =~= m.pending);
    } else {
        let m2 = step_spec(m, s[0]).0;
        assert(m2.pending =~= m.pending.push(s[0]));
        lemma_feed_nonzero(m2, s.drop_first());
        assert(m.pending.push(s[0]) + s.drop_first() =~= m.pending + s);
    }
}

/// Running over a single byte is exactly one step.
pub proof fn lemma_run_one(m: DecoderModel, b: u8)
    ensures
        run_model(m, seq![b]).0 == step_spec(m, b).0,
        run_model(m, seq![b]).1 == (if step_spec(m, b).1 is Pending {
            Seq::<OutcomeModel>::empty()
        } else {
            seq![step_spec(m, b).1]
        }),
{
    let s = seq![b];
    assert(s[0] == b);
    assert(s.drop_first() =~= Seq::<u8>::empty());
    assert(run_model(step_spec(m, b).0, s.drop_first()).0 == step_spec(m, b).0);
    assert(run_model(step_spec(m, b).0, s.drop_first()).1 =~= Seq::<OutcomeModel>::empty());
    if !(step_spec(m, b).1 is Pending) {
        assert(seq![step_spec(m, b).1] + Seq::<OutcomeModel>::empty() =~= seq![
            step_spec(m, b).1,
        ]);
    }
}

/// One encoded frame followed by its delimiter is reported as exactly
/// that one payload, and the decoder is back in its initial state.
pub proof fn lemma_one_frame(p: Seq<u8>)
    requires
        encode_frame(p).len() <= FRAME_CAPACITY,
    ensures
        run_model(init_model(), encode_frame(p) + seq![0u8]).0 == init_model(),
        run_model(init_model(), encode_frame(p) + seq![0u8]).1 == seq![OutcomeModel::Frame(p)],
{
    lemma_encode_frame(p);
    let e = encode_frame(p);
    lemma_feed_nonzero(init_model(), e);
    assert(init_model().pending + e =~= e);
    lemma_run_append(init_model(), e, seq![0u8]);
    let mid = DecoderModel { pending: e, failed: false };
    assert(step_spec(mid, 0).1 == OutcomeModel::Frame(p));
    lemma_run_one(mid, 0);
    assert(Seq::<OutcomeModel>::empty() + seq![OutcomeModel::Frame(p)] =~= seq![
        OutcomeModel::Frame(p),
    ]);
}

/// The wire image of a sequence of payloads: each frame stuffed and
/// closed by a delimiter, in order.
pub open spec fn wire_of(ps: Seq<Seq<u8>>) -> Seq<u8>
    decreases ps.len(),
{
    if ps.len() == 0 {
        Seq::empty()
    } else {
        encode_frame(ps[0]) + seq![0u8] + wire_of(ps.drop_first())
    }
}

/// A stream of only valid frames is reported as exactly one payload
/// per frame, in arrival order — no byte lost, none duplicated — and
/// the decoder ends where it started.
pub proof fn lemma_stream_decodes_every_frame(ps: Seq<Seq<u8>>)
    requires
        forall|k: int| 0 <= k < ps.len() ==> #[trigger] encode_frame(ps[k]).len()
            <= FRAME_CAPACITY,
    ensures
        run_model(init_model(), wire_of(ps)).0 == init_model(),
        run_model(init_model(), wire_of(ps)).1 == ps.map_values(
            |p: Seq<u8>| OutcomeModel::Frame(p),
        ),
    decreases ps.len(),
{
    if ps.len() == 0 {
        assert(run_model(init_model(), wire_of(ps)).1 =~= ps.map_values(
            |p: Seq<u8>| OutcomeModel::Frame(p),
        ));
    } else {
        let head = encode_frame(ps[0]) + seq![0u8];
        let tail = ps.drop_first();
        assert(wire_of(ps) =~= head + wire_of(tail));
        lemma_one_frame(ps[0]);
        lemma_run_append(init_model(), head, wire_of(tail));
        assert(forall|k: int|
            0 <= k < tail.len() ==> #[trigger] encode_frame(tail[k]).len() <= FRAME_CAPACITY) by {
            assert(forall|k: int| 0 <= k < tail.len() ==> tail[k] == ps[k + 1]);
        }
        lemma_stream_decodes_every_frame(tail);
        assert(run_model(init_model(), wire_of(ps)).1 =~= ps.map_values(
            |p: Seq<u8>| OutcomeModel::Frame(p),
        ));
    }
}

/// A delimiter always returns the decoder to its initial state,
/// whatever preceded it.
pub proof fn lemma_delimiter_resets(m: DecoderModel)
    ensures
        step_spec(m, 0).0 == init_model(),
{
}

/// Resynchronization: whatever corrupt bytes came before, once their
/// closing delimiter has passed, the next well-formed frame still
/// decodes intact and is the last event reported.
pub proof fn lemma_resync_after_corruption(junk: Seq<u8>, p: Seq<u8>)
    requires
        encode_frame(p).len() <= FRAME_CAPACITY,
    ensures
        ({
            let r = run_model(init_model(), junk + seq![0u8] + (encode_frame(p) + seq![0u8]));
            &&& r.0 == init_model()
            &&& r.1.len() >= 1
            &&& r.1.last() == OutcomeModel::Frame(p)
        }),
{
    let pre = junk + seq![0u8];
    lemma_run_append(init_model(), junk, seq![0u8]);
    let after_junk = run_model(init_model(), junk).0;
    lemma_run_one(after_junk, 0);
    assert(run_model(init_model(), pre).0 == init_model());
    lemma_run_append(init_model(), pre, encode_frame(p) + seq![0u8]);
    lemma_one_frame(p);
    let r = run_model(init_model(), pre + (encode_frame(p) + seq![0u8]));
    assert(r.1 == run_model(init_model(), pre).1 + seq![OutcomeModel::Frame(p)]);
    assert(r.1.last() == OutcomeModel::Frame(p));
}

/// What one streaming step reports to the caller.
#[derive(Debug)]
pub enum PushOutcome {
    /// Byte absorbed; nothing to report yet.
    Pending,
    /// A delimiter closed a well-formed frame with this payload.
    Frame(Vec<u8>),
    /// The current frame is corrupt and is being discarded.
    Corrupt(FrameError),
}

impl PushOutcome {
    /// The outcome as its model.
    pub open spec fn model(&self) -> OutcomeModel {
        match self {
            PushOutcome::Pending => OutcomeModel::Pending,
            PushOutcome::Frame(v) => OutcomeModel::Frame(v@),
            PushOutcome::Corrupt(e) => OutcomeModel::Corrupt(*e),
        }
    }
}

/// Byte-at-a-time frame decoder over the raw serial stream.
pub struct StreamDecoder {
    raw: Vec<u8>,
    failed: bool,
}

impl StreamDecoder {
    /// The decoder's model state.
    pub closed spec fn model(&self) -> DecoderModel {
        DecoderModel { pending: self.raw@, failed: self.failed }
    }

    /// The gathered bytes respect the capacity, hold no delimiter, and
    /// are dropped as soon as the frame fails.
    pub closed spec fn wf(&self) -> bool {
        &&& self.raw@.len() <= FRAME_CAPACITY
        &&& (forall|k: int| 0 <= k < self.raw@.len() ==> self.raw@[k] != 0)
        &&& (self.failed ==> self.raw@.len() == 0)
    }

    /// A fresh decoder, between frames.
    pub fn new() -> (r: StreamDecoder)
        ensures
            r.wf(),
            r.model() == init_model(),
    {
        StreamDecoder { raw: Vec::new(), failed: false }
    }

    /// Feed one byte of the raw stream; the step follows [`step_spec`].
    pub fn push_byte(&mut self, b: u8) -> (r: PushOutcome)
        requires
            old(self).wf(),
        ensures
            final(self).wf(),
            final(self).model() == step_spec(old(self).model(), b).0,
            r.model() == step_spec(old(self).model(), b).1,
    {
        if b == 0 {
            if self.failed || self.raw.len() == 0 {
                self.raw.clear();
                self.failed = false;
                assert(self.raw@ =~= init_model().pending);
                PushOutcome::Pending
            } else {
                let decoded = decode_frame(&self.raw);
                self.raw.clear();
                self.failed = false;
                assert(self.raw@ =~= init_model().pending);
                match decoded {
                    Ok(p) => PushOutcome::Frame(p),
                    Err(e) => PushOutcome::Corrupt(e),
                }
            }
        } else {
            if self.failed {
                PushOutcome::Pending
            } else if self.raw.len() >= FRAME_CAPACITY {
                self.raw.clear();
                self.failed = true;
                assert(self.raw@ =~= Seq::<u8>::empty());
                PushOutcome::Corrupt(FrameError::Overflow)
            } else {
                self.raw.push(b);
                PushOutcome::Pending
            }
        }
    }

    /// Feed one chunk of the raw stream from `start`, stopping right
    /// after the first reported frame or corruption.
    ///
    /// Byte accounting: exactly the bytes up to the returned index are
    /// consumed, each through one [`step_spec`] step; a `Pending`
    /// return means the whole chunk was consumed with nothing to
    /// report.  The caller resumes at the returned index, so no byte
    /// is lost or fed twice, however the stream is chunked.
    pub fn push_chunk(&mut self, chunk: &Vec<u8>, start: usize) -> (r: (usize, PushOutcome))
        requires
            old(self).wf(),
            start <= chunk@.len(),
        ensures
            final(self).wf(),
            start <= r.0 <= chunk@.len(),
            final(self).model() == run_model(
                old(self).model(),
                chunk@.subrange(start as int, r.0 as int),
            ).0,
            r.1 is Pending ==> run_model(
                old(self).model(),
                chunk@.subrange(start as int, r.0 as int),
            ).1 == Seq::<OutcomeModel>::empty() && r.0 == chunk@.len(),
            !(r.1 is Pending) ==> run_model(
                old(self).model(),
                chunk@.subrange(start as int, r.0 as int),
            ).1 == seq![r.1.model()],
    {
        let ghost m0 = self.model();
        let n = chunk.len();
        let mut i = start;
        proof {
            assert(chunk@.subrange(start as int, start as int) =~= Seq::<u8>::empty());
        }
        while i < n
            invariant
                start <= i <= n,
                n == chunk@.len(),
                m0 == old(self).model(),
                self.wf(),
                run_model(m0, chunk@.subrange(start as int, i as int)) == (
                    self.model(),
                    Seq::<OutcomeModel>::empty(),
                ),
            decreases n - i,
        {
            let ghost fed = chunk@.subrange(start as int, i as int);
            let ghost mid = self.model();
            let b = chunk[i];
            let out = self.push_byte(b);
            i += 1;
            proof {
                lemma_run_append(m0, fed, seq![b]);
                lemma_run_one(mid, b);
                assert(chunk@.subrange(start as int, i as int) =~= fed + seq![b]);
                if step_spec(mid, b).1 is Pending {
                    assert(Seq::<OutcomeModel>::empty() + Seq::<OutcomeModel>::empty()
                        =~= Seq::<OutcomeModel>::empty());
                } else {
                    assert(Seq::<OutcomeModel>::empty() + seq![step_spec(mid, b).1] =~= seq![
                        step_spec(mid, b).1,
                    ]);
                }
            }
            match out {
                PushOutcome::Pending => (),
                other => {
                    return (i, other);
                },
            }
        }
        (i, PushOutcome::Pending)
    }
}

} // verus!
