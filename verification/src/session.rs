//! The command task's decisions, one input byte at a time, and the
//! manual override's decisions, one button edge at a time.
//!
//! The session owns the stream decoder and the persistent drive state.
//! Each raw byte yields a [`LoopEvent`] telling the surrounding task
//! what to do: signal watchdog activity for every well-formed command
//! (changed or not), and issue one `drive` with the full merged triple
//! exactly when a command changed some field.  The surrounding task
//! performs the actuator call under the shared lock and absorbs its
//! failure; nothing here ever blocks.

use vstd::prelude::*;
use crate::command::{merge_model, DriveModel, DriveState, MsgModel};
use crate::frame::{
    encode_frame, init_model, lemma_encode_frame, step_spec, wire_of, DecoderModel, FrameError,
    OutcomeModel, PushOutcome, StreamDecoder, FRAME_CAPACITY,
};
use crate::parse::{parse_message, parse_message_model};
use crate::units::{Angle, Power, Turn};

verus! {

/// The capability one concrete robot wiring offers: drive the full
/// commanded triple, or fall back to neutral.  The kinematic mixing
/// from the triple to the four wheels lives behind this boundary.
/// One instance is shared by the command task, the safety watchdog
/// and the manual override; the callers serialize access to it.
pub trait MecanumRobot {
    type Error;

    /// Actuate the full commanded triple.  Not atomic across motors:
    /// a failure may leave some motors updated.
    fn drive(&mut self, power: Power, heading: Angle, turn: Turn) -> Result<(), Self::Error>;

    /// All motors to zero duty and passive direction state.
    fn neutral(&mut self) -> Result<(), Self::Error>;
}

/// What one input byte asks the command task to do.
#[derive(Clone, Copy, Debug, PartialEq, Eq, Structural)]
pub enum LoopEvent {
    /// Byte absorbed; keep reading.
    Quiet,
    /// A frame was corrupt; it is discarded, the stream resynchronizes
    /// at the next delimiter, and reading continues.
    FrameCorrupt(FrameError),
    /// A frame decoded but its payload was not a well-formed command;
    /// the frame is discarded and reading continues.
    PayloadRejected,
    /// A well-formed command arrived but requested no change: signal
    /// watchdog activity, touch nothing else.
    CommandNoChange,
    /// A well-formed command changed the drive state: signal watchdog
    /// activity and drive the full merged triple.
    CommandDrive(Power, Angle, Turn),
}

impl LoopEvent {
    /// Whether the event counts as activity for the watchdog: every
    /// successfully decoded command does, whether or not it changed
    /// the drive state.  Nothing else does.
    pub open spec fn is_activity(&self) -> bool {
        self is CommandNoChange || self is CommandDrive
    }
}

/// Model of the session: the decoder's model and the drive state's.
pub struct SessionModel {
    pub dec: DecoderModel,
    pub drive: DriveModel,
}

/// Model of what one byte made the session report.
pub enum EventModel {
    /// Byte absorbed, nothing yet.
    Quiet,
    /// A corrupt frame was discarded.
    FrameCorrupt(FrameError),
    /// A frame's payload was not a well-formed command.
    PayloadRejected,
    /// A command arrived but requested no change.
    CommandNoChange,
    /// A command changed the state: drive this full merged triple.
    CommandDrive(DriveModel),
}

/// Whether a message requests any change.
pub open spec fn requests_change(m: MsgModel) -> bool {
    m.p is Some || m.th is Some || m.tu is Some
}

/// One byte's effect on the whole session: the decoder takes its step;
/// a closed frame is parsed; a well-formed command is merged, and is
/// reported with the full merged triple exactly when it changed some
/// field.
pub open spec fn session_step(m: SessionModel, b: u8) -> (SessionModel, EventModel) {
    let st = step_spec(m.dec, b);
    match st.1 {
        OutcomeModel::Pending => (
            SessionModel { dec: st.0, drive: m.drive },
            EventModel::Quiet,
        ),
        OutcomeModel::Corrupt(e) => (
            SessionModel { dec: st.0, drive: m.drive },
            EventModel::FrameCorrupt(e),
        ),
        OutcomeModel::Frame(p) => match parse_message_model(p) {
            None => (SessionModel { dec: st.0, drive: m.drive }, EventModel::PayloadRejected),
            Some(msg) => {
                let merged = merge_model(m.drive, msg);
                if requests_change(msg) {
                    (
                        SessionModel { dec: st.0, drive: merged },
                        EventModel::CommandDrive(merged),
                    )
                } else {
                    (SessionModel { dec: st.0, drive: merged }, EventModel::CommandNoChange)
                }
            },
        },
    }
}

impl LoopEvent {
    /// The event as its model.
    pub open spec fn model(&self) -> EventModel {
        match self {
            LoopEvent::Quiet => EventModel::Quiet,
            LoopEvent::FrameCorrupt(e) => EventModel::FrameCorrupt(*e),
            LoopEvent::PayloadRejected => EventModel::PayloadRejected,
            LoopEvent::CommandNoChange => EventModel::CommandNoChange,
            LoopEvent::CommandDrive(p, th, tu) => EventModel::CommandDrive(
                DriveModel {
                    power: p.spec_millis(),
                    heading: th.spec_millis(),
                    turn: tu.spec_millis(),
                },
            ),
        }
    }
}

/// The command task's whole state: framing and the drive state.
pub struct CommandSession {
    pub decoder: StreamDecoder,
    pub state: DriveState,
}

impl CommandSession {
    /// The session as its model.
    pub open spec fn model(&self) -> SessionModel {
        SessionModel { dec: self.decoder.model(), drive: self.state.model() }
    }

    /// Both parts are well formed.
    pub open spec fn wf(&self) -> bool {
        self.decoder.wf() && self.state.wf()
    }

    /// A fresh session: between frames, drive state neutral.
    pub fn new() -> (r: CommandSession)
        ensures
            r.wf(),
            r.decoder.model() == init_model(),
            r.state.model().power == 0,
            r.state.model().heading == 0,
            r.state.model().turn == 0,
    {
        CommandSession { decoder: StreamDecoder::new(), state: DriveState::neutral() }
    }

    /// Feed one raw byte from the serial link.
    ///
    /// The decoder takes the step [`step_spec`] prescribes; a closed
    /// frame is parsed with [`parse_message_model`]'s grammar; a
    /// well-formed command is merged field-wise into the drive state;
    /// and the returned event says exactly which of these happened.
    pub fn handle_byte(&mut self, b: u8) -> (r: LoopEvent)
        requires
            old(self).wf(),
        ensures
            final(self).wf(),
            final(self).model() == session_step(old(self).model(), b).0,
            r.model() == session_step(old(self).model(), b).1,
            final(self).decoder.model() == step_spec(old(self).decoder.model(), b).0,
            ({
                let out = step_spec(old(self).decoder.model(), b).1;
                let st0 = old(self).state;
                let st1 = final(self).state;
                match out {
                    OutcomeModel::Pending => r == LoopEvent::Quiet && st1 == st0,
                    OutcomeModel::Corrupt(e) => r == LoopEvent::FrameCorrupt(e) && st1 == st0,
                    OutcomeModel::Frame(payload) => match parse_message_model(payload) {
                        None => r == LoopEvent::PayloadRejected && st1 == st0,
                        Some(m) => {
                            &&& st1.model() == merge_model(st0.model(), m)
                            &&& (m.p is Some || m.th is Some || m.tu is Some) ==> r
                                == LoopEvent::CommandDrive(st1.power, st1.heading, st1.turn)
                            &&& !(m.p is Some || m.th is Some || m.tu is Some) ==> (r
                                == LoopEvent::CommandNoChange && st1 == st0)
                        },
                    },
                }
            }),
    {
        let outcome = self.decoder.push_byte(b);
        match outcome {
            PushOutcome::Pending => LoopEvent::Quiet,
            PushOutcome::Corrupt(e) => LoopEvent::FrameCorrupt(e),
            PushOutcome::Frame(payload) => {
                match parse_message(&payload) {
                    None => LoopEvent::PayloadRejected,
                    Some(msg) => {
                        let changed = self.state.merge(&msg);
                        if changed {
                            LoopEvent::CommandDrive(
                                self.state.power,
                                self.state.heading,
                                self.state.turn,
                            )
                        } else {
                            LoopEvent::CommandNoChange
                        }
                    },
                }
            },
        }
    }
}

/// Fold the session step over a byte string, collecting every
/// non-quiet report in order.
pub open spec fn session_run(m: SessionModel, bytes: Seq<u8>) -> (SessionModel, Seq<EventModel>)
    decreases bytes.len(),
{
    if bytes.len() == 0 {
        (m, Seq::empty())
    } else {
        let s = session_step(m, bytes[0]);
        let r = session_run(s.0, bytes.drop_first());
        if s.1 is Quiet {
            (r.0, r.1)
        } else {
            (r.0, seq![s.1] + r.1)
        }
    }
}

/// Running the session over concatenated input equals running over the
/// pieces in turn; reports concatenate likewise.
pub proof fn lemma_session_run_append(m: SessionModel, a: Seq<u8>, b: Seq<u8>)
    ensures
        session_run(m, a + b).0 == session_run(session_run(m, a).0, b).0,
        session_run(m, a + b).1 == session_run(m, a).1 + session_run(session_run(m, a).0, b).1,
    decreases a.len(),
{
    if a.len() == 0 {
        assert(a + b =~= b);
        assert(session_run(m, a).1 + session_run(session_run(m, a).0, b).1 =~= session_run(
            m,
            b,
        ).1);
    } else {
        let s = session_step(m, a[0]);
        assert((a + b)[0] == a[0]);
        assert((a + b).drop_first() =~= a.drop_first() + b);
        lemma_session_run_append(s.0, a.drop_first(), b);
        let x = session_run(s.0, a.drop_first()).1;
        let y = session_run(session_run(s.0, a.drop_first()).0, b).1;
        if !(s.1 is Quiet) {
            assert(seq![s.1] + (x + y) =~= (seq![s.1] + x) + y);
        }
    }
}

/// Running the session over a single byte is exactly one step.
pub proof fn lemma_session_run_one(m: SessionModel, b: u8)
    ensures
        session_run(m, seq![b]).0 == session_step(m, b).0,
        session_run(m, seq![b]).1 == (if session_step(m, b).1 is Quiet {
            Seq::<EventModel>::empty()
        } else {
            seq![session_step(m, b).1]
        }),
{
    let s = seq![b];
    assert(s[0] == b);
    assert(s.drop_first() =~= Seq::<u8>::empty());
    assert(session_run(session_step(m, b).0, s.drop_first()).0 == session_step(m, b).0);
    assert(session_run(session_step(m, b).0, s.drop_first()).1 =~= Seq::<EventModel>::empty());
    if !(session_step(m, b).1 is Quiet) {
        assert(seq![session_step(m, b).1] + Seq::<EventModel>::empty() =~= seq![
            session_step(m, b).1,
        ]);
    }
}

/// Feeding delimiter-free bytes that fit the scratch buffer gathers
/// them quietly: no report, drive state untouched.
proof fn lemma_session_feed_nonzero(m: SessionModel, s: Seq<u8>)
    requires
        !m.dec.failed,
        m.dec.pending.len() + s.len() <= FRAME_CAPACITY,
        forall|k: int| 0 <= k < s.len() ==> s[k] != 0,
    ensures
        session_run(m, s).0 == (SessionModel {
            dec: DecoderModel { pending: m.dec.pending + s, failed: false },
            drive: m.drive,
        }),
        session_run(m, s).1 == Seq::<EventModel>::empty(),
    decreases s.len(),
{
    if s.len() == 0 {
        assert(m.dec.pending + s =~= m.dec.pending);
    } else {
        let s0 = session_step(m, s[0]).0;
        assert(s0.dec.pending =~= m.dec.pending.push(s[0]));
        lemma_session_feed_nonzero(s0, s.drop_first());
        assert(m.dec.pending.push(s[0]) + s.drop_first() =~= m.dec.pending + s);
    }
}

/// One frame through the whole session: between frames, a stuffed
/// payload followed by its delimiter yields exactly one report — the
/// full merged triple if the command changed something, a bare
/// activity if not, a rejection if the payload was malformed — and the
/// drive state advances by exactly that command's merge.
pub proof fn lemma_session_one_frame(m0: SessionModel, p: Seq<u8>)
    requires
        m0.dec == init_model(),
        encode_frame(p).len() <= FRAME_CAPACITY,
    ensures
        ({
            let r = session_run(m0, encode_frame(p) + seq![0u8]);
            &&& r.0.dec == init_model()
            &&& match parse_message_model(p) {
                None => r.0.drive == m0.drive && r.1 == seq![EventModel::PayloadRejected],
                Some(msg) => {
                    let merged = merge_model(m0.drive, msg);
                    &&& r.0.drive == merged
                    &&& r.1 == seq![
                        if requests_change(msg) {
                            EventModel::CommandDrive(merged)
                        } else {
                            EventModel::CommandNoChange
                        },
                    ]
                },
            }
        }),
{
    lemma_encode_frame(p);
    let e = encode_frame(p);
    lemma_session_feed_nonzero(m0, e);
    assert(m0.dec.pending + e =~= e);
    lemma_session_run_append(m0, e, seq![0u8]);
    let mid = session_run(m0, e).0;
    assert(step_spec(mid.dec, 0).1 == OutcomeModel::Frame(p));
    lemma_session_run_one(mid, 0);
    match parse_message_model(p) {
        None => {
            assert(Seq::<EventModel>::empty() + seq![EventModel::PayloadRejected] =~= seq![
                EventModel::PayloadRejected,
            ]);
        },
        Some(msg) => {
            let merged = merge_model(m0.drive, msg);
            let ev = if requests_change(msg) {
                EventModel::CommandDrive(merged)
            } else {
                EventModel::CommandNoChange
            };
            assert(Seq::<EventModel>::empty() + seq![ev] =~= seq![ev]);
        },
    }
}

/// The drive state after merging a wire of frames, in arrival order;
/// frames whose payload is rejected leave it untouched.
pub open spec fn merge_all(d: DriveModel, ps: Seq<Seq<u8>>) -> DriveModel
    decreases ps.len(),
{
    if ps.len() == 0 {
        d
    } else {
        match parse_message_model(ps[0]) {
            Some(m) => merge_all(merge_model(d, m), ps.drop_first()),
            None => merge_all(d, ps.drop_first()),
        }
    }
}

/// The one report each frame of a wire is owed, in arrival order.
pub open spec fn expected_reports(d: DriveModel, ps: Seq<Seq<u8>>) -> Seq<EventModel>
    decreases ps.len(),
{
    if ps.len() == 0 {
        Seq::empty()
    } else {
        match parse_message_model(ps[0]) {
            Some(m) => {
                let merged = merge_model(d, m);
                seq![
                    if requests_change(m) {
                        EventModel::CommandDrive(merged)
                    } else {
                        EventModel::CommandNoChange
                    },
                ] + expected_reports(merged, ps.drop_first())
            },
            None => seq![EventModel::PayloadRejected] + expected_reports(d, ps.drop_first()),
        }
    }
}

/// Exactly one report per frame, in arrival order, across the whole
/// path: over a wire of stuffed frames the session reports one event
/// per frame — the full merged triple for every command that changed
/// the state, never just the delta — and ends between frames with the
/// drive state equal to the fold of all the merges.
pub proof fn lemma_session_stream(d0: DriveModel, ps: Seq<Seq<u8>>)
    requires
        forall|k: int| 0 <= k < ps.len() ==> #[trigger] encode_frame(ps[k]).len()
            <= FRAME_CAPACITY,
    ensures
        ({
            let r = session_run(SessionModel { dec: init_model(), drive: d0 }, wire_of(ps));
            &&& r.0.dec == init_model()
            &&& r.0.drive == merge_all(d0, ps)
            &&& r.1 == expected_reports(d0, ps)
        }),
    decreases ps.len(),
{
    let m0 = SessionModel { dec: init_model(), drive: d0 };
    if ps.len() == 0 {
        assert(session_run(m0, wire_of(ps)).1 =~= expected_reports(d0, ps));
    } else {
        let head = encode_frame(ps[0]) + seq![0u8];
        let tail = ps.drop_first();
        assert(wire_of(ps) =~= head + wire_of(tail));
        lemma_session_one_frame(m0, ps[0]);
        lemma_session_run_append(m0, head, wire_of(tail));
        assert(forall|k: int|
            0 <= k < tail.len() ==> #[trigger] encode_frame(tail[k]).len() <= FRAME_CAPACITY) by {
            assert(forall|k: int| 0 <= k < tail.len() ==> tail[k] == ps[k + 1]);
        }
        let d1 = match parse_message_model(ps[0]) {
            Some(m) => merge_model(d0, m),
            None => d0,
        };
        assert(session_run(m0, head).0 == SessionModel { dec: init_model(), drive: d1 });
        lemma_session_stream(d1, tail);
        assert(session_run(m0, wire_of(ps)).1 =~= expected_reports(d0, ps));
    }
}

/// Full forward power for the manual override, in thousandths.
pub const OVERRIDE_POWER_MILLIS: i64 = 1000;

/// The manual override's heading, in thousandths of a radian: a
/// quarter turn, the nearest thousandth to half pi.
pub const OVERRIDE_HEADING_MILLIS: i64 = 1571;

/// No turn for the manual override.
pub const OVERRIDE_TURN_MILLIS: i64 = 0;

/// A transition of the override button.
#[derive(Clone, Copy, Debug, PartialEq, Eq, Structural)]
pub enum ButtonEdge {
    /// The input reached its pressed level.
    Pressed,
    /// The input reached its released level.
    Released,
}

/// A request for the shared robot.
#[derive(Clone, Copy, Debug, PartialEq, Eq, Structural)]
pub enum RoverRequest {
    /// Drive this triple.
    Drive(Power, Angle, Turn),
    /// Fall back to neutral.
    Neutral,
}

/// The manual override's decision on a button edge: drive the fixed
/// forward preset while held, neutral on release.  The override never
/// signals watchdog activity — only decoded serial commands count.
pub fn override_action(edge: ButtonEdge) -> (r: RoverRequest)
    ensures
        edge is Pressed ==> (r matches RoverRequest::Drive(p, th, tu) && p.spec_millis()
            == OVERRIDE_POWER_MILLIS as int && th.spec_millis() == OVERRIDE_HEADING_MILLIS as int
            && tu.spec_millis() == OVERRIDE_TURN_MILLIS as int),
        edge is Released ==> r is Neutral,
{
    match edge {
        ButtonEdge::Pressed => RoverRequest::Drive(
            Power::new(OVERRIDE_POWER_MILLIS),
            Angle::new(OVERRIDE_HEADING_MILLIS),
            Turn::new(OVERRIDE_TURN_MILLIS),
        ),
        ButtonEdge::Released => RoverRequest::Neutral,
    }
}

} // verus!
