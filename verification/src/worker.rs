//! The ingestion worker's per-iteration logic.
//!
//! The worker owns the connection's read loop.  Each iteration the
//! surrounding loop first checks the cancellation signal, then makes one
//! bounded read attempt and hands the outcome — no data, a failed read,
//! or one raw line — to `step`, together with the current time.  `step`
//! decides everything else: it trims and classifies the line, suppresses
//! duplicates and bounced control events, drives the game state, and
//! says which events to emit, which audio commands to dispatch, and how
//! long to sleep.  Read errors are never fatal: they come back as
//! diagnostic events and a backoff, and the loop keeps retrying until it
//! is stopped.
//!
//! Events are emitted in line order; audio dispatch is fire-and-forget
//! and must never block the loop.

use vstd::prelude::*;
use vstd::slice::slice_to_vec;
use crate::SensorData;
use crate::audio::{AudioCommand, SoundEffect};
use crate::debounce::Debouncer;
use crate::frame::{bytes_eq, classify, classify_spec, trim, trimmed, ControlTag, Frame, FrameView};
use crate::game::{GameModel, GameStateEngine};

verus! {

/// How long to sleep when the bounded read returned no data, so the
/// loop yields instead of busy-spinning.
pub const IDLE_SLEEP_MS: u64 = 10;

/// How long to back off after a failed read before retrying.
pub const ERROR_BACKOFF_MS: u64 = 300;

/// What one bounded read attempt produced.
pub enum ReadEvent {
    /// The read timed out with nothing to deliver.
    NoData,
    /// The read failed; the text describes the failure.
    ReadError(String),
    /// One raw line, as read from the connection.
    Line(Vec<u8>),
}

/// One event for the external consumer, in the order the lines that
/// caused them were consumed.
#[derive(Debug, PartialEq, Eq)]
pub enum OutboundEvent {
    /// A debounced `buzzer` control event.
    Buzzer,
    /// A debounced `start` control event.
    StartButton,
    /// The readings of an accepted telemetry line.
    Telemetry(Vec<u16>),
    /// Diagnostic: a line that was neither control nor telemetry.
    ParseError(Vec<u8>),
    /// Diagnostic: a failed read (recoverable; the worker retries).
    ReadError(String),
}

/// Everything one iteration asks the surrounding loop to do: emit these
/// events in order, dispatch these audio commands without blocking, and
/// sleep this long before the next read.
pub struct StepOutput {
    pub events: Vec<OutboundEvent>,
    pub audio: Vec<AudioCommand>,
    pub sleep_ms: u64,
}

/// Per-worker private state.  It is created fresh for every connection
/// and discarded with it: debounce history and the duplicate-line check
/// do not survive a restart.
pub struct IngestionWorker {
    /// Per-tag debounce table for control events.
    pub debouncer: Debouncer,
    /// Whether a line byte-identical to the previous one is discarded
    /// before classification (an independently toggleable stage).
    pub dedup_enabled: bool,
    /// The previous trimmed line, for that duplicate check.
    pub last_line: Option<Vec<u8>>,
}

/// The iteration produced no events and no audio commands.
pub open spec fn no_output(out: StepOutput) -> bool {
    out.events@ == Seq::<OutboundEvent>::empty() && out.audio@ == Seq::<AudioCommand>::empty()
}

/// The iteration moved nothing: worker, game state and snapshot are as
/// they were.
pub open spec fn state_unchanged(
    w0: IngestionWorker,
    w1: IngestionWorker,
    g0: GameModel,
    g1: GameModel,
    snap0: Seq<u16>,
    snap1: Seq<u16>,
) -> bool {
    w1 == w0 && g1 == g0 && snap1 == snap0
}

/// What a control frame does: if the debouncer accepts the tag now, the
/// acceptance is recorded and the one matching event goes out — with a
/// buzzer sound during an active round — and otherwise the occurrence
/// is suppressed whole.
pub open spec fn control_post(
    w0: IngestionWorker,
    w1: IngestionWorker,
    round_active: bool,
    tag: ControlTag,
    now_ms: u64,
    out: StepOutput,
) -> bool {
    if w0.debouncer.spec_accepts(tag, now_ms) {
        &&& w1.debouncer == w0.debouncer.spec_record(tag, now_ms)
        &&& out.events@.len() == 1
        &&& match tag {
            ControlTag::Buzzer => {
                &&& out.events@[0] is Buzzer
                &&& if round_active {
                    out.audio@ == seq![AudioCommand::PlayEffect(SoundEffect::Buzzer)]
                } else {
                    out.audio@ == Seq::<AudioCommand>::empty()
                }
            },
            ControlTag::Start => {
                &&& out.events@[0] is StartButton
                &&& out.audio@ == Seq::<AudioCommand>::empty()
            },
        }
    } else {
        &&& w1.debouncer == w0.debouncer
        &&& no_output(out)
    }
}

/// What a telemetry frame does: the snapshot is overwritten wholesale,
/// the game state evaluates the readings, one laser-broken sound goes
/// out per newly tripped sensor, and the readings are emitted as a data
/// event regardless of round state.
pub open spec fn telemetry_post(
    w0: IngestionWorker,
    w1: IngestionWorker,
    g0: GameModel,
    g1: GameModel,
    snap1: Seq<u16>,
    vals: Seq<u16>,
    out: StepOutput,
) -> bool {
    &&& w1.debouncer == w0.debouncer
    &&& g1 == g0.eval_state(vals)
    &&& snap1 == vals
    &&& out.events@.len() == 1
    &&& (out.events@[0] matches OutboundEvent::Telemetry(v) && v@ == vals)
    &&& out.audio@.len() == g0.newly(vals).len()
    &&& forall|k: int|
        0 <= k < out.audio@.len() ==> out.audio@[k] == AudioCommand::PlayEffect(
            SoundEffect::LaserBroken,
        )
}

/// What one raw line does, by its classification.  An empty line is no
/// event; with the duplicate stage enabled, a repeat of the previous
/// trimmed line is discarded before classification; every other line is
/// recorded as the previous line and then dispatched on.
pub open spec fn line_post(
    w0: IngestionWorker,
    w1: IngestionWorker,
    g0: GameModel,
    g1: GameModel,
    snap0: Seq<u16>,
    snap1: Seq<u16>,
    l: Seq<u8>,
    now_ms: u64,
    out: StepOutput,
) -> bool {
    let t = trimmed(l);
    if t.len() == 0 {
        state_unchanged(w0, w1, g0, g1, snap0, snap1) && no_output(out)
    } else if w0.dedup_enabled && (w0.last_line matches Some(p) && p@ == t) {
        state_unchanged(w0, w1, g0, g1, snap0, snap1) && no_output(out)
    } else {
        &&& w1.dedup_enabled == w0.dedup_enabled
        &&& (w1.last_line matches Some(q) && q@ == t)
        &&& match classify_spec(t) {
            FrameView::Control(tag) => g1 == g0 && snap1 == snap0 && control_post(
                w0,
                w1,
                g0.round_active,
                tag,
                now_ms,
                out,
            ),
            FrameView::Telemetry(vals) => telemetry_post(w0, w1, g0, g1, snap1, vals, out),
            FrameView::Malformed(raw) => {
                &&& w1.debouncer == w0.debouncer
                &&& g1 == g0
                &&& snap1 == snap0
                &&& out.audio@ == Seq::<AudioCommand>::empty()
                &&& out.events@.len() == 1
                &&& (out.events@[0] matches OutboundEvent::ParseError(r) && r@ == raw)
            },
        }
    }
}

fn copy_readings(v: &Vec<u16>) -> (r: Vec<u16>)
    ensures
        r@ == v@,
{
    let mut r: Vec<u16> = Vec::new();
    let n = v.len();
    let mut i: usize = 0;
    while i < n
        invariant
            i <= n,
            n == v@.len(),
            r@ == v@.take(i as int),
        decreases n - i,
    {
        r.push(v[i]);
        proof {
            assert(r@ =~= v@.take(i + 1));
        }
        i = i + 1;
    }
    proof {
        assert(v@.take(n as int) =~= v@);
    }
    r
}

impl IngestionWorker {
    /// A fresh worker for one connection: empty debounce history, no
    /// previous line.
    pub fn new(debounce_window_ms: u64, dedup_enabled: bool) -> (w: IngestionWorker)
        ensures
            w.debouncer.window_ms == debounce_window_ms,
            forall|tag: ControlTag| w.debouncer.last_of(tag) is None,
            w.dedup_enabled == dedup_enabled,
            w.last_line is None,
    {
        IngestionWorker {
            debouncer: Debouncer::new(debounce_window_ms),
            dedup_enabled,
            last_line: None,
        }
    }

    /// One non-cancelled iteration of the worker loop, given the read
    /// outcome and the current time in milliseconds.
    pub fn step(
        &mut self,
        game: &mut GameStateEngine,
        snapshot: &mut SensorData,
        event: ReadEvent,
        now_ms: u64,
    ) -> (out: StepOutput)
        requires
            old(game)@.wf(),
        ensures
            final(game)@.wf(),
            event is NoData ==> out.sleep_ms == IDLE_SLEEP_MS && no_output(out) && state_unchanged(
                *old(self),
                *final(self),
                old(game)@,
                final(game)@,
                old(snapshot).values@,
                final(snapshot).values@,
            ),
            event matches ReadEvent::ReadError(msg) ==> out.sleep_ms == ERROR_BACKOFF_MS
                && state_unchanged(
                *old(self),
                *final(self),
                old(game)@,
                final(game)@,
                old(snapshot).values@,
                final(snapshot).values@,
            ) && out.audio@ == Seq::<AudioCommand>::empty() && out.events@.len() == 1 && (
            out.events@[0] matches OutboundEvent::ReadError(m) && m@ == msg@),
            event matches ReadEvent::Line(l) ==> out.sleep_ms == 0 && line_post(
                *old(self),
                *final(self),
                old(game)@,
                final(game)@,
                old(snapshot).values@,
                final(snapshot).values@,
                l@,
                now_ms,
                out,
            ),
    {
        match event {
            ReadEvent::NoData => StepOutput {
                events: Vec::new(),
                audio: Vec::new(),
                sleep_ms: IDLE_SLEEP_MS,
            },
            ReadEvent::ReadError(msg) => {
                let mut events: Vec<OutboundEvent> = Vec::new();
                events.push(OutboundEvent::ReadError(msg));
                StepOutput { events, audio: Vec::new(), sleep_ms: ERROR_BACKOFF_MS }
            },
            ReadEvent::Line(l) => {
                let mut events: Vec<OutboundEvent> = Vec::new();
                let mut audio: Vec<AudioCommand> = Vec::new();
                let t = trim(l.as_slice());
                if t.len() == 0 {
                    return StepOutput { events, audio, sleep_ms: 0 };
                }
                if self.dedup_enabled {
                    let dup = match &self.last_line {
                        Some(prev) => bytes_eq(prev.as_slice(), t),
                        None => false,
                    };
                    if dup {
                        return StepOutput { events, audio, sleep_ms: 0 };
                    }
                }
                self.last_line = Some(slice_to_vec(t));
                let frame = classify(t);
                match frame {
                    Frame::Control(ControlTag::Buzzer) => {
                        if self.debouncer.accept(ControlTag::Buzzer, now_ms) {
                            events.push(OutboundEvent::Buzzer);
                            if game.round_active {
                                audio.push(AudioCommand::PlayEffect(SoundEffect::Buzzer));
                            }
                        }
                    },
                    Frame::Control(ControlTag::Start) => {
                        if self.debouncer.accept(ControlTag::Start, now_ms) {
                            events.push(OutboundEvent::StartButton);
                        }
                    },
                    Frame::Telemetry(vals) => {
                        let newly = game.evaluate(&vals);
                        let n = newly.len();
                        let mut j: usize = 0;
                        while j < n
                            invariant
                                j <= n,
                                audio@.len() == j,
                                forall|k: int|
                                    0 <= k < j ==> audio@[k] == AudioCommand::PlayEffect(
                                        SoundEffect::LaserBroken,
                                    ),
                            decreases n - j,
                        {
                            audio.push(AudioCommand::PlayEffect(SoundEffect::LaserBroken));
                            j = j + 1;
                        }
                        let latest = copy_readings(&vals);
                        snapshot.update(latest);
                        events.push(OutboundEvent::Telemetry(vals));
                    },
                    Frame::Malformed(raw) => {
                        events.push(OutboundEvent::ParseError(raw));
                    },
                }
                StepOutput { events, audio, sleep_ms: 0 }
            },
        }
    }
}

} // verus!
