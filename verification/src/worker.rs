//! The streaming worker's decision machine.
//!
//! One session pulls compressed frames from a network stream, decodes
//! them, processes them and hands them to the output sink. The blocking
//! work — the request, the decode, the sleeps, the sink — happens in the
//! host around this module; every decision between those steps is made
//! here: how an HTTP status is judged, how each decoder outcome is
//! handled, when backpressure pauses the producer, and how cancellation
//! ends the session.

use vstd::prelude::*;

verus! {

/// Queued-buffer count above which the producer pauses until the sink
/// drains (checking cancellation while it waits).
pub const SINK_QUEUE_LIMIT: usize = 24;

/// Milliseconds slept before retrying a transient decoder outcome.
pub const RETRY_PAUSE_MILLIS: u64 = 8;

/// One decoder outcome, as the session model sees it.
#[derive(Clone, Debug, PartialEq, Eq, Structural)]
pub enum DecodeEvent {
    /// A frame decoded: its rate, channel count and sample count.
    Frame { sample_rate: u32, channels: u16, sample_count: u32 },
    /// The stream ended cleanly.
    Eof,
    /// Not enough buffered bytes for a whole frame yet.
    InsufficientData,
    /// A malformed or unsupported frame.
    CorruptFrame,
}

/// What the session does next in response to one event.
#[derive(Clone, Copy, Debug, PartialEq, Eq, Structural)]
pub enum WorkerAction {
    /// Configure the chain, process the frame, enqueue it.
    ProcessFrame,
    /// Sleep briefly and try the next decode; the stream goes on.
    PauseAndRetry,
    /// Stop decoding: drain the sink and end the session.
    FinishStream,
}

/// A non-success HTTP status or a failed request ends a session before
/// it starts; nothing here retries.
pub fn is_success_status(status: u16) -> (r: bool)
    ensures
        r == (200 <= status < 300),
{
    200 <= status && status < 300
}

/// Whether the producer must wait for the sink to drain.
pub fn should_apply_backpressure(queued: usize) -> (r: bool)
    ensures
        r == (queued > SINK_QUEUE_LIMIT),
{
    queued > SINK_QUEUE_LIMIT
}

/// The per-session accounting the decision machine keeps.
pub struct WorkerState {
    /// Frames decoded, processed and enqueued so far.
    pub frames_played: u64,
    /// Whether the session has reached its end (end-of-stream or
    /// cancellation).
    pub finished: bool,
}

/// What `step` decides for one event: cancellation (checked before every
/// decode) finishes the session; a frame is processed; end-of-stream
/// finishes; both transient outcomes — too little data and a corrupt
/// frame — are retried, never fatal.
pub open spec fn spec_step_action(cancelled: bool, event: DecodeEvent) -> WorkerAction {
    if cancelled {
        WorkerAction::FinishStream
    } else {
        match event {
            DecodeEvent::Frame { .. } => WorkerAction::ProcessFrame,
            DecodeEvent::Eof => WorkerAction::FinishStream,
            DecodeEvent::InsufficientData => WorkerAction::PauseAndRetry,
            DecodeEvent::CorruptFrame => WorkerAction::PauseAndRetry,
        }
    }
}

impl WorkerState {
    /// A session that has not decoded anything yet.
    pub fn new() -> (s: WorkerState)
        ensures
            s.frames_played == 0,
            !s.finished,
    {
        WorkerState { frames_played: 0, finished: false }
    }

    /// Decides the next action for one event and keeps the accounts: the
    /// frame counter moves exactly on processed frames, and `finished`
    /// becomes set exactly on cancellation or end-of-stream.
    pub fn step(&mut self, cancelled: bool, event: &DecodeEvent) -> (a: WorkerAction)
        requires
            !old(self).finished,
            old(self).frames_played < u64::MAX,
        ensures
            a == spec_step_action(cancelled, *event),
            final(self).finished == (a == WorkerAction::FinishStream),
            a == WorkerAction::ProcessFrame ==> final(self).frames_played == old(
                self,
            ).frames_played + 1,
            a != WorkerAction::ProcessFrame ==> final(self).frames_played == old(
                self,
            ).frames_played,
    {
        if cancelled {
            self.finished = true;
            return WorkerAction::FinishStream;
        }
        match event {
            DecodeEvent::Frame { .. } => {
                self.frames_played = self.frames_played + 1;
                WorkerAction::ProcessFrame
            },
            DecodeEvent::Eof => {
                self.finished = true;
                WorkerAction::FinishStream
            },
            DecodeEvent::InsufficientData => WorkerAction::PauseAndRetry,
            DecodeEvent::CorruptFrame => WorkerAction::PauseAndRetry,
        }
    }
}

/// How many frames a session plays from an event sequence: every frame
/// before the first end-of-stream counts, transient outcomes do not.
pub open spec fn spec_frames_played(events: Seq<DecodeEvent>) -> nat
    decreases events.len(),
{
    if events.len() == 0 {
        0
    } else {
        match events[0] {
            DecodeEvent::Frame { .. } => 1 + spec_frames_played(events.skip(1)),
            DecodeEvent::Eof => 0,
            _ => spec_frames_played(events.skip(1)),
        }
    }
}

/// Whether a session over these events reaches end-of-stream.
pub open spec fn spec_reaches_eof(events: Seq<DecodeEvent>) -> bool
    decreases events.len(),
{
    if events.len() == 0 {
        false
    } else {
        events[0] == DecodeEvent::Eof || spec_reaches_eof(events.skip(1))
    }
}

/// A session never plays more frames than it sees events.
pub proof fn lemma_frames_played_bounded(events: Seq<DecodeEvent>)
    ensures
        spec_frames_played(events) <= events.len(),
    decreases events.len(),
{
    if events.len() > 0 {
        lemma_frames_played_bounded(events.skip(1));
    }
}

/// Runs the decision machine over a whole uncancelled event sequence and
/// returns the frames played and whether end-of-stream was reached.
///
/// Decoder errors on some frames do not end the session: the count of
/// played frames is exactly the count of good frames before
/// end-of-stream, however many corrupt ones sit between them.
pub fn run_session(events: &Vec<DecodeEvent>) -> (r: (u64, bool))
    ensures
        r.0 == spec_frames_played(events@),
        r.1 == spec_reaches_eof(events@),
{
    proof {
        lemma_frames_played_bounded(events@);
        assert(events@.skip(0) =~= events@);
    }
    let mut state = WorkerState::new();
    let mut i: usize = 0;
    let mut completed: bool = false;
    while i < events.len() && !state.finished
        invariant
            i <= events@.len(),
            !state.finished ==> spec_frames_played(events@) == state.frames_played
                + spec_frames_played(events@.skip(i as int)),
            !state.finished ==> spec_reaches_eof(events@) == spec_reaches_eof(
                events@.skip(i as int),
            ),
            !state.finished ==> !completed,
            state.finished ==> state.frames_played == spec_frames_played(events@),
            state.finished ==> completed == spec_reaches_eof(events@),
            state.frames_played <= i,
        decreases events@.len() - i,
    {
        proof {
            assert(events@.skip(i as int)[0] == events@[i as int]);
            assert(events@.skip(i as int).skip(1) =~= events@.skip(i as int + 1));
            lemma_frames_played_bounded(events@.skip(i as int + 1));
        }
        let event = &events[i];
        let action = state.step(false, event);
        if action == WorkerAction::FinishStream {
            completed = true;
        }
        i = i + 1;
    }
    proof {
        if !state.finished {
            assert(i == events@.len());
            assert(events@.skip(i as int) =~= Seq::<DecodeEvent>::empty());
        }
    }
    (state.frames_played, completed)
}

/// The control surface's session accounting: at most one live worker,
/// superseded (never joined on the caller's thread) by each start, and a
/// preset cell written atomically and read by the worker each frame.
pub struct PlaybackModel {
    /// Whether a worker session is live.
    pub session_active: bool,
    /// How many sessions have ever been started; each start supersedes
    /// the previous session, so only the newest is observable.
    pub sessions_started: u64,
    /// The encoded preset in the shared cell.
    pub preset_code: u8,
}

impl PlaybackModel {
    /// A manager with no session and the identity preset published.
    pub fn new() -> (m: PlaybackModel)
        ensures
            !m.session_active,
            m.sessions_started == 0,
            m.preset_code == crate::preset::spec_preset_code(crate::preset::AudioFxPreset::Clean),
    {
        PlaybackModel { session_active: false, sessions_started: 0, preset_code: 0 }
    }

    /// Starting a stream first retires any live session, then brings up
    /// a new one: afterwards exactly the new session is live, whatever
    /// was running before.
    pub fn start_stream(&mut self)
        requires
            old(self).sessions_started < u64::MAX,
        ensures
            final(self).session_active,
            final(self).sessions_started == old(self).sessions_started + 1,
            final(self).preset_code == old(self).preset_code,
    {
        self.stop_stream();
        self.session_active = true;
        self.sessions_started = self.sessions_started + 1;
    }

    /// Stopping is idempotent: with or without a live session, none is
    /// live afterwards, and nothing else moves.
    pub fn stop_stream(&mut self)
        ensures
            !final(self).session_active,
            final(self).sessions_started == old(self).sessions_started,
            final(self).preset_code == old(self).preset_code,
    {
        self.session_active = false;
    }

    /// Publishing a preset touches only the shared cell: no session is
    /// started, stopped or blocked by it.
    pub fn set_preset(&mut self, preset: crate::preset::AudioFxPreset)
        ensures
            final(self).preset_code == crate::preset::spec_preset_code(preset),
            final(self).session_active == old(self).session_active,
            final(self).sessions_started == old(self).sessions_started,
    {
        self.preset_code = preset.as_u8();
    }
}

} // verus!
