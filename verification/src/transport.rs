//! Global play/pause transport and its monotonic sample clock.
//!
//! The transport tracks whether the application is playing, the sample rate
//! the audio device reported, and a sample cursor that only `advance` moves
//! forward and only `reset` clears. Pausing keeps the cursor, so playback
//! resumes where it stopped.

use vstd::prelude::*;

verus! {

/// Sample rate a transport starts with before any device handshake.
pub const DEFAULT_SAMPLE_RATE_HZ: u32 = 48_000;

/// Play/pause state plus the monotonic sample clock.
#[derive(Clone, Copy, PartialEq, Eq, Structural, Debug)]
pub struct Transport {
    /// Whether the transport is running. Never persisted: a loaded
    /// application always starts paused.
    pub playing: bool,
    /// Sample rate of the audio device, in hertz; always positive.
    pub sample_rate_hz: u32,
    /// Monotonic frame counter; advanced by the audio backend while playing,
    /// unchanged while paused, cleared only by `reset`.
    pub sample_cursor: u64,
}

/// Ghost model of a transport as the clock operations see it: the play flag
/// and an unbounded cursor.
pub struct TransportModel {
    pub playing: bool,
    pub cursor: nat,
}

/// One operation on the transport clock.
pub enum TransportOp {
    Toggle,
    Advance(nat),
}

/// The model that results from one clock operation: toggling flips the play
/// flag and keeps the cursor; advancing adds to the cursor while playing and
/// does nothing while paused.
pub open spec fn apply_op(m: TransportModel, op: TransportOp) -> TransportModel {
    match op {
        TransportOp::Toggle => TransportModel { playing: !m.playing, ..m },
        TransportOp::Advance(frames) => if m.playing {
            TransportModel { cursor: m.cursor + frames, ..m }
        } else {
            m
        },
    }
}

/// The model that results from a whole sequence of clock operations, applied
/// first to last.
pub open spec fn apply_ops(m: TransportModel, ops: Seq<TransportOp>) -> TransportModel
    decreases ops.len(),
{
    if ops.len() == 0 {
        m
    } else {
        apply_ops(apply_op(m, ops[0]), ops.skip(1))
    }
}

impl Transport {
    /// The sample rate is positive.
    pub open spec fn wf(self) -> bool {
        self.sample_rate_hz >= 1
    }

    /// The transport a fresh application starts with: paused, cursor at
    /// zero, default sample rate.
    pub open spec fn default_spec() -> Transport {
        Transport { playing: false, sample_rate_hz: DEFAULT_SAMPLE_RATE_HZ, sample_cursor: 0 }
    }

    /// This transport as the clock model sees it.
    pub open spec fn model(self) -> TransportModel {
        TransportModel { playing: self.playing, cursor: self.sample_cursor as nat }
    }

    /// Flip the play flag. The cursor and the sample rate are untouched, so
    /// pausing and resuming never lose the playback position.
    pub fn toggle(&mut self)
        ensures
            final(self).model() == apply_op(old(self).model(), TransportOp::Toggle),
            final(self).playing == !old(self).playing,
            final(self).sample_cursor == old(self).sample_cursor,
            final(self).sample_rate_hz == old(self).sample_rate_hz,
            old(self).wf() ==> final(self).wf(),
    {
        self.playing = !self.playing;
    }

    /// Whether the transport is running.
    pub fn is_playing(&self) -> (r: bool)
        ensures
            r == self.playing,
    {
        self.playing
    }

    /// Move the sample cursor forward by `frames` if playing; do nothing if
    /// paused. Called by the audio backend once per rendered block.
    pub fn advance(&mut self, frames: u64)
        requires
            old(self).playing ==> old(self).sample_cursor + frames <= u64::MAX,
        ensures
            final(self).model() == apply_op(old(self).model(), TransportOp::Advance(frames as nat)),
            final(self).sample_cursor == if old(self).playing {
                old(self).sample_cursor + frames
            } else {
                old(self).sample_cursor as int
            },
            final(self).sample_cursor >= old(self).sample_cursor,
            final(self).playing == old(self).playing,
            final(self).sample_rate_hz == old(self).sample_rate_hz,
            old(self).wf() ==> final(self).wf(),
    {
        if self.playing {
            self.sample_cursor = self.sample_cursor + frames;
        }
    }

    /// Stop: clear the cursor and pause. The only operation that may move
    /// the cursor backwards.
    pub fn reset(&mut self)
        ensures
            final(self).playing == false,
            final(self).sample_cursor == 0,
            final(self).sample_rate_hz == old(self).sample_rate_hz,
            old(self).wf() ==> final(self).wf(),
    {
        self.playing = false;
        self.sample_cursor = 0;
    }

    /// Record the sample rate the audio device reported when it opened.
    pub fn set_sample_rate(&mut self, hz: u32)
        requires
            hz >= 1,
        ensures
            final(self).sample_rate_hz == hz,
            final(self).playing == old(self).playing,
            final(self).sample_cursor == old(self).sample_cursor,
            final(self).wf(),
    {
        self.sample_rate_hz = hz;
    }
}

impl Default for Transport {
    /// A fresh transport: paused, cursor at zero, default sample rate.
    fn default() -> (r: Transport)
        ensures
            r == Transport::default_spec(),
            r.wf(),
    {
        Transport { playing: false, sample_rate_hz: DEFAULT_SAMPLE_RATE_HZ, sample_cursor: 0 }
    }
}

proof fn lemma_op_cursor_nondecreasing(m: TransportModel, op: TransportOp)
    ensures
        apply_op(m, op).cursor >= m.cursor,
{
}

/// Law: under any interleaving of `toggle` and `advance` — any sequence of
/// clock operations — the sample cursor never decreases.
pub proof fn lemma_cursor_nondecreasing(m: TransportModel, ops: Seq<TransportOp>)
    ensures
        apply_ops(m, ops).cursor >= m.cursor,
    decreases ops.len(),
{
    if ops.len() > 0 {
        lemma_op_cursor_nondecreasing(m, ops[0]);
        lemma_cursor_nondecreasing(apply_op(m, ops[0]), ops.skip(1));
    }
}

} // verus!
