//! Parameter state of a single oscillator.
//!
//! An oscillator is described purely by its parameters: waveform shape,
//! frequency, amplitude and phase offset. Frequencies are stored in
//! millihertz, amplitude in millionths of full scale and phase in millionths
//! of a cycle, so the allowed ranges are exact integer intervals. Every
//! setter clamps, so no sequence of edits can store an out-of-range value.

use vstd::prelude::*;

verus! {

/// Waveform shape of an oscillator.
#[derive(Clone, Copy, PartialEq, Eq, Structural, Debug)]
pub enum Waveform {
    Sine,
    Square,
    Saw,
    Triangle,
}

/// Lowest storable frequency: 20 Hz, in millihertz.
pub const FREQ_MIN_MILLIHZ: u32 = 20_000;

/// Highest storable frequency: 20 kHz, in millihertz.
pub const FREQ_MAX_MILLIHZ: u32 = 20_000_000;

/// Default frequency: 440 Hz, in millihertz.
pub const FREQ_DEFAULT_MILLIHZ: u32 = 440_000;

/// Full-scale amplitude, in millionths.
pub const AMP_MAX_MILLIONTHS: u32 = 1_000_000;

/// Default amplitude: half of full scale, in millionths.
pub const AMP_DEFAULT_MILLIONTHS: u32 = 500_000;

/// One full cycle of phase, in millionths. A stored phase offset is always
/// strictly below this.
pub const PHASE_CYCLE_MILLIONTHS: u32 = 1_000_000;

/// What a proposed frequency is clamped to before it is stored.
pub open spec fn clamp_frequency(millihz: u32) -> u32 {
    if millihz < FREQ_MIN_MILLIHZ {
        FREQ_MIN_MILLIHZ
    } else if millihz > FREQ_MAX_MILLIHZ {
        FREQ_MAX_MILLIHZ
    } else {
        millihz
    }
}

/// What a proposed amplitude is clamped to before it is stored.
pub open spec fn clamp_amplitude(millionths: u32) -> u32 {
    if millionths > AMP_MAX_MILLIONTHS {
        AMP_MAX_MILLIONTHS
    } else {
        millionths
    }
}

/// What a proposed phase offset is clamped to before it is stored: phase
/// lives in the half-open interval below one cycle.
pub open spec fn clamp_phase(millionths: u32) -> u32 {
    if millionths >= PHASE_CYCLE_MILLIONTHS {
        (PHASE_CYCLE_MILLIONTHS - 1) as u32
    } else {
        millionths
    }
}

/// Parameter state of one oscillator. Plain values only, safe to copy to an
/// audio thread as an immutable snapshot.
#[derive(Clone, Copy, PartialEq, Eq, Structural, Debug)]
pub struct Oscillator {
    pub waveform: Waveform,
    /// Frequency in millihertz; always within
    /// [`FREQ_MIN_MILLIHZ`, `FREQ_MAX_MILLIHZ`] once well formed.
    pub frequency_millihz: u32,
    /// Amplitude in millionths of full scale; at most [`AMP_MAX_MILLIONTHS`].
    pub amplitude_millionths: u32,
    /// Phase offset in millionths of a cycle; strictly below
    /// [`PHASE_CYCLE_MILLIONTHS`].
    pub phase_millionths: u32,
}

/// One parameter edit, as a widget or a decoded settings field proposes it.
#[derive(Clone, Copy, PartialEq, Eq, Structural, Debug)]
pub enum OscEditOp {
    SetFrequency(u32),
    SetAmplitude(u32),
    SetWaveform(Waveform),
    SetPhaseOffset(u32),
}

/// The oscillator that results from one clamping edit.
pub open spec fn apply_edit(o: Oscillator, e: OscEditOp) -> Oscillator {
    match e {
        OscEditOp::SetFrequency(x) => Oscillator { frequency_millihz: clamp_frequency(x), ..o },
        OscEditOp::SetAmplitude(x) => Oscillator { amplitude_millionths: clamp_amplitude(x), ..o },
        OscEditOp::SetWaveform(w) => Oscillator { waveform: w, ..o },
        OscEditOp::SetPhaseOffset(x) => Oscillator { phase_millionths: clamp_phase(x), ..o },
    }
}

/// The oscillator that results from a whole sequence of clamping edits,
/// applied first to last.
pub open spec fn apply_edit_seq(o: Oscillator, es: Seq<OscEditOp>) -> Oscillator
    decreases es.len(),
{
    if es.len() == 0 {
        o
    } else {
        apply_edit_seq(apply_edit(o, es[0]), es.skip(1))
    }
}

impl Oscillator {
    /// All parameters are within their stated ranges.
    pub open spec fn wf(self) -> bool {
        &&& FREQ_MIN_MILLIHZ <= self.frequency_millihz <= FREQ_MAX_MILLIHZ
        &&& self.amplitude_millionths <= AMP_MAX_MILLIONTHS
        &&& self.phase_millionths < PHASE_CYCLE_MILLIONTHS
    }

    /// The default oscillator: a 440 Hz sine at half amplitude, no phase
    /// offset.
    pub open spec fn default_spec() -> Oscillator {
        Oscillator {
            waveform: Waveform::Sine,
            frequency_millihz: FREQ_DEFAULT_MILLIHZ,
            amplitude_millionths: AMP_DEFAULT_MILLIONTHS,
            phase_millionths: 0,
        }
    }

    /// Clamp `millihz` into the audible range and store it; returns the
    /// effective (stored) value.
    pub fn set_frequency(&mut self, millihz: u32) -> (effective: u32)
        ensures
            *final(self) == apply_edit(*old(self), OscEditOp::SetFrequency(millihz)),
            final(self).frequency_millihz == clamp_frequency(millihz),
            effective == final(self).frequency_millihz,
            old(self).wf() ==> final(self).wf(),
    {
        let v: u32 = if millihz < FREQ_MIN_MILLIHZ {
            FREQ_MIN_MILLIHZ
        } else if millihz > FREQ_MAX_MILLIHZ {
            FREQ_MAX_MILLIHZ
        } else {
            millihz
        };
        self.frequency_millihz = v;
        v
    }

    /// Clamp `millionths` to full scale and store it; returns the effective
    /// (stored) value.
    pub fn set_amplitude(&mut self, millionths: u32) -> (effective: u32)
        ensures
            *final(self) == apply_edit(*old(self), OscEditOp::SetAmplitude(millionths)),
            final(self).amplitude_millionths == clamp_amplitude(millionths),
            effective == final(self).amplitude_millionths,
            old(self).wf() ==> final(self).wf(),
    {
        let v: u32 = if millionths > AMP_MAX_MILLIONTHS {
            AMP_MAX_MILLIONTHS
        } else {
            millionths
        };
        self.amplitude_millionths = v;
        v
    }

    /// Replace the waveform discriminant.
    pub fn set_waveform(&mut self, w: Waveform)
        ensures
            *final(self) == apply_edit(*old(self), OscEditOp::SetWaveform(w)),
            old(self).wf() ==> final(self).wf(),
    {
        self.waveform = w;
    }

    /// Clamp `millionths` below one full cycle and store it; returns the
    /// effective (stored) value.
    pub fn set_phase_offset(&mut self, millionths: u32) -> (effective: u32)
        ensures
            *final(self) == apply_edit(*old(self), OscEditOp::SetPhaseOffset(millionths)),
            final(self).phase_millionths == clamp_phase(millionths),
            effective == final(self).phase_millionths,
            old(self).wf() ==> final(self).wf(),
    {
        let v: u32 = if millionths >= PHASE_CYCLE_MILLIONTHS {
            PHASE_CYCLE_MILLIONTHS - 1
        } else {
            millionths
        };
        self.phase_millionths = v;
        v
    }

    /// An immutable, by-value copy safe to hand to an audio thread.
    pub fn snapshot(&self) -> (r: Oscillator)
        ensures
            r == *self,
    {
        *self
    }
}

impl Default for Oscillator {
    /// The default oscillator: a 440 Hz sine at half amplitude.
    fn default() -> (r: Oscillator)
        ensures
            r == Oscillator::default_spec(),
            r.wf(),
    {
        Oscillator {
            waveform: Waveform::Sine,
            frequency_millihz: FREQ_DEFAULT_MILLIHZ,
            amplitude_millionths: AMP_DEFAULT_MILLIONTHS,
            phase_millionths: 0,
        }
    }
}

proof fn lemma_edit_preserves_wf(o: Oscillator, e: OscEditOp)
    requires
        o.wf(),
    ensures
        apply_edit(o, e).wf(),
{
}

proof fn lemma_edit_seq_preserves_wf_aux(o: Oscillator, es: Seq<OscEditOp>)
    requires
        o.wf(),
    ensures
        apply_edit_seq(o, es).wf(),
    decreases es.len(),
{
    if es.len() > 0 {
        lemma_edit_preserves_wf(o, es[0]);
        lemma_edit_seq_preserves_wf_aux(apply_edit(o, es[0]), es.skip(1));
    }
}

/// Law: starting from any well-formed oscillator, every sequence of clamping
/// edits — set_frequency, set_amplitude, set_waveform, set_phase_offset, with
/// arbitrary inputs — keeps every parameter in range at every intermediate
/// state. In particular the stored frequency is always within
/// [`FREQ_MIN_MILLIHZ`, `FREQ_MAX_MILLIHZ`] and the stored amplitude within
/// [0, `AMP_MAX_MILLIONTHS`].
pub proof fn lemma_edit_seq_always_wf(o: Oscillator, es: Seq<OscEditOp>)
    requires
        o.wf(),
    ensures
        forall|i: int| 0 <= i <= es.len() ==> apply_edit_seq(o, #[trigger] es.take(i)).wf(),
{
    assert forall|i: int| 0 <= i <= es.len() implies apply_edit_seq(o, #[trigger] es.take(i)).wf() by {
        lemma_edit_seq_preserves_wf_aux(o, es.take(i));
    }
}

} // verus!
