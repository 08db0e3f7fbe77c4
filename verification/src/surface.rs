//! The per-frame control surface.
//!
//! An immediate-mode host calls `frame` once per displayed frame with the
//! input it sampled and the edits its widgets propose. The surface detects
//! the toggle chord (button click, or spacebar on its key-down edge only),
//! flips the transport at most once per frame, applies every proposed
//! parameter edit through the clamping setters, and reports which transport
//! affordance to draw. A frame with no input changes nothing.

use vstd::pervasive::VecAdditionalExecFns;
use vstd::prelude::*;

use crate::oscillator::{apply_edit, OscEditOp, Oscillator, Waveform};
use crate::settings::Settings;
use crate::transport::Transport;

verus! {

/// Input the host sampled for one frame.
#[derive(Clone, Copy, PartialEq, Eq, Structural, Debug)]
pub struct FrameInput {
    /// The spacebar is held down during this frame.
    pub space_down: bool,
    /// The transport button saw a click-release inside its bounds this
    /// frame.
    pub button_clicked: bool,
}

/// Edits one oscillator panel's widgets propose for this frame. A `None`
/// field was not touched.
#[derive(Clone, Copy, Debug)]
pub struct OscEdit {
    pub waveform: Option<Waveform>,
    pub frequency_millihz: Option<u32>,
    pub amplitude_millionths: Option<u32>,
    pub phase_millionths: Option<u32>,
}

impl OscEdit {
    /// No widget of the panel was touched.
    pub open spec fn is_empty_spec(self) -> bool {
        &&& self.waveform is None
        &&& self.frequency_millihz is None
        &&& self.amplitude_millionths is None
        &&& self.phase_millionths is None
    }

    /// The edit of an untouched panel.
    pub fn none() -> (r: OscEdit)
        ensures
            r.is_empty_spec(),
    {
        OscEdit { waveform: None, frequency_millihz: None, amplitude_millionths: None, phase_millionths: None }
    }
}

/// The oscillator after one panel's proposed edits, each applied through the
/// clamping rules, in a fixed order: waveform, frequency, amplitude, phase.
pub open spec fn apply_panel_edit(o: Oscillator, e: OscEdit) -> Oscillator {
    let o1 = match e.waveform {
        Some(w) => apply_edit(o, OscEditOp::SetWaveform(w)),
        None => o,
    };
    let o2 = match e.frequency_millihz {
        Some(x) => apply_edit(o1, OscEditOp::SetFrequency(x)),
        None => o1,
    };
    let o3 = match e.amplitude_millionths {
        Some(x) => apply_edit(o2, OscEditOp::SetAmplitude(x)),
        None => o2,
    };
    match e.phase_millionths {
        Some(x) => apply_edit(o3, OscEditOp::SetPhaseOffset(x)),
        None => o3,
    }
}

/// The oscillator list after one frame's edits: panel `i` edits oscillator
/// `i`; an oscillator without a panel entry is untouched.
pub open spec fn apply_panel_edits(oscs: Seq<Oscillator>, edits: Seq<OscEdit>) -> Seq<Oscillator> {
    oscs.map(
        |i: int, o: Oscillator|
            if i < edits.len() {
                apply_panel_edit(o, edits[i])
            } else {
                o
            },
    )
}

/// Whether this frame's input asks for a transport toggle: a button click,
/// or a spacebar that is down now and was up on the previous frame. A held
/// key never retriggers.
pub open spec fn toggle_requested(prev_space_down: bool, input: FrameInput) -> bool {
    input.button_clicked || (input.space_down && !prev_space_down)
}

/// The transport affordance a frame should draw for a given play state:
/// paused shows Play, playing shows Pause.
pub open spec fn affordance_for(playing: bool) -> Affordance {
    if playing {
        Affordance::Pause
    } else {
        Affordance::Play
    }
}

/// Which transport affordance to draw.
#[derive(Clone, Copy, PartialEq, Eq, Structural, Debug)]
pub enum Affordance {
    Play,
    Pause,
}

/// The glyph drawn on the transport button.
pub fn affordance_glyph(a: Affordance) -> (r: &'static str)
    ensures
        a == Affordance::Play ==> r@ == "▶"@,
        a == Affordance::Pause ==> r@ == "⏸"@,
{
    match a {
        Affordance::Play => "▶",
        Affordance::Pause => "⏸",
    }
}

/// The tooltip shown over the transport button.
pub fn affordance_tooltip(a: Affordance) -> (r: &'static str)
    ensures
        a == Affordance::Play ==> r@ == "Play (Space)"@,
        a == Affordance::Pause ==> r@ == "Pause (Space)"@,
{
    match a {
        Affordance::Play => "Play (Space)",
        Affordance::Pause => "Pause (Space)",
    }
}

/// Frame-to-frame state of the control surface: only the previous frame's
/// spacebar level, for edge detection.
#[derive(Clone, Copy, PartialEq, Eq, Structural, Debug)]
pub struct ControlSurface {
    pub prev_space_down: bool,
}

impl ControlSurface {
    /// A fresh surface; the spacebar is taken to have been up.
    pub fn new() -> (r: ControlSurface)
        ensures
            r.prev_space_down == false,
    {
        ControlSurface { prev_space_down: false }
    }

    /// Run one display frame: poll input, toggle the transport on a detected
    /// edge (at most once), apply every proposed panel edit through the
    /// clamping setters, and report the affordance that reflects the new
    /// play state. The sample cursor is never touched, and a frame with no
    /// input leaves model and transport unchanged.
    pub fn frame(
        &mut self,
        settings: &mut Settings,
        transport: &mut Transport,
        input: FrameInput,
        edits: &Vec<OscEdit>,
    ) -> (shown: Affordance)
        ensures
            final(self).prev_space_down == input.space_down,
            final(transport).playing == if toggle_requested(old(self).prev_space_down, input) {
                !old(transport).playing
            } else {
                old(transport).playing
            },
            final(transport).sample_cursor == old(transport).sample_cursor,
            final(transport).sample_rate_hz == old(transport).sample_rate_hz,
            final(settings).oscillators@ == apply_panel_edits(old(settings).oscillators@, edits@),
            final(settings).label@ == old(settings).label@,
            old(settings).wf() ==> final(settings).wf(),
            old(transport).wf() ==> final(transport).wf(),
            shown == affordance_for(final(transport).playing),
            (!input.space_down && !input.button_clicked && (forall|i: int|
                0 <= i < edits@.len() ==> (#[trigger] edits@[i]).is_empty_spec())) ==> {
                &&& *final(transport) == *old(transport)
                &&& final(settings).oscillators@ == old(settings).oscillators@
            },
    {
        let toggled: bool = input.button_clicked || (input.space_down && !self.prev_space_down);
        self.prev_space_down = input.space_down;
        if toggled {
            transport.toggle();
        }

        let n: usize = if edits.len() < settings.oscillators.len() {
            edits.len()
        } else {
            settings.oscillators.len()
        };
        let mut i: usize = 0;
        while i < n
            invariant
                i <= n,
                n <= edits@.len(),
                n <= settings.oscillators@.len(),
                edits@.len() < settings.oscillators@.len() ==> n == edits@.len(),
                edits@.len() >= settings.oscillators@.len() ==> n == settings.oscillators@.len(),
                settings.oscillators@.len() == old(settings).oscillators@.len(),
                forall|j: int|
                    0 <= j < i ==> settings.oscillators@[j] == apply_panel_edit(
                        old(settings).oscillators@[j],
                        edits@[j],
                    ),
                forall|j: int|
                    i <= j < settings.oscillators@.len() ==> settings.oscillators@[j] == old(
                        settings,
                    ).oscillators@[j],
                settings.label@ == old(settings).label@,
            decreases n - i,
        {
            let e: OscEdit = edits[i];
            let mut o: Oscillator = settings.oscillators[i];
            match e.waveform {
                Some(w) => {
                    o.set_waveform(w);
                },
                None => {},
            }
            match e.frequency_millihz {
                Some(x) => {
                    o.set_frequency(x);
                },
                None => {},
            }
            match e.amplitude_millionths {
                Some(x) => {
                    o.set_amplitude(x);
                },
                None => {},
            }
            match e.phase_millionths {
                Some(x) => {
                    o.set_phase_offset(x);
                },
                None => {},
            }
            assert(o == apply_panel_edit(old(settings).oscillators@[i as int], edits@[i as int]));
            settings.oscillators.set(i, o);
            i += 1;
        }

        proof {
            assert(settings.oscillators@ =~= apply_panel_edits(old(settings).oscillators@, edits@));
            if old(settings).wf() {
                assert forall|j: int|
                    0 <= j < settings.oscillators@.len() implies (#[trigger] settings.oscillators@[j]).wf() by {
                    if j < n {
                        lemma_panel_edit_preserves_wf(old(settings).oscillators@[j], edits@[j]);
                    }
                }
            }
            if !input.space_down && !input.button_clicked && (forall|k: int|
                0 <= k < edits@.len() ==> (#[trigger] edits@[k]).is_empty_spec()) {
                assert(settings.oscillators@ =~= old(settings).oscillators@);
            }
        }

        if transport.is_playing() {
            Affordance::Pause
        } else {
            Affordance::Play
        }
    }
}

proof fn lemma_panel_edit_preserves_wf(o: Oscillator, e: OscEdit)
    requires
        o.wf(),
    ensures
        apply_panel_edit(o, e).wf(),
{
}

/// Law: a frame whose input is idle — spacebar up, no click, every panel
/// edit empty — requests no toggle and maps the oscillator list to itself.
pub proof fn lemma_idle_frame_is_identity(
    prev_space_down: bool,
    input: FrameInput,
    oscs: Seq<Oscillator>,
    edits: Seq<OscEdit>,
)
    requires
        !input.space_down,
        !input.button_clicked,
        forall|i: int| 0 <= i < edits.len() ==> (#[trigger] edits[i]).is_empty_spec(),
    ensures
        !toggle_requested(prev_space_down, input),
        apply_panel_edits(oscs, edits) == oscs,
{
    assert(apply_panel_edits(oscs, edits) =~= oscs);
}

} // verus!
