use rsonance::oscillator::Waveform;
use rsonance::settings::Settings;
use rsonance::surface::{
    affordance_glyph, affordance_tooltip, Affordance, ControlSurface, FrameInput, OscEdit,
};
use rsonance::transport::Transport;

fn idle_input() -> FrameInput {
    FrameInput { space_down: false, button_clicked: false }
}

fn no_edits(settings: &Settings) -> Vec<OscEdit> {
    let mut v = Vec::new();
    for _ in 0..settings.oscillators.len() {
        v.push(OscEdit::none());
    }
    v
}

#[test]
fn toggle_via_space() {
    // One Space key-down plays; a second key-down (after a release) pauses.
    let mut surface = ControlSurface::new();
    let mut settings = Settings::new();
    let mut transport = Transport::default();
    let edits = no_edits(&settings);

    let down = FrameInput { space_down: true, button_clicked: false };
    surface.frame(&mut settings, &mut transport, down, &edits);
    assert!(transport.is_playing());

    surface.frame(&mut settings, &mut transport, idle_input(), &edits);
    assert!(transport.is_playing());

    surface.frame(&mut settings, &mut transport, down, &edits);
    assert!(!transport.is_playing());
}

#[test]
fn held_space_toggles_exactly_once() {
    // A key-down followed by 60 held frames with no key-up: one toggle only.
    let mut surface = ControlSurface::new();
    let mut settings = Settings::new();
    let mut transport = Transport::default();
    let edits = no_edits(&settings);

    let down = FrameInput { space_down: true, button_clicked: false };
    surface.frame(&mut settings, &mut transport, down, &edits);
    assert!(transport.is_playing());
    for _ in 0..60 {
        surface.frame(&mut settings, &mut transport, down, &edits);
        assert!(transport.is_playing());
    }
}

#[test]
fn button_click_toggles() {
    let mut surface = ControlSurface::new();
    let mut settings = Settings::new();
    let mut transport = Transport::default();
    let edits = no_edits(&settings);

    let click = FrameInput { space_down: false, button_clicked: true };
    let shown = surface.frame(&mut settings, &mut transport, click, &edits);
    assert!(transport.is_playing());
    assert_eq!(shown, Affordance::Pause);
    let shown = surface.frame(&mut settings, &mut transport, click, &edits);
    assert!(!transport.is_playing());
    assert_eq!(shown, Affordance::Play);
}

#[test]
fn idle_frame_changes_nothing() {
    let mut surface = ControlSurface::new();
    let mut settings = Settings::new();
    let mut transport = Transport::default();
    transport.toggle();
    transport.advance(1_000);
    let edits = no_edits(&settings);

    let before_transport = transport;
    let before_oscillators = settings.oscillators.clone();
    let before_label = settings.label.clone();
    surface.frame(&mut settings, &mut transport, idle_input(), &edits);
    assert_eq!(transport, before_transport);
    assert_eq!(settings.oscillators, before_oscillators);
    assert_eq!(settings.label, before_label);
}

#[test]
fn frame_never_touches_the_cursor() {
    let mut surface = ControlSurface::new();
    let mut settings = Settings::new();
    let mut transport = Transport::default();
    transport.toggle();
    transport.advance(777);
    let edits = no_edits(&settings);

    let down = FrameInput { space_down: true, button_clicked: false };
    surface.frame(&mut settings, &mut transport, down, &edits);
    assert_eq!(transport.sample_cursor, 777);
}

#[test]
fn panel_edits_are_clamped() {
    let mut surface = ControlSurface::new();
    let mut settings = Settings::new();
    let mut transport = Transport::default();

    let mut edit = OscEdit::none();
    edit.frequency_millihz = Some(50_000_000);
    edit.amplitude_millionths = Some(3_000_000);
    edit.waveform = Some(Waveform::Square);
    edit.phase_millionths = Some(1_500_000);
    let edits = vec![edit];

    surface.frame(&mut settings, &mut transport, idle_input(), &edits);
    let o = settings.oscillators[0];
    assert_eq!(o.frequency_millihz, 20_000_000);
    assert_eq!(o.amplitude_millionths, 1_000_000);
    assert_eq!(o.waveform, Waveform::Square);
    assert_eq!(o.phase_millionths, 999_999);
    assert!(!transport.is_playing());
}

#[test]
fn affordance_reflects_play_state() {
    let mut surface = ControlSurface::new();
    let mut settings = Settings::new();
    let mut transport = Transport::default();
    let edits = no_edits(&settings);

    let shown = surface.frame(&mut settings, &mut transport, idle_input(), &edits);
    assert_eq!(shown, Affordance::Play);
    let down = FrameInput { space_down: true, button_clicked: false };
    let shown = surface.frame(&mut settings, &mut transport, down, &edits);
    assert_eq!(shown, Affordance::Pause);
}

#[test]
fn affordance_labels() {
    assert_eq!(affordance_glyph(Affordance::Play), "\u{25b6}");
    assert_eq!(affordance_tooltip(Affordance::Play), "Play (Space)");
    assert_eq!(affordance_glyph(Affordance::Pause), "\u{23f8}");
    assert_eq!(affordance_tooltip(Affordance::Pause), "Pause (Space)");
}
