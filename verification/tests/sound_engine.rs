use controller_music::controller::{ButtonType, ContinuousType, ControlEvent, DiscreteType};
use controller_music::sound_engine::{SoundAction, SoundEngine};

fn play(instrument: usize, note: u8) -> SoundAction {
    SoundAction::Play { instrument, note }
}

fn release(instrument: usize, note: u8) -> SoundAction {
    SoundAction::Release { instrument, note }
}

fn button(b: ButtonType, down: bool) -> ControlEvent {
    ControlEvent::Button(b, down)
}

#[test]
fn sound_engine_init_state() {
    let e = SoundEngine::init();
    assert_eq!((e.instrument_count, e.main_instrument, e.lead_instrument), (2, 0, 1));
    assert_eq!(e.chord_engine.get_key_value(), 0);
    assert_eq!(e.chord_engine.get_octave(), 4);
    assert!(e.current_chord.is_empty());
    assert_eq!(e.lead_note, 0);
}

#[test]
fn chord_change_plays_and_releases() {
    let mut e = SoundEngine::init();
    let a = e.handle_event(button(ButtonType::RBumper, true), 0, -1, 0);
    assert_eq!(a, vec![play(0, 48), play(0, 52), play(0, 55)]);
    assert_eq!(e.current_chord, vec![48, 52, 55]);
    let a = e.handle_event(button(ButtonType::RBumper, true), 4, 7, 0);
    assert_eq!(
        a,
        vec![release(0, 48), release(0, 52), release(0, 55), play(0, 55), play(0, 59), play(0, 62), play(0, 65)]
    );
    let a = e.handle_event(button(ButtonType::RBumper, true), -1, 3, 0);
    assert_eq!(a, vec![release(0, 55), release(0, 59), release(0, 62), release(0, 65)]);
    assert!(e.current_chord.is_empty());
}

#[test]
fn lead_notes_from_the_chord() {
    let mut e = SoundEngine::init();
    e.handle_event(button(ButtonType::RBumper, true), 0, -1, 0);
    let a = e.handle_event(button(ButtonType::Touch, true), 0, -1, 1);
    assert_eq!(a, vec![release(1, 0), play(1, 52)]);
    assert_eq!(e.lead_note, 52);
    let a = e.handle_event(ControlEvent::Discrete(DiscreteType::TouchX, 4, 12), 0, -1, 4);
    assert_eq!(a, vec![release(1, 52), play(1, 64)]);
    let a = e.handle_event(button(ButtonType::Touch, false), 0, -1, 4);
    assert_eq!(a, vec![release(1, 64)]);
    assert_eq!(e.lead_note, 64);
}

#[test]
fn lead_notes_from_the_key() {
    let mut e = SoundEngine::init();
    let a = e.handle_event(button(ButtonType::Touch, true), -1, -1, 3);
    assert_eq!(a, vec![release(1, 0), play(1, 65)]);
    let a = e.handle_event(button(ButtonType::Touch, true), -1, -1, 7);
    assert_eq!(a, vec![release(1, 65), play(1, 72)]);
    e.handle_event(button(ButtonType::Share, true), -1, -1, 0);
    let a = e.handle_event(button(ButtonType::Touch, true), -1, -1, 2);
    // Key of C#: the third degree is F (pitch class 5).
    assert_eq!(a, vec![release(1, 72), play(1, 65)]);
}

#[test]
fn ps_button_moves_instruments() {
    let mut e = SoundEngine::init();
    let a = e.handle_event(button(ButtonType::PS, true), -1, -1, 0);
    assert_eq!(a, vec![SoundAction::ReleaseAll { instrument: 0 }, SoundAction::ReleaseAll { instrument: 1 }]);
    assert_eq!((e.main_instrument, e.lead_instrument), (1, 0));
    e.handle_event(button(ButtonType::PS, true), -1, -1, 0);
    assert_eq!((e.main_instrument, e.lead_instrument), (0, 1));
}

#[test]
fn key_controls_and_forwarding() {
    let mut e = SoundEngine::init();
    assert_eq!(e.handle_event(button(ButtonType::Share, true), -1, -1, 0), vec![]);
    assert_eq!(e.chord_engine.get_key_value(), 1);
    assert_eq!(e.handle_event(button(ButtonType::LStickBtn, true), -1, -1, 0), vec![]);
    assert_eq!((e.chord_engine.get_key_value(), e.chord_engine.get_octave()), (0, 3));
    assert_eq!(e.handle_event(button(ButtonType::Share, false), -1, -1, 0), vec![SoundAction::Forward]);
    assert_eq!(e.handle_event(ControlEvent::Continuous(ContinuousType::LeftTrigger), -1, -1, 0), vec![SoundAction::Forward]);
    assert_eq!(e.handle_event(button(ButtonType::Cross, true), -1, -1, 0), vec![SoundAction::Forward]);
    assert_eq!(e.handle_event(ControlEvent::Discrete(DiscreteType::Left, 3, 8), 3, -1, 0), vec![SoundAction::Forward]);
}

#[test]
fn event_fits_refuses_unplayable_chords() {
    let mut e = SoundEngine::init();
    let rb = button(ButtonType::RBumper, true);
    assert!(e.event_fits(rb, 0, -1, 0));
    assert!(e.event_fits(rb, -1, 9, 0));
    assert!(!e.event_fits(rb, 0, 8, 0));
    for _ in 0..4 {
        e.handle_event(button(ButtonType::Options, true), -1, -1, 0);
    }
    e.handle_event(button(ButtonType::RStickBtn, false), -1, -1, 0);
    assert_eq!((e.chord_engine.get_key_value(), e.chord_engine.get_octave()), (11, 8));
    assert!(!e.event_fits(rb, 7, 1, 0));
    assert!(e.event_fits(rb, 0, -1, 0));
    assert!(!e.event_fits(button(ButtonType::Touch, true), -1, -1, -1));
    assert!(e.event_fits(button(ButtonType::Touch, true), -1, -1, 7));
}
