use controller_music::controller::{ButtonType, ControlEvent};
use controller_music::display_engine::{DisplayEngine, Visual};

#[test]
fn display_engine_init_state() {
    let d = DisplayEngine::init();
    assert_eq!(d.current_chord, "None".to_string());
    assert_eq!(d.selected_chord, "None".to_string());
    assert_eq!(d.current_visual, Visual::Setup);
    assert_eq!(d.get_key(), "C".to_string());
    assert_eq!(d.get_octave(), 4);
    assert_eq!(d.get_modes(), ["7", "add9", "9", "dim", "aug", "sus4", "5", "6"]);
}

#[test]
fn right_bumper_takes_the_selected_chord() {
    let mut d = DisplayEngine::init();
    d.handle_event(ControlEvent::Button(ButtonType::RBumper, true), 1, -1, 1 << 5);
    assert_eq!(d.current_chord, "D0min".to_string());
    assert_eq!(d.selected_chord, "D0min".to_string());
    d.handle_event(ControlEvent::Button(ButtonType::Share, true), 1, -1, 0);
    assert_eq!(d.current_chord, "D0min".to_string());
    assert_eq!(d.selected_chord, "D#0min".to_string());
    assert_eq!(d.get_key(), "C#".to_string());
    d.handle_event(ControlEvent::Button(ButtonType::Cross, true), -1, 4, 2);
    assert_eq!(d.selected_chord, "None".to_string());
    assert_eq!(d.last_buttons, 2);
}

#[test]
fn left_bumper_shifts_modes() {
    let lb = 1u16 << 4;
    assert!(!DisplayEngine::selection_fits(2, 0, lb));
    assert!(!DisplayEngine::selection_fits(2, -1, lb));
    assert!(DisplayEngine::selection_fits(-1, 0, lb));
    assert!(DisplayEngine::selection_fits(2, -1, 0));
    assert!(!DisplayEngine::selection_fits(-2, 0, 0));
    let mut d = DisplayEngine::init();
    d.handle_event(ControlEvent::Button(ButtonType::LBumper, true), -1, 0, lb);
    assert_eq!(d.get_modes(), ["flip7", "flipadd9", "flip9", "dim7", "dom7", "7sus4", "sus2", "flip6"]);
}

#[test]
fn key_notes_follow_the_key() {
    let mut d = DisplayEngine::init();
    d.handle_event(ControlEvent::Button(ButtonType::RStickBtn, false), -1, 0, 0);
    assert_eq!(d.get_key(), "B".to_string());
    let names: Vec<String> = ["B", "C#", "D#", "E", "F#", "G#", "A#"].iter().map(|s| s.to_string()).collect();
    assert_eq!(d.get_key_notes(), names);
}
