use controller_music::chord_engine::{chord_mode_dict, chord_type_dict, ChordEngine};
use controller_music::controller::ButtonType;

fn strings(v: &[&str]) -> Vec<String> {
    v.iter().map(|s| s.to_string()).collect()
}

#[test]
fn value_to_note_writes_name_and_octave() {
    assert_eq!(ChordEngine::value_to_note(0), Ok("C0".to_string()));
    assert_eq!(ChordEngine::value_to_note(61), Ok("C#5".to_string()));
    assert_eq!(ChordEngine::value_to_note(69), Ok("A5".to_string()));
    assert_eq!(ChordEngine::value_to_note(131), Ok("B10".to_string()));
}

#[test]
fn value_to_note_rejects_octave_eleven() {
    assert_eq!(ChordEngine::value_to_note(132), Err("bad octave".to_string()));
    assert_eq!(ChordEngine::value_to_note(255), Err("bad octave".to_string()));
}

#[test]
fn note_to_value_reads_notes() {
    assert_eq!(ChordEngine::note_to_value("C#5"), Ok(61));
    assert_eq!(ChordEngine::note_to_value("C4"), Ok(48));
    assert_eq!(ChordEngine::note_to_value("B10"), Ok(131));
    assert_eq!(ChordEngine::note_to_value("C+4"), Err("invalid note name: C+".to_string()));
    assert_eq!(ChordEngine::note_to_value("G007"), Ok(91));
}

#[test]
fn note_to_value_truncates_to_a_byte() {
    // -1 * 12 + 9 = -3, which a byte holds as 253.
    assert_eq!(ChordEngine::note_to_value("A-1"), Ok(253));
    // 30 * 12 + 0 = 360 = 256 + 104.
    assert_eq!(ChordEngine::note_to_value("C30"), Ok(104));
}

#[test]
fn note_to_value_errors() {
    assert_eq!(ChordEngine::note_to_value("C"), Err("invalid note: C".to_string()));
    assert_eq!(ChordEngine::note_to_value(""), Err("invalid note: ".to_string()));
    assert_eq!(ChordEngine::note_to_value("C4x"), Err("invalid octave in note: C4x".to_string()));
    assert_eq!(ChordEngine::note_to_value("C-"), Err("invalid octave in note: C-".to_string()));
    assert_eq!(ChordEngine::note_to_value("H4"), Err("invalid note name: H".to_string()));
    assert_eq!(ChordEngine::note_to_value("Db4"), Err("invalid note name: Db".to_string()));
    assert_eq!(ChordEngine::note_to_value("é4"), Err("invalid note name: é".to_string()));
}

#[test]
fn note_roundtrip_for_every_written_value() {
    for v in 0u8..132 {
        let text = ChordEngine::value_to_note(v).unwrap();
        assert_eq!(ChordEngine::note_to_value(&text), Ok(v));
    }
}

#[test]
fn note_add_writes_the_sum() {
    assert_eq!(ChordEngine::note_add(60, 7), "G5".to_string());
    assert_eq!(ChordEngine::note_add(0, 0), "C0".to_string());
}

#[test]
fn key_notes_of_major_keys() {
    assert_eq!(ChordEngine::get_key_notes(0), strings(&["C", "D", "E", "F", "G", "A", "B"]));
    assert_eq!(ChordEngine::get_key_notes(2), strings(&["D", "E", "F#", "G", "A", "B", "C#"]));
    assert_eq!(ChordEngine::get_key_notes(14), ChordEngine::get_key_notes(2));
}

#[test]
fn key_notes_are_distinct() {
    for key in 0u8..12 {
        let notes = ChordEngine::get_key_notes(key);
        for i in 0..7 {
            for j in (i + 1)..7 {
                assert_ne!(notes[i], notes[j]);
            }
        }
    }
}

#[test]
fn new_engine_state() {
    let e = ChordEngine::new(0, 4);
    assert_eq!(e.get_key(), "C".to_string());
    assert_eq!(e.get_key_value(), 0);
    assert_eq!(e.get_octave(), 4);
}

#[test]
fn key_steps_wrap_and_undo() {
    let mut e = ChordEngine::new(0, 4);
    e.decrement_key();
    assert_eq!(e.get_key_value(), 11);
    assert_eq!(e.get_key(), "B".to_string());
    e.increment_key();
    assert_eq!(e.get_key_value(), 0);
    for key in 0u8..12 {
        let mut e = ChordEngine::new(key, 0);
        e.increment_key();
        e.decrement_key();
        assert_eq!(e.get_key_value(), key);
    }
    let mut e = ChordEngine::new(20, 0);
    e.increment_key();
    assert_eq!(e.get_key_value(), 9);
}

#[test]
fn octave_steps_wrap_and_undo() {
    let mut e = ChordEngine::new(0, 8);
    e.increment_octave();
    assert_eq!(e.get_octave(), 0);
    e.decrement_octave();
    assert_eq!(e.get_octave(), 8);
    e.set_octave(3);
    assert_eq!(e.get_octave(), 3);
    e.set_key(5);
    assert_eq!(e.get_key(), "F".to_string());
    assert_eq!(e.get_octave(), 3);
}

#[test]
fn handle_key_button_controls() {
    let mut e = ChordEngine::new(0, 4);
    assert!(e.handle_key_button(ButtonType::Share, true));
    assert_eq!((e.get_key_value(), e.get_octave()), (1, 4));
    assert!(e.handle_key_button(ButtonType::Options, true));
    assert_eq!((e.get_key_value(), e.get_octave()), (1, 5));
    assert!(e.handle_key_button(ButtonType::LStickBtn, true));
    assert_eq!((e.get_key_value(), e.get_octave()), (0, 4));
    assert!(e.handle_key_button(ButtonType::LStickBtn, false));
    assert_eq!((e.get_key_value(), e.get_octave()), (1, 5));
    assert!(e.handle_key_button(ButtonType::RStickBtn, false));
    assert_eq!((e.get_key_value(), e.get_octave()), (0, 5));
    assert!(e.handle_key_button(ButtonType::RStickBtn, true));
    assert_eq!((e.get_key_value(), e.get_octave()), (1, 5));
    assert!(!e.handle_key_button(ButtonType::Share, false));
    assert!(!e.handle_key_button(ButtonType::Cross, true));
    assert_eq!((e.get_key_value(), e.get_octave()), (1, 5));
}

#[test]
fn chord_notes_in_c() {
    let e = ChordEngine::new(0, 4);
    assert_eq!(e.get_chord_notes(0, -1), strings(&["C4", "E4", "G4"]));
    assert_eq!(e.get_chord_notes(1, -1), strings(&["D4", "F4", "A4"]));
    assert_eq!(e.get_chord_notes(6, -1), strings(&["B4", "D5", "F5"]));
    assert_eq!(e.get_chord_notes(7, -1), strings(&["C5", "E5", "G5"]));
    assert_eq!(e.get_chord_notes(4, 7), strings(&["G4", "B4", "D5", "F5"]));
    assert_eq!(e.get_chord_notes(0, 1), strings(&["C4", "E4", "G4", "D5"]));
    assert_eq!(e.get_chord_notes(0, 5), strings(&["C#4", "E4", "G#4"]));
}

#[test]
fn chord_notes_read_back_as_values() {
    let e = ChordEngine::new(2, 3);
    let notes = e.get_chord_notes(3, 0);
    let values: Vec<u8> = notes.iter().map(|n| ChordEngine::note_to_value(n).unwrap()).collect();
    // Degree 3 of mode 0 is a minor seventh: in D at octave 3 its root is
    // 2 + 36 + 5 = 43, then + 0, 3, 7, 10.
    assert_eq!(values, vec![43, 46, 50, 53]);
}

#[test]
fn chord_fits_checks_the_octave() {
    let e = ChordEngine::new(0, 4);
    assert!(e.chord_fits(0, -1));
    assert!(!e.chord_fits(0, 8));
    assert!(!e.chord_fits(-1, 0));
    let high = ChordEngine::new(11, 8);
    assert!(!high.chord_fits(7, 1));
    assert!(high.chord_fits(0, -1));
}

#[test]
fn chord_names() {
    assert_eq!(ChordEngine::get_chord_name(0, 1, -1), "D0min".to_string());
    assert_eq!(ChordEngine::get_chord_name(0, 0, 7), "C0dom7".to_string());
    assert_eq!(ChordEngine::get_chord_name(2, 6, 0), "C#1min7b5".to_string());
    assert_eq!(ChordEngine::get_chord_name(0, -7, -1), "C0maj".to_string());
    assert_eq!(ChordEngine::get_chord_name(0, 8, 6), "D0maj".to_string());
}

#[test]
fn dictionaries() {
    let types = chord_type_dict();
    assert_eq!(types.len(), 14);
    assert_eq!(types[0], ("maj", vec![0, 4, 7]));
    assert_eq!(types[13], ("aug", vec![1, 4, 8]));
    let modes = chord_mode_dict();
    assert_eq!(modes.len(), 9);
    assert_eq!(modes[0].0, -1);
    assert_eq!(modes[0].1, vec!["maj", "min", "min", "maj", "maj", "min", "dim"]);
    for (_, names) in &modes {
        assert_eq!(names.len(), 7);
        for n in names {
            assert!(types.iter().any(|(t, _)| t == n));
        }
    }
}

#[test]
fn note_parts_and_fit() {
    assert_eq!(ChordEngine::note_parts("A-1"), Ok((-1, 9)));
    assert_eq!(ChordEngine::note_parts("F#10"), Ok((10, 6)));
    assert_eq!(ChordEngine::note_parts("F#"), Err("invalid note: F#".to_string()));
    assert!(ChordEngine::note_fits("C4"));
    assert!(ChordEngine::note_fits("X"));
    assert!(ChordEngine::note_fits("C178956970"));
    assert!(ChordEngine::note_fits("G178956970"));
    assert!(!ChordEngine::note_fits("G#178956970"));
    assert!(!ChordEngine::note_fits("C178956971"));
    assert!(ChordEngine::note_fits("C-178956970"));
    assert!(!ChordEngine::note_fits("B-178956971"));
    assert_eq!(ChordEngine::note_to_value("G178956970"), Ok(((178956970i64 * 12 + 7) % 256) as u8));
}
