//! What the display shows: the chord that plays, the chord the sticks point
//! at, the key and octave, and the names of the chord modes.

use vstd::prelude::*;
use crate::chord_engine::{chord_name, key_button_result, key_notes, known_mode, note_name, ChordEngine};
use crate::controller::{ButtonType, ControlEvent};
use crate::intermediate_controller_state::{button_down, button_pressed};

verus! {

/// The screen shown.
#[derive(PartialEq, Eq, Structural, Clone, Copy, Debug)]
pub enum Visual {
    Setup,
    Main,
}

/// The chord mode that the right stick's region `right` picks: shifted by 9
/// while the left bumper is down.
pub open spec fn selected_mode(right: int, lbumper: bool) -> int {
    right + if lbumper {
        9int
    } else {
        0int
    }
}

/// The chord that the sticks point at can be named: the left stick is
/// centred, or its region is not negative and the mode is known.
pub open spec fn selection_nameable(left: int, right: int, lbumper: bool) -> bool {
    left != -1 ==> left >= 0 && known_mode(selected_mode(right, lbumper))
}

/// The name of the chord that the sticks point at in the major key `key`;
/// `None` when the left stick is centred.
pub open spec fn selection_name(key: int, left: int, right: int, lbumper: bool) -> Seq<char> {
    if left == -1 {
        "None"@
    } else {
        chord_name(key, left, selected_mode(right, lbumper))
    }
}

/// The names of the chord modes, in the order of the right stick's regions.
pub open spec fn mode_names(lbumper: bool) -> Seq<Seq<char>> {
    if !lbumper {
        seq!["7"@, "add9"@, "9"@, "dim"@, "aug"@, "sus4"@, "5"@, "6"@]
    } else {
        seq!["flip7"@, "flipadd9"@, "flip9"@, "dim7"@, "dom7"@, "7sus4"@, "sus2"@, "flip6"@]
    }
}

/// The state that the display shows.
pub struct DisplayEngine {
    /// The current key and octave.
    pub chord_engine: ChordEngine,
    /// The name of the chord last played.
    pub current_chord: String,
    /// The name of the chord the sticks point at.
    pub selected_chord: String,
    /// The screen shown.
    pub current_visual: Visual,
    /// The packed button state of the last reading.
    pub last_buttons: u16,
}

impl DisplayEngine {
    /// The key is one of twelve and the octave one of nine.
    pub open spec fn wf(&self) -> bool {
        &&& self.chord_engine.key() < 12
        &&& self.chord_engine.octave() < 9
    }

    /// The setup screen, in `C` at octave 4, with no chord.
    pub fn init() -> (r: Self)
        ensures
            r.wf(),
            r.chord_engine.key() == 0,
            r.chord_engine.octave() == 4,
            r.current_chord@ == "None"@,
            r.selected_chord@ == "None"@,
            r.current_visual == Visual::Setup,
            r.last_buttons == 0,
    {
        DisplayEngine {
            chord_engine: ChordEngine::new(0, 4),
            current_chord: String::from_str("None"),
            selected_chord: String::from_str("None"),
            current_visual: Visual::Setup,
            last_buttons: 0,
        }
    }

    /// Whether the chord that the sticks point at can be named (see
    /// `selection_nameable`).
    pub fn selection_fits(left: i8, right: i8, buttons: u16) -> (r: bool)
        ensures
            r == selection_nameable(left as int, right as int, button_down(buttons, ButtonType::LBumper)),
    {
        if left == -1 {
            return true;
        }
        let mode: i32 = right as i32 + if button_pressed(buttons, ButtonType::LBumper) {
            9
        } else {
            0
        };
        left >= 0 && -1 <= mode && mode <= 7
    }

    /// Answers an input event, given the regions of the sticks (out of 8) and
    /// the packed button state at the time of the event: the right bumper
    /// makes the chord pointed at the current chord, key-control buttons move
    /// the key and octave; then the chord pointed at is named again.
    pub fn handle_event(&mut self, event: ControlEvent, left: i8, right: i8, buttons: u16)
        requires
            old(self).wf(),
            selection_nameable(left as int, right as int, button_down(buttons, ButtonType::LBumper)),
        ensures
            final(self).wf(),
            final(self).last_buttons == buttons,
            final(self).current_visual == old(self).current_visual,
            final(self).selected_chord@ == selection_name(
                final(self).chord_engine.key() as int,
                left as int,
                right as int,
                button_down(buttons, ButtonType::LBumper),
            ),
            if event == ControlEvent::Button(ButtonType::RBumper, true) {
                &&& final(self).current_chord@ == selection_name(
                    old(self).chord_engine.key() as int,
                    left as int,
                    right as int,
                    button_down(buttons, ButtonType::LBumper),
                )
                &&& final(self).chord_engine.key() == old(self).chord_engine.key()
                &&& final(self).chord_engine.octave() == old(self).chord_engine.octave()
            } else if event matches ControlEvent::Button(b, p) && key_button_result(
                old(self).chord_engine.key() as int,
                old(self).chord_engine.octave() as int,
                b,
                p,
            ) is Some {
                &&& event matches ControlEvent::Button(b, p) && key_button_result(
                    old(self).chord_engine.key() as int,
                    old(self).chord_engine.octave() as int,
                    b,
                    p,
                ) == Some((final(self).chord_engine.key() as int, final(self).chord_engine.octave() as int))
                &&& final(self).current_chord@ == old(self).current_chord@
            } else {
                &&& final(self).current_chord@ == old(self).current_chord@
                &&& final(self).chord_engine.key() == old(self).chord_engine.key()
                &&& final(self).chord_engine.octave() == old(self).chord_engine.octave()
            },
    {
        let lbumper = button_pressed(buttons, ButtonType::LBumper);
        match event {
            ControlEvent::Button(ButtonType::RBumper, true) => {
                self.current_chord = DisplayEngine::get_selected_chord(&self.chord_engine, left, right, lbumper);
            },
            ControlEvent::Button(b, pressed) => {
                let _ = self.chord_engine.handle_key_button(b, pressed);
            },
            _ => {},
        }
        self.last_buttons = buttons;
        self.selected_chord = DisplayEngine::get_selected_chord(&self.chord_engine, left, right, lbumper);
    }

    /// The name of the chord that the sticks point at; `None` when the left
    /// stick is centred.
    fn get_selected_chord(chord_engine: &ChordEngine, left: i8, right: i8, lbumper: bool) -> (r: String)
        requires
            chord_engine.key() < 12,
            selection_nameable(left as int, right as int, lbumper),
        ensures
            r@ == selection_name(chord_engine.key() as int, left as int, right as int, lbumper),
    {
        if left == -1 {
            String::from_str("None")
        } else {
            let mode: i32 = right as i32 + if lbumper {
                9
            } else {
                0
            };
            ChordEngine::get_chord_name(chord_engine.get_key_value(), left as i32, mode)
        }
    }

    /// The names of the chord modes, flipped while the left bumper is down.
    pub fn get_modes(&self) -> (r: [&'static str; 8])
        ensures
            r@.map_values(|s: &'static str| s@) == mode_names(button_down(self.last_buttons, ButtonType::LBumper)),
    {
        if !button_pressed(self.last_buttons, ButtonType::LBumper) {
            let r = ["7", "add9", "9", "dim", "aug", "sus4", "5", "6"];
            assert(r@.map_values(|s: &'static str| s@) =~= mode_names(false));
            r
        } else {
            let r = ["flip7", "flipadd9", "flip9", "dim7", "dom7", "7sus4", "sus2", "flip6"];
            assert(r@.map_values(|s: &'static str| s@) =~= mode_names(true));
            r
        }
    }

    /// The name of the key's tonic.
    pub fn get_key(&self) -> (r: String)
        requires
            self.wf(),
        ensures
            r@ == note_name(self.chord_engine.key() as int),
    {
        self.chord_engine.get_key()
    }

    /// The current octave.
    pub fn get_octave(&self) -> (r: u8)
        ensures
            r == self.chord_engine.octave(),
    {
        self.chord_engine.get_octave()
    }

    /// The names of the seven notes of the current key.
    pub fn get_key_notes(&self) -> (r: Vec<String>)
        ensures
            r.deep_view() == key_notes(self.chord_engine.key() as int),
    {
        ChordEngine::get_key_notes(self.chord_engine.get_key_value())
    }
}

} // verus!
