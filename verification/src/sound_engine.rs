//! The choice of notes: which notes the instruments play and release in
//! answer to controller input.
//!
//! The engine keeps a main instrument, which plays chords, and a lead
//! instrument, which plays single notes picked on the touchpad. It answers
//! each input event with a list of actions for the instruments; the sound
//! itself is made by the caller.

use vstd::prelude::*;
use vstd::string::*;
use crate::chord_engine::{
    chord_values, key_button_result, major_interval, note_name, note_text, note_value,
    lemma_note_text_roundtrip, ChordEngine, known_mode,
};
use crate::controller::{ButtonType, ControlEvent, DiscreteType};
use crate::text::decimal_text;

verus! {

/// What an instrument is to do.
#[derive(PartialEq, Eq, Structural, Clone, Copy, Debug)]
pub enum SoundAction {
    /// Start `note` on the instrument.
    Play { instrument: usize, note: u8 },
    /// Let go of `note` on the instrument.
    Release { instrument: usize, note: u8 },
    /// Let go of every note of the instrument.
    ReleaseAll { instrument: usize },
    /// Hand the input event on to every instrument, for its own controls.
    Forward,
}

/// The notes of the chord that the left stick's region `left` picks in the
/// mode that the right stick's region `right` picks; none when the left
/// stick is centred (-1).
pub open spec fn chord_choice(key: int, octave: int, left: int, right: int) -> Seq<u8> {
    if left == -1 {
        Seq::empty()
    } else {
        chord_values(key, octave, left, right).map_values(|v: int| v as u8)
    }
}

/// The chord that `left` and `right` pick can be played: the stick is
/// centred, or the mode is known, the region is not negative and every note
/// stays below octave 11.
pub open spec fn chord_playable(key: int, octave: int, left: int, right: int) -> bool {
    left == -1 || (known_mode(right) && left >= 0 && forall|k: int|
        0 <= k < chord_values(key, octave, left, right).len() ==> #[trigger] chord_values(
            key,
            octave,
            left,
            right,
        )[k] < 132)
}

/// The lead note that touchpad column `region` picks: a note of the current
/// chord, an octave higher for each time round the chord; without a chord, a
/// note of the key from octave 5 up, an octave higher each time round the
/// scale.
pub open spec fn lead_choice(key: int, chord: Seq<u8>, region: int) -> int {
    if chord.len() > 0 {
        chord[region % chord.len() as int] + 12 * (region / chord.len() as int)
    } else {
        60 + (key + major_interval(region % 7)) % 12 + 12 * (region / 7)
    }
}

/// The lead note that `region` picks can be computed within a byte.
pub open spec fn lead_playable(key: int, chord: Seq<u8>, region: int) -> bool {
    &&& region >= 0
    &&& chord.len() > 0 ==> region / chord.len() as int <= 21 && lead_choice(key, chord, region) <= 255
    &&& chord.len() == 0 ==> lead_choice(key, chord, region) < 132
}

/// The input event starts a lead note.
pub open spec fn starts_lead(event: ControlEvent) -> bool {
    event == ControlEvent::Button(ButtonType::Touch, true) || event matches ControlEvent::Discrete(
        DiscreteType::TouchX,
        _,
        _,
    )
}

/// A release of each note on the instrument.
pub open spec fn releases(instrument: usize, notes: Seq<u8>) -> Seq<SoundAction> {
    notes.map_values(|n: u8| SoundAction::Release { instrument: instrument, note: n })
}

/// A start of each note on the instrument.
pub open spec fn plays(instrument: usize, notes: Seq<u8>) -> Seq<SoundAction> {
    notes.map_values(|n: u8| SoundAction::Play { instrument: instrument, note: n })
}

/// The state of the choice of notes.
pub struct SoundEngine {
    /// The current key and octave.
    pub chord_engine: ChordEngine,
    /// The number of instruments.
    pub instrument_count: usize,
    /// The instrument that plays chords.
    pub main_instrument: usize,
    /// The instrument that plays lead notes.
    pub lead_instrument: usize,
    /// The notes of the chord that sounds.
    pub current_chord: Vec<u8>,
    /// The lead note that sounds, or sounded last.
    pub lead_note: u8,
}

impl SoundEngine {
    /// The tonic of the current key.
    pub open spec fn key(&self) -> int {
        self.chord_engine.key() as int
    }

    /// The current octave.
    pub open spec fn octave(&self) -> int {
        self.chord_engine.octave() as int
    }

    /// The engine is consistent: instruments exist and the two chosen ones
    /// are among them; the key is one of twelve and the octave one of nine;
    /// the current chord has at most four notes, all below octave 11.
    pub open spec fn wf(&self) -> bool {
        &&& self.instrument_count > 0
        &&& self.main_instrument < self.instrument_count
        &&& self.lead_instrument < self.instrument_count
        &&& 0 <= self.key() < 12
        &&& 0 <= self.octave() < 9
        &&& self.current_chord@.len() <= 4
        &&& forall|i: int| 0 <= i < self.current_chord@.len() ==> #[trigger] self.current_chord@[i] < 132
    }

    /// The engine for two instruments: chords on the first, lead notes on
    /// the second, in `C` at octave 4, with no chord and lead note 0.
    pub fn init() -> (r: Self)
        ensures
            r.wf(),
            r.instrument_count == 2,
            r.main_instrument == 0,
            r.lead_instrument == 1,
            r.key() == 0,
            r.octave() == 4,
            r.current_chord@.len() == 0,
            r.lead_note == 0,
    {
        SoundEngine {
            chord_engine: ChordEngine::new(0, 4),
            instrument_count: 2,
            main_instrument: 0,
            lead_instrument: 1,
            current_chord: Vec::new(),
            lead_note: 0,
        }
    }

    /// The event can be answered without overflow: a chord picked by the
    /// right bumper can be played, and a lead note picked on the touchpad
    /// can be computed.
    pub open spec fn event_playable(&self, event: ControlEvent, left: i8, right: i8, touch_region: i8) -> bool {
        &&& event == ControlEvent::Button(ButtonType::RBumper, true) ==> chord_playable(
            self.key(),
            self.octave(),
            left as int,
            right as int,
        )
        &&& starts_lead(event) ==> lead_playable(self.key(), self.current_chord@, touch_region as int)
    }

    /// Whether `handle_event` can answer the event (see `event_playable`).
    pub fn event_fits(&self, event: ControlEvent, left: i8, right: i8, touch_region: i8) -> (r: bool)
        requires
            self.wf(),
        ensures
            r == self.event_playable(event, left, right, touch_region),
    {
        let chord_ok = if event == ControlEvent::Button(ButtonType::RBumper, true) {
            left == -1 || self.chord_engine.chord_fits(left as i32, right as i32)
        } else {
            true
        };
        let starts = match event {
            ControlEvent::Button(ButtonType::Touch, true) => true,
            ControlEvent::Discrete(DiscreteType::TouchX, _, _) => true,
            _ => false,
        };
        let lead_ok = if starts {
            self.lead_fits(touch_region)
        } else {
            true
        };
        chord_ok && lead_ok
    }

    /// Whether the lead note that `region` picks can be computed.
    fn lead_fits(&self, region: i8) -> (r: bool)
        requires
            self.wf(),
        ensures
            r == lead_playable(self.key(), self.current_chord@, region as int),
    {
        if region < 0 {
            return false;
        }
        let len = self.current_chord.len();
        if len > 0 {
            let x = (region as usize) / len;
            x <= 21 && (self.current_chord[(region as usize) % len] as usize) + 12 * x <= 255
        } else {
            let key = self.chord_engine.get_key_value();
            let degree = (region as usize) % 7;
            60 + ((key as usize) + major_interval_exec(degree)) % 12 + 12 * ((region as usize) / 7) < 132
        }
    }

    /// Answers an input event, given the regions of the left and right
    /// sticks (out of 8) and of the touchpad column (out of 12) at the time
    /// of the event.
    ///
    /// The right bumper releases the current chord on the main instrument
    /// and plays the chord that the sticks pick; touching the touchpad, or
    /// moving along it, replaces the lead note; lifting the finger releases
    /// it; key-control buttons move the key and octave; the PS button
    /// releases both instruments and moves each choice to the next
    /// instrument; every other event is handed on to the instruments.
    pub fn handle_event(&mut self, event: ControlEvent, left: i8, right: i8, touch_region: i8) -> (actions: Vec<SoundAction>)
        requires
            old(self).wf(),
            old(self).event_playable(event, left, right, touch_region),
        ensures
            final(self).wf(),
            final(self).instrument_count == old(self).instrument_count,
            if event == ControlEvent::Button(ButtonType::RBumper, true) {
                let notes = chord_choice(old(self).key(), old(self).octave(), left as int, right as int);
                &&& actions@ == releases(old(self).main_instrument, old(self).current_chord@) + plays(old(self).main_instrument, notes)
                &&& final(self).current_chord@ == notes
                &&& final(self).lead_note == old(self).lead_note
                &&& final(self).key() == old(self).key()
                &&& final(self).octave() == old(self).octave()
                &&& final(self).main_instrument == old(self).main_instrument
                &&& final(self).lead_instrument == old(self).lead_instrument
            } else if starts_lead(event) {
                let note = lead_choice(old(self).key(), old(self).current_chord@, touch_region as int) as u8;
                &&& actions@ == seq![
                    SoundAction::Release { instrument: old(self).lead_instrument, note: old(self).lead_note },
                    SoundAction::Play { instrument: old(self).lead_instrument, note: note },
                ]
                &&& final(self).lead_note == note
                &&& final(self).current_chord@ == old(self).current_chord@
                &&& final(self).key() == old(self).key()
                &&& final(self).octave() == old(self).octave()
                &&& final(self).main_instrument == old(self).main_instrument
                &&& final(self).lead_instrument == old(self).lead_instrument
            } else if event == ControlEvent::Button(ButtonType::Touch, false) {
                &&& actions@ == seq![SoundAction::Release { instrument: old(self).lead_instrument, note: old(self).lead_note }]
                &&& final(self).lead_note == old(self).lead_note
                &&& final(self).current_chord@ == old(self).current_chord@
                &&& final(self).key() == old(self).key()
                &&& final(self).octave() == old(self).octave()
                &&& final(self).main_instrument == old(self).main_instrument
                &&& final(self).lead_instrument == old(self).lead_instrument
            } else if event matches ControlEvent::Button(b, p) && key_button_result(old(self).key(), old(self).octave(), b, p) is Some {
                &&& actions@.len() == 0
                &&& event matches ControlEvent::Button(b, p) && key_button_result(old(self).key(), old(self).octave(), b, p)
                    == Some((final(self).key(), final(self).octave()))
                &&& final(self).lead_note == old(self).lead_note
                &&& final(self).current_chord@ == old(self).current_chord@
                &&& final(self).main_instrument == old(self).main_instrument
                &&& final(self).lead_instrument == old(self).lead_instrument
            } else if event == ControlEvent::Button(ButtonType::PS, true) {
                &&& actions@ == seq![
                    SoundAction::ReleaseAll { instrument: old(self).main_instrument },
                    SoundAction::ReleaseAll { instrument: old(self).lead_instrument },
                ]
                &&& final(self).main_instrument == (old(self).main_instrument + 1) % old(self).instrument_count as int
                &&& final(self).lead_instrument == (old(self).lead_instrument + 1) % old(self).instrument_count as int
                &&& final(self).lead_note == old(self).lead_note
                &&& final(self).current_chord@ == old(self).current_chord@
                &&& final(self).key() == old(self).key()
                &&& final(self).octave() == old(self).octave()
            } else {
                &&& actions@ == seq![SoundAction::Forward]
                &&& final(self).lead_note == old(self).lead_note
                &&& final(self).current_chord@ == old(self).current_chord@
                &&& final(self).key() == old(self).key()
                &&& final(self).octave() == old(self).octave()
                &&& final(self).main_instrument == old(self).main_instrument
                &&& final(self).lead_instrument == old(self).lead_instrument
            },
    {
        let mut actions: Vec<SoundAction> = Vec::new();
        match event {
            ControlEvent::Button(ButtonType::RBumper, true) => {
                let old_chord = self.current_chord.clone();
                self.release_chord(&mut actions, &old_chord, SoundEngine::MAIN);
                let notes = self.chord_notes(left, right);
                self.play_chord(&mut actions, notes, SoundEngine::MAIN);
            },
            ControlEvent::Button(ButtonType::Touch, true) | ControlEvent::Discrete(DiscreteType::TouchX, _, _) => {
                self.update_lead(&mut actions, touch_region);
            },
            ControlEvent::Button(ButtonType::Touch, false) => {
                let n = self.lead_note;
                self.release_note(&mut actions, n, SoundEngine::LEAD);
            },
            ControlEvent::Button(ButtonType::PS, true) => {
                actions.push(SoundAction::ReleaseAll { instrument: self.main_instrument });
                actions.push(SoundAction::ReleaseAll { instrument: self.lead_instrument });
                self.main_instrument = (self.main_instrument + 1) % self.instrument_count;
                self.lead_instrument = (self.lead_instrument + 1) % self.instrument_count;
            },
            ControlEvent::Button(b, pressed) => {
                if !self.chord_engine.handle_key_button(b, pressed) {
                    actions.push(SoundAction::Forward);
                }
            },
            _ => {
                actions.push(SoundAction::Forward);
            },
        }
        actions
    }

    const MAIN: isize = -1;
    const LEAD: isize = -2;

    /// The note values of the chord that the sticks pick.
    fn chord_notes(&self, left: i8, right: i8) -> (notes: Vec<u8>)
        requires
            self.wf(),
            chord_playable(self.key(), self.octave(), left as int, right as int),
        ensures
            notes@ == chord_choice(self.key(), self.octave(), left as int, right as int),
            notes@.len() <= 4,
            forall|i: int| 0 <= i < notes@.len() ==> #[trigger] notes@[i] < 132,
    {
        if left == -1 {
            return Vec::new();
        }
        let ghost values = chord_values(self.key(), self.octave(), left as int, right as int);
        let names = self.chord_engine.get_chord_notes(left as i32, right as i32);
        assert(names.deep_view().len() == names@.len());
        proof {
            crate::chord_engine::lemma_modes_known(right as int, left as int % 7);
        }
        let mut notes: Vec<u8> = Vec::new();
        let mut i: usize = 0;
        while i < names.len()
            invariant
                values == chord_values(self.key(), self.octave(), left as int, right as int),
                names.deep_view() == values.map_values(|v: int| note_text(v)),
                forall|k: int| 0 <= k < values.len() ==> #[trigger] values[k] < 132,
                values.len() == names@.len(),
                left >= 0,
                i <= names@.len(),
                notes@.len() == i,
                forall|k: int| 0 <= k < i ==> #[trigger] notes@[k] == values[k] as u8,
            decreases names@.len() - i,
        {
            assert(names.deep_view()[i as int] == names@[i as int]@);
            assert(names@[i as int]@ == note_text(values[i as int]));
            assert(values[i as int] >= 0) by {
                assert(crate::chord_engine::root_offset(left as int) >= 0);
            }
            proof {
                lemma_note_text_roundtrip(values[i as int]);
            }
            let n = ChordEngine::note_to_value(names[i].as_str()).unwrap();
            notes.push(n);
            i += 1;
        }
        assert(notes@ =~= chord_choice(self.key(), self.octave(), left as int, right as int));
        notes
    }

    /// Replaces the lead note with the one that touchpad column `region`
    /// picks.
    fn update_lead(&mut self, actions: &mut Vec<SoundAction>, region: i8)
        requires
            old(self).wf(),
            lead_playable(old(self).key(), old(self).current_chord@, region as int),
        ensures
            final(self).wf(),
            final(self).lead_note == lead_choice(old(self).key(), old(self).current_chord@, region as int) as u8,
            final(actions)@ == old(actions)@ + seq![
                SoundAction::Release { instrument: old(self).lead_instrument, note: old(self).lead_note },
                SoundAction::Play { instrument: old(self).lead_instrument, note: final(self).lead_note },
            ],
            final(self).current_chord@ == old(self).current_chord@,
            final(self).key() == old(self).key(),
            final(self).octave() == old(self).octave(),
            final(self).main_instrument == old(self).main_instrument,
            final(self).lead_instrument == old(self).lead_instrument,
            final(self).instrument_count == old(self).instrument_count,
    {
        let note: u8;
        let len = self.current_chord.len();
        if len > 0 {
            let base = self.current_chord[(region as usize) % len];
            note = base + 12u8 * ((region / len as i8) as u8);
        } else {
            let key = self.chord_engine.get_key_value();
            let kn = ChordEngine::get_key_notes(key);
            assert(kn.deep_view().len() == 7);
            let degree = (region as usize) % kn.len();
            let ghost pc = (key + major_interval(degree as int)) % 12;
            let mut text = kn[degree].clone();
            assert(kn.deep_view()[degree as int] == kn@[degree as int]@);
            assert(text@ == note_name(pc));
            proof {
                reveal_strlit("5");
                reveal_with_fuel(decimal_text, 1);
            }
            assert("5"@ =~= decimal_text(5));
            text.append("5");
            assert(text@ == note_text(60 + pc));
            proof {
                lemma_note_text_roundtrip(60 + pc);
            }
            let first = ChordEngine::note_to_value(text.as_str()).unwrap();
            assert(first == 60 + pc);
            let temp = ChordEngine::note_add(first, 12 * ((region as usize / kn.len()) as u8));
            proof {
                lemma_note_text_roundtrip(first + 12 * (region / 7));
            }
            note = ChordEngine::note_to_value(temp.as_str()).unwrap();
        }
        let old_note = self.lead_note;
        self.release_note(actions, old_note, SoundEngine::LEAD);
        self.lead_note = note;
        self.play_note(actions, note, SoundEngine::LEAD);
    }

    /// The instrument that `MAIN` or `LEAD` names.
    fn get_instrument(&self, instr: isize) -> (r: usize)
        requires
            instr == SoundEngine::MAIN || instr == SoundEngine::LEAD,
        ensures
            r == if instr == SoundEngine::MAIN {
                self.main_instrument
            } else {
                self.lead_instrument
            },
    {
        if instr == SoundEngine::MAIN {
            self.main_instrument
        } else {
            self.lead_instrument
        }
    }

    /// Lets go of `note` on the instrument that `instr` names.
    fn release_note(&self, actions: &mut Vec<SoundAction>, note: u8, instr: isize)
        requires
            instr == SoundEngine::MAIN || instr == SoundEngine::LEAD,
        ensures
            final(actions)@ == old(actions)@.push(
                SoundAction::Release { instrument: self.get_instrument_spec(instr), note: note },
            ),
    {
        let i = self.get_instrument(instr);
        actions.push(SoundAction::Release { instrument: i, note: note });
    }

    /// Lets go of each of `notes` on the instrument that `instr` names.
    fn release_chord(&self, actions: &mut Vec<SoundAction>, notes: &Vec<u8>, instr: isize)
        requires
            instr == SoundEngine::MAIN || instr == SoundEngine::LEAD,
        ensures
            final(actions)@ == old(actions)@ + releases(self.get_instrument_spec(instr), notes@),
    {
        let mut i: usize = 0;
        while i < notes.len()
            invariant
                instr == SoundEngine::MAIN || instr == SoundEngine::LEAD,
                i <= notes@.len(),
                actions@ == old(actions)@ + releases(self.get_instrument_spec(instr), notes@.take(i as int)),
            decreases notes@.len() - i,
        {
            self.release_note(actions, notes[i], instr);
            assert(notes@.take(i + 1) =~= notes@.take(i as int).push(notes@[i as int]));
            assert(releases(self.get_instrument_spec(instr), notes@.take(i + 1)) =~= releases(
                self.get_instrument_spec(instr),
                notes@.take(i as int),
            ).push(SoundAction::Release { instrument: self.get_instrument_spec(instr), note: notes@[i as int] }));
            i += 1;
        }
        assert(notes@.take(notes@.len() as int) =~= notes@);
    }

    /// Starts `note` on the instrument that `instr` names.
    fn play_note(&self, actions: &mut Vec<SoundAction>, note: u8, instr: isize)
        requires
            instr == SoundEngine::MAIN || instr == SoundEngine::LEAD,
        ensures
            final(actions)@ == old(actions)@.push(
                SoundAction::Play { instrument: self.get_instrument_spec(instr), note: note },
            ),
    {
        let i = self.get_instrument(instr);
        actions.push(SoundAction::Play { instrument: i, note: note });
    }

    /// Starts each of `notes` on the instrument that `instr` names, and makes
    /// them the current chord.
    fn play_chord(&mut self, actions: &mut Vec<SoundAction>, notes: Vec<u8>, instr: isize)
        requires
            instr == SoundEngine::MAIN || instr == SoundEngine::LEAD,
        ensures
            final(actions)@ == old(actions)@ + plays(old(self).get_instrument_spec(instr), notes@),
            final(self).current_chord@ == notes@,
            final(self).chord_engine == old(self).chord_engine,
            final(self).lead_note == old(self).lead_note,
            final(self).main_instrument == old(self).main_instrument,
            final(self).lead_instrument == old(self).lead_instrument,
            final(self).instrument_count == old(self).instrument_count,
    {
        let mut i: usize = 0;
        while i < notes.len()
            invariant
                instr == SoundEngine::MAIN || instr == SoundEngine::LEAD,
                i <= notes@.len(),
                actions@ == old(actions)@ + plays(self.get_instrument_spec(instr), notes@.take(i as int)),
            decreases notes@.len() - i,
        {
            self.play_note(actions, notes[i], instr);
            assert(notes@.take(i + 1) =~= notes@.take(i as int).push(notes@[i as int]));
            assert(plays(self.get_instrument_spec(instr), notes@.take(i + 1)) =~= plays(
                self.get_instrument_spec(instr),
                notes@.take(i as int),
            ).push(SoundAction::Play { instrument: self.get_instrument_spec(instr), note: notes@[i as int] }));
            i += 1;
        }
        assert(notes@.take(notes@.len() as int) =~= notes@);
        self.current_chord = notes;
    }

    /// The instrument that `MAIN` or `LEAD` names.
    spec fn get_instrument_spec(&self, instr: isize) -> usize {
        if instr == SoundEngine::MAIN {
            self.main_instrument
        } else {
            self.lead_instrument
        }
    }
}

/// Semitones from the tonic to degree `degree` of a major scale.
fn major_interval_exec(degree: usize) -> (r: usize)
    requires
        degree < 7,
    ensures
        r == major_interval(degree as int),
{
    if degree == 0 {
        0
    } else if degree == 1 {
        2
    } else if degree == 2 {
        4
    } else if degree == 3 {
        5
    } else if degree == 4 {
        7
    } else if degree == 5 {
        9
    } else {
        11
    }
}

/// The PS button moves both instrument choices on by one, round the
/// instruments: two different choices stay different, and both stay among
/// the instruments.
pub proof fn law_rotation_keeps_choices_apart(main: int, lead: int, count: int)
    requires
        0 <= main < count,
        0 <= lead < count,
    ensures
        0 <= (main + 1) % count < count,
        0 <= (lead + 1) % count < count,
        main != lead ==> (main + 1) % count != (lead + 1) % count,
{
    assert((main + 1) % count == if main + 1 == count { 0 } else { main + 1 }) by (nonlinear_arith)
        requires
            0 <= main < count,
    ;
    assert((lead + 1) % count == if lead + 1 == count { 0 } else { lead + 1 }) by (nonlinear_arith)
        requires
            0 <= lead < count,
    ;
}

} // verus!
