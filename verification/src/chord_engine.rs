//! Note names, keys, octaves and chords.
//!
//! A note value counts semitones from `C0`: value `v` is the pitch class
//! `v % 12` (named by `note_name`) in octave `v / 12`, written for instance
//! `C#4`. A chord is chosen by a degree of the current major key
//! (`chord_index`) and a chord mode, which maps each degree to a chord type,
//! which in turn lists the chord's intervals above its root.

use vstd::prelude::*;
use vstd::string::*;
use crate::controller::ButtonType;
use crate::text::{digit_char, is_digit_char, decimal_text, is_digit, lemma_decimal_text, parse_i32, parse_i32_spec, str_eq};

verus! {

// ---------------------------------------------------------------------------
// Note names and the major scale
// ---------------------------------------------------------------------------

/// The name of pitch class `i` (`0 <= i < 12`), sharps only.
pub open spec fn note_name(i: int) -> Seq<char> {
    if i == 0 {
        "C"@
    } else if i == 1 {
        "C#"@
    } else if i == 2 {
        "D"@
    } else if i == 3 {
        "D#"@
    } else if i == 4 {
        "E"@
    } else if i == 5 {
        "F"@
    } else if i == 6 {
        "F#"@
    } else if i == 7 {
        "G"@
    } else if i == 8 {
        "G#"@
    } else if i == 9 {
        "A"@
    } else if i == 10 {
        "A#"@
    } else {
        "B"@
    }
}

/// Semitones from the tonic to degree `i` (`0 <= i < 7`) of a major scale.
pub open spec fn major_interval(i: int) -> int {
    if i == 0 {
        0
    } else if i == 1 {
        2
    } else if i == 2 {
        4
    } else if i == 3 {
        5
    } else if i == 4 {
        7
    } else if i == 5 {
        9
    } else {
        11
    }
}

/// The written form of note value `v`: its name followed by its octave.
pub open spec fn note_text(v: int) -> Seq<char> {
    note_name(v % 12) + decimal_text((v / 12) as nat)
}

/// The names of the seven notes of the major key whose tonic is `key`.
pub open spec fn key_notes(key: int) -> Seq<Seq<char>> {
    Seq::new(7, |i: int| note_name((key + major_interval(i)) % 12))
}

/// The key that follows `key` going up a semitone, among the twelve keys.
pub open spec fn next_key(key: int) -> int {
    (key + 1) % 12
}

/// The key that precedes `key`, among the twelve keys.
pub open spec fn prev_key(key: int) -> int {
    (key + 11) % 12
}

/// The octave above `octave`, among the nine octaves, wrapping to 0.
pub open spec fn next_octave(octave: int) -> int {
    (octave + 1) % 9
}

/// The octave below `octave`, among the nine octaves, wrapping to 8.
pub open spec fn prev_octave(octave: int) -> int {
    (octave + 8) % 9
}

/// The key and octave that a key-control button leads to from `key` and
/// `octave`; `None` for a button that is no key control.
pub open spec fn key_button_result(key: int, octave: int, b: ButtonType, pressed: bool) -> Option<(int, int)> {
    match (b, pressed) {
        (ButtonType::Share, true) => Some((next_key(key), octave)),
        (ButtonType::Options, true) => Some((key, next_octave(octave))),
        (ButtonType::LStickBtn, true) => Some((prev_key(key), prev_octave(octave))),
        (ButtonType::LStickBtn, false) => Some((next_key(key), next_octave(octave))),
        (ButtonType::RStickBtn, true) => Some((next_key(key), octave)),
        (ButtonType::RStickBtn, false) => Some((prev_key(key), octave)),
        _ => None,
    }
}

// ---------------------------------------------------------------------------
// Chord tables
// ---------------------------------------------------------------------------

/// The first value stored under key `k` in a list of entries.
pub open spec fn lookup<K, V>(t: Seq<(K, V)>, k: K) -> Option<V>
    decreases t.len(),
{
    if t.len() == 0 {
        None
    } else if t[0].0 == k {
        Some(t[0].1)
    } else {
        lookup(t.drop_first(), k)
    }
}

/// Each chord type, by name, with its intervals in semitones above the root.
pub open spec fn chord_type_table() -> Seq<(Seq<char>, Seq<u8>)> {
    seq![
        ("maj"@, seq![0u8, 4, 7]),
        ("min"@, seq![0u8, 3, 7]),
        ("dim"@, seq![0u8, 3, 6]),
        ("dom7"@, seq![0u8, 4, 7, 10]),
        ("maj7"@, seq![0u8, 4, 7, 11]),
        ("min7"@, seq![0u8, 3, 7, 10]),
        ("min7b5"@, seq![0u8, 3, 6, 10]),
        ("majadd9"@, seq![0u8, 4, 7, 14]),
        ("minadd9"@, seq![0u8, 3, 7, 14]),
        ("dimadd9"@, seq![0u8, 3, 6, 14]),
        ("sus4"@, seq![0u8, 5, 7]),
        ("maj6"@, seq![0u8, 4, 7, 9]),
        ("sus2"@, seq![0u8, 2, 7]),
        ("aug"@, seq![1u8, 4, 8]),
    ]
}

/// Each chord mode with the chord type it gives to each of the seven degrees.
pub open spec fn chord_mode_table() -> Seq<(i32, Seq<Seq<char>>)> {
    seq![
        (-1i32, seq!["maj"@, "min"@, "min"@, "maj"@, "maj"@, "min"@, "dim"@]),
        (6i32, seq!["min"@, "maj"@, "maj"@, "min"@, "min"@, "maj"@, "min"@]),
        (7i32, seq!["dom7"@, "dom7"@, "dom7"@, "dom7"@, "dom7"@, "dom7"@, "dom7"@]),
        (0i32, seq!["min7"@, "maj7"@, "maj7"@, "min7"@, "min7"@, "maj7"@, "min7b5"@]),
        (1i32, seq!["majadd9"@, "minadd9"@, "minadd9"@, "majadd9"@, "majadd9"@, "minadd9"@, "dimadd9"@]),
        (2i32, seq!["sus4"@, "sus4"@, "sus4"@, "sus4"@, "sus4"@, "sus4"@, "sus4"@]),
        (3i32, seq!["maj6"@, "sus2"@, "sus2"@, "maj6"@, "maj6"@, "sus2"@, "sus2"@]),
        (4i32, seq!["dim"@, "dim"@, "dim"@, "dim"@, "dim"@, "dim"@, "dim"@]),
        (5i32, seq!["aug"@, "aug"@, "aug"@, "aug"@, "aug"@, "aug"@, "aug"@]),
    ]
}

/// A chord mode that the mode table knows.
pub open spec fn known_mode(mode: int) -> bool {
    -1 <= mode <= 7
}

/// The name of the chord type that `mode` gives to `degree`.
pub open spec fn mode_chord_name(mode: int, degree: int) -> Seq<char> {
    lookup(chord_mode_table(), mode as i32).unwrap()[degree]
}

/// The intervals of the chord that `mode` gives to `degree`.
pub open spec fn mode_chord_intervals(mode: int, degree: int) -> Seq<u8> {
    lookup(chord_type_table(), mode_chord_name(mode, degree)).unwrap()
}

/// Semitones from the key's tonic to the root of chord `chord_index`:
/// the scale degree `chord_index % 7`, one octave up per seven degrees.
pub open spec fn root_offset(chord_index: int) -> int {
    major_interval(chord_index % 7) + 12 * (chord_index / 7)
}

/// The note values of chord `chord_index` in `mode`, in the major key `key`
/// at `octave`.
pub open spec fn chord_values(key: int, octave: int, chord_index: int, mode: int) -> Seq<int> {
    mode_chord_intervals(mode, chord_index % 7).map_values(
        |iv: u8| key + 12 * octave + root_offset(chord_index) + iv,
    )
}

/// The written name of chord `chord_index` in `mode` in the major key `key`:
/// its root note, then its chord type.
pub open spec fn chord_name(key: int, chord_index: int, mode: int) -> Seq<char> {
    note_text(key + major_interval(chord_index % 7)) + mode_chord_name(mode, chord_index % 7)
}

/// The entries of the chord type dictionary, as plain values.
pub open spec fn type_dict_view(d: Seq<(&'static str, Vec<u8>)>) -> Seq<(Seq<char>, Seq<u8>)> {
    d.map_values(|e: (&'static str, Vec<u8>)| (e.0@, e.1@))
}

/// The entries of the chord mode dictionary, as plain values.
pub open spec fn mode_dict_view(d: Seq<(i32, Vec<&'static str>)>) -> Seq<(i32, Seq<Seq<char>>)> {
    d.map_values(|e: (i32, Vec<&'static str>)| (e.0, str_views(e.1@)))
}

/// The characters of each string slice in a sequence.
pub open spec fn str_views(v: Seq<&'static str>) -> Seq<Seq<char>> {
    v.map_values(|s: &'static str| s@)
}

// ---------------------------------------------------------------------------
// Parsing a written note
// ---------------------------------------------------------------------------

/// A character that ends a note name and starts its octave.
pub open spec fn is_split_char(c: char) -> bool {
    c == '-' || is_digit(c)
}

/// `i` is the position of the first octave character of `s`.
pub open spec fn is_first_split(s: Seq<char>, i: int) -> bool {
    &&& 0 <= i < s.len()
    &&& is_split_char(s[i])
    &&& forall|j: int| 0 <= j < i ==> !is_split_char(#[trigger] s[j])
}

/// The pitch class that `name` names, found from `C` upwards; -1 if none.
pub open spec fn note_index_from(name: Seq<char>, i: int) -> int
    decreases 12 - i,
{
    if i >= 12 {
        -1
    } else if note_name(i) == name {
        i
    } else {
        note_index_from(name, i + 1)
    }
}

/// The pitch class that `name` names; -1 if it names none.
pub open spec fn note_index(name: Seq<char>) -> int {
    note_index_from(name, 0)
}

/// A written note taken apart: its octave and pitch class, or the message
/// that rejects it.
pub open spec fn note_parse(s: Seq<char>) -> Result<(int, int), Seq<char>> {
    if exists|i: int| is_first_split(s, i) {
        let i = choose|i: int| is_first_split(s, i);
        let name = s.take(i);
        match parse_i32_spec(s.skip(i)) {
            None => Err("invalid octave in note: "@ + s),
            Some(octave) => {
                let idx = note_index(name);
                if idx < 0 {
                    Err("invalid note name: "@ + name)
                } else {
                    Ok((octave as int, idx))
                }
            },
        }
    } else {
        Err("invalid note: "@ + s)
    }
}

/// The value of a written note: `12 * octave + pitch class`, truncated to a
/// byte; or the message that rejects it.
pub open spec fn note_value(s: Seq<char>) -> Result<u8, Seq<char>> {
    match note_parse(s) {
        Ok((octave, idx)) => Ok(((octave * 12 + idx) % 256) as u8),
        Err(e) => Err(e),
    }
}

/// The arithmetic on a parsed note stays within `i32`.
pub open spec fn note_value_fits(s: Seq<char>) -> bool {
    match note_parse(s) {
        Ok((octave, idx)) => {
            &&& i32::MIN <= octave * 12 <= i32::MAX
            &&& i32::MIN <= octave * 12 + idx <= i32::MAX
        },
        Err(_) => true,
    }
}

// ---------------------------------------------------------------------------
// Lemmas on the tables
// ---------------------------------------------------------------------------

/// Note names are non-empty, distinct, and hold no octave character.
pub proof fn lemma_note_names()
    ensures
        forall|i: int| 0 <= i < 12 ==> (#[trigger] note_name(i)).len() > 0,
        forall|i: int, k: int|
            0 <= i < 12 && 0 <= k < note_name(i).len() ==> !is_split_char(
                #[trigger] note_name(i)[k],
            ),
        forall|i: int, j: int|
            0 <= i < 12 && 0 <= j < 12 && i != j ==> #[trigger] note_name(i) != #[trigger] note_name(j),
{
    reveal_strlit("C");
    reveal_strlit("C#");
    reveal_strlit("D");
    reveal_strlit("D#");
    reveal_strlit("E");
    reveal_strlit("F");
    reveal_strlit("F#");
    reveal_strlit("G");
    reveal_strlit("G#");
    reveal_strlit("A");
    reveal_strlit("A#");
    reveal_strlit("B");
    assert forall|i: int, j: int|
        0 <= i < 12 && 0 <= j < 12 && i != j implies #[trigger] note_name(i) != #[trigger] note_name(
            j,
        ) by {
        if note_name(i).len() == note_name(j).len() {
            if note_name(i)[0] == note_name(j)[0] {
                assert(note_name(i)[1] != note_name(j)[1]);
            }
        }
    }
}

/// The pitch class of a note name is found again by name.
pub proof fn lemma_note_index(i: int)
    requires
        0 <= i < 12,
    ensures
        note_index(note_name(i)) == i,
{
    lemma_note_names();
    assert forall|k: int| 0 <= k <= i implies note_index_from(note_name(i), k) == i by {
        lemma_note_index_from(i, k);
    }
}

proof fn lemma_note_index_from(i: int, k: int)
    requires
        0 <= k <= i < 12,
        forall|a: int, b: int|
            0 <= a < 12 && 0 <= b < 12 && a != b ==> #[trigger] note_name(a) != #[trigger] note_name(
                b,
            ),
    ensures
        note_index_from(note_name(i), k) == i,
    decreases i - k,
{
    if k < i {
        assert(note_name(k) != note_name(i));
        lemma_note_index_from(i, k + 1);
    }
}

/// Every known mode gives each degree a chord type that the type table knows.
pub proof fn lemma_modes_known(mode: int, degree: int)
    requires
        known_mode(mode),
        0 <= degree < 7,
    ensures
        lookup(chord_mode_table(), mode as i32) is Some,
        lookup(chord_mode_table(), mode as i32).unwrap().len() == 7,
        lookup(chord_type_table(), mode_chord_name(mode, degree)) is Some,
        mode_chord_intervals(mode, degree).len() > 0,
        mode_chord_intervals(mode, degree).len() <= 4,
{
    reveal_with_fuel(lookup, 15);
    reveal_strlit("maj");
    reveal_strlit("min");
    reveal_strlit("dim");
    reveal_strlit("dom7");
    reveal_strlit("maj7");
    reveal_strlit("min7");
    reveal_strlit("min7b5");
    reveal_strlit("majadd9");
    reveal_strlit("minadd9");
    reveal_strlit("dimadd9");
    reveal_strlit("sus4");
    reveal_strlit("maj6");
    reveal_strlit("sus2");
    reveal_strlit("aug");
}

/// The first octave character of a written note is where its octave starts.
proof fn lemma_first_split_unique(s: Seq<char>, i: int, k: int)
    requires
        is_first_split(s, i),
        is_first_split(s, k),
    ensures
        i == k,
{
    if i < k {
        assert(!is_split_char(s[i]));
    } else if k < i {
        assert(!is_split_char(s[k]));
    }
}

/// Writing a note value and parsing it again gives back its octave and pitch
/// class, and so the value itself.
pub proof fn lemma_note_text_roundtrip(v: int)
    requires
        0 <= v < 132,
    ensures
        note_parse(note_text(v)) == Ok::<(int, int), Seq<char>>((v / 12, v % 12)),
        note_value(note_text(v)) == Ok::<u8, Seq<char>>(v as u8),
        note_value_fits(note_text(v)),
{
    let name = note_name(v % 12);
    let d = decimal_text((v / 12) as nat);
    let s = note_text(v);
    lemma_note_names();
    lemma_decimal_text((v / 12) as nat);
    let i = name.len() as int;
    assert(s =~= name + d);
    assert(s[i] == d[0]);
    assert(is_digit(d[0]));
    assert forall|j: int| 0 <= j < i implies !is_split_char(#[trigger] s[j]) by {
        assert(s[j] == name[j]);
    }
    assert(is_first_split(s, i));
    let k = choose|k: int| is_first_split(s, k);
    lemma_first_split_unique(s, i, k);
    assert(s.take(i) =~= name);
    assert(s.skip(i) =~= d);
    assert(!(d[0] == '+' || d[0] == '-'));
    assert(parse_i32_spec(d) == Some((v / 12) as i32));
    lemma_note_index(v % 12);
}

// ---------------------------------------------------------------------------
// Executable tables
// ---------------------------------------------------------------------------

/// The name of pitch class `i`.
fn note_name_str(i: u8) -> (s: &'static str)
    requires
        i < 12,
    ensures
        s@ == note_name(i as int),
{
    if i == 0 {
        "C"
    } else if i == 1 {
        "C#"
    } else if i == 2 {
        "D"
    } else if i == 3 {
        "D#"
    } else if i == 4 {
        "E"
    } else if i == 5 {
        "F"
    } else if i == 6 {
        "F#"
    } else if i == 7 {
        "G"
    } else if i == 8 {
        "G#"
    } else if i == 9 {
        "A"
    } else if i == 10 {
        "A#"
    } else {
        "B"
    }
}

/// The decimal spelling of an octave number.
fn octave_str(octave: u8) -> (s: &'static str)
    requires
        octave <= 10,
    ensures
        s@ == decimal_text(octave as nat),
{
    proof {
        reveal_with_fuel(decimal_text, 2);
    }
    if octave == 0 {
        proof { reveal_strlit("0"); }
        assert("0"@ =~= decimal_text(0));
        "0"
    } else if octave == 1 {
        proof { reveal_strlit("1"); }
        assert("1"@ =~= decimal_text(1));
        "1"
    } else if octave == 2 {
        proof { reveal_strlit("2"); }
        assert("2"@ =~= decimal_text(2));
        "2"
    } else if octave == 3 {
        proof { reveal_strlit("3"); }
        assert("3"@ =~= decimal_text(3));
        "3"
    } else if octave == 4 {
        proof { reveal_strlit("4"); }
        assert("4"@ =~= decimal_text(4));
        "4"
    } else if octave == 5 {
        proof { reveal_strlit("5"); }
        assert("5"@ =~= decimal_text(5));
        "5"
    } else if octave == 6 {
        proof { reveal_strlit("6"); }
        assert("6"@ =~= decimal_text(6));
        "6"
    } else if octave == 7 {
        proof { reveal_strlit("7"); }
        assert("7"@ =~= decimal_text(7));
        "7"
    } else if octave == 8 {
        proof { reveal_strlit("8"); }
        assert("8"@ =~= decimal_text(8));
        "8"
    } else if octave == 9 {
        proof { reveal_strlit("9"); }
        assert("9"@ =~= decimal_text(9));
        "9"
    } else {
        proof { reveal_strlit("10"); }
        assert(decimal_text(10) =~= decimal_text(1) + seq![digit_char(0)]);
        assert("10"@ =~= decimal_text(10));
        "10"
    }
}

/// The dictionary of chord types: each name with its intervals above the root.
pub fn chord_type_dict() -> (d: Vec<(&'static str, Vec<u8>)>)
    ensures
        type_dict_view(d@) =~= chord_type_table(),
{
    let d = vec![
        ("maj", vec![0u8, 4, 7]),
        ("min", vec![0u8, 3, 7]),
        ("dim", vec![0u8, 3, 6]),
        ("dom7", vec![0u8, 4, 7, 10]),
        ("maj7", vec![0u8, 4, 7, 11]),
        ("min7", vec![0u8, 3, 7, 10]),
        ("min7b5", vec![0u8, 3, 6, 10]),
        ("majadd9", vec![0u8, 4, 7, 14]),
        ("minadd9", vec![0u8, 3, 7, 14]),
        ("dimadd9", vec![0u8, 3, 6, 14]),
        ("sus4", vec![0u8, 5, 7]),
        ("maj6", vec![0u8, 4, 7, 9]),
        ("sus2", vec![0u8, 2, 7]),
        ("aug", vec![1u8, 4, 8]),
    ];
    d
}

/// The dictionary of chord modes: each mode with the chord type of each of
/// the seven degrees.
pub fn chord_mode_dict() -> (d: Vec<(i32, Vec<&'static str>)>)
    ensures
        mode_dict_view(d@) =~= chord_mode_table(),
{
    let d = vec![
        (-1i32, vec!["maj", "min", "min", "maj", "maj", "min", "dim"]),
        (6i32, vec!["min", "maj", "maj", "min", "min", "maj", "min"]),
        (7i32, vec!["dom7", "dom7", "dom7", "dom7", "dom7", "dom7", "dom7"]),
        (0i32, vec!["min7", "maj7", "maj7", "min7", "min7", "maj7", "min7b5"]),
        (1i32, vec!["majadd9", "minadd9", "minadd9", "majadd9", "majadd9", "minadd9", "dimadd9"]),
        (2i32, vec!["sus4", "sus4", "sus4", "sus4", "sus4", "sus4", "sus4"]),
        (3i32, vec!["maj6", "sus2", "sus2", "maj6", "maj6", "sus2", "sus2"]),
        (4i32, vec!["dim", "dim", "dim", "dim", "dim", "dim", "dim"]),
        (5i32, vec!["aug", "aug", "aug", "aug", "aug", "aug", "aug"]),
    ];
    assert forall|k: int| 0 <= k < 9 implies #[trigger] str_views(d@[k].1@) =~= chord_mode_table()[k].1 by {
        assert(str_views(d@[k].1@).len() == 7);
    }
    d
}

/// The intervals stored under `name` in a chord type dictionary.
fn find_chord_type<'a>(d: &'a Vec<(&'static str, Vec<u8>)>, name: &str) -> (r: Option<&'a Vec<u8>>)
    ensures
        match r {
            Some(v) => lookup(type_dict_view(d@), name@) == Some(v@),
            None => lookup(type_dict_view(d@), name@) is None,
        },
{
    let ghost t = type_dict_view(d@);
    let mut i: usize = 0;
    assert(t.skip(0) =~= t);
    while i < d.len()
        invariant
            t == type_dict_view(d@),
            i <= d@.len(),
            lookup(t, name@) == lookup(t.skip(i as int), name@),
        decreases d@.len() - i,
    {
        assert(t.skip(i as int)[0] == t[i as int]);
        assert(t.skip(i as int).drop_first() =~= t.skip(i + 1));
        if str_eq(d[i].0, name) {
            return Some(&d[i].1);
        }
        i += 1;
    }
    assert(t.skip(i as int).len() == 0);
    None
}

/// The chord type names stored under `mode` in a chord mode dictionary.
fn find_chord_mode<'a>(d: &'a Vec<(i32, Vec<&'static str>)>, mode: i32) -> (r: Option<&'a Vec<&'static str>>)
    ensures
        match r {
            Some(v) => lookup(mode_dict_view(d@), mode) == Some(str_views(v@)),
            None => lookup(mode_dict_view(d@), mode) is None,
        },
{
    let ghost t = mode_dict_view(d@);
    let mut i: usize = 0;
    assert(t.skip(0) =~= t);
    while i < d.len()
        invariant
            t == mode_dict_view(d@),
            i <= d@.len(),
            lookup(t, mode) == lookup(t.skip(i as int), mode),
        decreases d@.len() - i,
    {
        assert(t.skip(i as int)[0] == t[i as int]);
        assert(t.skip(i as int).drop_first() =~= t.skip(i + 1));
        if d[i].0 == mode {
            return Some(&d[i].1);
        }
        i += 1;
    }
    assert(t.skip(i as int).len() == 0);
    None
}

// ---------------------------------------------------------------------------
// The chord engine
// ---------------------------------------------------------------------------

/// The current key and octave, with the names of the notes of the key.
pub struct ChordEngine {
    key: u8,
    octave: u8,
    key_notes: Vec<String>,
}

impl ChordEngine {
    /// The tonic of the current key, as a note value.
    pub closed spec fn key(&self) -> u8 {
        self.key
    }

    /// The current octave.
    pub closed spec fn octave(&self) -> u8 {
        self.octave
    }

    /// The note names kept for the current key.
    pub closed spec fn notes(&self) -> Seq<Seq<char>> {
        self.key_notes.deep_view()
    }

    /// The kept note names are those of the current key, and the key leaves
    /// room for the scale's intervals within a byte.
    #[verifier::type_invariant]
    closed spec fn inv(self) -> bool {
        &&& self.key <= 244
        &&& self.key_notes.deep_view() == key_notes(self.key as int)
    }

    /// An engine in the major key `key` at `octave`.
    pub fn new(key: u8, octave: u8) -> (r: Self)
        requires
            key <= 244,
        ensures
            r.key() == key,
            r.octave() == octave,
            r.notes() == key_notes(key as int),
    {
        ChordEngine { key, octave, key_notes: ChordEngine::get_key_notes(key) }
    }

    /// Moves to the major key `key`.
    pub fn set_key(&mut self, key: u8)
        requires
            key <= 244,
        ensures
            final(self).key() == key,
            final(self).octave() == old(self).octave(),
            final(self).notes() == key_notes(key as int),
    {
        let notes = ChordEngine::get_key_notes(key);
        *self = ChordEngine { key, octave: self.octave, key_notes: notes };
    }

    /// Moves down a semitone, wrapping from `C` to `B`.
    pub fn decrement_key(&mut self)
        ensures
            final(self).key() == prev_key(old(self).key() as int),
            final(self).octave() == old(self).octave(),
    {
        proof {
            use_type_invariant(&*self);
        }
        self.set_key((self.key + (12 - 1)) % 12);
    }

    /// Moves up a semitone, wrapping from `B` to `C`.
    pub fn increment_key(&mut self)
        ensures
            final(self).key() == next_key(old(self).key() as int),
            final(self).octave() == old(self).octave(),
    {
        proof {
            use_type_invariant(&*self);
        }
        self.set_key((self.key + 1) % 12);
    }

    /// The name of the key's tonic.
    pub fn get_key(&self) -> (r: String)
        requires
            self.key() < 12,
        ensures
            r@ == note_name(self.key() as int),
    {
        String::from_str(note_name_str(self.key))
    }

    /// The tonic of the current key, as a note value.
    pub fn get_key_value(&self) -> (r: u8)
        ensures
            r == self.key(),
            r <= 244,
            self.notes() == key_notes(r as int),
    {
        proof {
            use_type_invariant(self);
        }
        self.key
    }

    /// Moves to `octave`.
    pub fn set_octave(&mut self, octave: u8)
        ensures
            final(self).octave() == octave,
            final(self).key() == old(self).key(),
    {
        proof {
            use_type_invariant(&*self);
        }
        self.octave = octave;
    }

    /// Moves an octave down, wrapping from 0 to 8.
    pub fn decrement_octave(&mut self)
        requires
            old(self).octave() <= 247,
        ensures
            final(self).octave() == prev_octave(old(self).octave() as int),
            final(self).key() == old(self).key(),
    {
        self.set_octave((self.octave + (9 - 1)) % 9);
    }

    /// Moves an octave up, wrapping from 8 to 0.
    pub fn increment_octave(&mut self)
        requires
            old(self).octave() < 255,
        ensures
            final(self).octave() == next_octave(old(self).octave() as int),
            final(self).key() == old(self).key(),
    {
        self.set_octave((self.octave + 1) % 9);
    }

    /// The current octave.
    pub fn get_octave(&self) -> (r: u8)
        ensures
            r == self.octave(),
    {
        self.octave
    }

    /// Applies a key-control button: share raises the key, options the
    /// octave; pressing the left stick lowers both and letting it go raises
    /// both; pressing the right stick raises the key and letting it go
    /// lowers it. Returns whether `b` is a key control.
    pub fn handle_key_button(&mut self, b: ButtonType, pressed: bool) -> (handled: bool)
        requires
            old(self).octave() < 9,
        ensures
            handled == key_button_result(old(self).key() as int, old(self).octave() as int, b, pressed) is Some,
            handled ==> key_button_result(old(self).key() as int, old(self).octave() as int, b, pressed)
                == Some((final(self).key() as int, final(self).octave() as int)),
            !handled ==> final(self).key() == old(self).key() && final(self).octave() == old(self).octave(),
            final(self).octave() < 9,
    {
        match (b, pressed) {
            (ButtonType::Share, true) => {
                self.increment_key();
                true
            },
            (ButtonType::Options, true) => {
                self.increment_octave();
                true
            },
            (ButtonType::LStickBtn, true) => {
                self.decrement_key();
                self.decrement_octave();
                true
            },
            (ButtonType::LStickBtn, false) => {
                self.increment_key();
                self.increment_octave();
                true
            },
            (ButtonType::RStickBtn, true) => {
                self.increment_key();
                true
            },
            (ButtonType::RStickBtn, false) => {
                self.decrement_key();
                true
            },
            _ => false,
        }
    }

    /// Whether `get_chord_notes(chord_index, chord_mode)` can be written in
    /// the current key and octave: the mode is known, the index is not
    /// negative, and every note stays below octave 11.
    pub fn chord_fits(&self, chord_index: i32, chord_mode: i32) -> (r: bool)
        ensures
            r == (known_mode(chord_mode as int) && chord_index >= 0 && forall|k: int|
                0 <= k < chord_values(
                    self.key() as int,
                    self.octave() as int,
                    chord_index as int,
                    chord_mode as int,
                ).len() ==> #[trigger] chord_values(
                    self.key() as int,
                    self.octave() as int,
                    chord_index as int,
                    chord_mode as int,
                )[k] < 132),
    {
        if chord_mode < -1 || chord_mode > 7 || chord_index < 0 {
            return false;
        }
        let ghost values = chord_values(
            self.key() as int,
            self.octave() as int,
            chord_index as int,
            chord_mode as int,
        );
        let degree = (chord_index % 7) as usize;
        proof {
            lemma_modes_known(chord_mode as int, degree as int);
        }
        let modes = chord_mode_dict();
        let names = find_chord_mode(&modes, chord_mode).unwrap();
        let types = chord_type_dict();
        let intervals = find_chord_type(&types, names[degree]).unwrap();
        let base: u64 = self.key as u64 + 12 * self.octave as u64 + ChordEngine::key_note_all_note_index(degree) as u64
            + 12 * (chord_index / 7) as u64;
        let mut k: usize = 0;
        while k < intervals.len()
            invariant
                values == chord_values(
                    self.key() as int,
                    self.octave() as int,
                    chord_index as int,
                    chord_mode as int,
                ),
                intervals@ == mode_chord_intervals(chord_mode as int, degree as int),
                degree == chord_index % 7,
                base == self.key() + 12 * self.octave() + root_offset(chord_index as int),
                k <= intervals@.len(),
                forall|j: int| 0 <= j < k ==> #[trigger] values[j] < 132,
            decreases intervals@.len() - k,
        {
            assert(values[k as int] == base + intervals@[k as int]);
            if base + intervals[k] as u64 >= 132 {
                return false;
            }
            k += 1;
        }
        true
    }

    /// The names of the seven notes of the major key `key`.
    pub fn get_key_notes(key: u8) -> (r: Vec<String>)
        requires
            key <= 244,
        ensures
            r.deep_view() == key_notes(key as int),
    {
        let mut r: Vec<String> = Vec::new();
        let mut i: usize = 0;
        while i < 7
            invariant
                key <= 244,
                i <= 7,
                r@.len() == i,
                forall|j: int| 0 <= j < i ==> #[trigger] r@[j]@ == key_notes(key as int)[j],
            decreases 7 - i,
        {
            let offset = ChordEngine::key_note_all_note_index(i);
            r.push(String::from_str(note_name_str((key + offset) % 12)));
            i += 1;
        }
        assert(r.deep_view() =~= key_notes(key as int));
        r
    }

    /// The written form of note value `value + diff`.
    pub fn note_add(value: u8, diff: u8) -> (r: String)
        requires
            value + diff < 132,
        ensures
            r@ == note_text(value + diff),
    {
        match ChordEngine::value_to_note(value + diff) {
            Ok(s) => s,
            Err(_) => {
                assert(false);
                String::new()
            },
        }
    }

    /// Semitones from the tonic to degree `key_note_index` of a major scale.
    fn key_note_all_note_index(key_note_index: usize) -> (r: u8)
        requires
            key_note_index < 7,
        ensures
            r == major_interval(key_note_index as int),
    {
        if key_note_index == 0 {
            0
        } else if key_note_index == 1 {
            2
        } else if key_note_index == 2 {
            4
        } else if key_note_index == 3 {
            5
        } else if key_note_index == 4 {
            7
        } else if key_note_index == 5 {
            9
        } else {
            11
        }
    }

    /// The written form of note value `value`; an error past octave 10.
    pub fn value_to_note(value: u8) -> (r: Result<String, String>)
        ensures
            match r {
                Ok(s) => value / 12 <= 10 && s@ == note_text(value as int),
                Err(e) => value / 12 > 10 && e@ == "bad octave"@,
            },
    {
        let octave = value / 12;
        let note_index = value % 12;
        if octave > 10 {
            return Err(String::from_str("bad octave"));
        }
        let mut s = String::from_str(note_name_str(note_index));
        s.append(octave_str(octave));
        Ok(s)
    }

    /// A written note such as `C#4` or `A-1` taken apart: its octave and its
    /// pitch class.
    pub fn note_parts(note: &str) -> (r: Result<(i32, u8), String>)
        ensures
            match r {
                Ok((octave, idx)) => note_parse(note@) == Ok::<(int, int), Seq<char>>((octave as int, idx as int)),
                Err(e) => note_parse(note@) == Err::<(int, int), Seq<char>>(e@),
            },
    {
        let n = note.unicode_len();
        let mut i: usize = 0;
        let mut found = false;
        while i < n && !found
            invariant
                n == note@.len(),
                i <= n,
                found ==> i < n && is_first_split(note@, i as int),
                !found ==> forall|j: int| 0 <= j < i ==> !is_split_char(#[trigger] note@[j]),
            decreases n - i + (if found {
                0int
            } else {
                1int
            }),
        {
            let c = note.get_char(i);
            if c == '-' || is_digit_char(c) {
                found = true;
            } else {
                i += 1;
            }
        }
        if !found {
            assert(!exists|k: int| is_first_split(note@, k));
            let mut e = String::from_str("invalid note: ");
            e.append(note);
            return Err(e);
        }
        proof {
            let k = choose|k: int| is_first_split(note@, k);
            lemma_first_split_unique(note@, i as int, k);
        }
        let name = note.substring_char(0, i);
        let octave_str = note.substring_char(i, n);
        assert(name@ =~= note@.take(i as int));
        assert(octave_str@ =~= note@.skip(i as int));
        match parse_i32(octave_str) {
            None => {
                let mut e = String::from_str("invalid octave in note: ");
                e.append(note);
                Err(e)
            },
            Some(octave) => match note_index_of(name) {
                None => {
                    let mut e = String::from_str("invalid note name: ");
                    e.append(name);
                    Err(e)
                },
                Some(idx) => Ok((octave, idx)),
            },
        }
    }

    /// Whether `note_to_value` can compute the value of `note` within `i32`
    /// (see `note_value_fits`).
    pub fn note_fits(note: &str) -> (r: bool)
        ensures
            r == note_value_fits(note@),
    {
        match ChordEngine::note_parts(note) {
            Ok((octave, idx)) => {
                let x = octave as i64 * 12;
                -0x8000_0000 <= x && x <= 0x7fff_ffff && x + idx as i64 <= 0x7fff_ffff
            },
            Err(_) => true,
        }
    }

    /// The value of a written note such as `C#4` or `A-1`: twelve times its
    /// octave plus its pitch class, truncated to a byte.
    pub fn note_to_value(note: &str) -> (r: Result<u8, String>)
        requires
            note_value_fits(note@),
        ensures
            match r {
                Ok(v) => note_value(note@) == Ok::<u8, Seq<char>>(v),
                Err(e) => note_value(note@) == Err::<u8, Seq<char>>(e@),
            },
    {
        match ChordEngine::note_parts(note) {
            Ok((octave, idx)) => {
                let x: i32 = octave * 12 + idx as i32;
                assert((x as u8) as int == x % 256) by (bit_vector);
                Ok(x as u8)
            },
            Err(e) => Err(e),
        }
    }

    /// The names of the notes of chord `chord_index` in `chord_mode`, in the
    /// current key and octave.
    pub fn get_chord_notes(&self, chord_index: i32, chord_mode: i32) -> (r: Vec<String>)
        requires
            known_mode(chord_mode as int),
            chord_index >= 0,
            forall|k: int|
                0 <= k < chord_values(
                    self.key() as int,
                    self.octave() as int,
                    chord_index as int,
                    chord_mode as int,
                ).len() ==> #[trigger] chord_values(
                    self.key() as int,
                    self.octave() as int,
                    chord_index as int,
                    chord_mode as int,
                )[k] < 132,
        ensures
            r.deep_view() == chord_values(
                self.key() as int,
                self.octave() as int,
                chord_index as int,
                chord_mode as int,
            ).map_values(|v: int| note_text(v)),
    {
        let ghost values = chord_values(
            self.key() as int,
            self.octave() as int,
            chord_index as int,
            chord_mode as int,
        );
        let modes = chord_mode_dict();
        let degree = (chord_index % 7) as usize;
        proof {
            lemma_modes_known(chord_mode as int, degree as int);
        }
        let names = find_chord_mode(&modes, chord_mode).unwrap();
        let chord_mode_str = names[degree];
        assert(chord_mode_str@ == mode_chord_name(chord_mode as int, degree as int));
        let types = chord_type_dict();
        let intervals = find_chord_type(&types, chord_mode_str).unwrap();
        assert(intervals@ == mode_chord_intervals(chord_mode as int, degree as int));
        assert(values[0] < 132);
        let octave_shift = 12 * ((chord_index / 7) as u8);
        let root = ChordEngine::key_note_all_note_index(degree) + octave_shift;
        assert(root == root_offset(chord_index as int));
        let base = self.key + 12 * self.octave;
        let mut r: Vec<String> = Vec::new();
        let mut k: usize = 0;
        while k < intervals.len()
            invariant
                values == chord_values(
                    self.key() as int,
                    self.octave() as int,
                    chord_index as int,
                    chord_mode as int,
                ),
                intervals@ == mode_chord_intervals(chord_mode as int, degree as int),
                degree == chord_index % 7,
                values.len() == intervals@.len(),
                forall|j: int| 0 <= j < values.len() ==> #[trigger] values[j] < 132,
                base == self.key() + 12 * self.octave(),
                root == root_offset(chord_index as int),
                k <= intervals@.len(),
                r@.len() == k,
                forall|j: int| 0 <= j < k ==> #[trigger] r@[j]@ == note_text(values[j]),
            decreases intervals@.len() - k,
        {
            assert(values[k as int] == base + root + intervals@[k as int]);
            r.push(ChordEngine::note_add(base, root + intervals[k]));
            k += 1;
        }
        assert(r.deep_view() =~= values.map_values(|v: int| note_text(v)));
        r
    }

    /// The name of chord `chord_index` in `chord_mode` in the major key `key`,
    /// such as `D4min`: the written root note, then the chord type.
    pub fn get_chord_name(key: u8, chord_index: i32, chord_mode: i32) -> (r: String)
        requires
            known_mode(chord_mode as int),
            chord_index >= 0 || chord_index % 7 == 0,
            key + major_interval(chord_index as int % 7) < 132,
        ensures
            r@ == chord_name(key as int, chord_index as int, chord_mode as int),
    {
        let degree = (chord_index % 7) as usize;
        assert(degree == chord_index % 7);
        let mut s = ChordEngine::note_add(key, ChordEngine::key_note_all_note_index(degree));
        proof {
            lemma_modes_known(chord_mode as int, degree as int);
        }
        let modes = chord_mode_dict();
        let names = find_chord_mode(&modes, chord_mode).unwrap();
        let chord_mode_str = names[degree];
        s.append(chord_mode_str);
        s
    }
}

/// The pitch class that `name` names.
fn note_index_of(name: &str) -> (r: Option<u8>)
    ensures
        match r {
            Some(k) => k < 12 && note_index(name@) == k,
            None => note_index(name@) < 0,
        },
{
    let mut k: u8 = 0;
    while k < 12
        invariant
            k <= 12,
            note_index(name@) == note_index_from(name@, k as int),
        decreases 12 - k,
    {
        if str_eq(note_name_str(k), name) {
            return Some(k);
        }
        k += 1;
    }
    None
}

// ---------------------------------------------------------------------------
// Laws
// ---------------------------------------------------------------------------

/// Stepping the key up and then down, or down and then up, comes back to
/// the same key; either step stays among the twelve keys.
pub proof fn law_key_steps_inverse(key: int)
    requires
        0 <= key < 12,
    ensures
        prev_key(next_key(key)) == key,
        next_key(prev_key(key)) == key,
        0 <= next_key(key) < 12,
        0 <= prev_key(key) < 12,
{
}

/// Stepping the octave up and then down, or down and then up, comes back to
/// the same octave; either step stays among the nine octaves.
pub proof fn law_octave_steps_inverse(octave: int)
    requires
        0 <= octave < 9,
    ensures
        prev_octave(next_octave(octave)) == octave,
        next_octave(prev_octave(octave)) == octave,
        0 <= next_octave(octave) < 9,
        0 <= prev_octave(octave) < 9,
{
}

/// Reading back the written form of a note value gives the value: what
/// `note_to_value` makes of what `value_to_note` writes.
pub proof fn law_note_roundtrip(v: u8)
    requires
        v / 12 <= 10,
    ensures
        note_value_fits(note_text(v as int)),
        note_value(note_text(v as int)) == Ok::<u8, Seq<char>>(v),
{
    lemma_note_text_roundtrip(v as int);
}

/// The notes of a chord read back as the chord's note values.
pub proof fn law_chord_notes_read_back(key: u8, octave: u8, chord_index: int, mode: int)
    requires
        known_mode(mode),
        chord_index >= 0,
        forall|k: int|
            0 <= k < chord_values(key as int, octave as int, chord_index, mode).len()
                ==> #[trigger] chord_values(key as int, octave as int, chord_index, mode)[k] < 132,
    ensures
        forall|k: int|
            0 <= k < chord_values(key as int, octave as int, chord_index, mode).len() ==> note_value(
                note_text(#[trigger] chord_values(key as int, octave as int, chord_index, mode)[k]),
            ) == Ok::<u8, Seq<char>>(chord_values(key as int, octave as int, chord_index, mode)[k] as u8),
{
    let values = chord_values(key as int, octave as int, chord_index, mode);
    assert forall|k: int| 0 <= k < values.len() implies note_value(note_text(#[trigger] values[k]))
        == Ok::<u8, Seq<char>>(values[k] as u8) by {
        assert(root_offset(chord_index) >= 0);
        lemma_note_text_roundtrip(values[k]);
    }
}

/// The seven notes of a major key are seven different notes.
pub proof fn law_key_notes_distinct(key: int)
    requires
        key >= 0,
    ensures
        key_notes(key).len() == 7,
        forall|i: int, j: int|
            0 <= i < j < 7 ==> #[trigger] key_notes(key)[i] != #[trigger] key_notes(key)[j],
{
    lemma_note_names();
    assert forall|i: int, j: int| 0 <= i < j < 7 implies #[trigger] key_notes(key)[i]
        != #[trigger] key_notes(key)[j] by {
        let a = (key + major_interval(i)) % 12;
        let b = (key + major_interval(j)) % 12;
        assert(0 < major_interval(j) - major_interval(i) < 12);
        assert(a != b);
        assert(note_name(a) != note_name(b));
    }
}

// ---------------------------------------------------------------------------
// Laws on the chords that each mode builds
// ---------------------------------------------------------------------------

/// The chord, as semitones above its root, that chord mode `mode` builds on
/// scale degree `degree`, written out from the harmony of each mode: a major
/// triad is a major third (4) and a perfect fifth (7) above the root, a minor
/// triad a minor third (3) and the fifth, a diminished triad a minor third
/// and a diminished fifth (6).
///
/// - mode -1: the triads of the major key: major on I, IV and V, minor on
///   ii, iii and vi, diminished on vii;
/// - mode 6: the same degrees with the other third: minor on I, IV, V and
///   vii, major on ii, iii and vi;
/// - mode 7: a dominant seventh (major triad and minor seventh, 10) on
///   every degree;
/// - mode 0: minor sevenths (minor triad and 10) on I, IV and V, major
///   sevenths (major triad and 11) on ii, iii and vi, a half-diminished
///   seventh (diminished triad and 10) on vii;
/// - mode 1: the triads of mode -1 with an added ninth (14);
/// - mode 2: suspended fourths (5 and 7) on every degree;
/// - mode 3: a major sixth chord (major triad and 9) on I, IV and V,
///   suspended seconds (2 and 7) elsewhere;
/// - mode 4: a diminished triad on every degree;
/// - mode 5: an augmented triad one semitone up (1, 4 and 8) on every degree.
pub open spec fn chord_shape(mode: int, degree: int) -> Seq<int> {
    let major = seq![0int, 4, 7];
    let minor = seq![0int, 3, 7];
    let diminished = seq![0int, 3, 6];
    let tonal = degree == 0 || degree == 3 || degree == 4;
    let relative = degree == 1 || degree == 2 || degree == 5;
    if mode == -1 {
        if tonal {
            major
        } else if degree == 6 {
            diminished
        } else {
            minor
        }
    } else if mode == 6 {
        if relative {
            major
        } else {
            minor
        }
    } else if mode == 7 {
        major.push(10)
    } else if mode == 0 {
        if relative {
            major.push(11)
        } else if degree == 6 {
            diminished.push(10)
        } else {
            minor.push(10)
        }
    } else if mode == 1 {
        if tonal {
            major.push(14)
        } else if degree == 6 {
            diminished.push(14)
        } else {
            minor.push(14)
        }
    } else if mode == 2 {
        seq![0int, 5, 7]
    } else if mode == 3 {
        if tonal {
            major.push(9)
        } else {
            seq![0int, 2, 7]
        }
    } else if mode == 4 {
        diminished
    } else {
        seq![1int, 4, 8]
    }
}

/// The name of the chord type that chord mode `mode` puts on scale degree
/// `degree`, written out mode by mode (see `chord_shape`).
pub open spec fn chord_type_name(mode: int, degree: int) -> Seq<char> {
    let tonal = degree == 0 || degree == 3 || degree == 4;
    let relative = degree == 1 || degree == 2 || degree == 5;
    if mode == -1 {
        if tonal {
            "maj"@
        } else if degree == 6 {
            "dim"@
        } else {
            "min"@
        }
    } else if mode == 6 {
        if relative {
            "maj"@
        } else {
            "min"@
        }
    } else if mode == 7 {
        "dom7"@
    } else if mode == 0 {
        if relative {
            "maj7"@
        } else if degree == 6 {
            "min7b5"@
        } else {
            "min7"@
        }
    } else if mode == 1 {
        if tonal {
            "majadd9"@
        } else if degree == 6 {
            "dimadd9"@
        } else {
            "minadd9"@
        }
    } else if mode == 2 {
        "sus4"@
    } else if mode == 3 {
        if tonal {
            "maj6"@
        } else {
            "sus2"@
        }
    } else if mode == 4 {
        "dim"@
    } else {
        "aug"@
    }
}

/// The intervals of each chord type, as the type table gives them.
proof fn lemma_type_table()
    ensures
        lookup(chord_type_table(), "maj"@) == Some(seq![0u8, 4, 7]),
        lookup(chord_type_table(), "min"@) == Some(seq![0u8, 3, 7]),
        lookup(chord_type_table(), "dim"@) == Some(seq![0u8, 3, 6]),
        lookup(chord_type_table(), "dom7"@) == Some(seq![0u8, 4, 7, 10]),
        lookup(chord_type_table(), "maj7"@) == Some(seq![0u8, 4, 7, 11]),
        lookup(chord_type_table(), "min7"@) == Some(seq![0u8, 3, 7, 10]),
        lookup(chord_type_table(), "min7b5"@) == Some(seq![0u8, 3, 6, 10]),
        lookup(chord_type_table(), "majadd9"@) == Some(seq![0u8, 4, 7, 14]),
        lookup(chord_type_table(), "minadd9"@) == Some(seq![0u8, 3, 7, 14]),
        lookup(chord_type_table(), "dimadd9"@) == Some(seq![0u8, 3, 6, 14]),
        lookup(chord_type_table(), "sus4"@) == Some(seq![0u8, 5, 7]),
        lookup(chord_type_table(), "maj6"@) == Some(seq![0u8, 4, 7, 9]),
        lookup(chord_type_table(), "sus2"@) == Some(seq![0u8, 2, 7]),
        lookup(chord_type_table(), "aug"@) == Some(seq![1u8, 4, 8]),
{
    reveal_with_fuel(lookup, 15);
    reveal_strlit("maj");
    reveal_strlit("min");
    reveal_strlit("dim");
    reveal_strlit("dom7");
    reveal_strlit("maj7");
    reveal_strlit("min7");
    reveal_strlit("min7b5");
    reveal_strlit("majadd9");
    reveal_strlit("minadd9");
    reveal_strlit("dimadd9");
    reveal_strlit("sus4");
    reveal_strlit("maj6");
    reveal_strlit("sus2");
    reveal_strlit("aug");
    assert("min"@[1] != "maj"@[1]);
    assert("dim"@[0] != "maj"@[0]);
    assert("dim"@[0] != "min"@[0]);
    assert("dom7"@.len() != "maj"@.len());
    assert("dom7"@.len() != "min"@.len());
    assert("dom7"@.len() != "dim"@.len());
    assert("maj7"@.len() != "maj"@.len());
    assert("maj7"@.len() != "min"@.len());
    assert("maj7"@.len() != "dim"@.len());
    assert("maj7"@[0] != "dom7"@[0]);
    assert("min7"@.len() != "maj"@.len());
    assert("min7"@.len() != "min"@.len());
    assert("min7"@.len() != "dim"@.len());
    assert("min7"@[0] != "dom7"@[0]);
    assert("min7"@[1] != "maj7"@[1]);
    assert("min7b5"@.len() != "maj"@.len());
    assert("min7b5"@.len() != "min"@.len());
    assert("min7b5"@.len() != "dim"@.len());
    assert("min7b5"@.len() != "dom7"@.len());
    assert("min7b5"@.len() != "maj7"@.len());
    assert("min7b5"@.len() != "min7"@.len());
    assert("majadd9"@.len() != "maj"@.len());
    assert("majadd9"@.len() != "min"@.len());
    assert("majadd9"@.len() != "dim"@.len());
    assert("majadd9"@.len() != "dom7"@.len());
    assert("majadd9"@.len() != "maj7"@.len());
    assert("majadd9"@.len() != "min7"@.len());
    assert("majadd9"@.len() != "min7b5"@.len());
    assert("minadd9"@.len() != "maj"@.len());
    assert("minadd9"@.len() != "min"@.len());
    assert("minadd9"@.len() != "dim"@.len());
    assert("minadd9"@.len() != "dom7"@.len());
    assert("minadd9"@.len() != "maj7"@.len());
    assert("minadd9"@.len() != "min7"@.len());
    assert("minadd9"@.len() != "min7b5"@.len());
    assert("minadd9"@[1] != "majadd9"@[1]);
    assert("dimadd9"@.len() != "maj"@.len());
    assert("dimadd9"@.len() != "min"@.len());
    assert("dimadd9"@.len() != "dim"@.len());
    assert("dimadd9"@.len() != "dom7"@.len());
    assert("dimadd9"@.len() != "maj7"@.len());
    assert("dimadd9"@.len() != "min7"@.len());
    assert("dimadd9"@.len() != "min7b5"@.len());
    assert("dimadd9"@[0] != "majadd9"@[0]);
    assert("dimadd9"@[0] != "minadd9"@[0]);
    assert("sus4"@.len() != "maj"@.len());
    assert("sus4"@.len() != "min"@.len());
    assert("sus4"@.len() != "dim"@.len());
    assert("sus4"@[0] != "dom7"@[0]);
    assert("sus4"@[0] != "maj7"@[0]);
    assert("sus4"@[0] != "min7"@[0]);
    assert("sus4"@.len() != "min7b5"@.len());
    assert("sus4"@.len() != "majadd9"@.len());
    assert("sus4"@.len() != "minadd9"@.len());
    assert("sus4"@.len() != "dimadd9"@.len());
    assert("maj6"@.len() != "maj"@.len());
    assert("maj6"@.len() != "min"@.len());
    assert("maj6"@.len() != "dim"@.len());
    assert("maj6"@[0] != "dom7"@[0]);
    assert("maj6"@[3] != "maj7"@[3]);
    assert("maj6"@[1] != "min7"@[1]);
    assert("maj6"@.len() != "min7b5"@.len());
    assert("maj6"@.len() != "majadd9"@.len());
    assert("maj6"@.len() != "minadd9"@.len());
    assert("maj6"@.len() != "dimadd9"@.len());
    assert("maj6"@[0] != "sus4"@[0]);
    assert("sus2"@.len() != "maj"@.len());
    assert("sus2"@.len() != "min"@.len());
    assert("sus2"@.len() != "dim"@.len());
    assert("sus2"@[0] != "dom7"@[0]);
    assert("sus2"@[0] != "maj7"@[0]);
    assert("sus2"@[0] != "min7"@[0]);
    assert("sus2"@.len() != "min7b5"@.len());
    assert("sus2"@.len() != "majadd9"@.len());
    assert("sus2"@.len() != "minadd9"@.len());
    assert("sus2"@.len() != "dimadd9"@.len());
    assert("sus2"@[3] != "sus4"@[3]);
    assert("sus2"@[0] != "maj6"@[0]);
    assert("aug"@[0] != "maj"@[0]);
    assert("aug"@[0] != "min"@[0]);
    assert("aug"@[0] != "dim"@[0]);
    assert("aug"@.len() != "dom7"@.len());
    assert("aug"@.len() != "maj7"@.len());
    assert("aug"@.len() != "min7"@.len());
    assert("aug"@.len() != "min7b5"@.len());
    assert("aug"@.len() != "majadd9"@.len());
    assert("aug"@.len() != "minadd9"@.len());
    assert("aug"@.len() != "dimadd9"@.len());
    assert("aug"@.len() != "sus4"@.len());
    assert("aug"@.len() != "maj6"@.len());
    assert("aug"@.len() != "sus2"@.len());
}

/// The chord types and modes that the tables hold are those of the harmony
/// that `chord_shape` and `chord_type_name` write out.
proof fn lemma_tables_match_harmony(mode: int, degree: int)
    requires
        known_mode(mode),
        0 <= degree < 7,
    ensures
        mode_chord_name(mode, degree) == chord_type_name(mode, degree),
        mode_chord_intervals(mode, degree).len() == chord_shape(mode, degree).len(),
        forall|k: int|
            0 <= k < chord_shape(mode, degree).len() ==> mode_chord_intervals(mode, degree)[k] as int
                == #[trigger] chord_shape(mode, degree)[k],
{
    lemma_modes_known(mode, degree);
    lemma_type_table();
    reveal_with_fuel(lookup, 15);
    reveal_strlit("maj");
    reveal_strlit("min");
    reveal_strlit("dim");
    reveal_strlit("dom7");
    reveal_strlit("maj7");
    reveal_strlit("min7");
    reveal_strlit("min7b5");
    reveal_strlit("majadd9");
    reveal_strlit("minadd9");
    reveal_strlit("dimadd9");
    reveal_strlit("sus4");
    reveal_strlit("maj6");
    reveal_strlit("sus2");
    reveal_strlit("aug");
    if mode == -1 {
        if degree == 0 {
            assert(mode_chord_intervals(mode, degree) =~= seq![0u8, 4, 7]);
            assert(chord_shape(mode, degree) =~= seq![0int, 4, 7]);
        } else if degree == 1 {
            assert(mode_chord_intervals(mode, degree) =~= seq![0u8, 3, 7]);
            assert(chord_shape(mode, degree) =~= seq![0int, 3, 7]);
        } else if degree == 2 {
            assert(mode_chord_intervals(mode, degree) =~= seq![0u8, 3, 7]);
            assert(chord_shape(mode, degree) =~= seq![0int, 3, 7]);
        } else if degree == 3 {
            assert(mode_chord_intervals(mode, degree) =~= seq![0u8, 4, 7]);
            assert(chord_shape(mode, degree) =~= seq![0int, 4, 7]);
        } else if degree == 4 {
            assert(mode_chord_intervals(mode, degree) =~= seq![0u8, 4, 7]);
            assert(chord_shape(mode, degree) =~= seq![0int, 4, 7]);
        } else if degree == 5 {
            assert(mode_chord_intervals(mode, degree) =~= seq![0u8, 3, 7]);
            assert(chord_shape(mode, degree) =~= seq![0int, 3, 7]);
        } else if degree == 6 {
            assert(mode_chord_intervals(mode, degree) =~= seq![0u8, 3, 6]);
            assert(chord_shape(mode, degree) =~= seq![0int, 3, 6]);
        }
    } else if mode == 6 {
        if degree == 0 {
            assert(mode_chord_intervals(mode, degree) =~= seq![0u8, 3, 7]);
            assert(chord_shape(mode, degree) =~= seq![0int, 3, 7]);
        } else if degree == 1 {
            assert(mode_chord_intervals(mode, degree) =~= seq![0u8, 4, 7]);
            assert(chord_shape(mode, degree) =~= seq![0int, 4, 7]);
        } else if degree == 2 {
            assert(mode_chord_intervals(mode, degree) =~= seq![0u8, 4, 7]);
            assert(chord_shape(mode, degree) =~= seq![0int, 4, 7]);
        } else if degree == 3 {
            assert(mode_chord_intervals(mode, degree) =~= seq![0u8, 3, 7]);
            assert(chord_shape(mode, degree) =~= seq![0int, 3, 7]);
        } else if degree == 4 {
            assert(mode_chord_intervals(mode, degree) =~= seq![0u8, 3, 7]);
            assert(chord_shape(mode, degree) =~= seq![0int, 3, 7]);
        } else if degree == 5 {
            assert(mode_chord_intervals(mode, degree) =~= seq![0u8, 4, 7]);
            assert(chord_shape(mode, degree) =~= seq![0int, 4, 7]);
        } else if degree == 6 {
            assert(mode_chord_intervals(mode, degree) =~= seq![0u8, 3, 7]);
            assert(chord_shape(mode, degree) =~= seq![0int, 3, 7]);
        }
    } else if mode == 7 {
        if degree == 0 {
            assert(mode_chord_intervals(mode, degree) =~= seq![0u8, 4, 7, 10]);
            assert(chord_shape(mode, degree) =~= seq![0int, 4, 7, 10]);
        } else if degree == 1 {
            assert(mode_chord_intervals(mode, degree) =~= seq![0u8, 4, 7, 10]);
            assert(chord_shape(mode, degree) =~= seq![0int, 4, 7, 10]);
        } else if degree == 2 {
            assert(mode_chord_intervals(mode, degree) =~= seq![0u8, 4, 7, 10]);
            assert(chord_shape(mode, degree) =~= seq![0int, 4, 7, 10]);
        } else if degree == 3 {
            assert(mode_chord_intervals(mode, degree) =~= seq![0u8, 4, 7, 10]);
            assert(chord_shape(mode, degree) =~= seq![0int, 4, 7, 10]);
        } else if degree == 4 {
            assert(mode_chord_intervals(mode, degree) =~= seq![0u8, 4, 7, 10]);
            assert(chord_shape(mode, degree) =~= seq![0int, 4, 7, 10]);
        } else if degree == 5 {
            assert(mode_chord_intervals(mode, degree) =~= seq![0u8, 4, 7, 10]);
            assert(chord_shape(mode, degree) =~= seq![0int, 4, 7, 10]);
        } else if degree == 6 {
            assert(mode_chord_intervals(mode, degree) =~= seq![0u8, 4, 7, 10]);
            assert(chord_shape(mode, degree) =~= seq![0int, 4, 7, 10]);
        }
    } else if mode == 0 {
        if degree == 0 {
            assert(mode_chord_intervals(mode, degree) =~= seq![0u8, 3, 7, 10]);
            assert(chord_shape(mode, degree) =~= seq![0int, 3, 7, 10]);
        } else if degree == 1 {
            assert(mode_chord_intervals(mode, degree) =~= seq![0u8, 4, 7, 11]);
            assert(chord_shape(mode, degree) =~= seq![0int, 4, 7, 11]);
        } else if degree == 2 {
            assert(mode_chord_intervals(mode, degree) =~= seq![0u8, 4, 7, 11]);
            assert(chord_shape(mode, degree) =~= seq![0int, 4, 7, 11]);
        } else if degree == 3 {
            assert(mode_chord_intervals(mode, degree) =~= seq![0u8, 3, 7, 10]);
            assert(chord_shape(mode, degree) =~= seq![0int, 3, 7, 10]);
        } else if degree == 4 {
            assert(mode_chord_intervals(mode, degree) =~= seq![0u8, 3, 7, 10]);
            assert(chord_shape(mode, degree) =~= seq![0int, 3, 7, 10]);
        } else if degree == 5 {
            assert(mode_chord_intervals(mode, degree) =~= seq![0u8, 4, 7, 11]);
            assert(chord_shape(mode, degree) =~= seq![0int, 4, 7, 11]);
        } else if degree == 6 {
            assert(mode_chord_intervals(mode, degree) =~= seq![0u8, 3, 6, 10]);
            assert(chord_shape(mode, degree) =~= seq![0int, 3, 6, 10]);
        }
    } else if mode == 1 {
        if degree == 0 {
            assert(mode_chord_intervals(mode, degree) =~= seq![0u8, 4, 7, 14]);
            assert(chord_shape(mode, degree) =~= seq![0int, 4, 7, 14]);
        } else if degree == 1 {
            assert(mode_chord_intervals(mode, degree) =~= seq![0u8, 3, 7, 14]);
            assert(chord_shape(mode, degree) =~= seq![0int, 3, 7, 14]);
        } else if degree == 2 {
            assert(mode_chord_intervals(mode, degree) =~= seq![0u8, 3, 7, 14]);
            assert(chord_shape(mode, degree) =~= seq![0int, 3, 7, 14]);
        } else if degree == 3 {
            assert(mode_chord_intervals(mode, degree) =~= seq![0u8, 4, 7, 14]);
            assert(chord_shape(mode, degree) =~= seq![0int, 4, 7, 14]);
        } else if degree == 4 {
            assert(mode_chord_intervals(mode, degree) =~= seq![0u8, 4, 7, 14]);
            assert(chord_shape(mode, degree) =~= seq![0int, 4, 7, 14]);
        } else if degree == 5 {
            assert(mode_chord_intervals(mode, degree) =~= seq![0u8, 3, 7, 14]);
            assert(chord_shape(mode, degree) =~= seq![0int, 3, 7, 14]);
        } else if degree == 6 {
            assert(mode_chord_intervals(mode, degree) =~= seq![0u8, 3, 6, 14]);
            assert(chord_shape(mode, degree) =~= seq![0int, 3, 6, 14]);
        }
    } else if mode == 2 {
        if degree == 0 {
            assert(mode_chord_intervals(mode, degree) =~= seq![0u8, 5, 7]);
            assert(chord_shape(mode, degree) =~= seq![0int, 5, 7]);
        } else if degree == 1 {
            assert(mode_chord_intervals(mode, degree) =~= seq![0u8, 5, 7]);
            assert(chord_shape(mode, degree) =~= seq![0int, 5, 7]);
        } else if degree == 2 {
            assert(mode_chord_intervals(mode, degree) =~= seq![0u8, 5, 7]);
            assert(chord_shape(mode, degree) =~= seq![0int, 5, 7]);
        } else if degree == 3 {
            assert(mode_chord_intervals(mode, degree) =~= seq![0u8, 5, 7]);
            assert(chord_shape(mode, degree) =~= seq![0int, 5, 7]);
        } else if degree == 4 {
            assert(mode_chord_intervals(mode, degree) =~= seq![0u8, 5, 7]);
            assert(chord_shape(mode, degree) =~= seq![0int, 5, 7]);
        } else if degree == 5 {
            assert(mode_chord_intervals(mode, degree) =~= seq![0u8, 5, 7]);
            assert(chord_shape(mode, degree) =~= seq![0int, 5, 7]);
        } else if degree == 6 {
            assert(mode_chord_intervals(mode, degree) =~= seq![0u8, 5, 7]);
            assert(chord_shape(mode, degree) =~= seq![0int, 5, 7]);
        }
    } else if mode == 3 {
        if degree == 0 {
            assert(mode_chord_intervals(mode, degree) =~= seq![0u8, 4, 7, 9]);
            assert(chord_shape(mode, degree) =~= seq![0int, 4, 7, 9]);
        } else if degree == 1 {
            assert(mode_chord_intervals(mode, degree) =~= seq![0u8, 2, 7]);
            assert(chord_shape(mode, degree) =~= seq![0int, 2, 7]);
        } else if degree == 2 {
            assert(mode_chord_intervals(mode, degree) =~= seq![0u8, 2, 7]);
            assert(chord_shape(mode, degree) =~= seq![0int, 2, 7]);
        } else if degree == 3 {
            assert(mode_chord_intervals(mode, degree) =~= seq![0u8, 4, 7, 9]);
            assert(chord_shape(mode, degree) =~= seq![0int, 4, 7, 9]);
        } else if degree == 4 {
            assert(mode_chord_intervals(mode, degree) =~= seq![0u8, 4, 7, 9]);
            assert(chord_shape(mode, degree) =~= seq![0int, 4, 7, 9]);
        } else if degree == 5 {
            assert(mode_chord_intervals(mode, degree) =~= seq![0u8, 2, 7]);
            assert(chord_shape(mode, degree) =~= seq![0int, 2, 7]);
        } else if degree == 6 {
            assert(mode_chord_intervals(mode, degree) =~= seq![0u8, 2, 7]);
            assert(chord_shape(mode, degree) =~= seq![0int, 2, 7]);
        }
    } else if mode == 4 {
        if degree == 0 {
            assert(mode_chord_intervals(mode, degree) =~= seq![0u8, 3, 6]);
            assert(chord_shape(mode, degree) =~= seq![0int, 3, 6]);
        } else if degree == 1 {
            assert(mode_chord_intervals(mode, degree) =~= seq![0u8, 3, 6]);
            assert(chord_shape(mode, degree) =~= seq![0int, 3, 6]);
        } else if degree == 2 {
            assert(mode_chord_intervals(mode, degree) =~= seq![0u8, 3, 6]);
            assert(chord_shape(mode, degree) =~= seq![0int, 3, 6]);
        } else if degree == 3 {
            assert(mode_chord_intervals(mode, degree) =~= seq![0u8, 3, 6]);
            assert(chord_shape(mode, degree) =~= seq![0int, 3, 6]);
        } else if degree == 4 {
            assert(mode_chord_intervals(mode, degree) =~= seq![0u8, 3, 6]);
            assert(chord_shape(mode, degree) =~= seq![0int, 3, 6]);
        } else if degree == 5 {
            assert(mode_chord_intervals(mode, degree) =~= seq![0u8, 3, 6]);
            assert(chord_shape(mode, degree) =~= seq![0int, 3, 6]);
        } else if degree == 6 {
            assert(mode_chord_intervals(mode, degree) =~= seq![0u8, 3, 6]);
            assert(chord_shape(mode, degree) =~= seq![0int, 3, 6]);
        }
    } else if mode == 5 {
        if degree == 0 {
            assert(mode_chord_intervals(mode, degree) =~= seq![1u8, 4, 8]);
            assert(chord_shape(mode, degree) =~= seq![1int, 4, 8]);
        } else if degree == 1 {
            assert(mode_chord_intervals(mode, degree) =~= seq![1u8, 4, 8]);
            assert(chord_shape(mode, degree) =~= seq![1int, 4, 8]);
        } else if degree == 2 {
            assert(mode_chord_intervals(mode, degree) =~= seq![1u8, 4, 8]);
            assert(chord_shape(mode, degree) =~= seq![1int, 4, 8]);
        } else if degree == 3 {
            assert(mode_chord_intervals(mode, degree) =~= seq![1u8, 4, 8]);
            assert(chord_shape(mode, degree) =~= seq![1int, 4, 8]);
        } else if degree == 4 {
            assert(mode_chord_intervals(mode, degree) =~= seq![1u8, 4, 8]);
            assert(chord_shape(mode, degree) =~= seq![1int, 4, 8]);
        } else if degree == 5 {
            assert(mode_chord_intervals(mode, degree) =~= seq![1u8, 4, 8]);
            assert(chord_shape(mode, degree) =~= seq![1int, 4, 8]);
        } else if degree == 6 {
            assert(mode_chord_intervals(mode, degree) =~= seq![1u8, 4, 8]);
            assert(chord_shape(mode, degree) =~= seq![1int, 4, 8]);
        }
    }
}

/// The chord that mode `mode` builds on chord index `chord_index` is the
/// chord of `chord_shape` for its degree, stacked on its root: the tonic
/// `key` at `octave`, raised by the degree's interval and an octave for each
/// time round the scale.
pub proof fn law_chord_shapes(key: int, octave: int, chord_index: int, mode: int)
    requires
        known_mode(mode),
        chord_index >= 0,
    ensures
        chord_values(key, octave, chord_index, mode) == chord_shape(mode, chord_index % 7).map_values(
            |iv: int| key + 12 * octave + major_interval(chord_index % 7) + 12 * (chord_index / 7) + iv,
        ),
{
    let d = chord_index % 7;
    lemma_tables_match_harmony(mode, d);
    let v = chord_values(key, octave, chord_index, mode);
    let w = chord_shape(mode, d).map_values(
        |iv: int| key + 12 * octave + major_interval(d) + 12 * (chord_index / 7) + iv,
    );
    assert(v.len() == w.len());
    assert forall|k: int| 0 <= k < v.len() implies v[k] == w[k] by {
        assert(chord_shape(mode, d)[k] == mode_chord_intervals(mode, d)[k] as int);
    }
    assert(v =~= w);
}

/// The chord types that the modes name are those of `chord_type_name`; so a
/// chord's written name ends in the name of its type in harmony.
pub proof fn law_chord_names(key: int, chord_index: int, mode: int)
    requires
        known_mode(mode),
        chord_index >= 0 || chord_index % 7 == 0,
    ensures
        mode_chord_name(mode, chord_index % 7) == chord_type_name(mode, chord_index % 7),
        chord_name(key, chord_index, mode) == note_text(key + major_interval(chord_index % 7))
            + chord_type_name(mode, chord_index % 7),
{
    lemma_tables_match_harmony(mode, chord_index % 7);
}

/// The major sevenths of mode 0 (on degrees ii, iii and vi) have their top
/// note eleven semitones above the root, with the third four and the fifth
/// seven semitones above it; its other sevenths have their top note ten
/// semitones above the root.
pub proof fn law_seventh_chords(key: int, octave: int, chord_index: int)
    requires
        chord_index >= 0,
    ensures
        ({
            let v = chord_values(key, octave, chord_index, 0);
            let d = chord_index % 7;
            &&& v.len() == 4
            &&& (d == 1 || d == 2 || d == 5) ==> v[1] == v[0] + 4 && v[2] == v[0] + 7 && v[3] == v[0] + 11
            &&& !(d == 1 || d == 2 || d == 5) ==> v[3] == v[0] + 10
        }),
{
    law_chord_shapes(key, octave, chord_index, 0);
}

/// Every note of a chord of mode -1 (the triads of the major key) is a note
/// of the key: its pitch class is that of a scale degree.
pub proof fn law_major_key_triads_diatonic(key: int, octave: int, chord_index: int)
    requires
        chord_index >= 0,
    ensures
        forall|k: int|
            0 <= k < chord_values(key, octave, chord_index, -1).len() ==> exists|j: int|
                0 <= j < 7 && (#[trigger] chord_values(key, octave, chord_index, -1)[k] - key) % 12
                    == major_interval(j),
{
    law_chord_shapes(key, octave, chord_index, -1);
    let v = chord_values(key, octave, chord_index, -1);
    let d = chord_index % 7;
    let q = chord_index / 7;
    assert forall|k: int| 0 <= k < v.len() implies exists|j: int|
        0 <= j < 7 && (#[trigger] v[k] - key) % 12 == major_interval(j) by {
        let iv = chord_shape(-1, d)[k];
        let pc = (major_interval(d) + iv) % 12;
        assert(v[k] - key == 12 * (octave + q) + major_interval(d) + iv);
        assert((v[k] - key) % 12 == pc) by (nonlinear_arith)
            requires
                v[k] - key == 12 * (octave + q) + major_interval(d) + iv,
                pc == (major_interval(d) + iv) % 12,
        ;
        if pc == 0 {
            assert(major_interval(0) == pc);
        } else if pc == 2 {
            assert(major_interval(1) == pc);
        } else if pc == 4 {
            assert(major_interval(2) == pc);
        } else if pc == 5 {
            assert(major_interval(3) == pc);
        } else if pc == 7 {
            assert(major_interval(4) == pc);
        } else if pc == 9 {
            assert(major_interval(5) == pc);
        } else {
            assert(pc == 11);
            assert(major_interval(6) == pc);
        }
    }
}

/// Only these are key controls: pressing share or options, and pressing or
/// letting go of either stick; every other button event, releasing share or
/// options among them, leaves key and octave alone. Letting go of a stick
/// undoes pressing it.
pub proof fn law_key_controls(key: int, octave: int, b: ButtonType, pressed: bool)
    requires
        0 <= key < 12,
        0 <= octave < 9,
    ensures
        (key_button_result(key, octave, b, pressed) is Some) <==> ((b == ButtonType::Share && pressed)
            || (b == ButtonType::Options && pressed) || b == ButtonType::LStickBtn || b
            == ButtonType::RStickBtn),
        (b == ButtonType::Share && pressed) ==> key_button_result(key, octave, b, pressed) == Some(
            ((key + 1) % 12, octave),
        ),
        (b == ButtonType::Options && pressed) ==> key_button_result(key, octave, b, pressed) == Some(
            (key, (octave + 1) % 9),
        ),
        (b == ButtonType::LStickBtn || b == ButtonType::RStickBtn) ==> ({
            let (k1, o1) = key_button_result(key, octave, b, true).unwrap();
            key_button_result(k1, o1, b, false) == Some((key, octave))
        }),
{
}

} // verus!
