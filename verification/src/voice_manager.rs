//! Voice allocation: which voice of a bank plays a note, and which voices a
//! release reaches.
//!
//! A voice is idle (no note), holding a note, or releasing a note (the note
//! was let go at some instant and its envelope is dying away). The sound of
//! each voice, its oscillator and envelope, is kept beside the bank by the
//! caller, index for index; the bank reports which voices it changed.

use vstd::prelude::*;

verus! {

#[verifier::external_type_specification]
#[verifier::external_body]
pub struct ExInstant(std::time::Instant);

/// `std::time::Instant::now`: the current instant. Nothing is stated of the
/// value, which depends on the clock.
#[verifier::external_body]
fn instant_now() -> std::time::Instant {
    std::time::Instant::now()
}

/// The note a voice plays, and the instant it was released, if it was.
#[derive(Clone, Copy)]
pub struct NoteInfo {
    pub note: u8,
    pub release: Option<std::time::Instant>,
}

/// One voice of a bank.
pub struct Voice {
    pub note_info: Option<NoteInfo>,
}

/// The voice plays no note.
pub open spec fn is_idle(v: Voice) -> bool {
    v.note_info is None
}

/// The voice plays a note that has been released.
pub open spec fn is_released(v: Voice) -> bool {
    v.note_info matches Some(ni) && ni.release is Some
}

/// The voice holds `note`, released or not.
pub open spec fn holds_note(v: Voice, note: u8) -> bool {
    v.note_info matches Some(ni) && ni.note == note
}

/// The voice holds `note` and has not been released.
pub open spec fn sounds_held(v: Voice, note: u8) -> bool {
    v.note_info matches Some(ni) && ni.note == note && ni.release is None
}

/// `v` is `old` released: the same note, with a release instant.
pub open spec fn released_from(old: Voice, v: Voice) -> bool {
    &&& old.note_info is Some
    &&& v.note_info is Some
    &&& v.note_info.unwrap().note == old.note_info.unwrap().note
    &&& v.note_info.unwrap().release is Some
}

/// `i` is the first idle voice of `s`.
pub open spec fn is_first_idle(s: Seq<Voice>, i: int) -> bool {
    &&& 0 <= i < s.len()
    &&& is_idle(s[i])
    &&& forall|j: int| 0 <= j < i ==> !is_idle(#[trigger] s[j])
}

/// `i` is the first released voice of `s`.
pub open spec fn is_first_released(s: Seq<Voice>, i: int) -> bool {
    &&& 0 <= i < s.len()
    &&& is_released(s[i])
    &&& forall|j: int| 0 <= j < i ==> !is_released(#[trigger] s[j])
}

/// The voice that a new note takes: the first idle voice; failing that the
/// first released voice; failing that the first voice.
pub open spec fn voice_choice(s: Seq<Voice>) -> int {
    if exists|i: int| is_first_idle(s, i) {
        choose|i: int| is_first_idle(s, i)
    } else if exists|i: int| is_first_released(s, i) {
        choose|i: int| is_first_released(s, i)
    } else {
        0
    }
}

/// `new` is `old` with every voice that holds `note` released, and every
/// other voice as it was.
pub open spec fn releases_note(old: Seq<Voice>, new: Seq<Voice>, note: u8) -> bool {
    &&& new.len() == old.len()
    &&& forall|i: int|
        0 <= i < old.len() ==> if holds_note(old[i], note) {
            released_from(old[i], #[trigger] new[i])
        } else {
            new[i] == old[i]
        }
}

/// `new` is `old` with every voice that plays a note released, and every
/// idle voice idle.
pub open spec fn releases_every_note(old: Seq<Voice>, new: Seq<Voice>) -> bool {
    &&& new.len() == old.len()
    &&& forall|i: int|
        0 <= i < old.len() ==> if is_idle(old[i]) {
            new[i] == old[i]
        } else {
            released_from(old[i], #[trigger] new[i])
        }
}

/// `r` lists, in increasing order, exactly the indices of `s` whose voice
/// satisfies `p`.
pub open spec fn lists_indices(r: Seq<usize>, s: Seq<Voice>, p: spec_fn(Voice) -> bool) -> bool {
    &&& forall|a: int, b: int| 0 <= a < b < r.len() ==> r[a] < r[b]
    &&& forall|a: int| 0 <= a < r.len() ==> r[a] < s.len() && p(s[r[a] as int])
    &&& forall|i: int| 0 <= i < s.len() && p(s[i]) ==> r.contains(i as usize)
}

impl Voice {
    /// An idle voice.
    pub fn new() -> (r: Self)
        ensures
            is_idle(r),
    {
        Voice { note_info: None }
    }

    /// Lets go of the voice's note, recording the current instant.
    pub fn release(&mut self)
        requires
            old(self).note_info is Some,
        ensures
            released_from(*old(self), *final(self)),
    {
        let ni = self.note_info.unwrap();
        self.note_info = Some(NoteInfo { note: ni.note, release: Some(instant_now()) });
    }

    /// Starts `note` on this voice, held.
    pub fn play(&mut self, note: u8)
        ensures
            final(self).note_info == Some(NoteInfo { note: note, release: None }),
    {
        self.note_info = Some(NoteInfo { note: note, release: None });
    }
}

/// Hands out banks of voices.
pub struct VoiceManager {}

impl VoiceManager {
    /// A voice manager.
    pub fn new() -> (r: Self) {
        VoiceManager {  }
    }

    /// A bank of `amount` idle voices.
    pub fn request_voicebank(&mut self, amount: usize) -> (r: Result<Voicebank, String>)
        ensures
            r is Ok,
            r matches Ok(b) && b.voices@.len() == amount && forall|i: int|
                0 <= i < amount ==> is_idle(#[trigger] b.voices@[i]),
    {
        let mut voices: Vec<Voice> = Vec::new();
        let mut i: usize = 0;
        while i < amount
            invariant
                i <= amount,
                voices@.len() == i,
                forall|j: int| 0 <= j < i ==> is_idle(#[trigger] voices@[j]),
            decreases amount - i,
        {
            voices.push(Voice::new());
            i += 1;
        }
        Ok(Voicebank { voices })
    }
}

/// A bank of voices that share one kind of sound.
pub struct Voicebank {
    pub voices: Vec<Voice>,
}

impl Voicebank {
    /// Starts `note` on the voice that `voice_choice` picks, and returns its
    /// index; every other voice is left as it was.
    pub fn play(&mut self, note: u8) -> (idx: usize)
        requires
            old(self).voices@.len() > 0,
        ensures
            idx == voice_choice(old(self).voices@),
            final(self).voices@ == old(self).voices@.update(
                idx as int,
                Voice { note_info: Some(NoteInfo { note: note, release: None }) },
            ),
    {
        let idx = self.get_voice_index();
        let mut v = Voice { note_info: self.voices[idx].note_info };
        v.play(note);
        self.voices.set(idx, v);
        idx
    }

    /// Releases every voice that holds `note`, and returns their indices in
    /// increasing order; every other voice is left as it was.
    pub fn release(&mut self, note: u8) -> (released: Vec<usize>)
        ensures
            releases_note(old(self).voices@, final(self).voices@, note),
            lists_indices(released@, old(self).voices@, |v: Voice| holds_note(v, note)),
    {
        let ghost old_voices = self.voices@;
        let mut released: Vec<usize> = Vec::new();
        let mut i: usize = 0;
        while i < self.voices.len()
            invariant
                i <= self.voices@.len(),
                self.voices@.len() == old_voices.len(),
                forall|j: int|
                    0 <= j < old_voices.len() ==> if j < i && holds_note(old_voices[j], note) {
                        released_from(old_voices[j], #[trigger] self.voices@[j])
                    } else {
                        self.voices@[j] == old_voices[j]
                    },
                forall|a: int, b: int| 0 <= a < b < released@.len() ==> released@[a] < released@[b],
                forall|a: int|
                    0 <= a < released@.len() ==> released@[a] < i && holds_note(
                        old_voices[released@[a] as int],
                        note,
                    ),
                forall|j: int|
                    0 <= j < i && holds_note(old_voices[j], note) ==> released@.contains(j as usize),
            decreases old_voices.len() - i,
        {
            let holds = match self.voices[i].note_info {
                Some(ni) => ni.note == note,
                None => false,
            };
            if holds {
                let mut v = Voice { note_info: self.voices[i].note_info };
                v.release();
                self.voices.set(i, v);
                let ghost before = released@;
                released.push(i);
                assert forall|j: int|
                    0 <= j < i + 1 && holds_note(old_voices[j], note) implies released@.contains(
                    j as usize,
                ) by {
                    if j < i {
                        let k = choose|k: int| 0 <= k < before.len() && before[k] == j as usize;
                        assert(released@[k] == j as usize);
                    } else {
                        assert(released@[before.len() as int] == j as usize);
                    }
                }
            }
            i += 1;
        }
        released
    }

    /// Releases every voice that plays a note, and returns their indices in
    /// increasing order; idle voices stay idle.
    pub fn release_all(&mut self) -> (released: Vec<usize>)
        ensures
            releases_every_note(old(self).voices@, final(self).voices@),
            lists_indices(released@, old(self).voices@, |v: Voice| !is_idle(v)),
    {
        let ghost old_voices = self.voices@;
        let mut released: Vec<usize> = Vec::new();
        let mut i: usize = 0;
        while i < self.voices.len()
            invariant
                i <= self.voices@.len(),
                self.voices@.len() == old_voices.len(),
                forall|j: int|
                    0 <= j < old_voices.len() ==> if j < i && !is_idle(old_voices[j]) {
                        released_from(old_voices[j], #[trigger] self.voices@[j])
                    } else {
                        self.voices@[j] == old_voices[j]
                    },
                forall|a: int, b: int| 0 <= a < b < released@.len() ==> released@[a] < released@[b],
                forall|a: int|
                    0 <= a < released@.len() ==> released@[a] < i && !is_idle(
                        old_voices[released@[a] as int],
                    ),
                forall|j: int|
                    0 <= j < i && !is_idle(old_voices[j]) ==> released@.contains(j as usize),
            decreases old_voices.len() - i,
        {
            if self.voices[i].note_info.is_some() {
                let mut v = Voice { note_info: self.voices[i].note_info };
                v.release();
                self.voices.set(i, v);
                let ghost before = released@;
                released.push(i);
                assert forall|j: int|
                    0 <= j < i + 1 && !is_idle(old_voices[j]) implies released@.contains(
                    j as usize,
                ) by {
                    if j < i {
                        let k = choose|k: int| 0 <= k < before.len() && before[k] == j as usize;
                        assert(released@[k] == j as usize);
                    } else {
                        assert(released@[before.len() as int] == j as usize);
                    }
                }
            }
            i += 1;
        }
        released
    }

    /// The number of voices the bank mixes.
    pub fn get_active(&self) -> (r: usize)
        ensures
            r == self.voices@.len(),
    {
        self.voices.len()
    }

    /// The voice that a new note takes: see `voice_choice`.
    fn get_voice_index(&self) -> (r: usize)
        requires
            self.voices@.len() > 0,
        ensures
            r == voice_choice(self.voices@),
            r < self.voices@.len(),
    {
        let ghost s = self.voices@;
        let mut i: usize = 0;
        while i < self.voices.len()
            invariant
                s == self.voices@,
                i <= s.len(),
                forall|j: int| 0 <= j < i ==> !is_idle(#[trigger] s[j]),
            decreases s.len() - i,
        {
            if self.voices[i].note_info.is_none() {
                proof {
                    assert(is_first_idle(s, i as int));
                    let k = choose|k: int| is_first_idle(s, k);
                    if k < i {
                        assert(!is_idle(s[k]));
                    }
                    if i < k {
                        assert(!is_idle(s[i as int]));
                    }
                }
                return i;
            }
            i += 1;
        }
        assert(!exists|k: int| is_first_idle(s, k));
        let mut i: usize = 0;
        while i < self.voices.len()
            invariant
                s == self.voices@,
                i <= s.len(),
                forall|j: int| 0 <= j < i ==> !is_released(#[trigger] s[j]),
                !exists|k: int| is_first_idle(s, k),
            decreases s.len() - i,
        {
            let released = match self.voices[i].note_info {
                Some(ni) => ni.release.is_some(),
                None => false,
            };
            if released {
                proof {
                    assert(is_first_released(s, i as int));
                    let k = choose|k: int| is_first_released(s, k);
                    if k < i {
                        assert(!is_released(s[k]));
                    }
                    if i < k {
                        assert(!is_released(s[i as int]));
                    }
                }
                return i;
            }
            i += 1;
        }
        assert(!exists|k: int| is_first_released(s, k));
        0
    }
}

// ---------------------------------------------------------------------------
// Laws
// ---------------------------------------------------------------------------

/// An idle voice at `i` means there is a first idle voice.
proof fn lemma_first_idle_exists(s: Seq<Voice>, i: int)
    requires
        0 <= i < s.len(),
        is_idle(s[i]),
    ensures
        exists|k: int| is_first_idle(s, k),
    decreases i,
{
    if forall|j: int| 0 <= j < i ==> !is_idle(#[trigger] s[j]) {
        assert(is_first_idle(s, i));
    } else {
        let j = choose|j: int| 0 <= j < i && is_idle(s[j]);
        lemma_first_idle_exists(s, j);
    }
}

/// A released voice at `i` means there is a first released voice.
proof fn lemma_first_released_exists(s: Seq<Voice>, i: int)
    requires
        0 <= i < s.len(),
        is_released(s[i]),
    ensures
        exists|k: int| is_first_released(s, k),
    decreases i,
{
    if forall|j: int| 0 <= j < i ==> !is_released(#[trigger] s[j]) {
        assert(is_first_released(s, i));
    } else {
        let j = choose|j: int| 0 <= j < i && is_released(s[j]);
        lemma_first_released_exists(s, j);
    }
}

/// A new note never cuts a held note while a voice is free: it takes an
/// idle voice if there is one, and otherwise a released voice if there is
/// one. Only when every voice holds a note is the first voice taken over.
pub proof fn law_play_takes_free_voice(s: Seq<Voice>)
    requires
        s.len() > 0,
    ensures
        0 <= voice_choice(s) < s.len(),
        (exists|i: int| 0 <= i < s.len() && is_idle(s[i])) ==> is_idle(s[voice_choice(s)]),
        (forall|i: int| 0 <= i < s.len() ==> !is_idle(#[trigger] s[i])) && (exists|i: int|
            0 <= i < s.len() && is_released(s[i])) ==> is_released(s[voice_choice(s)]),
{
    if exists|i: int| 0 <= i < s.len() && is_idle(s[i]) {
        let i = choose|i: int| 0 <= i < s.len() && is_idle(s[i]);
        lemma_first_idle_exists(s, i);
    } else if exists|i: int| 0 <= i < s.len() && is_released(s[i]) {
        let i = choose|i: int| 0 <= i < s.len() && is_released(s[i]);
        lemma_first_released_exists(s, i);
        assert(!exists|k: int| is_first_idle(s, k));
    }
}

/// After a release of `note`, no voice holds `note` unreleased, and no other
/// voice changed.
pub proof fn law_release_silences_note(old: Seq<Voice>, new: Seq<Voice>, note: u8)
    requires
        releases_note(old, new, note),
    ensures
        forall|i: int| 0 <= i < new.len() ==> !sounds_held(#[trigger] new[i], note),
        forall|i: int| 0 <= i < new.len() && !holds_note(old[i], note) ==> #[trigger] new[i] == old[i],
{
}

/// After releasing every note, each voice is idle or released, and the voices
/// that were idle still are.
pub proof fn law_release_all_silences(old: Seq<Voice>, new: Seq<Voice>)
    requires
        releases_every_note(old, new),
    ensures
        forall|i: int| 0 <= i < new.len() ==> is_idle(#[trigger] new[i]) || is_released(new[i]),
        forall|i: int| 0 <= i < new.len() ==> (is_idle(#[trigger] new[i]) <==> is_idle(old[i])),
{
}

} // verus!
