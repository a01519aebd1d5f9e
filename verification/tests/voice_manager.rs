use controller_music::voice_manager::{Voice, VoiceManager, Voicebank};

fn bank(n: usize) -> Voicebank {
    VoiceManager::new().request_voicebank(n).unwrap()
}

fn notes(b: &Voicebank) -> Vec<Option<(u8, bool)>> {
    b.voices.iter().map(|v| v.note_info.map(|ni| (ni.note, ni.release.is_some()))).collect()
}

#[test]
fn new_bank_is_idle() {
    let b = bank(3);
    assert_eq!(b.get_active(), 3);
    assert_eq!(notes(&b), vec![None, None, None]);
}

#[test]
fn play_takes_idle_voices_in_order() {
    let mut b = bank(3);
    assert_eq!(b.play(60), 0);
    assert_eq!(b.play(64), 1);
    assert_eq!(b.play(67), 2);
    assert_eq!(notes(&b), vec![Some((60, false)), Some((64, false)), Some((67, false))]);
}

#[test]
fn play_steals_first_voice_when_all_held() {
    let mut b = bank(2);
    b.play(60);
    b.play(64);
    assert_eq!(b.play(72), 0);
    assert_eq!(notes(&b), vec![Some((72, false)), Some((64, false))]);
}

#[test]
fn play_prefers_released_over_held() {
    let mut b = bank(3);
    b.play(60);
    b.play(64);
    b.play(67);
    assert_eq!(b.release(64), vec![1]);
    assert_eq!(notes(&b), vec![Some((60, false)), Some((64, true)), Some((67, false))]);
    assert_eq!(b.play(50), 1);
    assert_eq!(notes(&b), vec![Some((60, false)), Some((50, false)), Some((67, false))]);
}

#[test]
fn play_prefers_idle_over_released() {
    let mut b = bank(3);
    b.play(60);
    b.release(60);
    assert_eq!(b.play(62), 1);
}

#[test]
fn release_reaches_every_voice_with_the_note() {
    let mut b = bank(4);
    b.play(60);
    b.play(64);
    b.play(60);
    assert_eq!(b.release(60), vec![0, 2]);
    assert_eq!(notes(&b), vec![Some((60, true)), Some((64, false)), Some((60, true)), None]);
    assert_eq!(b.release(99), Vec::<usize>::new());
}

#[test]
fn release_all_reaches_every_playing_voice() {
    let mut b = bank(4);
    b.play(60);
    b.play(64);
    b.release(64);
    assert_eq!(b.release_all(), vec![0, 1]);
    assert_eq!(notes(&b), vec![Some((60, true)), Some((64, true)), None, None]);
}

#[test]
fn voice_play_and_release() {
    let mut v = Voice::new();
    assert!(v.note_info.is_none());
    v.play(40);
    assert_eq!(v.note_info.map(|n| (n.note, n.release.is_some())), Some((40, false)));
    v.release();
    assert_eq!(v.note_info.map(|n| (n.note, n.release.is_some())), Some((40, true)));
}
