use synth_core::notes::{Note, NoteTracker};

fn on(t: &mut NoteTracker, pitch: u8, velocity: u8) {
    t.note_on(Note { pitch, velocity });
}

#[test]
fn first_note_fills_both_slots() {
    let mut t = NoteTracker::empty();
    on(&mut t, 60, 100);
    assert_eq!(t.current, Some(Note { pitch: 60, velocity: 100 }));
    assert_eq!(t.previous, Some(Note { pitch: 60, velocity: 100 }));
}

// Non-overlapping on/off pairs: current always tracks the most recent
// still-held note and is empty exactly after its matching note-off.
#[test]
fn non_overlapping_sequence_tracks_last_note() {
    let mut t = NoteTracker::empty();
    on(&mut t, 60, 100);
    assert_eq!(t.current.map(|n| n.pitch), Some(60));
    t.note_off(60, 0);
    assert_eq!(t.current, None);
    assert_eq!(t.previous, None);
    on(&mut t, 64, 90);
    assert_eq!(t.current.map(|n| n.pitch), Some(64));
    t.note_off(64, 10);
    assert_eq!(t.current, None);
    assert_eq!(t.previous, None);
}

// Overlap with last-note priority: on(A), on(B), off(A) keeps B sounding
// throughout, and A is remembered as the fallback after its release.
#[test]
fn overlap_keeps_last_note() {
    let mut t = NoteTracker::empty();
    on(&mut t, 60, 100);
    on(&mut t, 64, 90);
    assert_eq!(t.current.map(|n| n.pitch), Some(64));
    t.note_off(60, 20);
    assert_eq!(t.current.map(|n| n.pitch), Some(64));
    assert_eq!(t.previous, Some(Note { pitch: 60, velocity: 20 }));
}

// Legato fallback: releasing the sounding note returns to the distinct
// remembered note instead of cutting to silence.
#[test]
fn release_falls_back_to_previous_note() {
    let mut t = NoteTracker::empty();
    on(&mut t, 60, 100);
    on(&mut t, 64, 90);
    t.note_off(64, 0);
    assert_eq!(t.current.map(|n| n.pitch), Some(60));
    assert_eq!(t.previous, None);
    t.note_off(60, 0);
    assert_eq!(t.current, None);
}

#[test]
fn note_off_of_unknown_pitch_leaves_current() {
    let mut t = NoteTracker::empty();
    on(&mut t, 60, 100);
    t.note_off(72, 0);
    assert_eq!(t.current.map(|n| n.pitch), Some(60));
    assert_eq!(t.previous.map(|n| n.pitch), Some(72));
}

#[test]
fn note_freq_is_anchored_at_a4() {
    assert_eq!(synth_core::notes::note_freq_mhz(69), 440_000);
    // One octave doubles exactly.
    assert_eq!(synth_core::notes::note_freq_mhz(81), 880_000);
    assert_eq!(synth_core::notes::note_freq_mhz(57), 220_000);
    // Lowest pitch: C five octaves below middle C.
    assert_eq!(synth_core::notes::note_freq_mhz(0), 8_176);
}
