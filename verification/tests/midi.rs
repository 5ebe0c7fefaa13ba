use synth_core::midi::{parse_midi, MidiEvent};

#[test]
fn parses_note_on() {
    assert_eq!(
        parse_midi(&[0x90, 69, 100]),
        Some(MidiEvent::NoteOn { pitch: 69, velocity: 100 })
    );
    // Any channel nibble is accepted.
    assert_eq!(
        parse_midi(&[0x9F, 0, 127]),
        Some(MidiEvent::NoteOn { pitch: 0, velocity: 127 })
    );
}

#[test]
fn parses_note_off() {
    assert_eq!(
        parse_midi(&[0x80, 69, 64]),
        Some(MidiEvent::NoteOff { pitch: 69, velocity: 64 })
    );
}

// A note-on with velocity zero stays a note-on; interpreting it is the
// caller's business.
#[test]
fn velocity_zero_note_on_is_note_on() {
    assert_eq!(
        parse_midi(&[0x93, 60, 0]),
        Some(MidiEvent::NoteOn { pitch: 60, velocity: 0 })
    );
}

#[test]
fn rejects_other_statuses_and_bad_data_bytes() {
    // Control change, program change, pitch bend: not note events.
    assert_eq!(parse_midi(&[0xB0, 1, 2]), None);
    assert_eq!(parse_midi(&[0xC0, 1, 2]), None);
    assert_eq!(parse_midi(&[0xE0, 1, 2]), None);
    // Data bytes must have the high bit clear.
    assert_eq!(parse_midi(&[0x90, 128, 100]), None);
    assert_eq!(parse_midi(&[0x90, 60, 200]), None);
}
