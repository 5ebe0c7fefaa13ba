//! Parsing of raw three-byte MIDI channel messages into note events.
//!
//! Only the two message kinds the instrument reacts to are recognized:
//! note-on (status nibble 9) and note-off (status nibble 8), on any
//! channel. Both data bytes must have their high bit clear, as the MIDI
//! grammar demands; anything else is not an event and is ignored upstream.
//! A note-on with velocity zero is reported as a note-on, unaltered.

use vstd::prelude::*;

verus! {

/// A note event carried by a MIDI channel message.
#[derive(Clone, Copy, PartialEq, Eq, Structural, Debug)]
pub enum MidiEvent {
    NoteOn { pitch: u8, velocity: u8 },
    NoteOff { pitch: u8, velocity: u8 },
}

impl MidiEvent {
    pub open spec fn pitch(self) -> u8 {
        match self {
            MidiEvent::NoteOn { pitch, .. } => pitch,
            MidiEvent::NoteOff { pitch, .. } => pitch,
        }
    }

    pub open spec fn velocity(self) -> u8 {
        match self {
            MidiEvent::NoteOn { velocity, .. } => velocity,
            MidiEvent::NoteOff { velocity, .. } => velocity,
        }
    }
}

/// What a three-byte message means: a note-on or note-off with two valid
/// data bytes, and nothing otherwise.
pub open spec fn spec_parse_midi(data: [u8; 3]) -> Option<MidiEvent> {
    let status = data[0];
    let d1 = data[1];
    let d2 = data[2];
    if d1 < 128 && d2 < 128 {
        if status / 16 == 9 {
            Some(MidiEvent::NoteOn { pitch: d1, velocity: d2 })
        } else if status / 16 == 8 {
            Some(MidiEvent::NoteOff { pitch: d1, velocity: d2 })
        } else {
            None
        }
    } else {
        None
    }
}

/// Parse one three-byte MIDI channel message. Returns `Some` exactly for
/// well-formed note-on and note-off messages.
pub fn parse_midi(data: &[u8; 3]) -> (r: Option<MidiEvent>)
    ensures
        r == spec_parse_midi(*data),
{
    let status = data[0];
    let d1 = data[1];
    let d2 = data[2];
    if d1 < 128 && d2 < 128 {
        if status / 16 == 9 {
            Some(MidiEvent::NoteOn { pitch: d1, velocity: d2 })
        } else if status / 16 == 8 {
            Some(MidiEvent::NoteOff { pitch: d1, velocity: d2 })
        } else {
            None
        }
    } else {
        None
    }
}

} // verus!
