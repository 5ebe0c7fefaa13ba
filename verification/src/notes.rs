//! The note tracker: a two-slot, monophonic note state machine.
//!
//! `current` is the note that sounds right now; `previous` is the most
//! recently displaced or released other note and serves as the legato
//! fallback when `current` is released. Notes are matched by pitch on
//! release, since a release velocity rarely equals the onset velocity.
//!
//! Overlap policy (last-note priority): a note-on while a note is held
//! displaces the held note into `previous`. With three or more
//! simultaneously held notes the two slots keep only the newest note and
//! one fallback; older notes are forgotten.

use vstd::prelude::*;
use vstd::arithmetic::power2::{pow2, lemma2_to64, lemma_pow2_strictly_increases};
use vstd::arithmetic::mul::lemma_mul_upper_bound;
use crate::midi::MidiEvent;

verus! {

/// A sounding or remembered note: MIDI pitch and onset velocity.
#[derive(Clone, Copy, PartialEq, Eq, Structural, Debug)]
pub struct Note {
    pub pitch: u8,
    pub velocity: u8,
}

/// Two-slot monophonic note state.
#[derive(Clone, Copy, PartialEq, Eq, Structural, Debug)]
pub struct NoteTracker {
    pub current: Option<Note>,
    pub previous: Option<Note>,
}

impl NoteTracker {
    /// State after a note-on: the new note always becomes `current`.
    /// From silence the same note also seeds the fallback slot; over a
    /// held note, the held note is displaced into the fallback slot.
    pub open spec fn spec_note_on(self, n: Note) -> NoteTracker {
        match self.current {
            None => NoteTracker {
                current: Some(n),
                previous: if self.previous is None {
                    Some(n)
                } else {
                    self.previous
                },
            },
            Some(c) => NoteTracker { current: Some(n), previous: Some(c) },
        }
    }

    /// State after a note-off, matching by pitch. Releasing the sounding
    /// note falls back to a distinct remembered note (legato), or to
    /// silence when none is distinct; the fallback is consumed either way.
    /// Releasing any other pitch only records that note as the fallback.
    pub open spec fn spec_note_off(self, pitch: u8, velocity: u8) -> NoteTracker {
        match self.current {
            Some(c) => if c.pitch == pitch {
                match self.previous {
                    Some(p) => if p.pitch != pitch {
                        NoteTracker { current: Some(p), previous: None }
                    } else {
                        NoteTracker { current: None, previous: None }
                    },
                    None => NoteTracker { current: None, previous: None },
                }
            } else {
                NoteTracker {
                    current: self.current,
                    previous: Some(Note { pitch, velocity }),
                }
            },
            None => NoteTracker {
                current: None,
                previous: Some(Note { pitch, velocity }),
            },
        }
    }

    /// State after one note event.
    pub open spec fn spec_step(self, e: MidiEvent) -> NoteTracker {
        match e {
            MidiEvent::NoteOn { pitch, velocity } => self.spec_note_on(
                Note { pitch, velocity },
            ),
            MidiEvent::NoteOff { pitch, velocity } => self.spec_note_off(pitch, velocity),
        }
    }

    /// State after a whole sequence of note events, applied in order.
    pub open spec fn spec_run(self, events: Seq<MidiEvent>) -> NoteTracker
        decreases events.len(),
    {
        if events.len() == 0 {
            self
        } else {
            self.spec_run(events.drop_last()).spec_step(events.last())
        }
    }

    pub fn empty() -> (t: NoteTracker)
        ensures
            t == (NoteTracker { current: None, previous: None }),
    {
        NoteTracker { current: None, previous: None }
    }

    pub fn note_on(&mut self, n: Note)
        ensures
            *final(self) == old(self).spec_note_on(n),
    {
        match self.current {
            None => {
                self.current = Some(n);
                if self.previous.is_none() {
                    self.previous = Some(n);
                }
            }
            Some(c) => {
                self.previous = Some(c);
                self.current = Some(n);
            }
        }
    }

    pub fn note_off(&mut self, pitch: u8, velocity: u8)
        ensures
            *final(self) == old(self).spec_note_off(pitch, velocity),
    {
        match self.current {
            Some(c) => {
                if c.pitch == pitch {
                    match self.previous {
                        Some(p) => {
                            if p.pitch != pitch {
                                self.current = Some(p);
                            } else {
                                self.current = None;
                            }
                        }
                        None => {
                            self.current = None;
                        }
                    }
                    self.previous = None;
                } else {
                    self.previous = Some(Note { pitch, velocity });
                }
            }
            None => {
                self.previous = Some(Note { pitch, velocity });
            }
        }
    }
}

/// Frequency in millihertz of the lowest octave's semitones: MIDI
/// pitches 0 to 11, equal temperament anchored so that pitch 69 is
/// exactly 440 Hz.
pub open spec fn spec_semitone_mhz(s: int) -> int {
    if s == 0 {
        8176
    } else if s == 1 {
        8662
    } else if s == 2 {
        9177
    } else if s == 3 {
        9723
    } else if s == 4 {
        10301
    } else if s == 5 {
        10913
    } else if s == 6 {
        11562
    } else if s == 7 {
        12250
    } else if s == 8 {
        12978
    } else if s == 9 {
        13750
    } else if s == 10 {
        14568
    } else {
        15434
    }
}

/// Frequency in millihertz of a MIDI pitch: the semitone within the
/// octave, doubled exactly once per octave. A value above the MIDI pitch
/// range is treated as the highest pitch.
pub open spec fn spec_note_freq_mhz(pitch: u8) -> int {
    let p = if pitch > 127 {
        127
    } else {
        pitch as int
    };
    spec_semitone_mhz(p % 12) * pow2((p / 12) as nat)
}

/// Two raised to a small power, executable.
fn pow2_u64(e: u32) -> (r: u64)
    requires
        e <= 10,
    ensures
        r == pow2(e as nat),
        1 <= r <= 1024,
{
    proof {
        lemma2_to64();
    }
    let mut r: u64 = 1;
    let mut i: u32 = 0;
    while i < e
        invariant
            i <= e,
            e <= 10,
            r == pow2(i as nat),
            1 <= r <= 1024,
        decreases e - i,
    {
        proof {
            lemma2_to64();
            if (i + 1) < 10 {
                lemma_pow2_strictly_increases((i + 1) as nat, 10);
            }
            assert(pow2((i + 1) as nat) == 2 * pow2(i as nat)) by {
                vstd::arithmetic::power2::lemma_pow2_adds(i as nat, 1);
            }
        }
        r = r * 2;
        i = i + 1;
    }
    r
}

/// Frequency in millihertz of a MIDI pitch. Pitch 69 maps to exactly
/// 440000 mHz, and each octave doubles the frequency exactly.
pub fn note_freq_mhz(pitch: u8) -> (f: u64)
    ensures
        f == spec_note_freq_mhz(pitch),
        1 <= f <= 15804416,
{
    let pc: u8 = if pitch > 127 {
        127
    } else {
        pitch
    };
    let s = pc % 12;
    let base: u64 = if s == 0 {
        8176
    } else if s == 1 {
        8662
    } else if s == 2 {
        9177
    } else if s == 3 {
        9723
    } else if s == 4 {
        10301
    } else if s == 5 {
        10913
    } else if s == 6 {
        11562
    } else if s == 7 {
        12250
    } else if s == 8 {
        12978
    } else if s == 9 {
        13750
    } else if s == 10 {
        14568
    } else {
        15434
    };
    let p = pow2_u64((pc / 12) as u32);
    proof {
        lemma_mul_upper_bound(base as int, 15434, p as int, 1024);
        assert((base as int) * (p as int) >= 1) by (nonlinear_arith)
            requires
                base >= 1,
                p >= 1,
        ;
    }
    base * p
}

/// The tracker in its initial, silent state.
pub open spec fn empty_tracker() -> NoteTracker {
    NoteTracker { current: None, previous: None }
}

/// The tracker holding one note in both slots, as a first note-on from
/// silence leaves it.
pub open spec fn solo_tracker(n: Note) -> NoteTracker {
    NoteTracker { current: Some(n), previous: Some(n) }
}

/// A sequence of note events with no overlaps: events alternate between a
/// note-on and the matching note-off of the same pitch.
pub open spec fn non_overlapping(events: Seq<MidiEvent>) -> bool {
    forall|i: int|
        0 <= i < events.len() ==> if i % 2 == 0 {
            (#[trigger] events[i]) is NoteOn
        } else {
            events[i] is NoteOff && events[i].pitch() == events[i - 1].pitch()
        }
}

/// Law: for every sequence of note events with no overlaps, starting from
/// silence, `current` equals the most recent still-held note, and is empty
/// exactly after that note's matching note-off. After each complete
/// on/off pair the tracker is entirely empty again.
pub proof fn lemma_no_overlap_tracks_last_note(events: Seq<MidiEvent>)
    requires
        non_overlapping(events),
    ensures
        events.len() % 2 == 0 ==> empty_tracker().spec_run(events) == empty_tracker(),
        events.len() % 2 == 1 ==> empty_tracker().spec_run(events) == solo_tracker(
            (Note {
                pitch: events.last()->NoteOn_pitch,
                velocity: events.last()->NoteOn_velocity,
            }),
        ),
    decreases events.len(),
{
    let empty = empty_tracker();
    if events.len() == 0 {
    } else {
        let prefix = events.drop_last();
        assert(non_overlapping(prefix)) by {
            assert forall|i: int| 0 <= i < prefix.len() implies if i % 2 == 0 {
                (#[trigger] prefix[i]) is NoteOn
            } else {
                prefix[i] is NoteOff && prefix[i].pitch() == prefix[i - 1].pitch()
            } by {
                assert(prefix[i] == events[i]);
                if i % 2 != 0 {
                    assert(prefix[i - 1] == events[i - 1]);
                }
            }
        }
        lemma_no_overlap_tracks_last_note(prefix);
        let last = events.last();
        let i = events.len() - 1;
        assert(events[i] == last);
        if i % 2 == 0 {
            assert(last is NoteOn);
            assert(empty.spec_run(events) == empty.spec_run(prefix).spec_step(last));
        } else {
            assert(last is NoteOff && last.pitch() == events[i - 1].pitch());
            assert(prefix.last() == events[i - 1]);
        }
    }
}

/// Law (last-note priority): from silence, after note-on(a), note-on(b)
/// with a distinct pitch, and note-off of a's pitch, the sounding note is
/// `b` throughout the overlap and after a's release, and the released `a`
/// is remembered as the fallback note.
pub proof fn lemma_overlap_keeps_last_note(a: Note, b: Note, off_velocity: u8)
    requires
        a.pitch != b.pitch,
    ensures
        ({
            let after_a = empty_tracker().spec_note_on(a);
            let after_b = after_a.spec_note_on(b);
            let after_off = after_b.spec_note_off(a.pitch, off_velocity);
            after_a.current == Some(a) && after_b.current == Some(b) && after_off.current == Some(
                b,
            ) && after_off.previous == Some(Note { pitch: a.pitch, velocity: off_velocity })
        }),
{
}

} // verus!
