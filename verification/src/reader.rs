//! Classifying raw events into note updates for the two voices.

use vstd::prelude::*;

use crate::note::NoteUpdate;

verus! {

/// A raw three-byte channel message as the host delivers it: one status
/// byte and two data bytes. The reader recognizes only the note-on and
/// note-off subtypes; everything else decodes to no update.
#[derive(Clone, Copy, Debug, PartialEq, Eq, Structural)]
pub struct RawMessage {
    pub status: u8,
    pub data1: u8,
    pub data2: u8,
}

/// What a raw message means: a status byte in the note-on range with two
/// valid data bytes switches `data1` on at velocity `data2`; one in the
/// note-off range switches it off; a data byte with its high bit set, or
/// any other status, is malformed or unrecognized and yields no update.
pub open spec fn decode(m: RawMessage) -> Option<NoteUpdate> {
    if 0x90 <= m.status <= 0x9F && m.data1 <= 0x7F && m.data2 <= 0x7F {
        Some(NoteUpdate { note: m.data1, onoff: true, velocity: m.data2 })
    } else if 0x80 <= m.status <= 0x8F && m.data1 <= 0x7F && m.data2 <= 0x7F {
        Some(NoteUpdate { note: m.data1, onoff: false, velocity: m.data2 })
    } else {
        None
    }
}

/// `decode` lifted to a frame that may carry no event at all.
pub open spec fn decode_opt(m: Option<RawMessage>) -> Option<NoteUpdate> {
    match m {
        Some(mm) => decode(mm),
        None => None,
    }
}

/// The bridge between the atomizer's optional raw events and the voices'
/// note updates: it classifies each event and fans the decoded update out,
/// one copy per voice. It holds no mutable state.
pub struct EventReader {}

impl EventReader {
    pub fn new() -> (r: EventReader) {
        EventReader {  }
    }

    /// Decodes one frame's optional raw event into the pair of updates
    /// addressed to the two voices: both copies of the same decoded
    /// update, or both `None` for a frame without a recognized event.
    pub fn next(&self, atom: Option<RawMessage>) -> (r: (Option<NoteUpdate>, Option<NoteUpdate>))
        ensures
            r.0 == decode_opt(atom),
            r.1 == decode_opt(atom),
    {
        if let Some(m) = atom {
            if 0x90 <= m.status && m.status <= 0x9F && m.data1 <= 0x7F && m.data2 <= 0x7F {
                let u = NoteUpdate { note: m.data1, onoff: true, velocity: m.data2 };
                (Some(u), Some(u))
            } else if 0x80 <= m.status && m.status <= 0x8F && m.data1 <= 0x7F && m.data2 <= 0x7F {
                let u = NoteUpdate { note: m.data1, onoff: false, velocity: m.data2 };
                (Some(u), Some(u))
            } else {
                (None, None)
            }
        } else {
            (None, None)
        }
    }
}

} // verus!
