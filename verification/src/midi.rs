use vstd::prelude::*;

verus! {

/// Status byte of a note-on message (channel 1).
pub const NOTE_ON: u8 = 0x90;

/// Status byte of a note-off message (channel 1).
pub const NOTE_OFF: u8 = 0x80;

/// The MIDI input port listened to.
pub const INNER_MIDI_PORT: usize = 0;

/// Velocity that some keyboards send with every release.
pub const RELEASE_VELOCITY: u8 = 64;

/// A note to play: pitch and velocity, both on the MIDI scale.
#[derive(Copy, Clone, Debug, PartialEq, Eq, Structural)]
pub struct MidiNote {
    pub pitch: u8,
    pub velocity: u8,
}

/// The note a three-byte message (status, pitch, velocity) starts, if it is
/// a note-on message; other messages (note-off among them) are ignored.
pub fn note_on(message: &[u8]) -> (r: Option<MidiNote>)
    requires
        message@.len() >= 3,
    ensures
        r == if message@[0] == NOTE_ON {
            Some(MidiNote { pitch: message@[1], velocity: message@[2] })
        } else {
            None
        },
{
    let event = message[0];
    let pitch = message[1];
    let velocity = message[2];
    if event == NOTE_ON {
        Some(MidiNote { pitch, velocity })
    } else {
        None
    }
}

/// The note a three-byte message is played as by the folder player: every
/// message but note-off messages and messages of release velocity 64.
pub fn sounding_note(message: &[u8]) -> (r: Option<MidiNote>)
    requires
        message@.len() >= 3,
    ensures
        r == if message@[2] != RELEASE_VELOCITY && message@[0] != NOTE_OFF {
            Some(MidiNote { pitch: message@[1], velocity: message@[2] })
        } else {
            None
        },
{
    if message[2] != RELEASE_VELOCITY && message[0] != NOTE_OFF {
        Some(MidiNote { pitch: message[1], velocity: message[2] })
    } else {
        None
    }
}

} // verus!
