//! Timed MIDI events and the per-event decision handed to the synthesizer.

use vstd::prelude::*;

verus! {

/// What a key event does to its note.
#[derive(Clone, Copy, Debug, PartialEq, Eq, Structural)]
pub enum KeyKind {
    Press,
    Release,
    Aftertouch,
}

/// The musical content of a timed event.
#[derive(Clone, Debug, PartialEq, Eq)]
pub enum Payload {
    /// A note being pressed, released or retouched.
    Key { kind: KeyKind, note: u8, velocity: u8 },
    /// A file-level meta event; carried through, never played.
    Meta { typ: u8, data: Vec<u8> },
    /// A system-exclusive blob; carried through, never played.
    SysEx { data: Vec<u8> },
    /// Any other occurrence the player ignores.
    Other,
}

/// One MIDI occurrence, tagged with the tick delay since its predecessor in
/// the same track. Events are created by the producer, handed through the
/// channel to the scheduler, and applied to the synthesizer exactly when due.
#[derive(Clone, Debug, PartialEq, Eq)]
pub struct TimedEvent {
    /// Ticks of musical time elapsed since the previous event of the track.
    pub delay: u32,
    /// The MIDI channel the event belongs to.
    pub channel: u8,
    /// What the event carries.
    pub payload: Payload,
}

/// The synthesizer-facing decision for one event.
#[derive(Clone, Copy, Debug, PartialEq, Eq, Structural)]
pub enum KeyAction {
    /// Start the note at the given velocity.
    NoteOn { note: u8, velocity: u8 },
    /// Stop the note.
    NoteOff { note: u8 },
    /// Leave the voices untouched.
    Ignore,
}

/// What the synthesizer is asked to do for `event` when `channel` is the
/// played channel: a press starts its note, a release stops it, and every
/// other payload, and any event of another channel, is ignored.
pub open spec fn spec_key_action(event: TimedEvent, channel: u8) -> KeyAction {
    if event.channel == channel {
        match event.payload {
            Payload::Key { kind, note, velocity } => match kind {
                KeyKind::Press => KeyAction::NoteOn { note, velocity },
                KeyKind::Release => KeyAction::NoteOff { note },
                KeyKind::Aftertouch => KeyAction::Ignore,
            },
            _ => KeyAction::Ignore,
        }
    } else {
        KeyAction::Ignore
    }
}

/// Decides what applying `event` does to the synthesizer's voices.
pub fn key_action(event: &TimedEvent, channel: u8) -> (r: KeyAction)
    ensures
        r == spec_key_action(*event, channel),
{
    if event.channel == channel {
        match &event.payload {
            Payload::Key { kind, note, velocity } => match kind {
                KeyKind::Press => KeyAction::NoteOn { note: *note, velocity: *velocity },
                KeyKind::Release => KeyAction::NoteOff { note: *note },
                KeyKind::Aftertouch => KeyAction::Ignore,
            },
            _ => KeyAction::Ignore,
        }
    } else {
        KeyAction::Ignore
    }
}

} // verus!
