//! Sample-accurate scheduling of MIDI events for real-time audio playback.
//!
//! The library turns a stream of timed MIDI events, each carrying a delay in
//! musical ticks, into a per-buffer render plan: an exact slicing of a
//! fixed-size audio buffer into synthesizer render spans interleaved with
//! event applications. The surrounding program owns the audio backend and the
//! file parser; the scheduling decisions, the tick-to-sample conversion and
//! the event bookkeeping live here.

pub mod convert;
pub mod event;
pub mod scheduler;
pub mod source;

pub use convert::{bpm_from_tempo, samples, ConfigError};
pub use event::{key_action, KeyAction, KeyKind, Payload, TimedEvent};
pub use scheduler::{Scheduler, Segment};
pub use source::EventSource;
