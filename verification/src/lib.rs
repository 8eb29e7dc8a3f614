//! The core of a concatenative singing-voice synthesizer: voicebank ledgers,
//! lyric sources, the per-voice playback state machine and the helpers that
//! prepare sample data.

pub mod bytes;
pub mod frq_parse;
pub mod lyrics;
pub mod messages;
pub mod note_events;
pub mod oto;
pub mod paths;
pub mod phoneme;
pub mod playing_sample;
pub mod sample_util;
pub mod sysex;
pub mod text;
