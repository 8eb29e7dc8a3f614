//! What the engine decides when a note or a lyric frame arrives.

use vstd::prelude::*;
use crate::lyrics::{Lyric, LyricSettings};
use crate::phoneme::Phoneme;
use crate::playing_sample::{accepts_note_on, may_start_note, PlayingSample};
use crate::sysex::{padded_frame, valid_frame, SysExLyric};

verus! {

/// The settings with the phoneme of the parameter source set to the
/// controls.
pub open spec fn with_controls(settings: LyricSettings, vowel: u8, consonant: u8) -> LyricSettings {
    LyricSettings {
        lyric_param: crate::lyrics::ParamLyric { current: Phoneme { vowel, consonant } },
        ..settings
    }
}

/// Takes the phoneme for a note-on, if a new note may start: the vowel and
/// consonant controls go to the parameter lyric, and the lyric in force
/// yields the phoneme. If no note may start, nothing changes and there is
/// no phoneme.
pub fn begin_note<G>(
    voices: &Vec<PlayingSample<G>>,
    settings: &mut LyricSettings,
    vowel: u8,
    consonant: u8,
) -> (lyric: Option<String>)
    requires
        vowel < crate::phoneme::VOWEL_COUNT,
        consonant < crate::phoneme::CONSONANT_COUNT,
    ensures
        lyric is Some <==> may_start_note(voices@),
        !may_start_note(voices@) ==> *final(settings) == *old(settings),
        may_start_note(voices@) ==> {
            &&& lyric.unwrap()@ == with_controls(*old(settings), vowel, consonant).phoneme_text()
            &&& *final(settings) == with_controls(*old(settings), vowel, consonant).advanced()
        },
{
    if !accepts_note_on(voices) {
        return None;
    }
    settings.lyric_param.current = Phoneme::new(vowel, consonant);
    assert(*settings == with_controls(*old(settings), vowel, consonant));
    Some(settings.get_jpn_utf8())
}

/// Handles a system-exclusive message. A message that is a lyric frame
/// becomes the lyric of the system-exclusive source; any other message is
/// passed over, and the settings stay as they are.
pub fn receive_sysex(settings: &mut LyricSettings, message: &[u8]) -> (taken: bool)
    ensures
        taken == valid_frame(padded_frame(message@)),
        taken ==> {
            &&& final(settings).lyric_sysex.frame() == padded_frame(message@)
            &&& final(settings).lyric_sysex.is_short() == (message@.len() == 4)
            &&& final(settings).lyric_source == old(settings).lyric_source
            &&& final(settings).lyric_file == old(settings).lyric_file
            &&& final(settings).lyric_param == old(settings).lyric_param
        },
        !taken ==> *final(settings) == *old(settings),
{
    match SysExLyric::from_buffer(message) {
        Some(lyric) => {
            settings.lyric_sysex = lyric;
            true
        },
        None => false,
    }
}

} // verus!
