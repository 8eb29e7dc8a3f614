use plutau::lyrics::{jis_from_text, FileLyric, Lyric, LyricSettings, LyricSource, ParamLyric};
use plutau::phoneme::Phoneme;
use plutau::sysex::SysExLyric;
use plutau::text::{chars_of, split_whitespace, text_of};
use std::path::PathBuf;

#[test]
fn chars_and_text_round_trip() {
    let chars = chars_of("かa ぽ");
    assert_eq!(chars, vec!['か', 'a', ' ', 'ぽ']);
    assert_eq!(text_of(&chars, 1, 4), "a ぽ");
    assert_eq!(text_of(&chars, 2, 2), "");
}

#[test]
fn words_are_split_at_any_whitespace() {
    assert_eq!(split_whitespace("か き\tく\n\nけ  こ "), vec!["か", "き", "く", "け", "こ"]);
    assert_eq!(split_whitespace("  \n "), Vec::<String>::new());
    assert_eq!(split_whitespace(""), Vec::<String>::new());
    assert_eq!(split_whitespace("さ\u{3000}し"), vec!["さ", "し"]);
    assert_eq!(split_whitespace("one"), vec!["one"]);
}

#[test]
fn file_lyric_hands_out_words_in_order_and_wraps() {
    let mut file = FileLyric::from_text(PathBuf::from("song.txt"), "あ い う");
    assert_eq!(file.path, PathBuf::from("song.txt"));
    assert_eq!(file.index, 0);
    assert_eq!(file.get_jpn_utf8(), "あ");
    assert_eq!(file.index, 1);
    assert_eq!(file.get_jpn_utf8(), "い");
    assert_eq!(file.get_jpn_utf8(), "う");
    assert_eq!(file.index, 0);
    assert_eq!(file.get_jpn_utf8(), "あ");
}

#[test]
fn empty_file_lyric_yields_the_empty_text() {
    let mut file = FileLyric::from_text(PathBuf::new(), "");
    assert_eq!(file.get_jpn_utf8(), "");
    assert_eq!(file.index, 0);
    assert_eq!(file.get_latin(), "");
}

#[test]
fn file_lyric_position_outside_the_list_stays() {
    let mut file = FileLyric::from_text(PathBuf::new(), "あ い");
    file.index = 7;
    assert_eq!(file.get_jpn_utf8(), "");
    assert_eq!(file.index, 7);
}

#[test]
fn file_lyric_latin_form_is_the_word_and_advances() {
    let mut file = FileLyric::from_text(PathBuf::new(), "か き");
    assert_eq!(file.get_latin(), "か");
    assert_eq!(file.index, 1);
}

#[test]
fn rewind_goes_back_to_the_first_word() {
    let mut file = FileLyric::from_text(PathBuf::new(), "か き く");
    file.get_jpn_utf8();
    file.get_jpn_utf8();
    file.rewind();
    assert_eq!(file.index, 0);
    assert_eq!(file.lyric_vec.len(), 3);
    assert_eq!(file.get_jpn_utf8(), "か");
}

#[test]
fn param_lyric_follows_the_controls_and_does_not_advance() {
    let mut param = ParamLyric { current: Phoneme::new(1, 2) };
    assert_eq!(param.get_jpn_utf8(), "し");
    assert_eq!(param.get_jpn_utf8(), "し");
    assert_eq!(param.get_latin(), "si");
    assert_eq!(param.get_jpn_jis(), vec![0x82, 0xb5]);
}

#[test]
fn jis_of_text_maps_each_table_glyph() {
    assert_eq!(jis_from_text("あ"), vec![0x82, 0xa0]);
    assert_eq!(jis_from_text("かぽ"), vec![0x82, 0xa9, 0x83, 0x0f]);
    assert_eq!(jis_from_text("をxゆ"), vec![0x82, 0xf0, 0x82, 0xe2]);
}

#[test]
fn jis_of_text_without_table_glyphs_is_two_zero_bytes() {
    assert_eq!(jis_from_text(""), vec![0x00, 0x00]);
    assert_eq!(jis_from_text("abc"), vec![0x00, 0x00]);
    assert_eq!(jis_from_text("漢"), vec![0x00, 0x00]);
}

#[test]
fn jis_of_a_param_gap_is_two_zero_bytes() {
    let mut param = ParamLyric { current: Phoneme::new(1, 7) };
    assert_eq!(param.get_jpn_jis(), vec![0x00, 0x00]);
}

#[test]
fn jis_through_the_trait_agrees_with_the_phoneme_table() {
    for consonant in 0..15u8 {
        for vowel in 0..5u8 {
            let phoneme = Phoneme::new(vowel, consonant);
            let direct = phoneme.get_jpn_jis();
            let mut param = ParamLyric { current: phoneme };
            let through = param.get_jpn_jis();
            if direct.is_empty() {
                assert_eq!(through, vec![0x00, 0x00]);
            } else {
                assert_eq!(through, direct);
            }
        }
    }
}

#[test]
fn new_settings_take_the_phoneme_from_the_parameters() {
    let mut settings = LyricSettings::new();
    assert!(matches!(settings.lyric_source, LyricSource::Param));
    assert_eq!(settings.lyric_file.lyric_vec.len(), 0);
    assert_eq!(settings.lyric_file.index, 0);
    assert_eq!(settings.lyric_file.path, PathBuf::new());
    assert_eq!(settings.lyric_param.current.vowel, 0);
    assert_eq!(settings.lyric_param.current.consonant, 0);
    assert_eq!(settings.lyric_sysex.to_buffer(), ([0xF0, 0x30, 0x42, 0xF7, 0x00, 0xF7], 6));
    assert_eq!(settings.get_jpn_utf8(), "あ");
    assert_eq!(settings.get_latin(), "a");
}

#[test]
fn settings_dispatch_to_the_chosen_source() {
    let mut settings = LyricSettings::new();
    settings.lyric_file = FileLyric::from_text(PathBuf::new(), "か き");
    settings.lyric_param.current = Phoneme::new(2, 4);
    settings.lyric_sysex = SysExLyric::from_buffer(&[0xF0, 0x30, 0x88, 0xF7]).unwrap();
    assert_eq!(settings.get_jpn_utf8(), "ぬ");
    settings.set_lyric_source(LyricSource::File);
    assert_eq!(settings.get_jpn_utf8(), "か");
    settings.set_lyric_source(LyricSource::SysEx);
    assert_eq!(settings.get_jpn_utf8(), "よ");
    assert_eq!(settings.get_latin(), "");
    assert_eq!(settings.get_jpn_jis(), vec![0x82, 0xe4]);
}

#[test]
fn switching_the_source_keeps_the_file_position() {
    let mut settings = LyricSettings::new();
    settings.lyric_file = FileLyric::from_text(PathBuf::new(), "か き く");
    settings.set_lyric_source(LyricSource::File);
    assert_eq!(settings.get_jpn_utf8(), "か");
    settings.set_lyric_source(LyricSource::Param);
    assert_eq!(settings.get_jpn_utf8(), "あ");
    assert_eq!(settings.lyric_file.index, 1);
    settings.set_lyric_source(LyricSource::File);
    assert_eq!(settings.get_jpn_utf8(), "き");
}

#[test]
fn source_numbers_map_to_sources() {
    assert!(matches!(LyricSource::from_index(0), LyricSource::Param));
    assert!(matches!(LyricSource::from_index(1), LyricSource::File));
    assert!(matches!(LyricSource::from_index(2), LyricSource::SysEx));
    assert!(matches!(LyricSource::from_index(3), LyricSource::Param));
    assert!(matches!(LyricSource::from_index(-1), LyricSource::Param));
}

#[test]
fn cloned_settings_are_independent() {
    let mut settings = LyricSettings::new();
    settings.lyric_file = FileLyric::from_text(PathBuf::from("a/b.txt"), "か き");
    settings.set_lyric_source(LyricSource::File);
    let mut copy = settings.clone();
    assert_eq!(copy.lyric_file.path, PathBuf::from("a/b.txt"));
    assert_eq!(copy.get_jpn_utf8(), "か");
    assert_eq!(settings.lyric_file.index, 0);
}
