use plutau::phoneme::{jis_glyph, kana_glyph, Phoneme};

#[test]
fn new_keeps_both_indices() {
    let p = Phoneme::new(3, 7);
    assert_eq!(p.vowel, 3);
    assert_eq!(p.consonant, 7);
}

#[test]
fn default_is_the_bare_first_vowel() {
    let p = Phoneme::default();
    assert_eq!(p.vowel, 0);
    assert_eq!(p.consonant, 0);
    assert_eq!(p.get_jpn_utf8(), "あ");
}

#[test]
fn latin_spelling_joins_consonant_and_vowel() {
    assert_eq!(Phoneme::new(0, 0).get_chars(), "a");
    assert_eq!(Phoneme::new(0, 1).get_chars(), "ka");
    assert_eq!(Phoneme::new(4, 14).get_chars(), "po");
    assert_eq!(Phoneme::new(2, 9).get_chars(), "wu");
    assert_eq!(Phoneme::new(3, 11).get_chars(), "ze");
}

#[test]
fn kana_table_corners_and_gaps() {
    assert_eq!(Phoneme::new(0, 0).get_jpn_utf8(), "あ");
    assert_eq!(Phoneme::new(4, 0).get_jpn_utf8(), "お");
    assert_eq!(Phoneme::new(1, 1).get_jpn_utf8(), "き");
    assert_eq!(Phoneme::new(2, 3).get_jpn_utf8(), "つ");
    assert_eq!(Phoneme::new(1, 7).get_jpn_utf8(), "");
    assert_eq!(Phoneme::new(2, 7).get_jpn_utf8(), "ゆ");
    assert_eq!(Phoneme::new(3, 9).get_jpn_utf8(), "");
    assert_eq!(Phoneme::new(4, 9).get_jpn_utf8(), "を");
    assert_eq!(Phoneme::new(0, 10).get_jpn_utf8(), "が");
    assert_eq!(Phoneme::new(4, 14).get_jpn_utf8(), "ぽ");
}

#[test]
fn jis_table_corners_and_gaps() {
    assert_eq!(Phoneme::new(0, 0).get_jpn_jis(), vec![0x82, 0xa0]);
    assert_eq!(Phoneme::new(2, 3).get_jpn_jis(), vec![0x82, 0xc2]);
    assert_eq!(Phoneme::new(1, 7).get_jpn_jis(), Vec::<u8>::new());
    assert_eq!(Phoneme::new(4, 9).get_jpn_jis(), vec![0x82, 0xf0]);
    assert_eq!(Phoneme::new(4, 11).get_jpn_jis(), vec![0x83, 0x00]);
    assert_eq!(Phoneme::new(4, 14).get_jpn_jis(), vec![0x83, 0x0f]);
}

#[test]
fn every_cell_has_a_glyph_exactly_where_it_has_bytes() {
    let mut glyphs = 0;
    for consonant in 0..15u8 {
        for vowel in 0..5u8 {
            let kana = kana_glyph(consonant, vowel);
            let jis = jis_glyph(consonant, vowel);
            assert_eq!(kana.is_some(), jis.is_some());
            if kana.is_some() {
                glyphs += 1;
            }
        }
    }
    assert_eq!(glyphs, 70);
}

#[test]
fn cells_outside_the_table_are_empty() {
    assert_eq!(kana_glyph(15, 0), None);
    assert_eq!(kana_glyph(0, 5), None);
    assert_eq!(jis_glyph(200, 200), None);
}
