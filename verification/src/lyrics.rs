//! Lyric sources: where the next phoneme of a note comes from.

use vstd::prelude::*;
use std::path::PathBuf;
use crate::paths::path_bytes;
use crate::phoneme::{jis_glyph, jis_pair, kana, kana_glyph, pair_bytes, Phoneme, VOWEL_COUNT};
use crate::sysex::SysExLyric;
use crate::text::{chars_of, split_whitespace, texts, tokens};

verus! {

/// Number of cells in the glyph tables.
pub const TABLE_CELLS: u8 = 75;

/// The hiragana glyph in cell `i` of the table, read row by row.
pub open spec fn kana_at(i: int) -> Option<char> {
    kana((i / VOWEL_COUNT as int) as u8, (i % VOWEL_COUNT as int) as u8)
}

/// The first table cell at or after `from` that holds the glyph `c`.
pub open spec fn first_kana_index(c: char, from: int) -> Option<int>
    decreases TABLE_CELLS - from,
{
    if from < 0 || from >= TABLE_CELLS {
        None
    } else if kana_at(from) == Some(c) {
        Some(from)
    } else {
        first_kana_index(c, from + 1)
    }
}

/// The Shift-JIS bytes of one character: those of the first table cell that
/// holds it, or nothing for a character outside the table.
pub open spec fn jis_of_char(c: char) -> Seq<u8> {
    match first_kana_index(c, 0) {
        Some(i) => pair_bytes(jis_pair((i / VOWEL_COUNT as int) as u8, (i % VOWEL_COUNT as int) as u8)),
        None => Seq::empty(),
    }
}

/// The Shift-JIS bytes of a text, character by character.
pub open spec fn jis_of_text(text: Seq<char>) -> Seq<u8>
    decreases text.len(),
{
    if text.len() == 0 {
        Seq::empty()
    } else {
        jis_of_text(text.drop_last()) + jis_of_char(text.last())
    }
}

/// The Shift-JIS form of a lyric: the bytes of its text, or two zero bytes
/// when no character of it is in the table.
pub open spec fn jis_or_null(text: Seq<char>) -> Seq<u8> {
    if jis_of_text(text).len() == 0 {
        seq![0u8, 0u8]
    } else {
        jis_of_text(text)
    }
}

/// Appends the Shift-JIS bytes of one character, if it is in the table.
pub fn push_jis_of_char(out: &mut Vec<u8>, c: char)
    ensures
        final(out)@ == old(out)@ + jis_of_char(c),
{
    let mut i: u8 = 0;
    while i < TABLE_CELLS
        invariant
            i <= TABLE_CELLS,
            first_kana_index(c, 0) == first_kana_index(c, i as int),
            *out == *old(out),
        decreases TABLE_CELLS - i,
    {
        let consonant = i / VOWEL_COUNT;
        let vowel = i % VOWEL_COUNT;
        let hit = match kana_glyph(consonant, vowel) {
            Some(g) => g == c,
            None => false,
        };
        if hit {
            if let Some(p) = jis_glyph(consonant, vowel) {
                out.push(p.0);
                out.push(p.1);
            }
            assert(final(out)@ =~= old(out)@ + jis_of_char(c));
            return;
        }
        i += 1;
    }
    assert(out@ =~= old(out)@ + jis_of_char(c));
}

/// The Shift-JIS form of a lyric text.
pub fn jis_from_text(text: &str) -> (v: Vec<u8>)
    ensures
        v@ == jis_or_null(text@),
{
    let chars = chars_of(text);
    let mut out: Vec<u8> = Vec::new();
    let mut i: usize = 0;
    while i < chars.len()
        invariant
            i <= chars.len(),
            chars@ == text@,
            out@ == jis_of_text(chars@.take(i as int)),
        decreases chars.len() - i,
    {
        push_jis_of_char(&mut out, chars[i]);
        i += 1;
        assert(chars@.take(i as int).drop_last() =~= chars@.take(i - 1));
    }
    assert(chars@.take(i as int) =~= text@);
    if out.len() == 0 {
        let mut null: Vec<u8> = Vec::new();
        null.push(0);
        null.push(0);
        assert(null@ =~= seq![0u8, 0u8]);
        return null;
    }
    out
}

/// Every glyph stands in one cell of the table only.
pub proof fn lemma_kana_distinct(i: int, j: int)
    requires
        0 <= i < TABLE_CELLS,
        0 <= j < TABLE_CELLS,
        kana_at(i) is Some,
        kana_at(i) == kana_at(j),
    ensures
        i == j,
{
}

/// The cell that holds a glyph, with no earlier cell that holds it, is the
/// one that the search from `from` finds.
pub proof fn lemma_first_kana_index(c: char, from: int, i: int)
    requires
        0 <= from <= i < TABLE_CELLS,
        kana_at(i) == Some(c),
        forall|j: int| from <= j < i ==> kana_at(j) != Some(c),
    ensures
        first_kana_index(c, from) == Some(i),
    decreases i - from,
{
    if from < i {
        lemma_first_kana_index(c, from + 1, i);
    }
}

/// The Shift-JIS form found for the glyph of a phoneme is the one that the
/// phoneme's own table gives, and two zero bytes stand for a gap in both.
pub proof fn lemma_phoneme_jis_agrees(p: Phoneme)
    requires
        p.in_range(),
    ensures
        jis_or_null(p.kana_text()) == if p.jis_bytes().len() == 0 {
            seq![0u8, 0u8]
        } else {
            p.jis_bytes()
        },
{
    let i = p.consonant * VOWEL_COUNT + p.vowel;
    assert(i / VOWEL_COUNT as int == p.consonant && i % VOWEL_COUNT as int == p.vowel);
    assert(kana(p.consonant, p.vowel) is Some <==> jis_pair(p.consonant, p.vowel) is Some);
    match kana(p.consonant, p.vowel) {
        Some(g) => {
            assert forall|j: int| 0 <= j < i implies kana_at(j) != Some(g) by {
                if kana_at(j) == Some(g) {
                    lemma_kana_distinct(i, j);
                }
            }
            lemma_first_kana_index(g, 0, i);
            let text = seq![g];
            assert(text.drop_last() =~= Seq::<char>::empty());
            assert(jis_of_text(text.drop_last()) =~= Seq::<u8>::empty());
            assert(jis_of_text(text) =~= jis_of_char(g));
            assert(jis_of_char(g) =~= p.jis_bytes());
        },
        None => {
            assert(p.kana_text() =~= Seq::<char>::empty());
        },
    }
}

/// A source of phonemes.
pub trait Lyric: Sized {
    /// Whether the source is in a state from which a phoneme can be taken.
    spec fn ready(&self) -> bool;

    /// The phoneme that the source yields next.
    spec fn phoneme_text(&self) -> Seq<char>;

    /// The source after it has yielded a phoneme.
    spec fn advanced(&self) -> Self;

    /// The Latin form that the source yields next.
    spec fn latin_text(&self) -> Seq<char>;

    /// The source after it has yielded a Latin form.
    spec fn after_latin(&self) -> Self;

    /// Takes the next phoneme as hiragana text.
    fn get_jpn_utf8(&mut self) -> (s: String)
        requires
            old(self).ready(),
        ensures
            s@ == old(self).phoneme_text(),
            *final(self) == old(self).advanced(),
    ;

    /// Takes the next phoneme as Shift-JIS bytes.
    fn get_jpn_jis(&mut self) -> (v: Vec<u8>)
        requires
            old(self).ready(),
        ensures
            v@ == jis_or_null(old(self).phoneme_text()),
            *final(self) == old(self).advanced(),
    {
        let utf8 = self.get_jpn_utf8();
        jis_from_text(utf8.as_str())
    }

    /// Takes the next phoneme in Latin letters, as far as the source can
    /// spell it.
    fn get_latin(&mut self) -> (s: String)
        requires
            old(self).ready(),
        ensures
            s@ == old(self).latin_text(),
            *final(self) == old(self).after_latin(),
    ;
}

/// Which lyric source is in force.
#[derive(Clone, Debug)]
pub enum LyricSource {
    Param,
    File,
    SysEx,
}

impl LyricSource {
    /// The source that a selector number stands for.
    pub open spec fn of_index(index: i32) -> LyricSource {
        if index == 1 {
            LyricSource::File
        } else if index == 2 {
            LyricSource::SysEx
        } else {
            LyricSource::Param
        }
    }

    /// The source for a selector number: 1 is the file, 2 the
    /// system-exclusive frame, and every other number the parameters.
    pub fn from_index(index: i32) -> (source: LyricSource)
        ensures
            source == Self::of_index(index),
    {
        match index {
            1 => LyricSource::File,
            2 => LyricSource::SysEx,
            _ => LyricSource::Param,
        }
    }
}

/// The phoneme set by the vowel and consonant controls.
#[derive(Clone)]
pub struct ParamLyric {
    pub current: Phoneme,
}

impl Lyric for ParamLyric {
    open spec fn ready(&self) -> bool {
        self.current.in_range()
    }

    open spec fn phoneme_text(&self) -> Seq<char> {
        self.current.kana_text()
    }

    open spec fn advanced(&self) -> Self {
        *self
    }

    open spec fn latin_text(&self) -> Seq<char> {
        self.current.latin_text()
    }

    open spec fn after_latin(&self) -> Self {
        *self
    }

    fn get_jpn_utf8(&mut self) -> (s: String) {
        self.current.get_jpn_utf8()
    }

    fn get_latin(&mut self) -> (s: String) {
        self.current.get_chars()
    }
}

/// The words of a lyric file, handed out one per note.
#[derive(Clone)]
pub struct FileLyric {
    pub path: PathBuf,
    pub lyric_vec: Vec<String>,
    pub index: usize,
}

impl FileLyric {
    /// The position after the word at `index` has been handed out: the next
    /// word, or the first one again after the last. A position outside the
    /// list stays where it is.
    pub open spec fn next_index(&self) -> usize {
        if self.index < self.lyric_vec@.len() {
            if self.index + 1 >= self.lyric_vec@.len() {
                0
            } else {
                (self.index + 1) as usize
            }
        } else {
            self.index
        }
    }

    /// The word at the current position, or the empty text when the position
    /// is outside the list.
    pub open spec fn current_word(&self) -> Seq<char> {
        if self.index < self.lyric_vec@.len() {
            self.lyric_vec@[self.index as int]@
        } else {
            Seq::empty()
        }
    }

    /// A lyric list from the text of the file at `path`: its words, and the
    /// position at the first of them.
    pub fn from_text(path: PathBuf, text: &str) -> (f: Self)
        ensures
            f.path == path,
            texts(f.lyric_vec@) == tokens(text@),
            f.index == 0,
    {
        FileLyric { path, lyric_vec: split_whitespace(text), index: 0 }
    }

    /// Goes back to the first word.
    pub fn rewind(&mut self)
        ensures
            *final(self) == (FileLyric { index: 0, ..*old(self) }),
    {
        self.index = 0;
    }
}

impl Lyric for FileLyric {
    open spec fn ready(&self) -> bool {
        true
    }

    open spec fn phoneme_text(&self) -> Seq<char> {
        self.current_word()
    }

    open spec fn advanced(&self) -> Self {
        FileLyric { index: self.next_index(), ..*self }
    }

    open spec fn latin_text(&self) -> Seq<char> {
        self.current_word()
    }

    open spec fn after_latin(&self) -> Self {
        self.advanced()
    }

    fn get_jpn_utf8(&mut self) -> (s: String) {
        if self.index < self.lyric_vec.len() {
            let lyric = self.lyric_vec[self.index].clone();
            self.index += 1;
            if self.index >= self.lyric_vec.len() {
                self.index = 0;
            }
            lyric
        } else {
            String::new()
        }
    }

    fn get_latin(&mut self) -> (s: String) {
        self.get_jpn_utf8()
    }
}

/// The position in a lyric list goes round: from a word of the list it moves
/// to the next word, and from the last word to the first.
pub proof fn lemma_file_lyric_goes_round(f: FileLyric)
    requires
        f.index < f.lyric_vec@.len(),
    ensures
        f.advanced().index == (f.index + 1) % (f.lyric_vec@.len() as int),
        f.advanced().lyric_vec == f.lyric_vec,
        f.advanced().index < f.lyric_vec@.len(),
{
    let n = f.lyric_vec@.len() as int;
    assert(f.lyric_vec.len() == n);
    if f.index + 1 < n {
        vstd::arithmetic::div_mod::lemma_small_mod((f.index + 1) as nat, n as nat);
    } else {
        vstd::arithmetic::div_mod::lemma_mod_self_0(n);
    }
}

/// The three lyric sources and the choice among them.
#[derive(Clone)]
pub struct LyricSettings {
    pub lyric_source: LyricSource,
    pub lyric_file: FileLyric,
    pub lyric_sysex: SysExLyric,
    pub lyric_param: ParamLyric,
}

impl LyricSettings {
    /// Settings that take the phoneme from the parameters, with an empty
    /// lyric list that belongs to no file, and the default frame.
    pub fn new() -> (settings: Self)
        ensures
            settings.lyric_source == LyricSource::Param,
            path_bytes(settings.lyric_file.path) == Seq::<u8>::empty(),
            settings.lyric_file.lyric_vec@.len() == 0,
            settings.lyric_file.index == 0,
            settings.lyric_sysex.frame() == seq![0xF0u8, 0x30u8, 0x42u8, 0xF7u8, 0x00u8, 0xF7u8],
            settings.lyric_sysex.is_short(),
            settings.lyric_param.current.vowel == 0,
            settings.lyric_param.current.consonant == 0,
    {
        LyricSettings {
            lyric_source: LyricSource::Param,
            lyric_file: FileLyric { path: PathBuf::new(), lyric_vec: Vec::new(), index: 0 },
            lyric_sysex: SysExLyric::default(),
            lyric_param: ParamLyric { current: Phoneme::default() },
        }
    }

    /// Chooses the source of the next phonemes; the sources themselves, and
    /// the position in the lyric list, stay as they are.
    pub fn set_lyric_source(&mut self, source: LyricSource)
        ensures
            *final(self) == (LyricSettings { lyric_source: source, ..*old(self) }),
    {
        self.lyric_source = source;
    }
}

impl Lyric for LyricSettings {
    open spec fn ready(&self) -> bool {
        match self.lyric_source {
            LyricSource::Param => self.lyric_param.ready(),
            LyricSource::File => self.lyric_file.ready(),
            LyricSource::SysEx => self.lyric_sysex.ready(),
        }
    }

    open spec fn phoneme_text(&self) -> Seq<char> {
        match self.lyric_source {
            LyricSource::Param => self.lyric_param.phoneme_text(),
            LyricSource::File => self.lyric_file.phoneme_text(),
            LyricSource::SysEx => self.lyric_sysex.phoneme_text(),
        }
    }

    open spec fn advanced(&self) -> Self {
        match self.lyric_source {
            LyricSource::Param => LyricSettings { lyric_param: self.lyric_param.advanced(), ..*self },
            LyricSource::File => LyricSettings { lyric_file: self.lyric_file.advanced(), ..*self },
            LyricSource::SysEx => LyricSettings { lyric_sysex: self.lyric_sysex.advanced(), ..*self },
        }
    }

    open spec fn latin_text(&self) -> Seq<char> {
        match self.lyric_source {
            LyricSource::Param => self.lyric_param.latin_text(),
            LyricSource::File => self.lyric_file.latin_text(),
            LyricSource::SysEx => self.lyric_sysex.latin_text(),
        }
    }

    open spec fn after_latin(&self) -> Self {
        match self.lyric_source {
            LyricSource::Param => LyricSettings { lyric_param: self.lyric_param.after_latin(), ..*self },
            LyricSource::File => LyricSettings { lyric_file: self.lyric_file.after_latin(), ..*self },
            LyricSource::SysEx => LyricSettings { lyric_sysex: self.lyric_sysex.after_latin(), ..*self },
        }
    }

    fn get_jpn_utf8(&mut self) -> (s: String) {
        match self.lyric_source {
            LyricSource::Param => self.lyric_param.get_jpn_utf8(),
            LyricSource::File => self.lyric_file.get_jpn_utf8(),
            LyricSource::SysEx => self.lyric_sysex.get_jpn_utf8(),
        }
    }

    fn get_latin(&mut self) -> (s: String) {
        match self.lyric_source {
            LyricSource::Param => self.lyric_param.get_latin(),
            LyricSource::File => self.lyric_file.get_latin(),
            LyricSource::SysEx => self.lyric_sysex.get_latin(),
        }
    }
}

} // verus!
