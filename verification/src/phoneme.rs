//! Phonemes addressed by a vowel and a consonant index, and the glyph tables
//! that turn such a pair into hiragana, Shift-JIS bytes or Latin letters.

use vstd::prelude::*;

verus! {

/// Number of vowel columns in the glyph tables.
pub const VOWEL_COUNT: u8 = 5;

/// Number of consonant rows in the glyph tables; row 0 is "no consonant".
pub const CONSONANT_COUNT: u8 = 15;

/// The cell of a five-column table row that belongs to `vowel`.
pub open spec fn cell<T>(vowel: u8, a: Option<T>, i: Option<T>, u: Option<T>, e: Option<T>, o: Option<T>) -> Option<T> {
    match vowel {
        0 => a,
        1 => i,
        2 => u,
        3 => e,
        4 => o,
        _ => None,
    }
}

/// The hiragana glyph for a consonant row and a vowel column, where the
/// syllabary has one.
pub open spec fn kana(consonant: u8, vowel: u8) -> Option<char> {
    match consonant {
        0 => cell(vowel, Some('あ'), Some('い'), Some('う'), Some('え'), Some('お')),
        1 => cell(vowel, Some('か'), Some('き'), Some('く'), Some('け'), Some('こ')),
        2 => cell(vowel, Some('さ'), Some('し'), Some('す'), Some('せ'), Some('そ')),
        3 => cell(vowel, Some('た'), Some('ち'), Some('つ'), Some('て'), Some('と')),
        4 => cell(vowel, Some('な'), Some('に'), Some('ぬ'), Some('ね'), Some('の')),
        5 => cell(vowel, Some('は'), Some('ひ'), Some('ふ'), Some('へ'), Some('ほ')),
        6 => cell(vowel, Some('ま'), Some('み'), Some('む'), Some('め'), Some('も')),
        7 => cell(vowel, Some('や'), None, Some('ゆ'), None, Some('よ')),
        8 => cell(vowel, Some('ら'), Some('り'), Some('る'), Some('れ'), Some('ろ')),
        9 => cell(vowel, Some('わ'), None, None, None, Some('を')),
        10 => cell(vowel, Some('が'), Some('ぎ'), Some('ぐ'), Some('げ'), Some('ご')),
        11 => cell(vowel, Some('ざ'), Some('じ'), Some('ず'), Some('ぜ'), Some('ぞ')),
        12 => cell(vowel, Some('だ'), Some('ぢ'), Some('づ'), Some('で'), Some('ど')),
        13 => cell(vowel, Some('ば'), Some('び'), Some('ぶ'), Some('べ'), Some('ぼ')),
        14 => cell(vowel, Some('ぱ'), Some('ぴ'), Some('ぷ'), Some('ぺ'), Some('ぽ')),
        _ => None,
    }
}

/// The two Shift-JIS bytes stored for a consonant row and a vowel column,
/// where the syllabary has a glyph.
pub open spec fn jis_pair(consonant: u8, vowel: u8) -> Option<(u8, u8)> {
    match consonant {
        0 => cell(vowel, Some((0x82, 0xa0)), Some((0x82, 0xa2)), Some((0x82, 0xa4)), Some((0x82, 0xa6)), Some((0x82, 0xa8))),
        1 => cell(vowel, Some((0x82, 0xa9)), Some((0x82, 0xab)), Some((0x82, 0xad)), Some((0x82, 0xaf)), Some((0x82, 0xb1))),
        2 => cell(vowel, Some((0x82, 0xb3)), Some((0x82, 0xb5)), Some((0x82, 0xb7)), Some((0x82, 0xb9)), Some((0x82, 0xbb))),
        3 => cell(vowel, Some((0x82, 0xbd)), Some((0x82, 0xbf)), Some((0x82, 0xc2)), Some((0x82, 0xc4)), Some((0x82, 0xc6))),
        4 => cell(vowel, Some((0x82, 0xc8)), Some((0x82, 0xc9)), Some((0x82, 0xca)), Some((0x82, 0xcb)), Some((0x82, 0xcc))),
        5 => cell(vowel, Some((0x82, 0xcd)), Some((0x82, 0xcf)), Some((0x82, 0xd1)), Some((0x82, 0xd3)), Some((0x82, 0xd5))),
        6 => cell(vowel, Some((0x82, 0xd7)), Some((0x82, 0xd9)), Some((0x82, 0xdb)), Some((0x82, 0xdd)), Some((0x82, 0xdf))),
        7 => cell(vowel, Some((0x82, 0xe0)), None, Some((0x82, 0xe2)), None, Some((0x82, 0xe4))),
        8 => cell(vowel, Some((0x82, 0xe6)), Some((0x82, 0xe8)), Some((0x82, 0xe9)), Some((0x82, 0xea)), Some((0x82, 0xeb))),
        9 => cell(vowel, Some((0x82, 0xed)), None, None, None, Some((0x82, 0xf0))),
        10 => cell(vowel, Some((0x82, 0xf2)), Some((0x82, 0xf4)), Some((0x82, 0xf6)), Some((0x82, 0xf8)), Some((0x82, 0xfa))),
        11 => cell(vowel, Some((0x82, 0xfc)), Some((0x82, 0xfd)), Some((0x82, 0xfe)), Some((0x82, 0xff)), Some((0x83, 0x00))),
        12 => cell(vowel, Some((0x83, 0x01)), Some((0x83, 0x02)), Some((0x83, 0x03)), Some((0x83, 0x04)), Some((0x83, 0x05))),
        13 => cell(vowel, Some((0x83, 0x06)), Some((0x83, 0x07)), Some((0x83, 0x08)), Some((0x83, 0x09)), Some((0x83, 0x0a))),
        14 => cell(vowel, Some((0x83, 0x0b)), Some((0x83, 0x0c)), Some((0x83, 0x0d)), Some((0x83, 0x0e)), Some((0x83, 0x0f))),
        _ => None,
    }
}

/// The Latin letter of a consonant row; row 0 has none.
pub open spec fn consonant_letter(consonant: u8) -> Option<char> {
    match consonant {
        1 => Some('k'),
        2 => Some('s'),
        3 => Some('t'),
        4 => Some('n'),
        5 => Some('h'),
        6 => Some('m'),
        7 => Some('y'),
        8 => Some('r'),
        9 => Some('w'),
        10 => Some('g'),
        11 => Some('z'),
        12 => Some('d'),
        13 => Some('b'),
        14 => Some('p'),
        _ => None,
    }
}

/// The Latin letter of a vowel column.
pub open spec fn vowel_letter(vowel: u8) -> Option<char> {
    cell(vowel, Some('a'), Some('i'), Some('u'), Some('e'), Some('o'))
}

/// A glyph as text: one character, or nothing.
pub open spec fn glyph_text(glyph: Option<char>) -> Seq<char> {
    match glyph {
        Some(c) => seq![c],
        None => Seq::empty(),
    }
}

/// A byte pair as a byte string: two bytes, or nothing.
pub open spec fn pair_bytes(pair: Option<(u8, u8)>) -> Seq<u8> {
    match pair {
        Some(p) => seq![p.0, p.1],
        None => Seq::empty(),
    }
}

/// Picks the cell of a table row that belongs to `vowel`.
fn pick_cell<T>(vowel: u8, a: Option<T>, i: Option<T>, u: Option<T>, e: Option<T>, o: Option<T>) -> (r: Option<T>)
    ensures
        r == cell(vowel, a, i, u, e, o),
{
    match vowel {
        0 => a,
        1 => i,
        2 => u,
        3 => e,
        4 => o,
        _ => None,
    }
}

/// Looks up the hiragana glyph of a table cell.
pub fn kana_glyph(consonant: u8, vowel: u8) -> (r: Option<char>)
    ensures
        r == kana(consonant, vowel),
{
    match consonant {
        0 => pick_cell(vowel, Some('あ'), Some('い'), Some('う'), Some('え'), Some('お')),
        1 => pick_cell(vowel, Some('か'), Some('き'), Some('く'), Some('け'), Some('こ')),
        2 => pick_cell(vowel, Some('さ'), Some('し'), Some('す'), Some('せ'), Some('そ')),
        3 => pick_cell(vowel, Some('た'), Some('ち'), Some('つ'), Some('て'), Some('と')),
        4 => pick_cell(vowel, Some('な'), Some('に'), Some('ぬ'), Some('ね'), Some('の')),
        5 => pick_cell(vowel, Some('は'), Some('ひ'), Some('ふ'), Some('へ'), Some('ほ')),
        6 => pick_cell(vowel, Some('ま'), Some('み'), Some('む'), Some('め'), Some('も')),
        7 => pick_cell(vowel, Some('や'), None, Some('ゆ'), None, Some('よ')),
        8 => pick_cell(vowel, Some('ら'), Some('り'), Some('る'), Some('れ'), Some('ろ')),
        9 => pick_cell(vowel, Some('わ'), None, None, None, Some('を')),
        10 => pick_cell(vowel, Some('が'), Some('ぎ'), Some('ぐ'), Some('げ'), Some('ご')),
        11 => pick_cell(vowel, Some('ざ'), Some('じ'), Some('ず'), Some('ぜ'), Some('ぞ')),
        12 => pick_cell(vowel, Some('だ'), Some('ぢ'), Some('づ'), Some('で'), Some('ど')),
        13 => pick_cell(vowel, Some('ば'), Some('び'), Some('ぶ'), Some('べ'), Some('ぼ')),
        14 => pick_cell(vowel, Some('ぱ'), Some('ぴ'), Some('ぷ'), Some('ぺ'), Some('ぽ')),
        _ => None,
    }
}

/// Looks up the Shift-JIS byte pair of a table cell.
pub fn jis_glyph(consonant: u8, vowel: u8) -> (r: Option<(u8, u8)>)
    ensures
        r == jis_pair(consonant, vowel),
{
    match consonant {
        0 => pick_cell(vowel, Some((0x82, 0xa0)), Some((0x82, 0xa2)), Some((0x82, 0xa4)), Some((0x82, 0xa6)), Some((0x82, 0xa8))),
        1 => pick_cell(vowel, Some((0x82, 0xa9)), Some((0x82, 0xab)), Some((0x82, 0xad)), Some((0x82, 0xaf)), Some((0x82, 0xb1))),
        2 => pick_cell(vowel, Some((0x82, 0xb3)), Some((0x82, 0xb5)), Some((0x82, 0xb7)), Some((0x82, 0xb9)), Some((0x82, 0xbb))),
        3 => pick_cell(vowel, Some((0x82, 0xbd)), Some((0x82, 0xbf)), Some((0x82, 0xc2)), Some((0x82, 0xc4)), Some((0x82, 0xc6))),
        4 => pick_cell(vowel, Some((0x82, 0xc8)), Some((0x82, 0xc9)), Some((0x82, 0xca)), Some((0x82, 0xcb)), Some((0x82, 0xcc))),
        5 => pick_cell(vowel, Some((0x82, 0xcd)), Some((0x82, 0xcf)), Some((0x82, 0xd1)), Some((0x82, 0xd3)), Some((0x82, 0xd5))),
        6 => pick_cell(vowel, Some((0x82, 0xd7)), Some((0x82, 0xd9)), Some((0x82, 0xdb)), Some((0x82, 0xdd)), Some((0x82, 0xdf))),
        7 => pick_cell(vowel, Some((0x82, 0xe0)), None, Some((0x82, 0xe2)), None, Some((0x82, 0xe4))),
        8 => pick_cell(vowel, Some((0x82, 0xe6)), Some((0x82, 0xe8)), Some((0x82, 0xe9)), Some((0x82, 0xea)), Some((0x82, 0xeb))),
        9 => pick_cell(vowel, Some((0x82, 0xed)), None, None, None, Some((0x82, 0xf0))),
        10 => pick_cell(vowel, Some((0x82, 0xf2)), Some((0x82, 0xf4)), Some((0x82, 0xf6)), Some((0x82, 0xf8)), Some((0x82, 0xfa))),
        11 => pick_cell(vowel, Some((0x82, 0xfc)), Some((0x82, 0xfd)), Some((0x82, 0xfe)), Some((0x82, 0xff)), Some((0x83, 0x00))),
        12 => pick_cell(vowel, Some((0x83, 0x01)), Some((0x83, 0x02)), Some((0x83, 0x03)), Some((0x83, 0x04)), Some((0x83, 0x05))),
        13 => pick_cell(vowel, Some((0x83, 0x06)), Some((0x83, 0x07)), Some((0x83, 0x08)), Some((0x83, 0x09)), Some((0x83, 0x0a))),
        14 => pick_cell(vowel, Some((0x83, 0x0b)), Some((0x83, 0x0c)), Some((0x83, 0x0d)), Some((0x83, 0x0e)), Some((0x83, 0x0f))),
        _ => None,
    }
}

/// Looks up the Latin letter of a consonant row.
fn consonant_latin(consonant: u8) -> (r: Option<char>)
    ensures
        r == consonant_letter(consonant),
{
    match consonant {
        1 => Some('k'),
        2 => Some('s'),
        3 => Some('t'),
        4 => Some('n'),
        5 => Some('h'),
        6 => Some('m'),
        7 => Some('y'),
        8 => Some('r'),
        9 => Some('w'),
        10 => Some('g'),
        11 => Some('z'),
        12 => Some('d'),
        13 => Some('b'),
        14 => Some('p'),
        _ => None,
    }
}

/// A phoneme chosen by two bounded controls.
#[derive(Debug, Clone, Copy)]
pub struct Phoneme {
    /// Vowel column: a, i, u, e, o.
    pub vowel: u8,
    /// Consonant row: none, k, s, t, n, h, m, y, r, w, g, z, d, b, p.
    pub consonant: u8,
}

impl Default for Phoneme {
    fn default() -> (p: Self)
        ensures
            p.vowel == 0,
            p.consonant == 0,
    {
        Phoneme { vowel: 0, consonant: 0 }
    }
}

impl Phoneme {
    /// Both indices address a cell of the tables.
    pub open spec fn in_range(&self) -> bool {
        self.vowel < VOWEL_COUNT && self.consonant < CONSONANT_COUNT
    }

    /// The hiragana text of this phoneme: one glyph, or empty where the
    /// syllabary has a gap.
    pub open spec fn kana_text(&self) -> Seq<char> {
        glyph_text(kana(self.consonant, self.vowel))
    }

    /// The Shift-JIS bytes of this phoneme: two bytes, or empty at a gap.
    pub open spec fn jis_bytes(&self) -> Seq<u8> {
        pair_bytes(jis_pair(self.consonant, self.vowel))
    }

    /// The Latin spelling: the consonant letter, if any, then the vowel.
    pub open spec fn latin_text(&self) -> Seq<char> {
        glyph_text(consonant_letter(self.consonant)) + glyph_text(vowel_letter(self.vowel))
    }

    pub fn new(vowel: u8, consonant: u8) -> (p: Self)
        ensures
            p.vowel == vowel,
            p.consonant == consonant,
    {
        Phoneme { vowel, consonant }
    }

    /// The Latin spelling of the phoneme.
    pub fn get_chars(&self) -> (s: String)
        requires
            self.in_range(),
        ensures
            s@ == self.latin_text(),
    {
        let mut s = String::new();
        if let Some(c) = consonant_latin(self.consonant) {
            s.push(c);
        }
        if let Some(v) = pick_cell(self.vowel, Some('a'), Some('i'), Some('u'), Some('e'), Some('o')) {
            s.push(v);
        }
        assert(s@ =~= self.latin_text());
        s
    }

    /// The hiragana glyph of the phoneme as UTF-8 text.
    pub fn get_jpn_utf8(&self) -> (s: String)
        requires
            self.in_range(),
        ensures
            s@ == self.kana_text(),
    {
        let mut s = String::new();
        if let Some(c) = kana_glyph(self.consonant, self.vowel) {
            s.push(c);
        }
        assert(s@ =~= self.kana_text());
        s
    }

    /// The hiragana glyph of the phoneme as Shift-JIS bytes.
    pub fn get_jpn_jis(&self) -> (v: Vec<u8>)
        requires
            self.in_range(),
        ensures
            v@ == self.jis_bytes(),
    {
        let mut v: Vec<u8> = Vec::new();
        if let Some(p) = jis_glyph(self.consonant, self.vowel) {
            v.push(p.0);
            v.push(p.1);
        }
        assert(v@ =~= self.jis_bytes());
        v
    }
}

} // verus!
