//! Building blocks for text: characters in and out of strings, and the
//! whitespace predicate that tokenizing and trimming rest on.

use vstd::prelude::*;

verus! {

/// `String::push` appends exactly the given character to the end of the text.
pub assume_specification[ String::push ](s: &mut String, c: char)
    ensures
        final(s)@ == old(s)@.push(c),
;

/// The characters of a text, in order.
pub fn chars_of(s: &str) -> (v: Vec<char>)
    ensures
        v@ == s@,
{
    let mut v: Vec<char> = Vec::new();
    for c in it: s.chars()
        invariant
            it.seq() == s@,
            v@ == s@.take(it.index() as int),
    {
        v.push(c);
        assert(v@ =~= s@.take(it.index() + 1));
    }
    assert(v@ =~= s@);
    v
}

/// The text made of the characters `chars[from..to]`.
pub fn text_of(chars: &Vec<char>, from: usize, to: usize) -> (s: String)
    requires
        from <= to <= chars.len(),
    ensures
        s@ == chars@.subrange(from as int, to as int),
{
    let mut s = String::new();
    let mut i: usize = from;
    while i < to
        invariant
            from <= i <= to <= chars.len(),
            s@ == chars@.subrange(from as int, i as int),
        decreases to - i,
    {
        s.push(chars[i]);
        i += 1;
        assert(s@ =~= chars@.subrange(from as int, i as int));
    }
    s
}

/// Whether a character has the Unicode `White_Space` property.
pub uninterp spec fn is_white_space(c: char) -> bool;

/// `char::is_whitespace` reports the Unicode `White_Space` property of the
/// character.
pub assume_specification[ char::is_whitespace ](c: char) -> (b: bool)
    ensures
        b == is_white_space(c),
;

/// A text without its leading whitespace.
pub open spec fn trim_start(s: Seq<char>) -> Seq<char>
    decreases s.len(),
{
    if s.len() > 0 && is_white_space(s[0]) {
        trim_start(s.drop_first())
    } else {
        s
    }
}

/// A text without its trailing whitespace.
pub open spec fn trim_end(s: Seq<char>) -> Seq<char>
    decreases s.len(),
{
    if s.len() > 0 && is_white_space(s.last()) {
        trim_end(s.drop_last())
    } else {
        s
    }
}

/// A text without leading and trailing whitespace.
pub open spec fn trimmed(s: Seq<char>) -> Seq<char> {
    trim_end(trim_start(s))
}

/// A text without the whitespace around it.
pub fn trim(text: &str) -> (s: String)
    ensures
        s@ == trimmed(text@),
{
    let chars = chars_of(text);
    let mut from: usize = 0;
    assert(chars@.skip(0) =~= text@);
    while from < chars.len() && chars[from].is_whitespace()
        invariant
            from <= chars.len(),
            chars@ == text@,
            trim_start(text@) == trim_start(chars@.skip(from as int)),
        decreases chars.len() - from,
    {
        assert(chars@.skip(from as int).drop_first() =~= chars@.skip(from + 1));
        from += 1;
    }
    let mut to: usize = chars.len();
    assert(chars@.subrange(from as int, to as int) =~= chars@.skip(from as int));
    while to > from && chars[to - 1].is_whitespace()
        invariant
            from <= to <= chars.len(),
            trimmed(text@) == trim_end(chars@.subrange(from as int, to as int)),
        decreases to - from,
    {
        assert(chars@.subrange(from as int, to as int).drop_last() =~= chars@.subrange(
            from as int,
            to - 1,
        ));
        to -= 1;
    }
    text_of(&chars, from, to)
}

/// The length of the run of non-whitespace characters that `s` starts with.
pub open spec fn word_len(s: Seq<char>) -> int
    decreases s.len(),
{
    if s.len() == 0 || is_white_space(s[0]) {
        0
    } else {
        1 + word_len(s.drop_first())
    }
}

/// The words of a text: its maximal runs of non-whitespace characters, in
/// order.
pub open spec fn tokens(s: Seq<char>) -> Seq<Seq<char>>
    decreases s.len(),
    via tokens_decreases
{
    if s.len() == 0 {
        Seq::empty()
    } else if is_white_space(s[0]) {
        tokens(s.drop_first())
    } else {
        seq![s.take(word_len(s))] + tokens(s.skip(word_len(s)))
    }
}

#[via_fn]
proof fn tokens_decreases(s: Seq<char>) {
    if s.len() > 0 && !is_white_space(s[0]) {
        lemma_word_len_bounds(s);
    }
}

/// A word is never longer than its text, and not empty where the text starts
/// with a non-whitespace character.
pub proof fn lemma_word_len_bounds(s: Seq<char>)
    ensures
        0 <= word_len(s) <= s.len(),
        s.len() > 0 && !is_white_space(s[0]) ==> word_len(s) >= 1,
    decreases s.len(),
{
    if s.len() > 0 && !is_white_space(s[0]) {
        lemma_word_len_bounds(s.drop_first());
    }
}

/// The texts of a list of strings.
pub open spec fn texts(v: Seq<String>) -> Seq<Seq<char>> {
    v.map_values(|t: String| t@)
}

/// Splits a text into its words.
pub fn split_whitespace(text: &str) -> (v: Vec<String>)
    ensures
        texts(v@) == tokens(text@),
{
    let chars = chars_of(text);
    let mut v: Vec<String> = Vec::new();
    let mut i: usize = 0;
    assert(chars@.skip(0) =~= text@);
    assert(texts(v@) + tokens(text@) =~= tokens(text@));
    while i < chars.len()
        invariant
            i <= chars.len(),
            chars@ == text@,
            tokens(text@) == texts(v@) + tokens(chars@.skip(i as int)),
        decreases chars.len() - i,
    {
        let ghost rest = chars@.skip(i as int);
        if chars[i].is_whitespace() {
            assert(rest.drop_first() =~= chars@.skip(i + 1));
            i += 1;
        } else {
            let start = i;
            let mut j: usize = i;
            while j < chars.len() && !chars[j].is_whitespace()
                invariant
                    start <= j <= chars.len(),
                    word_len(rest) == (j - start) + word_len(chars@.skip(j as int)),
                    rest == chars@.skip(start as int),
                decreases chars.len() - j,
            {
                assert(chars@.skip(j as int).drop_first() =~= chars@.skip(j + 1));
                j += 1;
            }
            assert(word_len(rest) == j - start);
            let word = text_of(&chars, start, j);
            assert(rest.take(word_len(rest)) =~= word@);
            assert(rest.skip(word_len(rest)) =~= chars@.skip(j as int));
            proof {
                let before = texts(v@);
                assert(texts(v@.push(word)) =~= before.push(word@));
                assert(tokens(text@) =~= texts(v@.push(word)) + tokens(chars@.skip(j as int)));
            }
            v.push(word);
            i = j;
        }
    }
    assert(tokens(chars@.skip(i as int)) =~= Seq::<Seq<char>>::empty());
    assert(texts(v@) =~= tokens(text@));
    v
}

/// Whether a UTF-16 code unit is a leading (high) surrogate.
pub open spec fn is_high_surrogate(u: u16) -> bool {
    0xD800 <= u <= 0xDBFF
}

/// Whether a UTF-16 code unit is a trailing (low) surrogate.
pub open spec fn is_low_surrogate(u: u16) -> bool {
    0xDC00 <= u <= 0xDFFF
}

/// The character that a surrogate pair encodes.
pub open spec fn surrogate_pair(high: u16, low: u16) -> char {
    ((0x10000 + (high - 0xD800) * 0x400 + (low - 0xDC00)) as u32) as char
}

/// The text that a sequence of UTF-16 code units decodes to, with U+FFFD in
/// place of every surrogate that has no partner.
pub open spec fn utf16_lossy(units: Seq<u16>) -> Seq<char>
    decreases units.len(),
{
    if units.len() == 0 {
        Seq::empty()
    } else if is_high_surrogate(units[0]) && units.len() >= 2 && is_low_surrogate(units[1]) {
        seq![surrogate_pair(units[0], units[1])] + utf16_lossy(units.skip(2))
    } else if is_high_surrogate(units[0]) || is_low_surrogate(units[0]) {
        seq!['\u{FFFD}'] + utf16_lossy(units.skip(1))
    } else {
        seq![(units[0] as u32) as char] + utf16_lossy(units.skip(1))
    }
}

/// Whether a number is a Unicode scalar value, that is the value of some
/// character.
pub open spec fn is_scalar_value(i: u32) -> bool {
    i < 0xD800 || 0xE000 <= i <= 0x10FFFF
}

/// `char::from_u32` gives the character with the given value, and `None` for
/// a number that is no scalar value.
pub assume_specification[ char::from_u32 ](i: u32) -> (r: Option<char>)
    ensures
        r is Some <==> is_scalar_value(i),
        r is Some ==> r.unwrap() as u32 == i,
;

/// Decodes UTF-16, with U+FFFD in place of every surrogate that has no
/// partner.
pub fn decode_utf16_lossy(units: &[u16]) -> (s: String)
    ensures
        s@ == utf16_lossy(units@),
{
    let mut s = String::new();
    let mut i: usize = 0;
    assert(units@.skip(0) =~= units@);
    assert(s@ + utf16_lossy(units@) =~= utf16_lossy(units@));
    while i < units.len()
        invariant
            i <= units@.len(),
            utf16_lossy(units@) == s@ + utf16_lossy(units@.skip(i as int)),
        decreases units@.len() - i,
    {
        let ghost rest = units@.skip(i as int);
        let ghost before = s@;
        let unit = units[i];
        assert(rest[0] == unit);
        if 0xD800 <= unit && unit <= 0xDBFF && i + 1 < units.len() && 0xDC00 <= units[i + 1] && units[i
            + 1] <= 0xDFFF {
            let low = units[i + 1];
            assert(rest[1] == low);
            let code: u32 = 0x10000 + (unit - 0xD800) as u32 * 0x400 + (low - 0xDC00) as u32;
            if let Some(c) = char::from_u32(code) {
                proof {
                    vstd::utf8::char_u32_cast(c, code);
                }
                s.push(c);
            }
            assert(rest.skip(2) =~= units@.skip(i + 2));
            assert(s@ =~= before + seq![surrogate_pair(unit, low)]);
            i += 2;
        } else if 0xD800 <= unit && unit <= 0xDFFF {
            s.push('\u{FFFD}');
            assert(rest.skip(1) =~= units@.skip(i + 1));
            assert(s@ =~= before + seq!['\u{FFFD}']);
            i += 1;
        } else {
            if let Some(c) = char::from_u32(unit as u32) {
                proof {
                    vstd::utf8::char_u32_cast(c, unit as u32);
                }
                s.push(c);
            }
            assert(rest.skip(1) =~= units@.skip(i + 1));
            assert(s@ =~= before + seq![(unit as u32) as char]);
            i += 1;
        }
    }
    assert(s@ + utf16_lossy(units@.skip(i as int)) =~= s@);
    s
}

} // verus!
