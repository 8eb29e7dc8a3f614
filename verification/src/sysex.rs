//! Lyrics carried in a six-byte system-exclusive frame.

use vstd::prelude::*;
use crate::lyrics::Lyric;
use crate::text::{decode_utf16_lossy, trim, trimmed, utf16_lossy};

verus! {

/// The six-byte frame that a buffer stands for: a four-byte buffer is padded
/// with a zero and a copy of its last byte, a six-byte buffer is taken as it
/// is, and any other length gives the all-zero frame.
pub open spec fn padded_frame(buffer: Seq<u8>) -> Seq<u8> {
    if buffer.len() == 4 {
        seq![buffer[0], buffer[1], buffer[2], buffer[3], 0u8, buffer[3]]
    } else if buffer.len() == 6 {
        buffer
    } else {
        seq![0u8, 0u8, 0u8, 0u8, 0u8, 0u8]
    }
}

/// Whether six bytes are one of the recognised lyric envelopes: a meta lyric
/// event, a meta text event, or a raw system-exclusive message.
pub open spec fn valid_frame(raw: Seq<u8>) -> bool {
    &&& raw.len() == 6
    &&& {
        ||| raw[0] == 0xff && raw[5] == 0x05
        ||| raw[0] == 0xff && raw[5] == 0x01
        ||| raw[0] == 0xf0 && raw[5] == 0xf7
    }
}

/// Two payload bytes as one big-endian UTF-16 code unit.
pub open spec fn code_unit(high: u8, low: u8) -> u16 {
    (high * 256 + low) as u16
}

/// Joins two payload bytes into one big-endian UTF-16 code unit.
pub fn join_unit(high: u8, low: u8) -> (unit: u16)
    ensures
        unit == code_unit(high, low),
{
    assert(((high as u16) << 8) | (low as u16) == (high as u16) * 256 + (low as u16)) by (bit_vector);
    ((high as u16) << 8) | (low as u16)
}

/// The UTF-16 code units in the payload of a frame: one for the short form,
/// two for the long form.
pub open spec fn payload_units(raw: Seq<u8>, short: bool) -> Seq<u16> {
    if short {
        seq![code_unit(raw[1], raw[2])]
    } else {
        seq![code_unit(raw[1], raw[2]), code_unit(raw[3], raw[4])]
    }
}

/// A lyric received as a system-exclusive frame.
#[derive(Debug, Clone, Copy, PartialEq, Eq)]
pub struct SysExLyric {
    raw: [u8; 6],
    short: bool,
}

impl SysExLyric {
    /// Every lyric holds a recognised envelope.
    #[verifier::type_invariant]
    closed spec fn well_formed(self) -> bool {
        valid_frame(self.raw@)
    }

    /// The six bytes of the frame.
    pub closed spec fn frame(&self) -> Seq<u8> {
        self.raw@
    }

    /// Whether the frame came from a four-byte message.
    pub closed spec fn is_short(&self) -> bool {
        self.short
    }

    /// The glyphs the frame carries.
    pub open spec fn glyphs(&self) -> Seq<char> {
        trimmed(utf16_lossy(payload_units(self.frame(), self.is_short())))
    }

    /// Reads a lyric from a message buffer; `None` when the padded frame is
    /// no lyric envelope.
    pub fn from_buffer(buffer: &[u8]) -> (r: Option<Self>)
        ensures
            r is Some <==> valid_frame(padded_frame(buffer@)),
            r is Some ==> r.unwrap().frame() == padded_frame(buffer@),
            r is Some ==> r.unwrap().is_short() == (buffer@.len() == 4),
    {
        let mut raw: [u8; 6] = [0u8; 6];
        let four_byte = buffer.len() == 4;
        if four_byte {
            raw[0] = buffer[0];
            raw[1] = buffer[1];
            raw[2] = buffer[2];
            raw[3] = buffer[3];
            raw[5] = buffer[3];
        } else if buffer.len() == 6 {
            let mut i: usize = 0;
            while i < 6
                invariant
                    i <= 6,
                    buffer@.len() == 6,
                    forall|k: int| 0 <= k < i ==> raw@[k] == buffer@[k],
                decreases 6 - i,
            {
                raw[i] = buffer[i];
                i += 1;
            }
        }
        assert(raw@ =~= padded_frame(buffer@));
        if !Self::is_valid(raw.as_slice()) {
            return None;
        }
        Some(SysExLyric { raw, short: four_byte })
    }

    /// The frame and its length on the wire.
    pub fn to_buffer(self) -> (r: ([u8; 6], usize))
        ensures
            r.0@ == self.frame(),
            r.1 == 6,
    {
        (self.raw, 6)
    }

    /// Whether the frame came from a four-byte message.
    pub fn short_form(&self) -> (b: bool)
        ensures
            b == self.is_short(),
    {
        self.short
    }

    /// Whether this frame is a lyric envelope, which it always is.
    pub fn is_lyric(&self) -> (b: bool)
        ensures
            b,
            valid_frame(self.frame()),
    {
        proof {
            use_type_invariant(self);
        }
        Self::is_valid(self.raw.as_slice())
    }

    /// Whether raw bytes are a six-byte lyric envelope.
    pub fn is_valid(raw: &[u8]) -> (b: bool)
        ensures
            b == valid_frame(raw@),
    {
        if raw.len() != 6 {
            return false;
        }
        if raw[0] == 0xff && raw[5] == 0x05 {
            return true;
        }
        if raw[0] == 0xff && raw[5] == 0x01 {
            return true;
        }
        if raw[0] == 0xf0 && raw[5] == 0xf7 {
            return true;
        }
        false
    }
}

impl Default for SysExLyric {
    /// The short frame that carries the glyph U+3042.
    fn default() -> (l: Self)
        ensures
            l.frame() == seq![0xF0u8, 0x30u8, 0x42u8, 0xF7u8, 0x00u8, 0xF7u8],
            l.is_short(),
    {
        let raw: [u8; 6] = [0xF0, 0x30, 0x42, 0xF7, 0x00, 0xF7];
        assert(raw@ =~= seq![0xF0u8, 0x30u8, 0x42u8, 0xF7u8, 0x00u8, 0xF7u8]);
        SysExLyric { raw, short: true }
    }
}

impl Lyric for SysExLyric {
    open spec fn ready(&self) -> bool {
        true
    }

    open spec fn phoneme_text(&self) -> Seq<char> {
        self.glyphs()
    }

    open spec fn advanced(&self) -> Self {
        *self
    }

    open spec fn latin_text(&self) -> Seq<char> {
        Seq::empty()
    }

    open spec fn after_latin(&self) -> Self {
        *self
    }

    fn get_jpn_utf8(&mut self) -> (s: String) {
        let mut units: Vec<u16> = Vec::new();
        units.push(join_unit(self.raw[1], self.raw[2]));
        if !self.short {
            units.push(join_unit(self.raw[3], self.raw[4]));
        }
        assert(units@ =~= payload_units(self.frame(), self.is_short()));
        let decoded = decode_utf16_lossy(units.as_slice());
        trim(decoded.as_str())
    }

    fn get_latin(&mut self) -> (s: String) {
        String::new()
    }
}

} // verus!
