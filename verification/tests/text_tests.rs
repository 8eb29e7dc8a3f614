use plutau::text::{decode_utf16_lossy, trim};

const UNITS: [u16; 14] = [
    0x0000, 0x0020, 0x0041, 0x3042, 0xD7FF, 0xD800, 0xD840, 0xDBFF, 0xDC00, 0xDC0B, 0xDFFF, 0xE000, 0xFFFD, 0xFFFF,
];

#[test]
fn one_unit_decodes_as_the_standard_library_does() {
    for a in UNITS {
        assert_eq!(decode_utf16_lossy(&[a]), String::from_utf16_lossy(&[a]), "{a:04x}");
    }
}

#[test]
fn two_units_decode_as_the_standard_library_does() {
    for a in UNITS {
        for b in UNITS {
            assert_eq!(decode_utf16_lossy(&[a, b]), String::from_utf16_lossy(&[a, b]), "{a:04x} {b:04x}");
        }
    }
}

#[test]
fn three_units_decode_as_the_standard_library_does() {
    for a in UNITS {
        for b in UNITS {
            for c in UNITS {
                assert_eq!(decode_utf16_lossy(&[a, b, c]), String::from_utf16_lossy(&[a, b, c]));
            }
        }
    }
}

#[test]
fn decoding_pairs_surrogates_and_replaces_lone_ones() {
    assert_eq!(decode_utf16_lossy(&[]), "");
    assert_eq!(decode_utf16_lossy(&[0x3042]), "あ");
    assert_eq!(decode_utf16_lossy(&[0xD834, 0xDD1E]), "\u{1D11E}");
    assert_eq!(decode_utf16_lossy(&[0xDBFF, 0xDFFF]), "\u{10FFFF}");
    assert_eq!(decode_utf16_lossy(&[0xD800, 0xDC00]), "\u{10000}");
    assert_eq!(decode_utf16_lossy(&[0xDD1E, 0xD834]), "\u{FFFD}\u{FFFD}");
    assert_eq!(decode_utf16_lossy(&[0xD834, 0x0041]), "\u{FFFD}A");
    assert_eq!(decode_utf16_lossy(&[0xD834, 0xD834, 0xDD1E]), "\u{FFFD}\u{1D11E}");
}

#[test]
fn trimming_agrees_with_the_standard_library() {
    for text in ["", " ", "a", " a", "a ", "  a b  ", "\t\n a\u{3000}", "\u{A0}あ\u{2003}", "\u{0}a\u{0}", "a\u{200B}"] {
        assert_eq!(trim(text), text.trim(), "{text:?}");
    }
}

#[test]
fn trimming_keeps_inner_whitespace() {
    assert_eq!(trim(" か き "), "か き");
    assert_eq!(trim("\n\n"), "");
}
