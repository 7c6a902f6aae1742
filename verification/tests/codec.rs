use unisbom::wide::{decode_utf8_char, str_to_pcwstr, utf16_len, wide_to_string};

#[test]
fn empty_text_is_a_single_terminator() {
    assert_eq!(str_to_pcwstr(""), vec![0u16]);
}

#[test]
fn ascii_text_is_encoded_unit_by_unit() {
    assert_eq!(str_to_pcwstr("C:\\a"), vec![0x43, 0x3a, 0x5c, 0x61, 0]);
}

#[test]
fn character_beyond_the_basic_plane_takes_a_surrogate_pair() {
    assert_eq!(str_to_pcwstr("\u{1F600}"), vec![0xD83D, 0xDE00, 0]);
    assert_eq!(str_to_pcwstr("a\u{10000}b"), vec![0x61, 0xD800, 0xDC00, 0x62, 0]);
    assert_eq!(str_to_pcwstr("\u{10FFFF}"), vec![0xDBFF, 0xDFFF, 0]);
}

#[test]
fn encoding_agrees_with_the_standard_library() {
    for text in ["", "driver.sys", "gr\u{fc}\u{df}e", "\u{65e5}\u{672c}\u{8a9e}", "x\u{1F680}y"] {
        let mut expected: Vec<u16> = text.encode_utf16().collect();
        expected.push(0);
        assert_eq!(str_to_pcwstr(text), expected);
        assert_eq!(utf16_len(text.as_bytes()) + 1, expected.len());
    }
}

#[test]
fn decoding_strips_every_trailing_nul() {
    assert_eq!(wide_to_string(&[0x61, 0x62, 0, 0, 0]), "ab");
    assert_eq!(wide_to_string(&[0, 0]), "");
    assert_eq!(wide_to_string(&[]), "");
    assert_eq!(wide_to_string(&[0x61, 0, 0x62, 0]), "a\0b");
}

#[test]
fn decoding_replaces_unpaired_surrogates() {
    assert_eq!(wide_to_string(&[0xD800, 0x61]), "\u{FFFD}a");
    assert_eq!(wide_to_string(&[0xDC00]), "\u{FFFD}");
    assert_eq!(wide_to_string(&[0xD800, 0xD800, 0xDC00]), "\u{FFFD}\u{10000}");
    assert_eq!(wide_to_string(&[0x61, 0xD83D]), "a\u{FFFD}");
}

#[test]
fn round_trip_gives_the_text_back() {
    for text in ["", "C:\\Windows\\system32\\drivers\\acpi.sys", "\u{1F600}\u{e9}", "a\0b"] {
        assert_eq!(wide_to_string(&str_to_pcwstr(text)), text);
    }
}

#[test]
fn round_trip_loses_trailing_nuls_of_the_text() {
    assert_eq!(wide_to_string(&str_to_pcwstr("a\0")), "a");
}

#[test]
fn scalars_are_read_one_at_a_time() {
    assert_eq!(decode_utf8_char(b"123", 0), Some((0x31, 1)));
    assert_eq!(decode_utf8_char(b"123", 2), Some((0x33, 3)));
    assert_eq!(decode_utf8_char(b"123", 3), None);
    assert_eq!(decode_utf8_char("\u{e9}".as_bytes(), 0), Some((0xe9, 2)));
    assert_eq!(decode_utf8_char("\u{20ac}".as_bytes(), 0), Some((0x20ac, 3)));
    assert_eq!(decode_utf8_char("\u{1F600}".as_bytes(), 0), Some((0x1F600, 4)));
}

#[test]
fn ill_formed_bytes_are_no_scalar() {
    assert_eq!(decode_utf8_char(&[0x80], 0), None);
    assert_eq!(decode_utf8_char(&[0xc3], 0), None);
    assert_eq!(decode_utf8_char(&[0xc0, 0x80], 0), None);
    assert_eq!(decode_utf8_char(&[0xe0, 0x80, 0x80], 0), None);
    assert_eq!(decode_utf8_char(&[0xed, 0xa0, 0x80], 0), None);
    assert_eq!(decode_utf8_char(&[0xf4, 0x90, 0x80, 0x80], 0), None);
    assert_eq!(decode_utf8_char(&[0xf8, 0x80, 0x80, 0x80], 0), None);
    assert_eq!(utf16_len(&[0x61, 0x80, 0x62]), 1);
}
