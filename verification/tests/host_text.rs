use youtubei_native::text::{decode_bytes, encode_units, strip_bom, trim};

#[test]
fn trim_drops_unicode_white_space() {
    assert_eq!(trim("  a b \t"), "a b");
    assert_eq!(trim("\u{3000}\u{A0}x\u{2028}"), "x");
    assert_eq!(trim(" \n "), "");
    assert_eq!(trim(""), "");
    assert_eq!(trim("\u{200B}x"), "\u{200B}x");
}

#[test]
fn bom_is_stripped_once() {
    assert_eq!(strip_bom("\u{FEFF}\u{FEFF}a"), "\u{FEFF}a");
    assert_eq!(strip_bom("a\u{FEFF}"), "a\u{FEFF}");
    assert_eq!(strip_bom(""), "");
}

#[test]
fn encode_turns_utf16_into_utf8() {
    let units: Vec<u16> = "h\u{e9}\u{1F980}".encode_utf16().collect();
    assert_eq!(encode_units(&units), "h\u{e9}\u{1F980}".as_bytes());
    assert_eq!(encode_units(&[0xD800, 0x41]), "\u{FFFD}A".as_bytes());
    assert_eq!(encode_units(&[0xDC00]), "\u{FFFD}".as_bytes());
}

#[test]
fn decode_strict_and_lossy() {
    assert_eq!(decode_bytes(b"\xEF\xBB\xBFhi".to_vec(), false, false).unwrap(), "hi");
    assert_eq!(decode_bytes(b"\xEF\xBB\xBFhi".to_vec(), false, true).unwrap(), "\u{FEFF}hi");
    assert_eq!(decode_bytes(vec![0x61, 0xff], false, false).unwrap(), "a\u{FFFD}");
    assert_eq!(
        decode_bytes(vec![0x61, 0xff], true, false).err().unwrap(),
        "invalid utf-8 sequence of 1 bytes from index 1"
    );
    assert_eq!(
        decode_bytes(vec![0x61, 0xE2, 0x82], true, false).err().unwrap(),
        "incomplete utf-8 byte sequence from index 1"
    );
    assert_eq!(decode_bytes(b"ok".to_vec(), true, false).unwrap(), "ok");
}

#[test]
fn trimming_twice_is_trimming_once() {
    for s in ["  a  ", "\u{3000}", "x", "\t b \n"] {
        assert_eq!(trim(trim(s)), trim(s));
    }
}

#[test]
fn decode_undoes_encode() {
    let text = "Hello \u{0} \u{1F980} \u{e9}";
    let units: Vec<u16> = text.encode_utf16().collect();
    let bytes = encode_units(&units);
    assert_eq!(decode_bytes(bytes.clone(), true, true).unwrap(), text);
    assert_eq!(decode_bytes(bytes, false, true).unwrap(), text);
}
