use legacy_ping::wide::{decode_utf16_string, encode_utf16_string, u16_from_be, WideStringError};

#[test]
fn be_pair() {
    assert_eq!(u16_from_be(0x01, 0x02), 0x0102);
    assert_eq!(u16_from_be(0x00, 0x00), 0);
    assert_eq!(u16_from_be(0xFF, 0xFF), 0xFFFF);
}

#[test]
fn known_encoding() {
    assert_eq!(encode_utf16_string("AB"), vec![0x00, 0x02, 0x00, 0x41, 0x00, 0x42]);
    assert_eq!(encode_utf16_string(""), vec![0x00, 0x00]);
}

#[test]
fn round_trip_ascii() {
    let s = "A Minecraft Server";
    let enc = encode_utf16_string(s);
    let (back, used) = decode_utf16_string(&enc).unwrap();
    assert_eq!(back, s);
    assert_eq!(used, enc.len());
}

#[test]
fn round_trip_basic_plane() {
    let s = "§1 MOTD \u{00e9}\u{4e2d}\u{6587}";
    let enc = encode_utf16_string(s);
    let (back, used) = decode_utf16_string(&enc).unwrap();
    assert_eq!(back, s);
    assert_eq!(used, enc.len());
}

#[test]
fn round_trip_surrogate_pair() {
    let s = "hi \u{1F600}";
    let enc = encode_utf16_string(s);
    let (back, used) = decode_utf16_string(&enc).unwrap();
    assert_eq!(back, s);
    assert_eq!(used, enc.len());
}

#[test]
fn lone_high_surrogate_is_replaced() {
    // length 2, units [0xD800, 0x0041]
    let bytes = [0x00, 0x02, 0xD8, 0x00, 0x00, 0x41];
    let (s, used) = decode_utf16_string(&bytes).unwrap();
    assert_eq!(s, "\u{FFFD}A");
    assert_eq!(used, 6);
}

#[test]
fn lone_low_surrogate_is_replaced() {
    let bytes = [0x00, 0x01, 0xDC, 0x00];
    let (s, _) = decode_utf16_string(&bytes).unwrap();
    assert_eq!(s, "\u{FFFD}");
}

#[test]
fn surrogate_pair_bytes_decode() {
    // length 2, units [0xD83D, 0xDE00]: one supplementary character
    let bytes = [0x00, 0x02, 0xD8, 0x3D, 0xDE, 0x00];
    let (s, _) = decode_utf16_string(&bytes).unwrap();
    assert_eq!(s, "\u{1F600}");
}

#[test]
fn wide_short_input_fails() {
    assert_eq!(decode_utf16_string(&[]), Err(WideStringError::Eof));
    assert_eq!(decode_utf16_string(&[0x00]), Err(WideStringError::Eof));
    // announces 3 units but carries only 1
    assert_eq!(decode_utf16_string(&[0x00, 0x03, 0x00, 0x41]), Err(WideStringError::Eof));
}

#[test]
fn wide_trailing_bytes_are_left_alone() {
    let bytes = [0x00, 0x01, 0x00, 0x41, 0x99, 0x99];
    let (s, used) = decode_utf16_string(&bytes).unwrap();
    assert_eq!(s, "A");
    assert_eq!(used, 4);
}
