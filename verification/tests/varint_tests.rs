use legacy_ping::varint::{decode_var_i32, decode_var_i64, encode_var_i32, encode_var_i64,
    VarIntError};

fn round_trip_i32(v: i32) {
    let enc = encode_var_i32(v);
    let (back, used) = decode_var_i32(&enc).expect("encoding must decode");
    assert_eq!(back, v);
    assert_eq!(used, enc.len());
}

fn round_trip_i64(v: i64) {
    let enc = encode_var_i64(v);
    let (back, used) = decode_var_i64(&enc).expect("encoding must decode");
    assert_eq!(back, v);
    assert_eq!(used, enc.len());
}

#[test]
fn round_trip_zero() {
    round_trip_i32(0);
    round_trip_i64(0);
}

#[test]
fn round_trip_minus_one() {
    round_trip_i32(-1);
    round_trip_i64(-1);
}

#[test]
fn round_trip_assorted_i32() {
    for v in [1, 2, 127, 128, 255, 300, 25565, i32::MAX, i32::MIN, -2, -25565] {
        round_trip_i32(v);
    }
}

#[test]
fn round_trip_assorted_i64() {
    for v in [1i64, 127, 128, 300, 1 << 40, i64::MAX, i64::MIN, -2, -(1 << 40)] {
        round_trip_i64(v);
    }
}

#[test]
fn known_encodings() {
    assert_eq!(encode_var_i32(0), vec![0x00]);
    assert_eq!(encode_var_i32(1), vec![0x01]);
    assert_eq!(encode_var_i32(127), vec![0x7F]);
    assert_eq!(encode_var_i32(128), vec![0x80, 0x01]);
    assert_eq!(encode_var_i32(300), vec![0xAC, 0x02]);
    assert_eq!(encode_var_i32(-1), vec![0xFF, 0xFF, 0xFF, 0xFF, 0x0F]);
    assert_eq!(encode_var_i64(-1), vec![0xFF; 9].into_iter().chain([0x01]).collect::<Vec<u8>>());
}

#[test]
fn unterminated_32_fails() {
    let bytes = [0x80u8; 5];
    assert_eq!(decode_var_i32(&bytes), Err(VarIntError::TooBig));
    let longer = [0x81u8; 8];
    assert_eq!(decode_var_i32(&longer), Err(VarIntError::TooBig));
}

#[test]
fn unterminated_64_fails() {
    let bytes = [0x80u8; 10];
    assert_eq!(decode_var_i64(&bytes), Err(VarIntError::TooBig));
}

#[test]
fn short_input_fails() {
    assert_eq!(decode_var_i32(&[]), Err(VarIntError::Eof));
    assert_eq!(decode_var_i32(&[0x80]), Err(VarIntError::Eof));
    assert_eq!(decode_var_i64(&[0x80, 0x80]), Err(VarIntError::Eof));
}

#[test]
fn fifth_chunk_truncates_like_a_32_bit_shift() {
    // five full chunks: 35 data bits, of which only the low 32 survive
    let (v, used) = decode_var_i32(&[0xFF, 0xFF, 0xFF, 0xFF, 0x7F]).unwrap();
    assert_eq!(v, -1);
    assert_eq!(used, 5);
    // the fifth chunk's high bit would land on bit 32, and vanishes
    let (v, used) = decode_var_i32(&[0x80, 0x80, 0x80, 0x80, 0x10]).unwrap();
    assert_eq!(v, 0);
    assert_eq!(used, 5);
}

#[test]
fn non_canonical_encodings_decode() {
    let (v, used) = decode_var_i32(&[0x80, 0x00]).unwrap();
    assert_eq!(v, 0);
    assert_eq!(used, 2);
}

#[test]
fn trailing_bytes_are_left_alone() {
    let (v, used) = decode_var_i32(&[0x05, 0x99, 0x42]).unwrap();
    assert_eq!(v, 5);
    assert_eq!(used, 1);
    let (v, used) = decode_var_i32(&[0xAC, 0x02, 0x7F]).unwrap();
    assert_eq!(v, 300);
    assert_eq!(used, 2);
}
