use edek_triage::decode::{decode, encode, encode_then_decode, DecodeError};
use edek_triage::Mode;

#[test]
fn hex_encode_concrete() {
    assert_eq!(encode(&[0xde, 0xad, 0xbe, 0xef], Mode::Hex), "deadbeef");
    assert_eq!(encode(&[0x01, 0x02, 0x03, 0x0f, 0x10], Mode::Hex), "0102030f10");
    assert_eq!(encode(&[], Mode::Hex), "");
}

#[test]
fn hex_decode_concrete() {
    assert_eq!(decode("deadbeef", Mode::Hex), Ok(vec![0xde, 0xad, 0xbe, 0xef]));
    assert_eq!(decode("", Mode::Hex), Ok(vec![]));
}

#[test]
fn hex_decode_mixed_case() {
    assert_eq!(decode("DeadBEEF", Mode::Hex), Ok(vec![0xde, 0xad, 0xbe, 0xef]));
}

#[test]
fn hex_decode_strips_prefix() {
    assert_eq!(decode("0xdeadbeef", Mode::Hex), Ok(vec![0xde, 0xad, 0xbe, 0xef]));
    assert_eq!(decode("0Xdeadbeef", Mode::Hex), Ok(vec![0xde, 0xad, 0xbe, 0xef]));
    // only one prefix comes off
    assert_eq!(decode("0x0xdeadbeef", Mode::Hex), Err(DecodeError::InvalidHex));
}

#[test]
fn hex_decode_odd_length_fails() {
    assert_eq!(decode("abc", Mode::Hex), Err(DecodeError::InvalidHex));
}

#[test]
fn hex_decode_bad_character_fails() {
    assert_eq!(decode("zz", Mode::Hex), Err(DecodeError::InvalidHex));
    assert_eq!(decode("0agh", Mode::Hex), Err(DecodeError::InvalidHex));
}

#[test]
fn base64_encode_concrete() {
    assert_eq!(encode(&[0x0a, 0x02, 0x08, 0x05], Mode::Base64), "CgIIBQ==");
    assert_eq!(encode(&[], Mode::Base64), "");
}

#[test]
fn base64_decode_concrete() {
    assert_eq!(decode("CgIIBQ==", Mode::Base64), Ok(vec![0x0a, 0x02, 0x08, 0x05]));
}

#[test]
fn base64_decode_invalid_fails() {
    assert_eq!(decode("not base64!!", Mode::Base64), Err(DecodeError::InvalidBase64));
    // missing padding is not canonical for the standard engine
    assert_eq!(decode("CgIIBQ", Mode::Base64), Err(DecodeError::InvalidBase64));
}

#[test]
fn round_trip_hex() {
    let data = [0x00u8, 0x7f, 0x80, 0xff, 0x10, 0x0a];
    assert_eq!(encode_then_decode(&data, Mode::Hex), Ok(data.to_vec()));
    let text = encode(&data, Mode::Hex);
    assert_eq!(decode(&text, Mode::Hex), Ok(data.to_vec()));
}

#[test]
fn round_trip_base64() {
    let data = [0x00u8, 0x7f, 0x80, 0xff, 0x10, 0x0a, 0x01];
    assert_eq!(encode_then_decode(&data, Mode::Base64), Ok(data.to_vec()));
    let text = encode(&data, Mode::Base64);
    assert_eq!(decode(&text, Mode::Base64), Ok(data.to_vec()));
}
