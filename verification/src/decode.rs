//! The byte decoder: turns the textual encoding of an EDEK blob (hexadecimal
//! with an optional `0x`/`0X` prefix, or standard base64 with padding) into
//! raw bytes, reporting failure as a value instead of raising.

use vstd::prelude::*;
use vstd::string::StrSliceExecFns;
use crate::Mode;
use base64::Engine;

verus! {

/// Why a blob's text failed to decode.
#[derive(Clone, Copy, PartialEq, Eq, Structural, Debug)]
pub enum DecodeError {
    /// Hex mode: odd length, or a character that is no hex digit.
    InvalidHex,
    /// Base64 mode: the text is not a padded standard-alphabet encoding.
    InvalidBase64,
}

/// The error that `decode` reports in each mode.
pub open spec fn mode_error(mode: Mode) -> DecodeError {
    match mode {
        Mode::Hex => DecodeError::InvalidHex,
        Mode::Base64 => DecodeError::InvalidBase64,
    }
}

/// A hexadecimal digit, either case.
pub open spec fn is_hex_digit(c: char) -> bool {
    (48 <= c as u32 && c as u32 <= 57)  // '0' ..= '9'
    || (97 <= c as u32 && c as u32 <= 102)  // 'a' ..= 'f'
    || (65 <= c as u32 && c as u32 <= 70)  // 'A' ..= 'F'
}

/// Numeric value of a hex digit.
pub open spec fn hex_val(c: char) -> int
    recommends
        is_hex_digit(c),
{
    if 48 <= c as u32 && c as u32 <= 57 {
        c as u32 - 48
    } else if 97 <= c as u32 && c as u32 <= 102 {
        c as u32 - 87
    } else {
        c as u32 - 55
    }
}

/// The lowercase hex digit of a value below sixteen.
pub open spec fn hex_char(v: int) -> char
    recommends
        0 <= v < 16,
{
    if v == 0 { '0' }
    else if v == 1 { '1' }
    else if v == 2 { '2' }
    else if v == 3 { '3' }
    else if v == 4 { '4' }
    else if v == 5 { '5' }
    else if v == 6 { '6' }
    else if v == 7 { '7' }
    else if v == 8 { '8' }
    else if v == 9 { '9' }
    else if v == 10 { 'a' }
    else if v == 11 { 'b' }
    else if v == 12 { 'c' }
    else if v == 13 { 'd' }
    else if v == 14 { 'e' }
    else { 'f' }
}

/// Lowercase hex encoding: two digits per byte, high nibble first.
pub open spec fn hex_encode_spec(b: Seq<u8>) -> Seq<char> {
    Seq::new(
        b.len() * 2,
        |i: int| if i % 2 == 0 { hex_char(b[i / 2] as int / 16) } else { hex_char(b[i / 2] as int % 16) },
    )
}

/// Text that hex-decodes: even length, hex digits throughout.
pub open spec fn hex_valid(s: Seq<char>) -> bool {
    s.len() % 2 == 0 && forall|i: int| 0 <= i < s.len() ==> is_hex_digit(#[trigger] s[i])
}

/// The bytes that valid hex text stands for.
pub open spec fn hex_decode_seq(s: Seq<char>) -> Seq<u8>
    recommends
        hex_valid(s),
{
    Seq::new(s.len() / 2, |i: int| (hex_val(s[2 * i]) * 16 + hex_val(s[2 * i + 1])) as u8)
}

/// Hex decoding as a partial function.
pub open spec fn hex_decode_spec(s: Seq<char>) -> Option<Seq<u8>> {
    if hex_valid(s) {
        Some(hex_decode_seq(s))
    } else {
        None
    }
}

/// Text with exactly one leading `0x` or `0X` removed, if present.
pub open spec fn strip_hex_prefix(s: Seq<char>) -> Seq<char> {
    if s.len() >= 2 && s[0] == '0' && (s[1] == 'x' || s[1] == 'X') {
        s.subrange(2, s.len() as int)
    } else {
        s
    }
}

/// The text that base64's standard padded engine produces for a byte
/// sequence. The result depends on the bytes alone.
pub uninterp spec fn base64_of(bytes: Seq<u8>) -> Seq<char>;

/// Base64 decoding as a partial function: defined exactly on the canonical
/// encodings.
pub open spec fn base64_decode_spec(s: Seq<char>) -> Option<Seq<u8>> {
    if exists|b: Seq<u8>| s == base64_of(b) {
        Some(choose|b: Seq<u8>| s == base64_of(b))
    } else {
        None
    }
}

/// What `decode` returns in each mode, as a partial function of the text.
pub open spec fn decode_spec(s: Seq<char>, mode: Mode) -> Option<Seq<u8>> {
    match mode {
        Mode::Hex => hex_decode_spec(strip_hex_prefix(s)),
        Mode::Base64 => base64_decode_spec(s),
    }
}

/// What `encode` returns in each mode.
pub open spec fn encode_spec(b: Seq<u8>, mode: Mode) -> Seq<char> {
    match mode {
        Mode::Hex => hex_encode_spec(b),
        Mode::Base64 => base64_of(b),
    }
}

/// Relies on hex::decode: it succeeds exactly on even-length strings of hex
/// digits (either case), reading two digits per byte, high nibble first.
#[verifier::external_body]
fn hex_decode(text: &str) -> (r: Option<Vec<u8>>)
    ensures
        r matches Some(v) ==> hex_valid(text@) && v@ == hex_decode_seq(text@),
        r is None ==> !hex_valid(text@),
{
    hex::decode(text).ok()
}

/// Relies on hex::encode: two lowercase hex digits per byte, high nibble
/// first.
#[verifier::external_body]
fn hex_encode(data: &[u8]) -> (r: String)
    ensures
        r@ == hex_encode_spec(data@),
{
    hex::encode(data)
}

/// Relies on base64's STANDARD engine (padded, canonical-padding decoding):
/// decoding succeeds exactly on the canonical encoding of some byte sequence
/// and returns that sequence.
#[verifier::external_body]
fn base64_decode(text: &str) -> (r: Option<Vec<u8>>)
    ensures
        r matches Some(v) ==> text@ == base64_of(v@),
        r matches Some(v) ==> forall|b: Seq<u8>| text@ == base64_of(b) ==> v@ == b,
        r is None ==> forall|b: Seq<u8>| text@ != base64_of(b),
{
    base64::engine::general_purpose::STANDARD.decode(text).ok()
}

/// Relies on base64's STANDARD engine: encoding is a pure function of the
/// input bytes.
#[verifier::external_body]
fn base64_encode(data: &[u8]) -> (r: String)
    ensures
        r@ == base64_of(data@),
{
    base64::engine::general_purpose::STANDARD.encode(data)
}

/// Removes one leading `0x` or `0X`, if present.
fn strip_prefix_hex(text: &str) -> (r: &str)
    ensures
        r@ == strip_hex_prefix(text@),
{
    let n = text.unicode_len();
    if n >= 2 && text.get_char(0) == '0' && (text.get_char(1) == 'x' || text.get_char(1) == 'X') {
        let r = text.substring_char(2, n);
        proof {
            assert(r@ =~= strip_hex_prefix(text@));
        }
        r
    } else {
        text
    }
}

/// Decodes the textual encoding of a blob into raw bytes: hex (after
/// stripping one optional `0x`/`0X` prefix) or standard padded base64.
/// Succeeds exactly on the text that the mode's encoding accepts, and on
/// everything else reports the mode's `DecodeError`.
pub fn decode(text: &str, mode: Mode) -> (r: Result<Vec<u8>, DecodeError>)
    ensures
        r matches Ok(v) ==> decode_spec(text@, mode) == Some(v@),
        r matches Err(e) ==> decode_spec(text@, mode) is None && e == mode_error(mode),
        mode == Mode::Base64 ==> forall|b: Seq<u8>|
            text@ == base64_of(b) ==> (r matches Ok(v) && v@ == b),
{
    match mode {
        Mode::Hex => {
            let stripped = strip_prefix_hex(text);
            match hex_decode(stripped) {
                Some(v) => Ok(v),
                None => Err(DecodeError::InvalidHex),
            }
        },
        Mode::Base64 => {
            match base64_decode(text) {
                Some(v) => {
                    proof {
                        let b0 = choose|b: Seq<u8>| text@ == base64_of(b);
                        assert(text@ == base64_of(b0));
                    }
                    Ok(v)
                },
                None => Err(DecodeError::InvalidBase64),
            }
        },
    }
}

/// Encodes raw bytes as text in the given mode: lowercase hex without a
/// prefix, or standard padded base64.
pub fn encode(data: &[u8], mode: Mode) -> (r: String)
    ensures
        r@ == encode_spec(data@, mode),
{
    match mode {
        Mode::Hex => hex_encode(data),
        Mode::Base64 => base64_encode(data),
    }
}

proof fn lemma_hex_digit_val(v: int)
    requires
        0 <= v < 16,
    ensures
        is_hex_digit(hex_char(v)),
        hex_val(hex_char(v)) == v,
        hex_char(v) != 'x',
        hex_char(v) != 'X',
{
}

/// Round-trip law for the hex text encoding: decoding the encoding of any
/// byte sequence yields back exactly that sequence.
pub proof fn lemma_hex_round_trip(b: Seq<u8>)
    ensures
        hex_decode_spec(hex_encode_spec(b)) == Some(b),
{
    let s = hex_encode_spec(b);
    assert forall|i: int| 0 <= i < s.len() implies is_hex_digit(#[trigger] s[i]) by {
        if i % 2 == 0 {
            lemma_hex_digit_val(b[i / 2] as int / 16);
        } else {
            lemma_hex_digit_val(b[i / 2] as int % 16);
        }
    }
    assert(hex_valid(s));
    assert(hex_decode_seq(s) =~= b) by {
        assert forall|i: int| 0 <= i < b.len() implies hex_decode_seq(s)[i] == b[i] by {
            assert(s[2 * i] == hex_char(b[i] as int / 16));
            assert(s[2 * i + 1] == hex_char(b[i] as int % 16));
            lemma_hex_digit_val(b[i] as int / 16);
            lemma_hex_digit_val(b[i] as int % 16);
            assert((b[i] as int / 16) * 16 + b[i] as int % 16 == b[i] as int);
        }
    }
}

/// Hex encoding never starts with a `0x`/`0X` prefix, so decoding sees the
/// encoded digits unchanged.
pub proof fn lemma_decode_spec_of_encode_hex(b: Seq<u8>)
    ensures
        decode_spec(encode_spec(b, Mode::Hex), Mode::Hex) == Some(b),
{
    let s = hex_encode_spec(b);
    if s.len() >= 2 {
        lemma_hex_digit_val(b[0] as int % 16);
        assert(s[1] == hex_char(b[0] as int % 16));
        assert(s[1] != 'x' && s[1] != 'X');
    }
    assert(strip_hex_prefix(s) == s);
    lemma_hex_round_trip(b);
}

/// Round-trip law: in either mode, decoding the encoding of any byte
/// sequence returns `Ok` with exactly the original bytes.
pub fn encode_then_decode(data: &[u8], mode: Mode) -> (r: Result<Vec<u8>, DecodeError>)
    ensures
        r matches Ok(v) && v@ == data@,
{
    let text = encode(data, mode);
    let r = decode(text.as_str(), mode);
    proof {
        match mode {
            Mode::Hex => {
                lemma_decode_spec_of_encode_hex(data@);
            },
            Mode::Base64 => {
                assert(text@ == base64_of(data@));
            },
        }
    }
    r
}

} // verus!
