//! Hexadecimal text to bytes.

use vstd::prelude::*;
use vstd::string::StringSliceAdditionalSpecFns;
use crate::error::IngestError;
use crate::error::IngestErrorView;

verus! {

/// The value of a hexadecimal digit given by its ASCII code, in either case.
pub open spec fn digit_value(c: u8) -> Option<int> {
    if 0x30 <= c <= 0x39 {
        Some(c - 0x30)
    } else if 0x41 <= c <= 0x46 {
        Some(c - 0x41 + 10)
    } else if 0x61 <= c <= 0x66 {
        Some(c - 0x61 + 10)
    } else {
        None
    }
}

/// The lower-case ASCII digit of a value below sixteen.
pub open spec fn digit_of(v: int) -> u8 {
    if v < 10 {
        (0x30 + v) as u8
    } else {
        (0x61 + v - 10) as u8
    }
}

/// Text that the codec accepts: an even number of hexadecimal digits.
pub open spec fn is_hex_text(text: Seq<u8>) -> bool {
    &&& text.len() % 2 == 0
    &&& forall|i: int| 0 <= i < text.len() ==> digit_value(#[trigger] text[i]) is Some
}

/// The bytes that accepted text stands for: each pair of digits is one byte,
/// high digit first.
pub open spec fn decoded(text: Seq<u8>) -> Seq<u8> {
    Seq::new(
        text.len() / 2,
        |i: int| (digit_value(text[2 * i])->0 * 16 + digit_value(text[2 * i + 1])->0) as u8,
    )
}

/// The lower-case hexadecimal text of a byte sequence.
pub open spec fn encoded(bytes: Seq<u8>) -> Seq<u8> {
    Seq::new(
        2 * bytes.len(),
        |i: int| if i % 2 == 0 {
            digit_of(bytes[i / 2] as int / 16)
        } else {
            digit_of(bytes[i / 2] as int % 16)
        },
    )
}

/// What decoding makes of any text.
pub open spec fn decode_spec(text: Seq<u8>) -> Option<Seq<u8>> {
    if is_hex_text(text) {
        Some(decoded(text))
    } else {
        None
    }
}

/// `hex::FromHexError`, carried through as it is.
#[verifier::external_type_specification]
#[verifier::external_body]
pub struct ExFromHexError(hex::FromHexError);

/// `hex::FromHex::from_hex` for `Vec<u8>`: fails on text of odd length and on
/// the first byte that is no hexadecimal digit; otherwise each pair of digits
/// gives one byte, high digit first.
#[verifier::external_body]
fn from_hex(text: &str) -> (res: Result<Vec<u8>, hex::FromHexError>)
    ensures
        res is Ok <==> is_hex_text(text.spec_bytes()),
        res is Ok ==> res->Ok_0@ == decoded(text.spec_bytes()),
{
    hex::FromHex::from_hex(text)
}

/// Decodes hexadecimal text. Succeeds exactly on an even number of
/// hexadecimal digits of either case; empty text gives no bytes.
pub fn decode(text: &str) -> (res: Result<Vec<u8>, IngestError>)
    ensures
        match res {
            Ok(bytes) => decode_spec(text.spec_bytes()) == Some(bytes@),
            Err(e) => decode_spec(text.spec_bytes()) is None && e@ == (IngestErrorView::InvalidEncoding {
                text: text@,
            }),
        },
{
    match from_hex(text) {
        Ok(bytes) => Ok(bytes),
        Err(_) => Err(IngestError::InvalidEncoding { text: text.to_owned() }),
    }
}

/// Decoding the encoding of any bytes succeeds and gives the bytes back.
pub proof fn lemma_decode_encode(bytes: Seq<u8>)
    ensures
        decode_spec(encoded(bytes)) == Some(bytes),
{
    let text = encoded(bytes);
    assert forall|i: int| 0 <= i < text.len() implies digit_value(#[trigger] text[i]) is Some by {
        let b = bytes[i / 2] as int;
        assert(0 <= b / 16 < 16 && 0 <= b % 16 < 16);
    }
    assert(is_hex_text(text));
    assert forall|i: int| 0 <= i < bytes.len() implies decoded(text)[i] == bytes[i] by {
        let b = bytes[i] as int;
        assert((2 * i) % 2 == 0 && (2 * i) / 2 == i);
        assert((2 * i + 1) % 2 == 1 && (2 * i + 1) / 2 == i);
        assert(0 <= b / 16 < 16 && 0 <= b % 16 < 16);
        assert(digit_value(digit_of(b / 16)) == Some(b / 16));
        assert(digit_value(digit_of(b % 16)) == Some(b % 16));
        assert((b / 16) * 16 + b % 16 == b);
    }
    assert(decoded(text) =~= bytes);
}

} // verus!
