//! Percent-decoding of the path that is asked of the development server.
use vstd::prelude::*;
use vstd::utf8::{decode_utf8, encode_utf8, valid_utf8};

verus! {

/// The value of a hexadecimal digit.
pub open spec fn hex_value(byte: u8) -> Option<int> {
    if 48 <= byte <= 57 {
        Some(byte - 48)
    } else if 65 <= byte <= 70 {
        Some(byte - 55)
    } else if 97 <= byte <= 102 {
        Some(byte - 87)
    } else {
        None
    }
}

/// Whether `bytes` starts with a percent sign and two hexadecimal digits.
pub open spec fn starts_escape(bytes: Seq<u8>) -> bool {
    bytes.len() >= 3 && bytes[0] == 37 && hex_value(bytes[1]) is Some && hex_value(bytes[2]) is Some
}

/// Bytes with each percent sign that two hexadecimal digits follow replaced
/// by the byte that they name.
pub open spec fn percent_decoded(bytes: Seq<u8>) -> Seq<u8>
    decreases bytes.len(),
{
    if bytes.len() == 0 {
        bytes
    } else if starts_escape(bytes) {
        seq![(hex_value(bytes[1])->0 * 16 + hex_value(bytes[2])->0) as u8] + percent_decoded(
            bytes.skip(3),
        )
    } else {
        seq![bytes[0]] + percent_decoded(bytes.skip(1))
    }
}

/// What `PercentDecode::decode_utf8_lossy` gives where the decoded bytes are
/// not UTF-8.
pub uninterp spec fn lossy_text(text: Seq<char>) -> Seq<char>;

/// A text with its percent escapes decoded.
pub open spec fn decoded_text(text: Seq<char>) -> Seq<char> {
    let bytes = percent_decoded(encode_utf8(text));
    if valid_utf8(bytes) {
        decode_utf8(bytes)
    } else {
        lossy_text(text)
    }
}

/// `percent_encoding::percent_decode` and `decode_utf8_lossy`: the escapes
/// are decoded, and the bytes read as UTF-8. Of bytes that are not UTF-8 it is
/// only said that the text is a function of the input.
#[verifier::external_body]
pub(crate) fn percent_decode_text(text: &str) -> (decoded: String)
    ensures
        decoded@ == decoded_text(text@),
        !valid_utf8(percent_decoded(encode_utf8(text@))) ==> decoded@ == lossy_text(text@),
{
    percent_encoding::percent_decode(text.as_bytes()).decode_utf8_lossy().to_string()
}

} // verus!
