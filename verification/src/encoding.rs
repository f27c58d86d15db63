//! Text forms computed outside the verified code: base64, the canonical form
//! of a UUID, the debug form of a list of names and Unicode lower-casing. The
//! functions here make those calls; their contracts are taken on trust from
//! the sources and documentation of what they call.

use base64::Engine;
use vstd::prelude::*;

verus! {

/// The error of `base64`'s decoder.
#[verifier::external_type_specification]
#[verifier::external_body]
pub struct ExDecodeError(base64::DecodeError);

/// The standard, padded base64 text of a run of bytes, as
/// `base64::engine::general_purpose::STANDARD.encode` writes it.
pub uninterp spec fn base64_text(bytes: Seq<u8>) -> Seq<char>;

/// The bytes that `base64::engine::general_purpose::STANDARD.decode` reads
/// from a text, or `None` where it rejects the text.
pub uninterp spec fn base64_bytes(text: Seq<char>) -> Option<Seq<u8>>;

/// The lower-case hexadecimal numeral of a value below sixteen.
pub open spec fn hex_char(n: nat) -> char {
    if n < 10 {
        crate::text::digit_char(n)
    } else if n == 10 {
        'a'
    } else if n == 11 {
        'b'
    } else if n == 12 {
        'c'
    } else if n == 13 {
        'd'
    } else if n == 14 {
        'e'
    } else {
        'f'
    }
}

/// The canonical text of a UUID given by its sixteen bytes: thirty-two
/// lower-case hexadecimal digits, most significant first, in groups of
/// 8, 4, 4, 4 and 12 with hyphens between them.
pub open spec fn uuid_text(bytes: Seq<u8>) -> Seq<char> {
    Seq::new(
        36,
        |i: int|
            if i == 8 || i == 13 || i == 18 || i == 23 {
                '-'
            } else {
                let k = if i < 8 {
                    i
                } else if i < 13 {
                    i - 1
                } else if i < 18 {
                    i - 2
                } else if i < 23 {
                    i - 3
                } else {
                    i - 4
                };
                let byte = bytes[k / 2] as nat;
                hex_char(
                    if k % 2 == 0 {
                        byte / 16
                    } else {
                        byte % 16
                    },
                )
            },
    )
}

/// Calls `Engine::encode` of `base64` on the `STANDARD` engine. Trusted: the
/// result is the crate's standard padded encoding of the bytes, and decoding
/// that text with the same engine gives the bytes back. The crate panics
/// where the text's length does not fit in `usize`; such inputs are excluded.
#[verifier::external_body]
pub(crate) fn base64_encode(bytes: &Vec<u8>) -> (text: String)
    requires
        crate::cql::encodable_len(bytes@.len()),
    ensures
        text@ == base64_text(bytes@),
        base64_bytes(text@) == Some(bytes@),
{
    base64::engine::general_purpose::STANDARD.encode(bytes)
}

/// Calls `Engine::decode` of `base64` on the `STANDARD` engine. Trusted: the
/// outcome is the one the crate's decoder gives for this text.
#[verifier::external_body]
pub(crate) fn base64_decode(text: &str) -> (outcome: Result<Vec<u8>, base64::DecodeError>)
    ensures
        match outcome {
            Ok(bytes) => base64_bytes(text@) == Some(bytes@),
            Err(_) => base64_bytes(text@) is None,
        },
{
    base64::engine::general_purpose::STANDARD.decode(text.as_bytes())
}

/// Calls `to_string` on a `base64::DecodeError`. Nothing is claimed of the
/// text.
#[verifier::external_body]
pub(crate) fn decode_error_text(error: &base64::DecodeError) -> (text: String) {
    error.to_string()
}

/// Calls `to_string` on the `uuid::Uuid` made of the bytes. Trusted: the
/// result is the hyphenated lower-case form.
#[verifier::external_body]
pub(crate) fn uuid_to_text(bytes: &[u8; 16]) -> (text: String)
    ensures
        text@ == uuid_text(bytes@),
{
    uuid::Uuid::from_bytes(*bytes).to_string()
}

/// Calls `to_string` on the `scylla_cql` `CqlTimeuuid` made of the bytes.
/// Trusted: the result is the hyphenated lower-case form, as for a UUID.
#[verifier::external_body]
pub(crate) fn timeuuid_to_text(bytes: &[u8; 16]) -> (text: String)
    ensures
        text@ == uuid_text(bytes@),
{
    scylla_cql::frame::value::CqlTimeuuid::from_bytes(*bytes).to_string()
}

/// The text that the standard library's `Debug` formatting writes for a list
/// of strings: the strings quoted and escaped, separated by commas, in square
/// brackets.
pub uninterp spec fn debug_list_text(names: Seq<Seq<char>>) -> Seq<char>;

/// The lower-case form of a text as `str::to_lowercase` of the standard
/// library gives it, by the Unicode case mappings.
pub uninterp spec fn lowercase_text(text: Seq<char>) -> Seq<char>;

/// Formats a list of strings with the standard library's `Debug` formatting.
/// Trusted: the text depends on the strings alone.
#[verifier::external_body]
pub(crate) fn debug_list(names: &Vec<String>) -> (text: String)
    ensures
        text@ == debug_list_text(names.deep_view()),
{
    format!("{:?}", names)
}

/// Calls `str::to_lowercase` of the standard library. Trusted: the result
/// depends on the text alone.
#[verifier::external_body]
pub(crate) fn to_lowercase(text: &str) -> (lower: String)
    ensures
        lower@ == lowercase_text(text@),
{
    text.to_lowercase()
}

} // verus!
