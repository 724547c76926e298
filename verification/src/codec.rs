//! Texts in links: a path is carried in a link as URL-safe base64, and read
//! back from it.

use base64::Engine;
use vstd::prelude::*;
use vstd::utf8::{decode_utf8, encode_utf8, valid_utf8};

verus! {

#[verifier::external_type_specification]
#[verifier::external_body]
pub struct ExDecodeError(base64::DecodeError);

#[verifier::external_type_specification]
#[verifier::external_body]
pub struct ExFromUtf8Error(std::string::FromUtf8Error);

/// The URL-safe base64 code, with padding, of the UTF-8 bytes of a text.
pub uninterp spec fn url_safe_base64(text: Seq<char>) -> Seq<char>;

/// The bytes that a text stands for as URL-safe base64 with padding, where
/// it is such a code.
pub uninterp spec fn url_safe_base64_decoded(code: Seq<char>) -> Option<Seq<u8>>;

/// `Engine::encode` of base64, on the engine `URL_SAFE`: the code of the
/// bytes of the text, which depends on the text alone. The call fails only
/// where the length of the code overflows `usize`, which no text in memory
/// reaches.
#[verifier::external_body]
fn url_safe_encode(msg: &str) -> (code: String)
    ensures
        code@ == url_safe_base64(msg@),
{
    base64::engine::general_purpose::URL_SAFE.encode(msg)
}

/// `Engine::decode` of base64, on the engine `URL_SAFE`: the bytes that the
/// text is the code of, or an error where it is no such code; which of the
/// two depends on the text alone.
#[verifier::external_body]
fn url_safe_decode(code: &str) -> (bytes: Result<Vec<u8>, base64::DecodeError>)
    ensures
        match bytes {
            Ok(bytes) => url_safe_base64_decoded(code@) == Some(bytes@),
            Err(_) => url_safe_base64_decoded(code@) is None,
        },
{
    base64::engine::general_purpose::URL_SAFE.decode(code)
}

/// `String::from_utf8` of std: the text that the bytes encode, or an error
/// where they are not valid UTF-8.
#[verifier::external_body]
fn utf8_text(bytes: Vec<u8>) -> (text: Result<String, std::string::FromUtf8Error>)
    ensures
        match text {
            Ok(text) => valid_utf8(bytes@) && text@ == decode_utf8(bytes@),
            Err(_) => !valid_utf8(bytes@),
        },
{
    String::from_utf8(bytes)
}

/// The words that base64 has for its error.
#[verifier::external_body]
fn decode_error_words(error: &base64::DecodeError) -> String {
    format!("{}", error)
}

/// The words that std has for its error.
#[verifier::external_body]
fn utf8_error_words(error: &std::string::FromUtf8Error) -> String {
    format!("{}", error)
}

/// Why a text could not be read back from a link.
#[derive(Debug)]
pub enum DecodeFailure {
    /// The text is not URL-safe base64.
    NotBase64(base64::DecodeError),
    /// The text is base64, but not of the bytes of a text.
    NotUtf8(std::string::FromUtf8Error),
}

impl DecodeFailure {
    /// The words of the error that the failure holds.
    pub fn message(&self) -> String {
        match self {
            DecodeFailure::NotBase64(error) => decode_error_words(error),
            DecodeFailure::NotUtf8(error) => utf8_error_words(error),
        }
    }
}

/// The text that a code reads back to, where it is the code of a text.
pub open spec fn decoded_text(code: Seq<char>) -> Option<Seq<char>> {
    match url_safe_base64_decoded(code) {
        Some(bytes) => if valid_utf8(bytes) {
            Some(decode_utf8(bytes))
        } else {
            None
        },
        None => None,
    }
}

/// The code under which a text is carried in a link.
pub fn encode(msg: &str) -> (code: String)
    ensures
        code@ == url_safe_base64(msg@),
{
    url_safe_encode(msg)
}

/// Reads a text back from its code: the text, or the reason why the code is
/// none of a text.
pub fn decode(msg: &str) -> (text: Result<String, DecodeFailure>)
    ensures
        match text {
            Ok(text) => decoded_text(msg@) == Some(text@),
            Err(DecodeFailure::NotBase64(_)) => url_safe_base64_decoded(msg@) is None,
            Err(DecodeFailure::NotUtf8(_)) => url_safe_base64_decoded(msg@) is Some
                && decoded_text(msg@) is None,
        },
{
    let bytes = match url_safe_decode(msg) {
        Ok(bytes) => bytes,
        Err(error) => {
            return Err(DecodeFailure::NotBase64(error));
        },
    };
    match utf8_text(bytes) {
        Ok(text) => Ok(text),
        Err(error) => Err(DecodeFailure::NotUtf8(error)),
    }
}

/// Reads a text back from its code; where the code is none of a text, the
/// words of the error stand in for the text.
pub fn decode_with_lossy(msg: &str) -> (text: String)
    ensures
        decoded_text(msg@) matches Some(decoded) ==> text@ == decoded,
{
    match decode(msg) {
        Ok(decoded) => decoded,
        Err(failure) => failure.message(),
    }
}

/// An ASCII letter or digit, as a byte.
pub open spec fn alphanumeric(byte: u8) -> bool {
    ||| 0x30 <= byte <= 0x39
    ||| 0x41 <= byte <= 0x5A
    ||| 0x61 <= byte <= 0x7A
}

/// The digit of a number below sixteen, with capital letters from ten on.
pub open spec fn hex_digit(n: int) -> char {
    if n < 10 {
        (0x30 + n) as char
    } else {
        (0x41 + n - 10) as char
    }
}

/// A byte as it stands in a link: itself where it is a letter or digit,
/// else a percent sign and its two hexadecimal digits.
pub open spec fn escaped_byte(byte: u8) -> Seq<char> {
    if alphanumeric(byte) {
        seq![byte as char]
    } else {
        seq!['%', hex_digit(byte as int / 16), hex_digit(byte as int % 16)]
    }
}

/// The bytes as they stand in a link, one after the other.
pub open spec fn escaped_bytes(bytes: Seq<u8>) -> Seq<char>
    decreases bytes.len(),
{
    if bytes.len() == 0 {
        Seq::empty()
    } else {
        escaped_bytes(bytes.drop_last()) + escaped_byte(bytes.last())
    }
}

/// A text as it stands in a link: the bytes of its UTF-8 form, each escaped
/// unless it is an ASCII letter or digit.
pub open spec fn percent_encoded(text: Seq<char>) -> Seq<char> {
    escaped_bytes(encode_utf8(text))
}

/// `utf8_percent_encode` of percent-encoding, with the set
/// `NON_ALPHANUMERIC`: walks the bytes of the text's UTF-8 form, and writes
/// each as it is where it is an ASCII letter or digit, else as a percent
/// sign and two capital hexadecimal digits.
#[verifier::external_body]
pub(crate) fn percent_encode(text: &str) -> (escaped: String)
    ensures
        escaped@ == percent_encoded(text@),
{
    percent_encoding::utf8_percent_encode(text, percent_encoding::NON_ALPHANUMERIC).to_string()
}

} // verus!
