//! Bytes as text.

use crate::error::IoError;
use vstd::prelude::*;
use vstd::utf8::{decode_utf8, valid_utf8};

verus! {

/// The error of `String::from_utf8`; nothing of it is read.
#[verifier::external_type_specification]
#[verifier::external_body]
pub struct ExFromUtf8Error(std::string::FromUtf8Error);

/// `String::from_utf8` is believed to return `Ok` exactly on the byte
/// sequences that are well-formed UTF-8, and then the text that they encode.
pub assume_specification[ String::from_utf8 ](vec: Vec<u8>) -> (text: Result<
    String,
    std::string::FromUtf8Error,
>)
    ensures
        text is Ok <==> valid_utf8(vec@),
        text matches Ok(s) ==> s@ == decode_utf8(vec@),
;

/// Decodes `bytes` as UTF-8 text. Bytes that are not well-formed UTF-8 are
/// reported, never repaired.
pub fn decode(bytes: Vec<u8>) -> (text: Result<String, IoError>)
    ensures
        match text {
            Ok(s) => valid_utf8(bytes@) && s@ == decode_utf8(bytes@),
            Err(error) => !valid_utf8(bytes@) && error == IoError::InvalidData,
        },
{
    match String::from_utf8(bytes) {
        Ok(s) => Ok(s),
        Err(_) => Err(IoError::InvalidData),
    }
}

} // verus!
