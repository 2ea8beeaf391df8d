//! Base64 spellings of key ids, as configuration and key files carry them.

use vstd::prelude::*;

use crate::document::{Binary, BinarySubtype};
use crate::error::{CsfleKind, Error, ErrorKind};
use crate::KEY_ID_LEN;

verus! {

/// What base64 decoding yields: the decoded bytes on an input the decoder
/// accepts, nothing on one it rejects. Both depend on the characters alone.
pub uninterp spec fn b64_decode_of(s: Seq<char>) -> Option<Seq<u8>>;

#[verifier::external_type_specification]
#[verifier::external_body]
pub struct ExDecodeError(base64::DecodeError);

/// Relies on `base64::decode`: standard-alphabet base64 decoding, a function
/// of the input characters alone; it succeeds exactly on the inputs the
/// decoder accepts and returns its error, never panicking, on the rest.
#[verifier::external_body]
fn b64_decode(s: &str) -> (r: Result<Vec<u8>, base64::DecodeError>)
    ensures
        match r {
            Ok(b) => b64_decode_of(s@) == Some(b@),
            Err(_) => b64_decode_of(s@) is None,
        },
{
    base64::decode(s)
}

/// Decodes a base64 spelling into a UUID binary value: the decoded bytes
/// exactly when the decoder accepts the input, a malformed-input error
/// otherwise.
pub fn base64_uuid(bytes: &str) -> (r: Result<Binary, Error>)
    ensures
        match r {
            Ok(b) => {
                &&& b@.subtype == BinarySubtype::Uuid
                &&& b64_decode_of(bytes@) == Some(b@.bytes)
            },
            Err(e) => {
                &&& b64_decode_of(bytes@) is None
                &&& e.kind matches ErrorKind::Csfle { kind: CsfleKind::Malformed, .. }
            },
        },
{
    match b64_decode(bytes) {
        Ok(data) => Ok(Binary { subtype: BinarySubtype::Uuid, bytes: data }),
        Err(_) => {
            let msg: &str = "input is not valid base64";
            Err(
                Error {
                    kind: ErrorKind::Csfle { kind: CsfleKind::Malformed, message: msg.to_owned() },
                    labels: Vec::new(),
                },
            )
        },
    }
}

/// Decodes a base64 spelling of a key id: the bytes exactly when the decoder
/// accepts the input and they have the exact id length, nothing otherwise.
pub fn parse_key_id_base64(s: &str) -> (r: Option<Vec<u8>>)
    ensures
        match r {
            Some(id) => b64_decode_of(s@) == Some(id@) && id@.len() == KEY_ID_LEN,
            None => match b64_decode_of(s@) {
                Some(b) => b.len() != KEY_ID_LEN,
                None => true,
            },
        },
{
    match b64_decode(s) {
        Ok(data) => {
            if data.len() == KEY_ID_LEN {
                Some(data)
            } else {
                None
            }
        },
        Err(_) => None,
    }
}

} // verus!
