//! Decoding of one inbound frame: base64 text around a binary record.

use crate::record::{parse_record, record, RawUpdate, RawUpdateView};
use vstd::prelude::*;

verus! {

/// Why a frame could not be decoded.
#[derive(Debug, Clone, Copy, PartialEq, Eq, Structural)]
pub enum DecodeError {
    /// The frame is not base64 text.
    NotBase64,
    /// The bytes in the frame are not a well-formed record.
    MalformedRecord,
}

/// What `base64::decode` makes of `text`, read with the standard
/// alphabet: the bytes it stands for, or `None` where it is rejected.
pub uninterp spec fn base64_decoded(text: Seq<u8>) -> Option<Seq<u8>>;

/// The bytes held by `r`.
pub open spec fn held(r: Option<Vec<u8>>) -> Option<Seq<u8>> {
    match r {
        Some(bytes) => Some(bytes@),
        None => None,
    }
}

/// `base64::decode`: the text is decoded with the standard alphabet, and
/// any of the crate's errors is reported as `None`. The text must be short
/// enough for the crate to size its output buffer.
#[verifier::external_body]
fn base64_decode(text: &[u8]) -> (r: Option<Vec<u8>>)
    requires
        text@.len() <= usize::MAX / 2,
    ensures
        held(r) == base64_decoded(text@),
{
    match base64::decode(text) {
        Ok(bytes) => Some(bytes),
        Err(_) => None,
    }
}

/// The bytes carried by a frame. A frame longer than half the address space
/// carries none.
pub open spec fn payload(frame: Seq<u8>) -> Option<Seq<u8>> {
    if frame.len() <= usize::MAX / 2 {
        base64_decoded(frame)
    } else {
        None
    }
}

/// The update that the bytes of a payload encode.
pub open spec fn decoded_record(bytes: Seq<u8>) -> Result<RawUpdateView, DecodeError> {
    match record(bytes) {
        Some(update) => Ok(update),
        None => Err(DecodeError::MalformedRecord),
    }
}

/// The update that a frame carries.
pub open spec fn decoded(frame: Seq<u8>) -> Result<RawUpdateView, DecodeError> {
    match payload(frame) {
        Some(bytes) => decoded_record(bytes),
        None => Err(DecodeError::NotBase64),
    }
}

/// Mathematical value of a decoding result.
pub open spec fn outcome(r: Result<RawUpdate, DecodeError>) -> Result<RawUpdateView, DecodeError> {
    match r {
        Ok(update) => Ok(update@),
        Err(e) => Err(e),
    }
}

/// Decodes the binary record found in a frame's payload.
pub fn decode_record(bytes: &[u8]) -> (r: Result<RawUpdate, DecodeError>)
    ensures
        outcome(r) == decoded_record(bytes@),
{
    match parse_record(bytes) {
        Some(update) => Ok(update),
        None => Err(DecodeError::MalformedRecord),
    }
}

/// Decodes one inbound frame.
pub fn decode(frame: &[u8]) -> (r: Result<RawUpdate, DecodeError>)
    ensures
        outcome(r) == decoded(frame@),
{
    if frame.len() > usize::MAX / 2 {
        return Err(DecodeError::NotBase64);
    }
    match base64_decode(frame) {
        Some(bytes) => decode_record(bytes.as_slice()),
        None => Err(DecodeError::NotBase64),
    }
}

} // verus!
