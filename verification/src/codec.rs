//! Framing codec of the point-to-point file-exchange protocol.
//!
//! Each message travels as one whole frame on its own stream: a varint
//! length prefix followed by the payload. The two directions share the
//! frame shape but differ in their size ceilings. An empty payload is a
//! protocol error and is treated as an unexpected end of stream. Reading
//! a frame whose announced length exceeds the ceiling is a decode error,
//! never a silent truncation. Closing the stream after a write is the
//! caller's duty; this module only computes and checks bytes.

use vstd::prelude::*;
use crate::varint::{
    spec_decode_varint, spec_length_prefixed, lemma_decode_varint_props, lemma_pow128_values,
    lemma_varint_round_trip, decode_varint_at, encode_length_prefixed, copy_range,
    PREFIX_VALUE_LIMIT, PREFIX_MAX_BYTES,
};

verus! {

/// Greatest request payload the file-exchange protocol accepts.
pub const MAX_REQUEST_SIZE: u64 = 1_000_000;

/// Greatest response payload the file-exchange protocol accepts.
pub const MAX_RESPONSE_SIZE: u64 = 500_000_000;

/// Why a frame failed to decode.
#[derive(Debug, Clone, Copy, PartialEq, Eq, Structural)]
pub enum CodecError {
    /// The length prefix itself is malformed or unterminated.
    BadLengthPrefix,
    /// The announced payload length exceeds the direction's ceiling.
    OversizedFrame,
    /// The payload is empty or shorter than announced.
    UnexpectedEof,
}

/// The file-exchange protocol's name tag.
#[derive(Debug, Clone)]
pub struct Protocol;

/// Frame reader/writer for the file-exchange protocol.
#[derive(Clone)]
pub struct Codec;

/// Decode one frame from the front of `s` under the ceiling `max`:
/// the length prefix is read first, the ceiling is checked before the
/// payload is taken, and an empty or truncated payload is an
/// end-of-stream error. Bytes after the frame are left untouched.
pub open spec fn spec_read_frame(s: Seq<u8>, max: nat) -> Result<Seq<u8>, CodecError> {
    match spec_decode_varint(s, PREFIX_MAX_BYTES as nat) {
        None => Err(CodecError::BadLengthPrefix),
        Some(p) => {
            let l = p.0;
            let k = p.1;
            if l > max {
                Err(CodecError::OversizedFrame)
            } else if l == 0 {
                Err(CodecError::UnexpectedEof)
            } else if s.len() - k < l {
                Err(CodecError::UnexpectedEof)
            } else {
                Ok(s.subrange(k as int, (k + l) as int))
            }
        },
    }
}

/// Decoding a written frame under a ceiling the payload respects yields
/// the payload again.
pub proof fn lemma_frame_round_trip(payload: Seq<u8>, max: nat)
    requires
        1 <= payload.len() <= max,
        max < PREFIX_VALUE_LIMIT,
    ensures
        spec_read_frame(spec_length_prefixed(payload), max) == Ok::<Seq<u8>, CodecError>(payload),
{
    lemma_pow128_values();
    lemma_varint_round_trip(payload.len(), payload, 5);
    let s = spec_length_prefixed(payload);
    let k = crate::varint::spec_encode_varint(payload.len()).len();
    assert(s.subrange(k as int, (k + payload.len()) as int) =~= payload);
}

fn read_frame(input: &Vec<u8>, max: u64) -> (r: Result<Vec<u8>, CodecError>)
    ensures
        match r {
            Ok(v) => spec_read_frame(input@, max as nat) == Ok::<Seq<u8>, CodecError>(v@),
            Err(e) => spec_read_frame(input@, max as nat) == Err::<Seq<u8>, CodecError>(e),
        },
{
    assert(input@.subrange(0, input@.len() as int) =~= input@);
    match decode_varint_at(input, 0, PREFIX_MAX_BYTES) {
        None => Err(CodecError::BadLengthPrefix),
        Some((l, k)) => {
            proof {
                lemma_decode_varint_props(input@, 5);
            }
            if l > max {
                Err(CodecError::OversizedFrame)
            } else if l == 0 {
                Err(CodecError::UnexpectedEof)
            } else if ((input.len() - k) as u64) < l {
                Err(CodecError::UnexpectedEof)
            } else {
                Ok(copy_range(input, k, k + (l as usize)))
            }
        },
    }
}

impl Protocol {
    /// The protocol's name on the wire.
    pub fn protocol_name(&self) -> (r: &'static str)
        ensures
            r@ == "/file-exchange/1"@,
    {
        "/file-exchange/1"
    }
}

impl Codec {
    /// Decode one inbound request frame under the request ceiling.
    pub fn read_request(&mut self, input: &Vec<u8>) -> (r: Result<Vec<u8>, CodecError>)
        ensures
            *final(self) == *old(self),
            match r {
                Ok(v) => spec_read_frame(input@, MAX_REQUEST_SIZE as nat)
                    == Ok::<Seq<u8>, CodecError>(v@),
                Err(e) => spec_read_frame(input@, MAX_REQUEST_SIZE as nat)
                    == Err::<Seq<u8>, CodecError>(e),
            },
    {
        read_frame(input, MAX_REQUEST_SIZE)
    }

    /// Decode one inbound response frame under the response ceiling.
    pub fn read_response(&mut self, input: &Vec<u8>) -> (r: Result<Vec<u8>, CodecError>)
        ensures
            *final(self) == *old(self),
            match r {
                Ok(v) => spec_read_frame(input@, MAX_RESPONSE_SIZE as nat)
                    == Ok::<Seq<u8>, CodecError>(v@),
                Err(e) => spec_read_frame(input@, MAX_RESPONSE_SIZE as nat)
                    == Err::<Seq<u8>, CodecError>(e),
            },
    {
        read_frame(input, MAX_RESPONSE_SIZE)
    }

    /// The outbound frame for a request payload.
    pub fn write_request(&mut self, data: &Vec<u8>) -> (r: Vec<u8>)
        ensures
            *final(self) == *old(self),
            r@ == spec_length_prefixed(data@),
    {
        encode_length_prefixed(data)
    }

    /// The outbound frame for a response payload.
    pub fn write_response(&mut self, data: &Vec<u8>) -> (r: Vec<u8>)
        ensures
            *final(self) == *old(self),
            r@ == spec_length_prefixed(data@),
    {
        encode_length_prefixed(data)
    }
}

} // verus!
