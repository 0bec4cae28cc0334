//! Decoding of the payloads that the client protocol carries as bytes: a
//! status code and an opaque response.

use vstd::prelude::*;

verus! {

/// The little-endian value of the first four bytes of `b`.
pub open spec fn le_u32(b: Seq<u8>) -> int {
    b[0] as int + 256 * (b[1] as int) + 65536 * (b[2] as int) + 16777216 * (b[3] as int)
}

/// The little-endian value of the first eight bytes of `b`.
pub open spec fn le_u64(b: Seq<u8>) -> int {
    le_u32(b) + 4294967296 * le_u32(b.subrange(4, 8))
}

/// Relies on bincode::deserialize::<u32> (fixed-width little-endian integers,
/// trailing bytes allowed): it succeeds on four bytes or more and reads the
/// first four.
#[verifier::external_body]
fn deserialize_u32(bytes: &[u8]) -> (r: Option<u32>)
    ensures
        r is Some <==> bytes@.len() >= 4,
        r matches Some(v) ==> v as int == le_u32(bytes@),
{
    bincode::deserialize::<u32>(bytes).ok()
}

/// Relies on bincode::deserialize::<Vec<u8>> (fixed-width little-endian
/// integers, trailing bytes allowed): an eight-byte length `n` followed by `n`
/// bytes.
#[verifier::external_body]
fn deserialize_byte_vec(bytes: &[u8]) -> (r: Option<Vec<u8>>)
    ensures
        r is Some <==> (bytes@.len() >= 8 && le_u64(bytes@) <= bytes@.len() - 8),
        r matches Some(v) ==> v@ == bytes@.subrange(8, 8 + le_u64(bytes@)),
{
    bincode::deserialize::<Vec<u8>>(bytes).ok()
}

/// The status that a server attaches to each client reply.
#[derive(Clone, Copy, Debug, PartialEq, Eq, Structural)]
pub enum RpcStatus {
    Success,
    NotLeader,
    SessionExpired,
}

/// A payload that does not decode.
#[derive(Clone, Copy, Debug, PartialEq, Eq, Structural)]
pub enum DecodeError {
    Malformed,
}

/// The status whose variant index is `code`, if any.
pub open spec fn status_of_code(code: int) -> Option<RpcStatus> {
    if code == 0 {
        Some(RpcStatus::Success)
    } else if code == 1 {
        Some(RpcStatus::NotLeader)
    } else if code == 2 {
        Some(RpcStatus::SessionExpired)
    } else {
        None
    }
}

/// The status that `bytes` encodes: a four-byte variant index.
pub open spec fn status_spec(bytes: Seq<u8>) -> Option<RpcStatus> {
    if bytes.len() >= 4 {
        status_of_code(le_u32(bytes))
    } else {
        None
    }
}

/// The response that `bytes` encodes: an eight-byte length, then the bytes.
pub open spec fn response_spec(bytes: Seq<u8>) -> Option<Seq<u8>> {
    if bytes.len() >= 8 && le_u64(bytes) <= bytes.len() - 8 {
        Some(bytes.subrange(8, 8 + le_u64(bytes)))
    } else {
        None
    }
}

/// Decodes a reply's status.
pub fn decode_status(bytes: &[u8]) -> (r: Result<RpcStatus, DecodeError>)
    ensures
        match status_spec(bytes@) {
            Some(s) => r == Ok::<RpcStatus, DecodeError>(s),
            None => r == Err::<RpcStatus, DecodeError>(DecodeError::Malformed),
        },
{
    match deserialize_u32(bytes) {
        Some(0) => Ok(RpcStatus::Success),
        Some(1) => Ok(RpcStatus::NotLeader),
        Some(2) => Ok(RpcStatus::SessionExpired),
        _ => Err(DecodeError::Malformed),
    }
}

/// Decodes a reply's response payload.
pub fn decode_response(bytes: &[u8]) -> (r: Result<Vec<u8>, DecodeError>)
    ensures
        match response_spec(bytes@) {
            Some(v) => r matches Ok(out) && out@ == v,
            None => r == Err::<Vec<u8>, DecodeError>(DecodeError::Malformed),
        },
{
    match deserialize_byte_vec(bytes) {
        Some(v) => Ok(v),
        None => Err(DecodeError::Malformed),
    }
}

} // verus!
