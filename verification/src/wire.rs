//! How messages travel on the wire.
//!
//! On the reliable stream a message is its serialized bytes, compressed, and
//! preceded by the length of the compressed bytes as a 4-byte little-endian
//! integer (bincode's encoding of a `u32`). On the unreliable socket a
//! datagram is the serialized bytes alone.
use vstd::prelude::*;

use bincode::ErrorKind;

use crate::compression::{compress, compressible, snap_compressed, snap_decompressed};

verus! {

#[verifier::external_type_specification]
#[verifier::external_body]
pub struct ExBincodeErrorKind(ErrorKind);

/// The error type of bincode's functions.
pub type BincodeError = Box<ErrorKind>;

/// The four little-endian bytes of `x`.
pub open spec fn le_bytes(x: u32) -> Seq<u8> {
    seq![x as u8, (x >> 8u32) as u8, (x >> 16u32) as u8, (x >> 24u32) as u8]
}

/// The `u32` whose little-endian bytes begin `b`.
pub open spec fn le_value(b: Seq<u8>) -> u32 {
    (b[0] as u32) | ((b[1] as u32) << 8u32) | ((b[2] as u32) << 16u32) | ((b[3] as u32) << 24u32)
}

/// A frame on the reliable stream: the body's length, then the body.
pub open spec fn frame_spec(body: Seq<u8>) -> Seq<u8> {
    le_bytes(body.len() as u32) + body
}

/// `bincode::serialize` of a `u32`: with bincode's default functions an
/// integer is written in fixed width, little-endian, with no size limit, into
/// a `Vec`, which cannot fail.
#[verifier::external_body]
fn serialize_u32(value: &u32) -> (r: Result<Vec<u8>, BincodeError>)
    ensures
        r is Ok,
        r matches Ok(v) ==> v@ == le_bytes(*value),
{
    bincode::serialize(value)
}

/// `bincode::deserialize` of a `u32`: reads four little-endian bytes and
/// ignores any bytes after them; fails when fewer than four bytes are given.
#[verifier::external_body]
fn deserialize_u32(bytes: &[u8]) -> (r: Result<u32, BincodeError>)
    ensures
        r is Ok <==> bytes@.len() >= 4,
        r matches Ok(x) ==> x == le_value(bytes@),
{
    bincode::deserialize::<u32>(bytes)
}

/// Prepends a body's length to it.
pub fn frame_body(body: Vec<u8>) -> (wire: Vec<u8>)
    requires
        body@.len() <= u32::MAX,
    ensures
        wire@ == frame_spec(body@),
{
    let mut body = body;
    let message_size: u32 = body.len() as u32;
    match serialize_u32(&message_size) {
        Ok(header) => {
            let mut wire = header;
            wire.append(&mut body);
            wire
        },
        Err(_) => {
            proof {
                assert(false);
            }
            Vec::new()
        },
    }
}

/// The bytes that carry one serialized message on the reliable stream: the
/// message compressed, then framed with its compressed length.
pub fn tcp_frame(serialized: Vec<u8>) -> (wire: Vec<u8>)
    requires
        compressible(serialized@.len() as int),
    ensures
        wire@ == frame_spec(snap_compressed(serialized@)),
        wire@.len() >= 4,
        le_value(wire@) == wire@.len() - 4,
        snap_decompressed(wire@.skip(4)) == Some(serialized@),
{
    let compressed = compress(serialized);
    let wire = frame_body(compressed);
    proof {
        law_frame_roundtrip(compressed@, Seq::empty());
        assert(frame_spec(compressed@) + Seq::<u8>::empty() =~= wire@);
        assert(wire@.skip(4) =~= compressed@);
    }
    wire
}

/// The body length announced by a frame header: its first four bytes read as
/// a little-endian `u32`; `None` where fewer than four bytes are given.
pub fn frame_body_len(header: &[u8]) -> (len: Option<usize>)
    ensures
        len == (if header@.len() >= 4 {
            Some(le_value(header@) as usize)
        } else {
            None
        }),
{
    match deserialize_u32(header) {
        Ok(size) => Some(size as usize),
        Err(_) => None,
    }
}

/// The part of a receive buffer that holds a datagram: the whole buffer
/// (serialized messages ignore bytes after their end), unless nothing was
/// received.
pub fn datagram_payload(buffer: &[u8], received: usize) -> (payload: Option<&[u8]>)
    ensures
        payload == (if received == 0 {
            None
        } else {
            Some(buffer)
        }),
{
    if received == 0 {
        None
    } else {
        Some(buffer)
    }
}

proof fn lemma_le_roundtrip(x: u32)
    ensures
        le_value(le_bytes(x)) == x,
{
    let b = le_bytes(x);
    let (b0, b1, b2, b3) = (x as u8, (x >> 8u32) as u8, (x >> 16u32) as u8, (x >> 24u32) as u8);
    assert(b[0] == b0 && b[1] == b1 && b[2] == b2 && b[3] == b3);
    assert((b0 as u32) | ((b1 as u32) << 8u32) | ((b2 as u32) << 16u32) | ((b3 as u32) << 24u32)
        == x) by (bit_vector)
        requires
            b0 == x as u8,
            b1 == (x >> 8u32) as u8,
            b2 == (x >> 16u32) as u8,
            b3 == (x >> 24u32) as u8,
    ;
}

/// Reading a frame gives back what was framed: the header of a frame, even
/// with more bytes of the stream behind it, announces the body's length, and
/// that many bytes after the header are the body.
pub proof fn law_frame_roundtrip(body: Seq<u8>, rest: Seq<u8>)
    requires
        body.len() <= u32::MAX,
    ensures
        ({
            let stream = frame_spec(body) + rest;
            &&& stream.len() >= 4
            &&& le_value(stream) == body.len()
            &&& stream.subrange(4, 4 + body.len() as int) == body
        }),
{
    let stream = frame_spec(body) + rest;
    lemma_le_roundtrip(body.len() as u32);
    assert(le_value(stream) == le_value(le_bytes(body.len() as u32)));
    assert(stream.subrange(4, 4 + body.len() as int) =~= body);
}

} // verus!
