//! Snappy compression of message bodies.
use vstd::prelude::*;

use snap::{Decoder, Encoder};

verus! {

#[verifier::external_type_specification]
#[verifier::external_body]
pub struct ExEncoder(Encoder);

#[verifier::external_type_specification]
#[verifier::external_body]
pub struct ExDecoder(Decoder);

#[verifier::external_type_specification]
#[verifier::external_body]
pub struct ExSnapError(snap::Error);

/// The raw Snappy block that `snap`'s encoder makes of `data`.
pub uninterp spec fn snap_compressed(data: Seq<u8>) -> Seq<u8>;

/// What `snap`'s decoder makes of `data`: the decompressed bytes, or `None`
/// where `data` is not a valid raw Snappy block.
pub uninterp spec fn snap_decompressed(data: Seq<u8>) -> Option<Seq<u8>>;

/// The room that the encoder sets aside for the compressed form of `n`
/// bytes (`snap::max_compress_len`, where that is not 0).
pub open spec fn max_compress_len(n: int) -> int {
    32 + n + n / 6
}

/// Whether the encoder takes an input of `n` bytes: the room it needs must
/// fit in a `u32`.
pub open spec fn compressible(n: int) -> bool {
    max_compress_len(n) <= u32::MAX
}

/// Whether `compress` takes an input of `len` bytes.
pub fn fits_compression(len: usize) -> (b: bool)
    ensures
        b == compressible(len as int),
{
    let n: u64 = len as u64;
    if n > u32::MAX as u64 {
        false
    } else {
        32 + n + n / 6 <= u32::MAX as u64
    }
}

/// `snap::Encoder::new`.
#[verifier::external_body]
fn new_encoder() -> Encoder {
    Encoder::new()
}

/// `snap::Encoder::compress_vec`: fails exactly when the input is too large
/// (`max_compress_len` of its length exceeds `u32::MAX`; the buffer it
/// allocates is always large enough); otherwise it returns the Snappy block
/// of the input, no longer than `max_compress_len`, which the decoder turns
/// back into the input. The encoder's tables are cleared for every block, so
/// the output depends on the input alone.
#[verifier::external_body]
fn encoder_compress_vec(encoder: &mut Encoder, input: &[u8]) -> (r: Result<Vec<u8>, snap::Error>)
    ensures
        r is Ok <==> compressible(input@.len() as int),
        r matches Ok(v) ==> {
            &&& v@ == snap_compressed(input@)
            &&& v@.len() <= max_compress_len(input@.len() as int)
            &&& snap_decompressed(v@) == Some(input@)
        },
{
    encoder.compress_vec(input)
}

/// `snap::Decoder::new`.
#[verifier::external_body]
fn new_decoder() -> Decoder {
    Decoder::new()
}

/// `snap::Decoder::decompress_vec`: succeeds exactly on valid raw Snappy
/// blocks, with their decompressed bytes.
#[verifier::external_body]
fn decoder_decompress_vec(decoder: &mut Decoder, input: &[u8]) -> (r: Result<Vec<u8>, snap::Error>)
    ensures
        r is Ok <==> snap_decompressed(input@) is Some,
        r matches Ok(v) ==> snap_decompressed(input@) == Some(v@),
{
    decoder.decompress_vec(input)
}

/// Compresses `uncompressed` into a raw Snappy block, which `decompress`
/// turns back into `uncompressed`.
pub fn compress(uncompressed: Vec<u8>) -> (compressed: Vec<u8>)
    requires
        compressible(uncompressed@.len() as int),
    ensures
        compressed@ == snap_compressed(uncompressed@),
        compressed@.len() <= max_compress_len(uncompressed@.len() as int),
        snap_decompressed(compressed@) == Some(uncompressed@),
{
    let mut encoder = new_encoder();
    match encoder_compress_vec(&mut encoder, uncompressed.as_slice()) {
        Ok(compressed) => compressed,
        Err(_) => {
            proof {
                assert(false);
            }
            Vec::new()
        },
    }
}

/// Decompresses a raw Snappy block.
pub fn decompress(compressed: Vec<u8>) -> (uncompressed: Vec<u8>)
    requires
        snap_decompressed(compressed@) is Some,
    ensures
        snap_decompressed(compressed@) == Some(uncompressed@),
{
    let mut decoder = new_decoder();
    match decoder_decompress_vec(&mut decoder, compressed.as_slice()) {
        Ok(uncompressed) => uncompressed,
        Err(_) => {
            proof {
                assert(false);
            }
            Vec::new()
        },
    }
}

/// Decompresses `compressed` where it is a valid raw Snappy block, and
/// returns `None` where it is not.
pub fn try_decompress(compressed: Vec<u8>) -> (r: Option<Vec<u8>>)
    ensures
        match snap_decompressed(compressed@) {
            Some(d) => r matches Some(v) && v@ == d,
            None => r is None,
        },
{
    let mut decoder = new_decoder();
    let valid = decoder_decompress_vec(&mut decoder, compressed.as_slice()).is_ok();
    if valid {
        Some(decompress(compressed))
    } else {
        None
    }
}

} // verus!
