//! Result encoding for the cutout endpoint: the emitted FITS bytes are
//! gzip-compressed and then base64-encoded, because the hosting platform's
//! buffered responses carry JSON strings only.

use vstd::prelude::*;

verus! {

/// What gzip compression (default level) yields for a byte sequence: a
/// function of the input bytes alone for a fixed compressor.
pub uninterp spec fn gzip_of(data: Seq<u8>) -> Seq<u8>;

/// Relies on `flate2::write::GzEncoder` at the default compression level:
/// writing to an in-memory buffer cannot fail.
#[verifier::external_body]
fn gzip_compress(data: &Vec<u8>) -> (r: Vec<u8>)
    ensures
        r@ == gzip_of(data@),
{
    let mut encoder = flate2::write::GzEncoder::new(Vec::new(), flate2::Compression::default());
    std::io::Write::write_all(&mut encoder, &data[..]).expect("in-memory gzip write");
    encoder.finish().expect("in-memory gzip finish")
}

/// What standard padded base64 yields for a byte sequence.
pub uninterp spec fn base64_of(data: Seq<u8>) -> Seq<char>;

/// Relies on `base64::engine::general_purpose::STANDARD`: four output
/// characters for every started group of three input bytes.
#[verifier::external_body]
fn base64_encode(data: &Vec<u8>) -> (r: String)
    ensures
        r@ == base64_of(data@),
        r@.len() == 4 * ((data@.len() + 2) / 3),
{
    base64::Engine::encode(&base64::engine::general_purpose::STANDARD, &data[..])
}

/// Encode finished FITS bytes into the response payload:
/// base64 of the gzip of the bytes.
pub fn encode_cutout_payload(fits_bytes: &Vec<u8>) -> (r: String)
    ensures
        r@ == base64_of(gzip_of(fits_bytes@)),
{
    let compressed = gzip_compress(fits_bytes);
    base64_encode(&compressed)
}

} // verus!
