//! Trusted boundary to the outside codec crates.
//!
//! Everything this library needs from the image codec crates is a pure
//! function of in-memory bytes: inflating a zlib stream and reading the
//! dimensions out of a GIF, PNG or JPEG header. Each call stands behind
//! one wrapper here whose contract names its result; nothing else in the
//! crate touches those crates.

use std::io::Read;

use vstd::prelude::*;

verus! {

/// What a zlib stream inflates to: a function of the compressed bytes
/// alone, or nothing when the stream is corrupt.
pub uninterp spec fn inflate_of(b: Seq<u8>) -> Option<Seq<u8>>;

/// Relies on flate2::read::ZlibDecoder and std::io::Read::read_to_end:
/// inflating a zlib stream held in memory is deterministic in its bytes
/// and fails exactly on corrupt streams.
#[verifier::external_body]
pub(crate) fn zlib_inflate(b: &[u8]) -> (r: Option<Vec<u8>>)
    ensures
        r is Some <==> inflate_of(b@) is Some,
        r matches Some(v) ==> inflate_of(b@) == Some(v@),
{
    let mut decoder = flate2::read::ZlibDecoder::new(b);
    let mut out = Vec::new();
    match decoder.read_to_end(&mut out) {
        Ok(_) => Some(out),
        Err(_) => None,
    }
}

/// The dimensions a GIF decoder reads from a stream's header: a function
/// of the bytes alone, or nothing when the header is malformed.
pub uninterp spec fn gif_dims_of(b: Seq<u8>) -> Option<(u16, u16)>;

/// Relies on gif::Decoder::new, width and height: parsing the header of
/// a GIF stream held in memory is deterministic in its bytes.
#[verifier::external_body]
pub(crate) fn gif_dims(b: &[u8]) -> (r: Option<(u16, u16)>)
    ensures
        r == gif_dims_of(b@),
{
    match gif::Decoder::new(b) {
        Ok(d) => Some((d.width(), d.height())),
        Err(_) => None,
    }
}

/// The dimensions a PNG decoder reads from a stream's header: a function
/// of the bytes alone, or nothing when the header is malformed.
pub uninterp spec fn png_dims_of(b: Seq<u8>) -> Option<(u32, u32)>;

/// Relies on png::Decoder::new, read_info and Info: parsing the header
/// of a PNG stream held in memory is deterministic in its bytes.
#[verifier::external_body]
pub(crate) fn png_dims(b: &[u8]) -> (r: Option<(u32, u32)>)
    ensures
        r == png_dims_of(b@),
{
    match png::Decoder::new(std::io::Cursor::new(b)).read_info() {
        Ok(reader) => {
            let info = reader.info();
            Some((info.width, info.height))
        },
        Err(_) => None,
    }
}

/// The dimensions a JPEG decoder reads from a stream's header: a
/// function of the bytes alone, or nothing when the header is malformed.
pub uninterp spec fn jpeg_dims_of(b: Seq<u8>) -> Option<(u16, u16)>;

/// Relies on jpeg_decoder::Decoder::new, read_info and info: parsing the
/// header of a JPEG stream held in memory is deterministic in its bytes.
#[verifier::external_body]
pub(crate) fn jpeg_dims(b: &[u8]) -> (r: Option<(u16, u16)>)
    ensures
        r == jpeg_dims_of(b@),
{
    let mut decoder = jpeg_decoder::Decoder::new(b);
    if decoder.read_info().is_err() {
        return None;
    }
    decoder.info().map(|i| (i.width, i.height))
}

} // verus!
