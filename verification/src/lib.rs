use vstd::prelude::*;

pub mod adpcm;
pub mod bitmap;
pub mod bits;
pub mod codecs;
pub mod pixels;
pub mod sound;

verus! {

/// Failures of the media decoding layer. Decoding either completes and
/// returns a result or fails atomically with one of these; nothing is
/// retried internally.
#[derive(Clone, Copy, Debug, PartialEq, Eq, Structural)]
pub enum Error {
    /// The per-channel seed data at the start of a compressed audio block
    /// is missing or malformed.
    InvalidHeader,
    /// A payload is smaller than the size its dimensions and format require.
    ShortRead,
    /// A pixel layout this layer does not handle (CMYK).
    UnsupportedFormat,
    /// A zlib-wrapped payload did not inflate.
    ZlibDecoding,
    /// A GIF header could not be read.
    GifDecoding,
    /// A PNG header could not be read.
    PngDecoding,
    /// A JPEG header could not be read.
    JpegDecoding,
}

} // verus!
