//! Bitmap records and their canonical pixel buffers.
//!
//! A bitmap either passes an already-encoded stream through (GIF, PNG,
//! JPEG, the last optionally with a separate zlib-wrapped alpha plane),
//! or holds a lossless record: palette-indexed, 15-bit, 24-bit or 32-bit
//! pixel data behind a zlib wrapper. The lossless kinds decode here into
//! canonical pixel buffers; the pass-through kinds only have their
//! headers probed for dimensions.

use vstd::prelude::*;
use vstd::slice::slice_to_vec;

use crate::codecs::{
    gif_dims, gif_dims_of, inflate_of, jpeg_dims, jpeg_dims_of, png_dims, png_dims_of,
    zlib_inflate,
};
use crate::pixels::{
    depad_spec, indexed_size, pad4, reconstruct_indexed8, reconstruct_indexed8_alpha,
    reconstruct_rgb15, reconstruct_rgb24, reconstruct_rgba32, rgb15_word, rows_size, scale5,
    RgbColor, RgbaColor,
};
use crate::Error;

verus! {

/// The encoded payload of one bitmap record.
#[derive(Clone, Debug)]
pub enum BitmapData {
    /// A whole GIF stream, written through unchanged.
    Gif { gif_data: Vec<u8> },
    /// A whole JPEG stream; when an alpha plane rides along it holds one
    /// zlib-wrapped byte per pixel.
    Jpeg { jpeg_data: Vec<u8>, alpha_data: Option<Vec<u8>> },
    /// A whole PNG stream, written through unchanged.
    Png { png_data: Vec<u8> },
    /// An already-decoded palette and one index byte per pixel.
    ColorMapped { palette: Vec<RgbColor>, image_data: Vec<u8> },
    /// As `ColorMapped`, with per-entry transparency.
    ColorMappedAlpha { palette: Vec<RgbaColor>, image_data: Vec<u8> },
    /// zlib-wrapped rows of big-endian 2-byte pixels, padded to 4 bytes.
    Rgb15 { zlib_data: Vec<u8> },
    /// zlib-wrapped rows of 3-byte pixels, padded to 4 bytes.
    Rgb24 { zlib_data: Vec<u8> },
    /// zlib-wrapped 4-byte pixels; no padding is possible.
    Rgba32 { zlib_data: Vec<u8> },
}

impl BitmapData {
    pub fn is_gif(&self) -> (r: bool)
        ensures
            r == (self is Gif),
    {
        match self {
            Self::Gif { .. } => true,
            _ => false,
        }
    }

    pub fn is_jpeg(&self) -> (r: bool)
        ensures
            r == (self is Jpeg),
    {
        match self {
            Self::Jpeg { .. } => true,
            _ => false,
        }
    }

    pub fn is_png(&self) -> (r: bool)
        ensures
            r == (self is Png),
    {
        match self {
            Self::Png { .. } => true,
            _ => false,
        }
    }

    /// Whether this record holds raw pixel data that decodes losslessly.
    pub fn is_lossless(&self) -> (r: bool)
        ensures
            r == (self is ColorMapped || self is ColorMappedAlpha || self is Rgb15
                || self is Rgb24 || self is Rgba32),
    {
        match self {
            Self::ColorMapped { .. } => true,
            Self::ColorMappedAlpha { .. } => true,
            Self::Rgb15 { .. } => true,
            Self::Rgb24 { .. } => true,
            Self::Rgba32 { .. } => true,
            _ => false,
        }
    }
}

/// A canonical decoded pixel buffer: a palette with one index byte per
/// pixel, or unpadded row-major channel bytes.
#[derive(Clone, Debug)]
pub enum PixelBuffer {
    Indexed { palette: Vec<RgbColor>, indices: Vec<u8> },
    IndexedAlpha { palette: Vec<RgbaColor>, indices: Vec<u8> },
    Channels { channels: u8, data: Vec<u8> },
}

/// One bitmap record with its declared dimensions.
#[derive(Clone, Debug)]
pub struct Bitmap {
    pub width: u32,
    pub height: u32,
    pub data: BitmapData,
}

/// The bytes open a GIF89a stream.
pub open spec fn has_gif_magic(b: Seq<u8>) -> bool {
    b.len() >= 6 && b[0] == 0x47 && b[1] == 0x49 && b[2] == 0x46 && b[3] == 0x38 && b[4] == 0x39
        && b[5] == 0x61
}

/// The bytes open a PNG stream.
pub open spec fn has_png_magic(b: Seq<u8>) -> bool {
    b.len() >= 8 && b[0] == 0x89 && b[1] == 0x50 && b[2] == 0x4E && b[3] == 0x47 && b[4] == 0x0D
        && b[5] == 0x0A && b[6] == 0x1A && b[7] == 0x0A
}

/// The bytes open a JPEG stream.
pub open spec fn has_jpeg_magic(b: Seq<u8>) -> bool {
    b.len() >= 2 && b[0] == 0xFF && b[1] == 0xD8
}

fn check_gif_magic(b: &[u8]) -> (r: bool)
    ensures
        r == has_gif_magic(b@),
{
    b.len() >= 6 && b[0] == 0x47 && b[1] == 0x49 && b[2] == 0x46 && b[3] == 0x38 && b[4] == 0x39
        && b[5] == 0x61
}

fn check_png_magic(b: &[u8]) -> (r: bool)
    ensures
        r == has_png_magic(b@),
{
    b.len() >= 8 && b[0] == 0x89 && b[1] == 0x50 && b[2] == 0x4E && b[3] == 0x47 && b[4] == 0x0D
        && b[5] == 0x0A && b[6] == 0x1A && b[7] == 0x0A
}

fn check_jpeg_magic(b: &[u8]) -> (r: bool)
    ensures
        r == has_jpeg_magic(b@),
{
    b.len() >= 2 && b[0] == 0xFF && b[1] == 0xD8
}

impl Bitmap {
    pub fn new(width: u32, height: u32, data: BitmapData) -> (r: Self)
        ensures
            r.width == width,
            r.height == height,
            r.data == data,
    {
        Self { width, height, data }
    }

    /// The filename extension the record is written under: pass-through
    /// streams keep their own container, everything else becomes PNG; a
    /// JPEG with an alpha plane must be converted, so it becomes PNG too.
    pub fn extension(&self) -> (r: &'static str)
        ensures
            self.data is Gif ==> r@ == "gif"@,
            (self.data matches BitmapData::Jpeg { alpha_data, .. } && alpha_data is Some) ==> r@
                == "png"@,
            (self.data matches BitmapData::Jpeg { alpha_data, .. } && alpha_data is None) ==> r@
                == "jpeg"@,
            !(self.data is Gif) && !(self.data is Jpeg) ==> r@ == "png"@,
    {
        match &self.data {
            BitmapData::Gif { .. } => "gif",
            BitmapData::Jpeg { alpha_data, .. } => {
                if alpha_data.is_some() {
                    "png"
                } else {
                    "jpeg"
                }
            },
            BitmapData::Png { .. } => "png",
            BitmapData::ColorMapped { .. } => "png",
            BitmapData::ColorMappedAlpha { .. } => "png",
            BitmapData::Rgb15 { .. } => "png",
            BitmapData::Rgb24 { .. } => "png",
            BitmapData::Rgba32 { .. } => "png",
        }
    }

    /// Take a whole GIF stream, probing its header for the dimensions.
    pub fn from_gif(gif_data: &[u8]) -> (r: Result<Self, Error>)
        ensures
            r is Ok <==> gif_dims_of(gif_data@) is Some,
            r matches Err(e) ==> e == Error::GifDecoding,
            r matches Ok(b) ==> ({
                &&& gif_dims_of(gif_data@) matches Some(d) && b.width == d.0 as u32 && b.height
                    == d.1 as u32
                &&& b.data matches BitmapData::Gif { gif_data: g } && g@ == gif_data@
            }),
    {
        match gif_dims(gif_data) {
            Some(d) => Ok(Self::new(
                d.0 as u32,
                d.1 as u32,
                BitmapData::Gif { gif_data: slice_to_vec(gif_data) },
            )),
            None => Err(Error::GifDecoding),
        }
    }

    /// Take a whole PNG stream, probing its header for the dimensions.
    pub fn from_png(png_data: &[u8]) -> (r: Result<Self, Error>)
        ensures
            r is Ok <==> png_dims_of(png_data@) is Some,
            r matches Err(e) ==> e == Error::PngDecoding,
            r matches Ok(b) ==> ({
                &&& png_dims_of(png_data@) matches Some(d) && b.width == d.0 && b.height == d.1
                &&& b.data matches BitmapData::Png { png_data: g } && g@ == png_data@
            }),
    {
        match png_dims(png_data) {
            Some(d) => Ok(Self::new(
                d.0,
                d.1,
                BitmapData::Png { png_data: slice_to_vec(png_data) },
            )),
            None => Err(Error::PngDecoding),
        }
    }

    /// Take a whole JPEG stream, probing its header for the dimensions,
    /// together with its zlib-wrapped alpha plane if one rides along.
    pub fn from_jpeg(jpeg_data: &[u8], alpha_data: Option<&[u8]>) -> (r: Result<Self, Error>)
        ensures
            r is Ok <==> jpeg_dims_of(jpeg_data@) is Some,
            r matches Err(e) ==> e == Error::JpegDecoding,
            r matches Ok(b) ==> ({
                &&& jpeg_dims_of(jpeg_data@) matches Some(d) && b.width == d.0 as u32 && b.height
                    == d.1 as u32
                &&& b.data matches BitmapData::Jpeg { jpeg_data: j, alpha_data: a } && j@
                    == jpeg_data@ && (match alpha_data {
                    Some(ad) => a matches Some(av) && av@ == ad@,
                    None => a is None,
                })
            }),
    {
        match jpeg_dims(jpeg_data) {
            Some(d) => {
                let alpha: Option<Vec<u8>> = match alpha_data {
                    Some(ad) => Some(slice_to_vec(ad)),
                    None => None,
                };
                Ok(Self::new(
                    d.0 as u32,
                    d.1 as u32,
                    BitmapData::Jpeg { jpeg_data: slice_to_vec(jpeg_data), alpha_data: alpha },
                ))
            },
            None => Err(Error::JpegDecoding),
        }
    }

    /// Classify an encoded stream by its magic bytes and take it in;
    /// bytes that open no known container give nothing.
    pub fn from_bytes(bytes: &[u8], alpha_bytes: Option<&[u8]>) -> (r: Option<Self>)
        ensures
            has_gif_magic(bytes@) ==> ({
                &&& (r is Some <==> gif_dims_of(bytes@) is Some)
                &&& (r matches Some(b) ==> ({
                    &&& gif_dims_of(bytes@) matches Some(d) && b.width == d.0 as u32
                        && b.height == d.1 as u32
                    &&& b.data matches BitmapData::Gif { gif_data: g } && g@ == bytes@
                }))
            }),
            !has_gif_magic(bytes@) && has_png_magic(bytes@) ==> ({
                &&& (r is Some <==> png_dims_of(bytes@) is Some)
                &&& (r matches Some(b) ==> ({
                    &&& png_dims_of(bytes@) matches Some(d) && b.width == d.0 && b.height == d.1
                    &&& b.data matches BitmapData::Png { png_data: g } && g@ == bytes@
                }))
            }),
            !has_gif_magic(bytes@) && !has_png_magic(bytes@) && has_jpeg_magic(bytes@) ==> ({
                &&& (r is Some <==> jpeg_dims_of(bytes@) is Some)
                &&& (r matches Some(b) ==> ({
                    &&& jpeg_dims_of(bytes@) matches Some(d) && b.width == d.0 as u32
                        && b.height == d.1 as u32
                    &&& b.data matches BitmapData::Jpeg { jpeg_data: j, alpha_data: a } && j@
                        == bytes@ && (match alpha_bytes {
                        Some(ab) => a matches Some(av) && av@ == ab@,
                        None => a is None,
                    })
                }))
            }),
            !has_gif_magic(bytes@) && !has_png_magic(bytes@) && !has_jpeg_magic(bytes@) ==> r
                is None,
    {
        if check_gif_magic(bytes) {
            match Self::from_gif(bytes) {
                Ok(b) => Some(b),
                Err(_) => None,
            }
        } else if check_png_magic(bytes) {
            match Self::from_png(bytes) {
                Ok(b) => Some(b),
                Err(_) => None,
            }
        } else if check_jpeg_magic(bytes) {
            match Self::from_jpeg(bytes, alpha_bytes) {
                Ok(b) => Some(b),
                Err(_) => None,
            }
        } else {
            None
        }
    }

    /// Decode a lossless record into its canonical pixel buffer:
    /// already-decoded palettes pass through; the zlib-wrapped kinds are
    /// inflated and their padding stripped, 15-bit pixels widened to
    /// 8-bit channels. Pass-through streams are not pixel data and fail
    /// with `UnsupportedFormat`.
    pub fn decode_pixels(&self) -> (r: Result<PixelBuffer, Error>)
        ensures
            (self.data is Gif || self.data is Jpeg || self.data is Png) ==> (r matches Err(e) && e
                == Error::UnsupportedFormat),
            self.data matches BitmapData::ColorMapped { palette, image_data } ==> (r matches Ok(p)
                && p matches PixelBuffer::Indexed { palette: q, indices } && q@ == palette@
                && indices@ == image_data@),
            self.data matches BitmapData::ColorMappedAlpha { palette, image_data } ==> (r matches
                Ok(p) && p matches PixelBuffer::IndexedAlpha { palette: q, indices } && q@
                == palette@ && indices@ == image_data@),
            self.data matches BitmapData::Rgb15 { zlib_data } ==> (match inflate_of(zlib_data@) {
                Option::None => r matches Err(e) && e == Error::ZlibDecoding,
                Option::Some(raw) => {
                    &&& (r is Ok <==> raw.len() >= rows_size(
                        2,
                        self.width as int,
                        self.height as int,
                    ))
                    &&& (r matches Err(e) ==> e == Error::ShortRead)
                    &&& (r matches Ok(p) ==> p matches PixelBuffer::Channels { channels, data }
                        && channels == 3 && data@.len() == 3 * ((self.height as int) * (
                    self.width as int)) && (forall|i: int, j: int|
                        0 <= i < self.height as int && 0 <= j < self.width as int ==> ({
                            let word = #[trigger] rgb15_word(raw, self.width as int, i, j);
                            &&& data@[3 * (i * (self.width as int) + j)] == scale5(
                                word / 1024 % 32,
                            )
                            &&& data@[3 * (i * (self.width as int) + j) + 1] == scale5(
                                word / 32 % 32,
                            )
                            &&& data@[3 * (i * (self.width as int) + j) + 2] == scale5(word % 32)
                        })))
                },
            }),
            self.data matches BitmapData::Rgb24 { zlib_data } ==> (match inflate_of(zlib_data@) {
                Option::None => r matches Err(e) && e == Error::ZlibDecoding,
                Option::Some(raw) => {
                    &&& (r is Ok <==> raw.len() >= rows_size(
                        3,
                        self.width as int,
                        self.height as int,
                    ))
                    &&& (r matches Err(e) ==> e == Error::ShortRead)
                    &&& (r matches Ok(p) ==> p matches PixelBuffer::Channels { channels, data }
                        && channels == 3 && data@ == depad_spec(
                        raw,
                        0,
                        3 * (self.width as int),
                        pad4(3 * (self.width as int)),
                        self.height as int,
                    ))
                },
            }),
            self.data matches BitmapData::Rgba32 { zlib_data } ==> (match inflate_of(zlib_data@) {
                Option::None => r matches Err(e) && e == Error::ZlibDecoding,
                Option::Some(raw) => {
                    &&& (r is Ok <==> raw.len() >= 4 * (self.width as int) * (self.height as int))
                    &&& (r matches Err(e) ==> e == Error::ShortRead)
                    &&& (r matches Ok(p) ==> p matches PixelBuffer::Channels { channels, data }
                        && channels == 4 && data@ == raw.subrange(
                        0,
                        4 * (self.width as int) * (self.height as int),
                    ))
                },
            }),
    {
        match &self.data {
            BitmapData::Gif { .. } => Err(Error::UnsupportedFormat),
            BitmapData::Jpeg { .. } => Err(Error::UnsupportedFormat),
            BitmapData::Png { .. } => Err(Error::UnsupportedFormat),
            BitmapData::ColorMapped { palette, image_data } => Ok(PixelBuffer::Indexed {
                palette: slice_to_vec(palette.as_slice()),
                indices: slice_to_vec(image_data.as_slice()),
            }),
            BitmapData::ColorMappedAlpha { palette, image_data } => Ok(PixelBuffer::IndexedAlpha {
                palette: slice_to_vec(palette.as_slice()),
                indices: slice_to_vec(image_data.as_slice()),
            }),
            BitmapData::Rgb15 { zlib_data } => match zlib_inflate(zlib_data.as_slice()) {
                Some(raw) => match reconstruct_rgb15(self.width, self.height, raw.as_slice()) {
                    Ok(data) => Ok(PixelBuffer::Channels { channels: 3, data }),
                    Err(e) => Err(e),
                },
                None => Err(Error::ZlibDecoding),
            },
            BitmapData::Rgb24 { zlib_data } => match zlib_inflate(zlib_data.as_slice()) {
                Some(raw) => match reconstruct_rgb24(self.width, self.height, raw.as_slice()) {
                    Ok(data) => Ok(PixelBuffer::Channels { channels: 3, data }),
                    Err(e) => Err(e),
                },
                None => Err(Error::ZlibDecoding),
            },
            BitmapData::Rgba32 { zlib_data } => match zlib_inflate(zlib_data.as_slice()) {
                Some(raw) => match reconstruct_rgba32(self.width, self.height, raw.as_slice()) {
                    Ok(data) => Ok(PixelBuffer::Channels { channels: 4, data }),
                    Err(e) => Err(e),
                },
                None => Err(Error::ZlibDecoding),
            },
        }
    }
}

/// The three raw formats a lossless bitmap record declares.
#[derive(Clone, Copy, Debug, PartialEq, Eq, Structural)]
pub enum LosslessFormat {
    /// Palette-indexed, with the declared palette length minus one.
    ColorMap8 { num_colors: u8 },
    /// Big-endian 2-byte pixels; only valid in version 1 records.
    Rgb15,
    /// 3-byte pixels in version 1 records, 4-byte pixels with alpha in
    /// version 2 records.
    Rgb32,
}

impl Bitmap {
    /// Build a bitmap from one lossless record. Palette-indexed payloads
    /// are inflated and decoded at once; the true-color kinds keep their
    /// zlib wrapper and decode in `decode_pixels`. Version 2 records
    /// carry transparency: a 4-component palette, or 4-byte pixels.
    pub fn from_lossless(
        format: LosslessFormat,
        version: u8,
        width: u16,
        height: u16,
        zlib_data: &[u8],
    ) -> (r: Result<Self, Error>)
        requires
            !(format is Rgb15 && version == 2),
        ensures
            r matches Ok(b) ==> b.width == width as u32 && b.height == height as u32,
            format matches LosslessFormat::ColorMap8 { num_colors } ==> version != 2 ==> (
            match inflate_of(zlib_data@) {
                Option::None => r matches Err(e) && e == Error::ZlibDecoding,
                Option::Some(raw) => {
                    &&& (r is Ok <==> raw.len() >= indexed_size(
                        3,
                        num_colors as int,
                        width as int,
                        height as int,
                    ))
                    &&& (r matches Err(e) ==> e == Error::ShortRead)
                    &&& (r matches Ok(b) ==> b.data matches BitmapData::ColorMapped {
                        palette,
                        image_data,
                    } && palette@.len() == num_colors as int + 1 && (forall|k: int|
                        0 <= k <= num_colors as int ==> ((#[trigger] palette@[k]).r == raw[3 * k]
                            && palette@[k].g == raw[3 * k + 1] && palette@[k].b == raw[3 * k
                            + 2])) && image_data@ == depad_spec(
                        raw,
                        3 * (num_colors as int + 1),
                        width as int,
                        pad4(width as int),
                        height as int,
                    ))
                },
            }),
            format matches LosslessFormat::ColorMap8 { num_colors } ==> version == 2 ==> (
            match inflate_of(zlib_data@) {
                Option::None => r matches Err(e) && e == Error::ZlibDecoding,
                Option::Some(raw) => {
                    &&& (r is Ok <==> raw.len() >= indexed_size(
                        4,
                        num_colors as int,
                        width as int,
                        height as int,
                    ))
                    &&& (r matches Err(e) ==> e == Error::ShortRead)
                    &&& (r matches Ok(b) ==> b.data matches BitmapData::ColorMappedAlpha {
                        palette,
                        image_data,
                    } && palette@.len() == num_colors as int + 1 && (forall|k: int|
                        0 <= k <= num_colors as int ==> ((#[trigger] palette@[k]).r == raw[4 * k]
                            && palette@[k].g == raw[4 * k + 1] && palette@[k].b == raw[4 * k + 2]
                            && palette@[k].a == raw[4 * k + 3])) && image_data@ == depad_spec(
                        raw,
                        4 * (num_colors as int + 1),
                        width as int,
                        pad4(width as int),
                        height as int,
                    ))
                },
            }),
            format is Rgb15 ==> (r matches Ok(b) && b.data matches BitmapData::Rgb15 {
                zlib_data: z,
            } && z@ == zlib_data@),
            (format is Rgb32 && version == 2) ==> (r matches Ok(b) && b.data matches
                BitmapData::Rgba32 { zlib_data: z } && z@ == zlib_data@),
            (format is Rgb32 && version != 2) ==> (r matches Ok(b) && b.data matches
                BitmapData::Rgb24 { zlib_data: z } && z@ == zlib_data@),
    {
        match format {
            LosslessFormat::ColorMap8 { num_colors } => {
                let raw = match zlib_inflate(zlib_data) {
                    Some(raw) => raw,
                    None => {
                        return Err(Error::ZlibDecoding);
                    },
                };
                if version == 2 {
                    match reconstruct_indexed8_alpha(
                        width as u32,
                        height as u32,
                        num_colors,
                        raw.as_slice(),
                    ) {
                        Ok((palette, image_data)) => Ok(Self::new(
                            width as u32,
                            height as u32,
                            BitmapData::ColorMappedAlpha { palette, image_data },
                        )),
                        Err(e) => Err(e),
                    }
                } else {
                    match reconstruct_indexed8(
                        width as u32,
                        height as u32,
                        num_colors,
                        raw.as_slice(),
                    ) {
                        Ok((palette, image_data)) => Ok(Self::new(
                            width as u32,
                            height as u32,
                            BitmapData::ColorMapped { palette, image_data },
                        )),
                        Err(e) => Err(e),
                    }
                }
            },
            LosslessFormat::Rgb15 => Ok(Self::new(
                width as u32,
                height as u32,
                BitmapData::Rgb15 { zlib_data: slice_to_vec(zlib_data) },
            )),
            LosslessFormat::Rgb32 => {
                if version == 2 {
                    Ok(Self::new(
                        width as u32,
                        height as u32,
                        BitmapData::Rgba32 { zlib_data: slice_to_vec(zlib_data) },
                    ))
                } else {
                    Ok(Self::new(
                        width as u32,
                        height as u32,
                        BitmapData::Rgb24 { zlib_data: slice_to_vec(zlib_data) },
                    ))
                }
            },
        }
    }
}

} // verus!
