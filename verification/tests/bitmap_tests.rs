use std::io::Write;

use swf_media::bitmap::{Bitmap, BitmapData, LosslessFormat, PixelBuffer};
use swf_media::Error;

fn zlib_pack(raw: &[u8]) -> Vec<u8> {
    let mut enc = flate2::write::ZlibEncoder::new(Vec::new(), flate2::Compression::default());
    enc.write_all(raw).unwrap();
    enc.finish().unwrap()
}

fn tiny_png(width: u32, height: u32) -> Vec<u8> {
    let mut out = Vec::new();
    {
        let mut enc = png::Encoder::new(&mut out, width, height);
        enc.set_color(png::ColorType::Grayscale);
        enc.set_depth(png::BitDepth::Eight);
        let mut writer = enc.write_header().unwrap();
        let row = vec![0u8; (width * height) as usize];
        writer.write_image_data(&row).unwrap();
    }
    out
}

fn tiny_gif(width: u16, height: u16) -> Vec<u8> {
    let mut out = Vec::new();
    {
        let palette = [0u8, 0, 0, 255, 255, 255];
        let mut enc = gif::Encoder::new(&mut out, width, height, &palette).unwrap();
        let pixels = vec![0u8; width as usize * height as usize];
        let frame = gif::Frame::from_indexed_pixels(width, height, pixels, None);
        enc.write_frame(&frame).unwrap();
    }
    out
}

#[test]
fn from_bytes_reads_png_dimensions() {
    let bytes = tiny_png(5, 7);
    let bmp = Bitmap::from_bytes(&bytes, None).unwrap();
    assert_eq!((bmp.width, bmp.height), (5, 7));
    assert!(bmp.data.is_png());
    assert_eq!(bmp.extension(), "png");
}

#[test]
fn from_bytes_reads_gif_dimensions() {
    let bytes = tiny_gif(3, 2);
    assert_eq!(&bytes[0..6], b"GIF89a");
    let bmp = Bitmap::from_bytes(&bytes, None).unwrap();
    assert_eq!((bmp.width, bmp.height), (3, 2));
    assert!(bmp.data.is_gif());
    assert_eq!(bmp.extension(), "gif");
}

#[test]
fn from_bytes_rejects_unknown_magic() {
    assert!(Bitmap::from_bytes(&[0x00, 0x11, 0x22, 0x33], None).is_none());
    assert!(Bitmap::from_bytes(&[], None).is_none());
}

#[test]
fn from_bytes_rejects_truncated_jpeg() {
    // correct JPEG magic, nothing behind it: the header probe must fail,
    // not crash
    assert!(Bitmap::from_bytes(&[0xFF, 0xD8], None).is_none());
}

#[test]
fn from_bytes_rejects_corrupt_png() {
    let magic = [0x89u8, 0x50, 0x4E, 0x47, 0x0D, 0x0A, 0x1A, 0x0A, 0, 1, 2];
    assert!(Bitmap::from_bytes(&magic, None).is_none());
}

#[test]
fn jpeg_extension_depends_on_alpha() {
    let jpeg = Bitmap::new(
        1,
        1,
        BitmapData::Jpeg { jpeg_data: vec![0xFF, 0xD8], alpha_data: None },
    );
    assert_eq!(jpeg.extension(), "jpeg");
    let with_alpha = Bitmap::new(
        1,
        1,
        BitmapData::Jpeg { jpeg_data: vec![0xFF, 0xD8], alpha_data: Some(vec![1]) },
    );
    assert_eq!(with_alpha.extension(), "png");
    assert!(jpeg.data.is_jpeg());
}

#[test]
fn lossless_colormap_decodes_palette_and_indices() {
    // 2x2 palette-indexed record, one declared color -> 2 entries
    let raw = [
        10, 20, 30, 40, 50, 60, // two 3-byte palette entries
        0, 1, 0xEE, 0xEE, // row 0, padded
        1, 0, 0xEE, 0xEE, // row 1, padded
    ];
    let z = zlib_pack(&raw);
    let bmp = Bitmap::from_lossless(LosslessFormat::ColorMap8 { num_colors: 1 }, 1, 2, 2, &z)
        .unwrap();
    assert_eq!((bmp.width, bmp.height), (2, 2));
    assert!(bmp.data.is_lossless());
    match &bmp.data {
        BitmapData::ColorMapped { palette, image_data } => {
            assert_eq!(palette.len(), 2);
            assert_eq!((palette[0].r, palette[0].g, palette[0].b), (10, 20, 30));
            assert_eq!(image_data, &vec![0, 1, 1, 0]);
        },
        other => panic!("wrong lossless kind: {:?}", other),
    }
}

#[test]
fn lossless_colormap_version_two_has_alpha() {
    let raw = [
        1, 2, 3, 4, 5, 6, 7, 8, // two 4-byte palette entries
        1, 0, 0xEE, 0xEE, // one row of two indices
    ];
    let z = zlib_pack(&raw);
    let bmp = Bitmap::from_lossless(LosslessFormat::ColorMap8 { num_colors: 1 }, 2, 2, 1, &z)
        .unwrap();
    match &bmp.data {
        BitmapData::ColorMappedAlpha { palette, image_data } => {
            assert_eq!(palette.len(), 2);
            assert_eq!((palette[0].r, palette[0].g, palette[0].b, palette[0].a), (1, 2, 3, 4));
            assert_eq!(image_data, &vec![1, 0]);
        },
        other => panic!("wrong lossless kind: {:?}", other),
    }
}

#[test]
fn lossless_colormap_short_payload() {
    let raw = [0u8; 13]; // needs 6 + 8 = 14
    let z = zlib_pack(&raw);
    assert!(matches!(
        Bitmap::from_lossless(LosslessFormat::ColorMap8 { num_colors: 1 }, 1, 2, 2, &z),
        Err(Error::ShortRead)
    ));
}

#[test]
fn lossless_corrupt_zlib() {
    assert!(matches!(
        Bitmap::from_lossless(LosslessFormat::ColorMap8 { num_colors: 1 }, 1, 2, 2, &[1, 2, 3]),
        Err(Error::ZlibDecoding)
    ));
}

#[test]
fn decode_pixels_rgb15() {
    let raw = [0x7F, 0xFF, 0xEE, 0xEE]; // one white pixel, padded row
    let bmp = Bitmap::new(1, 1, BitmapData::Rgb15 { zlib_data: zlib_pack(&raw) });
    match bmp.decode_pixels().unwrap() {
        PixelBuffer::Channels { channels, data } => {
            assert_eq!(channels, 3);
            assert_eq!(data, vec![255, 255, 255]);
        },
        other => panic!("wrong buffer kind: {:?}", other),
    }
}

#[test]
fn decode_pixels_rgb24() {
    let raw = [1, 2, 3, 0xEE, 4, 5, 6, 0xEE];
    let bmp = Bitmap::new(1, 2, BitmapData::Rgb24 { zlib_data: zlib_pack(&raw) });
    match bmp.decode_pixels().unwrap() {
        PixelBuffer::Channels { channels, data } => {
            assert_eq!(channels, 3);
            assert_eq!(data, vec![1, 2, 3, 4, 5, 6]);
        },
        other => panic!("wrong buffer kind: {:?}", other),
    }
}

#[test]
fn decode_pixels_rgba32() {
    let raw = [1, 2, 3, 4, 5, 6, 7, 8];
    let bmp = Bitmap::new(2, 1, BitmapData::Rgba32 { zlib_data: zlib_pack(&raw) });
    match bmp.decode_pixels().unwrap() {
        PixelBuffer::Channels { channels, data } => {
            assert_eq!(channels, 4);
            assert_eq!(data, vec![1, 2, 3, 4, 5, 6, 7, 8]);
        },
        other => panic!("wrong buffer kind: {:?}", other),
    }
}

#[test]
fn decode_pixels_short_read() {
    let raw = [1, 2, 3]; // one byte short of a single 4-byte pixel
    let bmp = Bitmap::new(1, 1, BitmapData::Rgba32 { zlib_data: zlib_pack(&raw) });
    assert!(matches!(bmp.decode_pixels(), Err(Error::ShortRead)));
}

#[test]
fn decode_pixels_corrupt_zlib() {
    let bmp = Bitmap::new(1, 1, BitmapData::Rgb15 { zlib_data: vec![9, 9, 9] });
    assert!(matches!(bmp.decode_pixels(), Err(Error::ZlibDecoding)));
}

#[test]
fn decode_pixels_passthrough_streams_are_not_pixels() {
    let bmp = Bitmap::new(1, 1, BitmapData::Png { png_data: tiny_png(1, 1) });
    assert!(matches!(bmp.decode_pixels(), Err(Error::UnsupportedFormat)));
}

#[test]
fn lossless_true_color_defers_decoding() {
    let raw15 = [0x7F, 0xFF, 0xEE, 0xEE];
    let z = zlib_pack(&raw15);
    let bmp = Bitmap::from_lossless(LosslessFormat::Rgb15, 1, 1, 1, &z).unwrap();
    match &bmp.data {
        BitmapData::Rgb15 { zlib_data } => assert_eq!(zlib_data, &z),
        other => panic!("wrong lossless kind: {:?}", other),
    }
    match bmp.decode_pixels().unwrap() {
        PixelBuffer::Channels { channels, data } => {
            assert_eq!(channels, 3);
            assert_eq!(data, vec![255, 255, 255]);
        },
        other => panic!("wrong buffer kind: {:?}", other),
    }
}

#[test]
fn lossless_rgb32_version_decides_alpha() {
    let z = zlib_pack(&[1, 2, 3, 4]);
    let v1 = Bitmap::from_lossless(LosslessFormat::Rgb32, 1, 1, 1, &z).unwrap();
    assert!(matches!(v1.data, BitmapData::Rgb24 { .. }));
    let v2 = Bitmap::from_lossless(LosslessFormat::Rgb32, 2, 1, 1, &z).unwrap();
    assert!(matches!(v2.data, BitmapData::Rgba32 { .. }));
}
