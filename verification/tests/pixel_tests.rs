use swf_media::pixels::{
    merge_alpha, merge_gray16_alpha, merge_gray8_alpha, merge_rgb_alpha, reconstruct_indexed8,
    reconstruct_indexed8_alpha, reconstruct_rgb15, reconstruct_rgb24, reconstruct_rgba32,
    scale_5_to_8, SourceFormat,
};
use swf_media::Error;

#[test]
fn scale_covers_the_full_range() {
    assert_eq!(scale_5_to_8(0b00000), 0);
    assert_eq!(scale_5_to_8(0b11111), 255);
}

#[test]
fn scale_is_monotonic() {
    for v in 0u16..31 {
        assert!(scale_5_to_8(v) <= scale_5_to_8(v + 1));
    }
}

#[test]
fn scale_truncates() {
    // 16 * 255 / 31 = 131.6..., truncating, not bit-replication (132)
    assert_eq!(scale_5_to_8(16), 131);
    assert_eq!(scale_5_to_8(1), 8);
}

#[test]
fn scale_ignores_high_bits() {
    assert_eq!(scale_5_to_8(0b100000 | 5), scale_5_to_8(5));
}

#[test]
fn indexed8_strips_row_padding() {
    // 2x2, palette of two 3-byte entries, each row is 2 index bytes
    // padded to 4; the padding must be read and discarded.
    let payload = [
        10, 20, 30, // palette entry 0
        40, 50, 60, // palette entry 1
        0, 1, 0xEE, 0xEE, // row 0 with two padding bytes
        1, 0, 0xEE, 0xEE, // row 1 with two padding bytes
    ];
    let (palette, indices) = reconstruct_indexed8(2, 2, 1, &payload).unwrap();
    assert_eq!(palette.len(), 2);
    assert_eq!((palette[0].r, palette[0].g, palette[0].b), (10, 20, 30));
    assert_eq!((palette[1].r, palette[1].g, palette[1].b), (40, 50, 60));
    assert_eq!(indices, vec![0, 1, 1, 0]);
}

#[test]
fn indexed8_width_multiple_of_four_needs_no_padding() {
    let payload = [
        1, 2, 3, // the single palette entry
        7, 8, 9, 6, // one row of four indices, already aligned
    ];
    let (palette, indices) = reconstruct_indexed8(4, 1, 0, &payload).unwrap();
    assert_eq!(palette.len(), 1);
    assert_eq!(indices, vec![7, 8, 9, 6]);
}

#[test]
fn indexed8_short_payload() {
    let payload = [0u8; 13]; // needs 6 + 2*4 = 14
    assert!(matches!(reconstruct_indexed8(2, 2, 1, &payload), Err(Error::ShortRead)));
}

#[test]
fn indexed8_alpha_reads_four_byte_entries() {
    let payload = [
        1, 2, 3, 4, // entry 0
        5, 6, 7, 8, // entry 1
        1, 0, 0xEE, 0xEE, // one row of two indices
    ];
    let (palette, indices) = reconstruct_indexed8_alpha(2, 1, 1, &payload).unwrap();
    assert_eq!(palette.len(), 2);
    assert_eq!(
        (palette[0].r, palette[0].g, palette[0].b, palette[0].a),
        (1, 2, 3, 4)
    );
    assert_eq!(
        (palette[1].r, palette[1].g, palette[1].b, palette[1].a),
        (5, 6, 7, 8)
    );
    assert_eq!(indices, vec![1, 0]);
}

#[test]
fn indexed8_alpha_short_payload() {
    let payload = [0u8; 11]; // needs 8 + 4 = 12
    assert!(matches!(
        reconstruct_indexed8_alpha(2, 1, 1, &payload),
        Err(Error::ShortRead)
    ));
}

#[test]
fn rgb15_widens_channels() {
    // one pixel per row, two rows; each row is 2 bytes padded to 4
    // 0x7FFF -> all channels 31 -> 255; 0x0210 -> r 0, g 16, b 16
    let payload = [0x7F, 0xFF, 0xEE, 0xEE, 0x02, 0x10, 0xEE, 0xEE];
    let out = reconstruct_rgb15(1, 2, &payload).unwrap();
    assert_eq!(out, vec![255, 255, 255, 0, 131, 131]);
}

#[test]
fn rgb15_ignores_the_top_bit() {
    // 0xFFFF and 0x7FFF carry the same channels
    let a = reconstruct_rgb15(1, 1, &[0xFF, 0xFF, 0, 0]).unwrap();
    let b = reconstruct_rgb15(1, 1, &[0x7F, 0xFF, 0, 0]).unwrap();
    assert_eq!(a, b);
}

#[test]
fn rgb15_short_payload() {
    assert!(matches!(reconstruct_rgb15(1, 2, &[0u8; 7]), Err(Error::ShortRead)));
    assert!(reconstruct_rgb15(1, 2, &[0u8; 8]).is_ok());
}

#[test]
fn rgb24_strips_row_padding() {
    // width 1: 3 useful bytes a row, 1 padding byte
    let payload = [1, 2, 3, 0xEE, 4, 5, 6, 0xEE];
    let out = reconstruct_rgb24(1, 2, &payload).unwrap();
    assert_eq!(out, vec![1, 2, 3, 4, 5, 6]);
}

#[test]
fn rgb24_short_payload() {
    assert!(matches!(reconstruct_rgb24(1, 2, &[0u8; 7]), Err(Error::ShortRead)));
}

#[test]
fn rgba32_passes_through() {
    let payload = [9, 8, 7, 6, 5, 4, 3, 2, 0xEE];
    let out = reconstruct_rgba32(2, 1, &payload).unwrap();
    assert_eq!(out, vec![9, 8, 7, 6, 5, 4, 3, 2]);
}

#[test]
fn rgba32_short_payload() {
    assert!(matches!(reconstruct_rgba32(2, 1, &[0u8; 7]), Err(Error::ShortRead)));
}

#[test]
fn gray_alpha_merge_single_pixel() {
    let out = merge_gray8_alpha(1, 1, &[0x80], &[0xFF]).unwrap();
    assert_eq!(out, vec![0x80, 0xFF]);
}

#[test]
fn gray_alpha_merge_interleaves() {
    let out = merge_gray8_alpha(2, 1, &[1, 2], &[3, 4]).unwrap();
    assert_eq!(out, vec![1, 3, 2, 4]);
}

#[test]
fn gray_alpha_merge_wants_exact_alpha_plane() {
    assert!(matches!(merge_gray8_alpha(2, 1, &[1, 2], &[3]), Err(Error::ShortRead)));
    assert!(matches!(merge_gray8_alpha(2, 1, &[1, 2], &[3, 4, 5]), Err(Error::ShortRead)));
    assert!(matches!(merge_gray8_alpha(2, 1, &[1], &[3, 4]), Err(Error::ShortRead)));
}

#[test]
fn gray16_alpha_merge_doubles_alpha() {
    let out = merge_gray16_alpha(1, 2, &[1, 2, 3, 4], &[9, 8]).unwrap();
    assert_eq!(out, vec![1, 2, 9, 9, 3, 4, 8, 8]);
}

#[test]
fn gray16_alpha_merge_short_pixels() {
    assert!(matches!(merge_gray16_alpha(1, 2, &[1, 2, 3], &[9, 8]), Err(Error::ShortRead)));
}

#[test]
fn rgb_alpha_merge_makes_quads() {
    let out = merge_rgb_alpha(2, 1, &[1, 2, 3, 4, 5, 6], &[7, 8]).unwrap();
    assert_eq!(out, vec![1, 2, 3, 7, 4, 5, 6, 8]);
}

#[test]
fn rgb_alpha_merge_short_pixels() {
    assert!(matches!(merge_rgb_alpha(2, 1, &[1, 2, 3, 4, 5], &[7, 8]), Err(Error::ShortRead)));
}

#[test]
fn merge_alpha_dispatches_by_format() {
    let gray = merge_alpha(SourceFormat::Gray8, 1, 1, &[0x80], &[0xFF]).unwrap();
    assert_eq!(gray, vec![0x80, 0xFF]);
    let rgb = merge_alpha(SourceFormat::Rgb24, 1, 1, &[1, 2, 3], &[4]).unwrap();
    assert_eq!(rgb, vec![1, 2, 3, 4]);
}

#[test]
fn merge_alpha_refuses_ink_channels() {
    assert!(matches!(
        merge_alpha(SourceFormat::Cmyk32, 1, 1, &[0, 0, 0, 0], &[0]),
        Err(Error::UnsupportedFormat)
    ));
}

#[test]
fn zero_size_images_decode_to_nothing() {
    assert_eq!(reconstruct_rgb24(0, 0, &[]).unwrap(), Vec::<u8>::new());
    assert_eq!(reconstruct_rgb15(0, 5, &[]).unwrap(), Vec::<u8>::new());
    assert_eq!(reconstruct_rgba32(3, 0, &[]).unwrap(), Vec::<u8>::new());
    let (palette, indices) = reconstruct_indexed8(0, 0, 0, &[1, 2, 3]).unwrap();
    assert_eq!(palette.len(), 1);
    assert!(indices.is_empty());
}

#[test]
fn zero_size_merge_wants_empty_alpha() {
    assert_eq!(merge_gray8_alpha(0, 0, &[], &[]).unwrap(), Vec::<u8>::new());
    assert!(matches!(merge_gray8_alpha(0, 0, &[], &[1]), Err(Error::ShortRead)));
}
