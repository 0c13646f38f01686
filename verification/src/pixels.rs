//! Raw bitmap reconstruction.
//!
//! Lossless bitmap records store their pixel data packed row by row, each
//! stored row padded to a 4-byte boundary (except the 4-byte-per-pixel
//! layout, whose stride is already aligned). The functions here turn such
//! a payload into a canonical pixel buffer: palette plus indices, or
//! linear 8-bit-per-channel color with the padding stripped and narrow
//! channels widened. A payload smaller than the size its dimensions imply
//! is rejected with `ShortRead`; nothing here panics.

use vstd::prelude::*;
use vstd::arithmetic::div_mod::{lemma_div_is_ordered, lemma_fundamental_div_mod};

use crate::Error;

verus! {

/// An opaque palette entry.
#[derive(Clone, Copy, Debug, PartialEq, Eq, Structural)]
pub struct RgbColor {
    pub r: u8,
    pub g: u8,
    pub b: u8,
}

/// A palette entry with per-entry transparency.
#[derive(Clone, Copy, Debug, PartialEq, Eq, Structural)]
pub struct RgbaColor {
    pub r: u8,
    pub g: u8,
    pub b: u8,
    pub a: u8,
}

/// `n` rounded up to the next multiple of 4: the stored size of a row of
/// `n` useful bytes.
pub open spec fn pad4(n: int) -> int {
    ((n + 3) / 4) * 4
}

/// Stored size of `height` rows of `bpp`-byte pixels, padding included.
pub open spec fn rows_size(bpp: int, width: int, height: int) -> int {
    pad4(bpp * width) * height
}

/// Stored size of a palette-indexed record: the palette's bytes, then
/// `height` padded rows of one index byte per pixel.
pub open spec fn indexed_size(components: int, num_colors: int, width: int, height: int) -> int {
    components * (num_colors + 1) + pad4(width) * height
}

/// A 5-bit channel value widened to 8 bits: `v * 255 / 31`, truncating,
/// so that 0 maps to 0 and 31 maps to 255.
pub open spec fn scale5(v: int) -> u8
    recommends
        0 <= v < 32,
{
    (v * 255 / 31) as u8
}

/// Widening 5-bit channels is monotonic and covers the whole 8-bit range.
pub proof fn lemma_scale5_monotonic(a: int, b: int)
    requires
        0 <= a <= b < 32,
    ensures
        scale5(a) <= scale5(b),
        scale5(0) == 0,
        scale5(31) == 255,
{
    lemma_div_is_ordered(a * 255, b * 255, 31);
}

/// Scales a 5-bit value to an 8-bit value; bits above the lowest five are
/// ignored.
pub fn scale_5_to_8(value: u16) -> (r: u8)
    ensures
        r == scale5((value as int) % 32),
{
    let v: u16 = value % 32;
    proof {
        lemma_div_is_ordered(v as int * 255, 7905, 31);
    }
    ((v * 255) / 31) as u8
}

/// The first `height` stored rows of `payload` after `skip` leading
/// bytes, with each row cut from its stored `padded` bytes down to its
/// `row` useful ones and the padding discarded.
pub open spec fn depad_spec(payload: Seq<u8>, skip: int, row: int, padded: int, height: int) -> Seq<u8>
    decreases height,
{
    if height <= 0 {
        Seq::empty()
    } else {
        depad_spec(payload, skip, row, padded, height - 1) + payload.subrange(
            skip + (height - 1) * padded,
            skip + (height - 1) * padded + row,
        )
    }
}

pub proof fn lemma_depad_len(payload: Seq<u8>, skip: int, row: int, padded: int, height: int)
    requires
        0 <= skip,
        0 <= row <= padded,
        height >= 0,
        skip + height * padded <= payload.len(),
    ensures
        depad_spec(payload, skip, row, padded, height).len() == height * row,
    decreases height,
{
    if height > 0 {
        assert((height - 1) * padded + padded == height * padded) by (nonlinear_arith);
        assert((height - 1) * padded >= 0) by (nonlinear_arith)
            requires
                height >= 1,
                padded >= 0,
        ;
        lemma_depad_len(payload, skip, row, padded, height - 1);
        let prev = depad_spec(payload, skip, row, padded, height - 1);
        let sub = payload.subrange(
            skip + (height - 1) * padded,
            skip + (height - 1) * padded + row,
        );
        assert(skip + (height - 1) * padded + row <= payload.len());
        assert(sub.len() == row);
        assert(depad_spec(payload, skip, row, padded, height) == prev + sub);
        assert((prev + sub).len() == prev.len() + sub.len());
        assert(prev.len() == (height - 1) * row);
        assert((height - 1) * row + row == height * row) by (nonlinear_arith);
        assert(depad_spec(payload, skip, row, padded, height).len() == height * row);
    } else {
        assert(height * row == 0) by (nonlinear_arith)
            requires
                height == 0,
        ;
    }
}

/// Index-wise meaning of `depad_spec`: byte `j` of output row `i` is byte
/// `j` of stored row `i`.
pub proof fn lemma_depad_index(
    payload: Seq<u8>,
    skip: int,
    row: int,
    padded: int,
    height: int,
    i: int,
    j: int,
)
    requires
        0 <= skip,
        0 <= row <= padded,
        0 <= i < height,
        0 <= j < row,
        skip + height * padded <= payload.len(),
    ensures
        depad_spec(payload, skip, row, padded, height)[i * row + j] == payload[skip + i * padded
            + j],
    decreases height,
{
    assert((height - 1) * padded + padded == height * padded) by (nonlinear_arith);
    assert((height - 1) * padded >= 0) by (nonlinear_arith)
        requires
            height >= 1,
            padded >= 0,
    ;
    lemma_depad_len(payload, skip, row, padded, height - 1);
    if i < height - 1 {
        lemma_depad_index(payload, skip, row, padded, height - 1, i, j);
        assert(i * row + j < (height - 1) * row) by (nonlinear_arith)
            requires
                0 <= j < row,
                0 <= i,
                i + 1 <= height - 1,
        ;
    } else {
        assert((height - 1) * row + j - (height - 1) * row == j);
    }
}

/// Copy `height` stored rows out of `payload`, starting at `skip`,
/// keeping the first `bpp * width` bytes of each and dropping the bytes
/// that pad each stored row to a 4-byte boundary.
#[verifier::loop_isolation(false)]
fn strip_rows(payload: &[u8], skip: usize, bpp: u64, width: u32, height: u32) -> (r: Vec<u8>)
    requires
        1 <= bpp <= 4,
        skip + pad4(bpp * width) * height <= payload@.len(),
    ensures
        r@ == depad_spec(
            payload@,
            skip as int,
            bpp * (width as int),
            pad4(bpp * (width as int)),
            height as int,
        ),
        r@.len() == (height as int) * (bpp * (width as int)),
{
    let plen: usize = payload.len();
    proof {
        assert(bpp * (width as int) < 0x8_0000_0000) by (nonlinear_arith)
            requires
                1 <= bpp <= 4,
                0 <= (width as int) < 0x1_0000_0000,
        ;
    }
    let row: u64 = bpp * (width as u64);
    let padded: u64 = ((row + 3) / 4) * 4;
    let ghost grow: int = row as int;
    let ghost gpadded: int = padded as int;
    let mut out: Vec<u8> = Vec::new();
    let mut i: u32 = 0;
    let mut base: usize = skip;
    while i < height
        invariant
            i <= height,
            base as int == skip + i * gpadded,
            out@ == depad_spec(payload@, skip as int, grow, gpadded, i as int),
        decreases height - i,
    {
        proof {
            assert((i + 1) * gpadded <= (height as int) * gpadded) by (nonlinear_arith)
                requires
                    i + 1 <= height as int,
                    gpadded >= 0,
            ;
            assert((i + 1) * gpadded == i * gpadded + gpadded) by (nonlinear_arith);
            assert((height as int) * gpadded == gpadded * (height as int)) by (nonlinear_arith);
            assert(base + gpadded <= payload@.len());
            assert(plen == payload@.len() && plen <= usize::MAX);
            assert(grow <= gpadded) by {
                lemma_fundamental_div_mod(grow + 3, 4);
            }
            assert(out@ =~= out@ + payload@.subrange(base as int, base as int));
        }
        let mut j: u64 = 0;
        while j < row
            invariant
                j <= row,
                out@ == depad_spec(payload@, skip as int, grow, gpadded, i as int)
                    + payload@.subrange(base as int, base + j),
            decreases row - j,
        {
            let b: u8 = payload[base + j as usize];
            out.push(b);
            assert(payload@.subrange(base as int, base + j + 1) =~= payload@.subrange(
                base as int,
                base + j,
            ) + seq![b]);
            j = j + 1;
        }
        assert(out@ =~= depad_spec(payload@, skip as int, grow, gpadded, i + 1));
        base = base + padded as usize;
        i = i + 1;
    }
    proof {
        assert((height as int) * gpadded == gpadded * (height as int)) by (nonlinear_arith);
        lemma_depad_len(payload@, skip as int, grow, gpadded, height as int);
    }
    out
}

/// True-color pixels stored as 3-byte groups: rows are padded against
/// `3 * width` useful bytes; the pixels themselves pass through
/// unchanged.
pub fn reconstruct_rgb24(width: u32, height: u32, payload: &[u8]) -> (r: Result<Vec<u8>, Error>)
    ensures
        r is Ok <==> payload@.len() >= rows_size(3, width as int, height as int),
        r matches Err(e) ==> e == Error::ShortRead,
        r matches Ok(out) ==> out@ == depad_spec(
            payload@,
            0,
            3 * (width as int),
            pad4(3 * (width as int)),
            height as int,
        ) && out@.len() == (height as int) * (3 * (width as int)),
{
    let row: u64 = 3 * (width as u64);
    let padded: u64 = ((row + 3) / 4) * 4;
    proof {
        assert((padded as int) * (height as int) < 0x80_0000_0000_0000_0000) by (nonlinear_arith)
            requires
                0 <= (padded as int) < 0x10_0000_0000,
                0 <= (height as int) < 0x1_0000_0000,
        ;
    }
    let required: u128 = (padded as u128) * (height as u128);
    if (payload.len() as u128) < required {
        return Err(Error::ShortRead);
    }
    Ok(strip_rows(payload, 0, 3, width, height))
}

/// Pixels stored as 4-byte groups: the stride is already aligned, so the
/// first `4 * width * height` payload bytes pass through unchanged.
pub fn reconstruct_rgba32(width: u32, height: u32, payload: &[u8]) -> (r: Result<Vec<u8>, Error>)
    ensures
        r is Ok <==> payload@.len() >= 4 * (width as int) * (height as int),
        r matches Err(e) ==> e == Error::ShortRead,
        r matches Ok(out) ==> out@ == payload@.subrange(
            0,
            4 * (width as int) * (height as int),
        ),
{
    proof {
        assert(4 * (width as int) * (height as int) < 0x80_0000_0000_0000_0000) by (nonlinear_arith)
            requires
                0 <= (width as int) < 0x1_0000_0000,
                0 <= (height as int) < 0x1_0000_0000,
        ;
    }
    let required: u128 = 4 * (width as u128) * (height as u128);
    if (payload.len() as u128) < required {
        return Err(Error::ShortRead);
    }
    let n: usize = required as usize;
    let mut out: Vec<u8> = Vec::new();
    let mut k: usize = 0;
    #[verifier::loop_isolation(false)]
    while k < n
        invariant
            k <= n,
            out@ == payload@.subrange(0, k as int),
        decreases n - k,
    {
        let b: u8 = payload[k];
        out.push(b);
        assert(payload@.subrange(0, k + 1) =~= payload@.subrange(0, k as int) + seq![b]);
        k = k + 1;
    }
    Ok(out)
}

/// The big-endian 16-bit word of pixel `(i, j)` in a payload of 2-byte
/// pixels whose rows are padded to 4 bytes: layout `0RRRRRGG GGGBBBBB`.
pub open spec fn rgb15_word(payload: Seq<u8>, width: int, i: int, j: int) -> int {
    (payload[i * pad4(2 * width) + 2 * j] as int) * 256 + (payload[i * pad4(2 * width) + 2 * j
        + 1] as int)
}

/// Palette-indexed pixels with opaque 3-byte palette entries: the first
/// `3 * (num_colors + 1)` payload bytes are the palette, in r, g, b
/// order; the rest holds one index byte per pixel, row-padded.
#[verifier::loop_isolation(false)]
pub fn reconstruct_indexed8(width: u32, height: u32, num_colors: u8, payload: &[u8]) -> (r:
    Result<(Vec<RgbColor>, Vec<u8>), Error>)
    ensures
        r is Ok <==> payload@.len() >= indexed_size(
            3,
            num_colors as int,
            width as int,
            height as int,
        ),
        r matches Err(e) ==> e == Error::ShortRead,
        r matches Ok(p) ==> ({
            &&& p.0@.len() == num_colors as int + 1
            &&& forall|k: int|
                0 <= k <= num_colors as int ==> ((#[trigger] p.0@[k]).r == payload@[3 * k]
                    && p.0@[k].g == payload@[3 * k + 1] && p.0@[k].b == payload@[3 * k + 2])
            &&& p.1@ == depad_spec(
                payload@,
                3 * (num_colors as int + 1),
                width as int,
                pad4(width as int),
                height as int,
            )
            &&& p.1@.len() == (height as int) * (width as int)
        }),
{
    let plen: usize = payload.len();
    let skip: usize = 3 * (num_colors as usize + 1);
    let padded: u64 = (((width as u64) + 3) / 4) * 4;
    proof {
        assert((padded as int) * (height as int) < 0x80_0000_0000_0000_0000 && (padded as int)
            * (height as int) >= 0) by (nonlinear_arith)
            requires
                0 <= (padded as int) < 0x10_0000_0000,
                0 <= (height as int) < 0x1_0000_0000,
        ;
    }
    let required: u128 = (skip as u128) + (padded as u128) * (height as u128);
    if (plen as u128) < required {
        return Err(Error::ShortRead);
    }
    let n: usize = num_colors as usize + 1;
    let mut palette: Vec<RgbColor> = Vec::new();
    let mut k: usize = 0;
    while k < n
        invariant
            k <= n,
            palette@.len() == k,
            forall|q: int|
                0 <= q < k ==> ((#[trigger] palette@[q]).r == payload@[3 * q] && palette@[q].g
                    == payload@[3 * q + 1] && palette@[q].b == payload@[3 * q + 2]),
        decreases n - k,
    {
        let c = RgbColor { r: payload[3 * k], g: payload[3 * k + 1], b: payload[3 * k + 2] };
        palette.push(c);
        k = k + 1;
    }
    let indices = strip_rows(payload, skip, 1, width, height);
    Ok((palette, indices))
}

/// Palette-indexed pixels with 4-byte palette entries that carry per-entry
/// transparency, in r, g, b, a order.
#[verifier::loop_isolation(false)]
pub fn reconstruct_indexed8_alpha(width: u32, height: u32, num_colors: u8, payload: &[u8]) -> (r:
    Result<(Vec<RgbaColor>, Vec<u8>), Error>)
    ensures
        r is Ok <==> payload@.len() >= indexed_size(
            4,
            num_colors as int,
            width as int,
            height as int,
        ),
        r matches Err(e) ==> e == Error::ShortRead,
        r matches Ok(p) ==> ({
            &&& p.0@.len() == num_colors as int + 1
            &&& forall|k: int|
                0 <= k <= num_colors as int ==> ((#[trigger] p.0@[k]).r == payload@[4 * k]
                    && p.0@[k].g == payload@[4 * k + 1] && p.0@[k].b == payload@[4 * k + 2]
                    && p.0@[k].a == payload@[4 * k + 3])
            &&& p.1@ == depad_spec(
                payload@,
                4 * (num_colors as int + 1),
                width as int,
                pad4(width as int),
                height as int,
            )
            &&& p.1@.len() == (height as int) * (width as int)
        }),
{
    let plen: usize = payload.len();
    let skip: usize = 4 * (num_colors as usize + 1);
    let padded: u64 = (((width as u64) + 3) / 4) * 4;
    proof {
        assert((padded as int) * (height as int) < 0x80_0000_0000_0000_0000 && (padded as int)
            * (height as int) >= 0) by (nonlinear_arith)
            requires
                0 <= (padded as int) < 0x10_0000_0000,
                0 <= (height as int) < 0x1_0000_0000,
        ;
    }
    let required: u128 = (skip as u128) + (padded as u128) * (height as u128);
    if (plen as u128) < required {
        return Err(Error::ShortRead);
    }
    let n: usize = num_colors as usize + 1;
    let mut palette: Vec<RgbaColor> = Vec::new();
    let mut k: usize = 0;
    while k < n
        invariant
            k <= n,
            palette@.len() == k,
            forall|q: int|
                0 <= q < k ==> ((#[trigger] palette@[q]).r == payload@[4 * q] && palette@[q].g
                    == payload@[4 * q + 1] && palette@[q].b == payload@[4 * q + 2]
                    && palette@[q].a == payload@[4 * q + 3]),
        decreases n - k,
    {
        let c = RgbaColor {
            r: payload[4 * k],
            g: payload[4 * k + 1],
            b: payload[4 * k + 2],
            a: payload[4 * k + 3],
        };
        palette.push(c);
        k = k + 1;
    }
    let indices = strip_rows(payload, skip, 1, width, height);
    Ok((palette, indices))
}

/// 15-bit color stored as big-endian 2-byte words in rows padded against
/// `2 * width` useful bytes: each 5-bit channel is widened to 8 bits by
/// `scale5`, producing 3 output bytes per pixel.
#[verifier::loop_isolation(false)]
pub fn reconstruct_rgb15(width: u32, height: u32, payload: &[u8]) -> (r: Result<Vec<u8>, Error>)
    ensures
        r is Ok <==> payload@.len() >= rows_size(2, width as int, height as int),
        r matches Err(e) ==> e == Error::ShortRead,
        r matches Ok(out) ==> ({
            &&& out@.len() == 3 * ((height as int) * (width as int))
            &&& forall|i: int, j: int|
                0 <= i < height as int && 0 <= j < width as int ==> ({
                    let word = #[trigger] rgb15_word(payload@, width as int, i, j);
                    &&& out@[3 * (i * (width as int) + j)] == scale5(word / 1024 % 32)
                    &&& out@[3 * (i * (width as int) + j) + 1] == scale5(word / 32 % 32)
                    &&& out@[3 * (i * (width as int) + j) + 2] == scale5(word % 32)
                })
        }),
{
    let plen: usize = payload.len();
    let row: u64 = 2 * (width as u64);
    let padded: u64 = ((row + 3) / 4) * 4;
    proof {
        assert((padded as int) * (height as int) < 0x80_0000_0000_0000_0000 && (padded as int)
            * (height as int) >= 0) by (nonlinear_arith)
            requires
                0 <= (padded as int) < 0x10_0000_0000,
                0 <= (height as int) < 0x1_0000_0000,
        ;
    }
    let required: u128 = (padded as u128) * (height as u128);
    if (plen as u128) < required {
        return Err(Error::ShortRead);
    }
    let ghost gw: int = width as int;
    let ghost gpadded: int = padded as int;
    let mut out: Vec<u8> = Vec::new();
    let mut i: u32 = 0;
    let mut base: usize = 0;
    while i < height
        invariant
            i <= height,
            base as int == i * gpadded,
            out@.len() == 3 * ((i as int) * gw),
            forall|a: int, b: int|
                0 <= a < i as int && 0 <= b < gw ==> ({
                    let word = #[trigger] rgb15_word(payload@, gw, a, b);
                    &&& out@[3 * (a * gw + b)] == scale5(word / 1024 % 32)
                    &&& out@[3 * (a * gw + b) + 1] == scale5(word / 32 % 32)
                    &&& out@[3 * (a * gw + b) + 2] == scale5(word % 32)
                }),
        decreases height - i,
    {
        proof {
            assert((i + 1) * gpadded <= (height as int) * gpadded) by (nonlinear_arith)
                requires
                    i + 1 <= height as int,
                    gpadded >= 0,
            ;
            assert((i + 1) * gpadded == i * gpadded + gpadded) by (nonlinear_arith);
            assert((height as int) * gpadded == gpadded * (height as int)) by (nonlinear_arith);
            assert(base + gpadded <= plen);
        }
        let mut j: u32 = 0;
        while j < width
            invariant
                j <= width,
                out@.len() == 3 * ((i as int) * gw + j as int),
                forall|a: int, b: int|
                    0 <= a < i as int && 0 <= b < gw ==> ({
                        let word = #[trigger] rgb15_word(payload@, gw, a, b);
                        &&& out@[3 * (a * gw + b)] == scale5(word / 1024 % 32)
                        &&& out@[3 * (a * gw + b) + 1] == scale5(word / 32 % 32)
                        &&& out@[3 * (a * gw + b) + 2] == scale5(word % 32)
                    }),
                forall|b: int|
                    0 <= b < j as int ==> ({
                        let word = #[trigger] rgb15_word(payload@, gw, i as int, b);
                        &&& out@[3 * ((i as int) * gw + b)] == scale5(word / 1024 % 32)
                        &&& out@[3 * ((i as int) * gw + b) + 1] == scale5(word / 32 % 32)
                        &&& out@[3 * ((i as int) * gw + b) + 2] == scale5(word % 32)
                    }),
            decreases width - j,
        {
            let hi: u8 = payload[base + 2 * (j as usize)];
            let lo: u8 = payload[base + 2 * (j as usize) + 1];
            let word: u16 = (hi as u16) * 256 + (lo as u16);
            let cr: u8 = scale_5_to_8(word / 1024);
            let cg: u8 = scale_5_to_8(word / 32);
            let cb: u8 = scale_5_to_8(word);
            let ghost pre = out@;
            out.push(cr);
            out.push(cg);
            out.push(cb);
            proof {
                assert(rgb15_word(payload@, gw, i as int, j as int) == word as int);
                assert forall|a: int, b: int|
                    0 <= a < i as int && 0 <= b < gw implies ({
                        let word2 = #[trigger] rgb15_word(payload@, gw, a, b);
                        &&& out@[3 * (a * gw + b)] == scale5(word2 / 1024 % 32)
                        &&& out@[3 * (a * gw + b) + 1] == scale5(word2 / 32 % 32)
                        &&& out@[3 * (a * gw + b) + 2] == scale5(word2 % 32)
                    }) by {
                    assert(a * gw + b + 1 <= (i as int) * gw) by (nonlinear_arith)
                        requires
                            0 <= a,
                            a + 1 <= i as int,
                            0 <= b,
                            b + 1 <= gw,
                    ;
                    assert(out@[3 * (a * gw + b)] == pre[3 * (a * gw + b)]);
                    assert(out@[3 * (a * gw + b) + 1] == pre[3 * (a * gw + b) + 1]);
                    assert(out@[3 * (a * gw + b) + 2] == pre[3 * (a * gw + b) + 2]);
                }
            }
            j = j + 1;
        }
        assert(3 * ((i as int) * gw + gw) == 3 * ((i + 1) * gw)) by (nonlinear_arith);
        base = base + padded as usize;
        i = i + 1;
    }
    assert((height as int) * gw == (height as int) * (width as int));
    Ok(out)
}

/// The pixel layout of a decoded opaque image an alpha plane is merged
/// into, matched exhaustively: adding a layout without handling it is a
/// compile-time error.
#[derive(Clone, Copy, Debug, PartialEq, Eq, Structural)]
pub enum SourceFormat {
    /// One grayscale byte per pixel.
    Gray8,
    /// One big-endian 16-bit grayscale word per pixel.
    Gray16,
    /// Three bytes per pixel, r, g, b.
    Rgb24,
    /// Four ink channels per pixel; never merged by this layer.
    Cmyk32,
}

/// The first `n` pixels of a grayscale image interleaved with their
/// alpha bytes: `g, a` per pixel.
pub open spec fn merged_gray8(pixels: Seq<u8>, alpha: Seq<u8>, n: int) -> Seq<u8>
    decreases n,
{
    if n <= 0 {
        Seq::empty()
    } else {
        merged_gray8(pixels, alpha, n - 1) + seq![pixels[n - 1], alpha[n - 1]]
    }
}

/// The first `n` pixels of a big-endian 16-bit grayscale image
/// interleaved with their alpha bytes, each alpha byte doubled to widen
/// it to 16 bits: `g_hi, g_lo, a, a` per pixel.
pub open spec fn merged_gray16(pixels: Seq<u8>, alpha: Seq<u8>, n: int) -> Seq<u8>
    decreases n,
{
    if n <= 0 {
        Seq::empty()
    } else {
        merged_gray16(pixels, alpha, n - 1) + seq![
            pixels[2 * (n - 1)],
            pixels[2 * (n - 1) + 1],
            alpha[n - 1],
            alpha[n - 1],
        ]
    }
}

/// The first `n` pixels of a 3-byte-per-pixel color image interleaved
/// with their alpha bytes: `r, g, b, a` per pixel.
pub open spec fn merged_rgb(pixels: Seq<u8>, alpha: Seq<u8>, n: int) -> Seq<u8>
    decreases n,
{
    if n <= 0 {
        Seq::empty()
    } else {
        merged_rgb(pixels, alpha, n - 1) + seq![
            pixels[3 * (n - 1)],
            pixels[3 * (n - 1) + 1],
            pixels[3 * (n - 1) + 2],
            alpha[n - 1],
        ]
    }
}

pub proof fn lemma_merged_gray8_len(pixels: Seq<u8>, alpha: Seq<u8>, n: int)
    requires
        n >= 0,
    ensures
        merged_gray8(pixels, alpha, n).len() == 2 * n,
    decreases n,
{
    if n > 0 {
        lemma_merged_gray8_len(pixels, alpha, n - 1);
    }
}

pub proof fn lemma_merged_gray16_len(pixels: Seq<u8>, alpha: Seq<u8>, n: int)
    requires
        n >= 0,
    ensures
        merged_gray16(pixels, alpha, n).len() == 4 * n,
    decreases n,
{
    if n > 0 {
        lemma_merged_gray16_len(pixels, alpha, n - 1);
    }
}

pub proof fn lemma_merged_rgb_len(pixels: Seq<u8>, alpha: Seq<u8>, n: int)
    requires
        n >= 0,
    ensures
        merged_rgb(pixels, alpha, n).len() == 4 * n,
    decreases n,
{
    if n > 0 {
        lemma_merged_rgb_len(pixels, alpha, n - 1);
    }
}

/// Index-wise meaning of `merged_gray8`: pixel `p` puts its grayscale
/// byte at `2p` and its alpha byte right after it.
pub proof fn lemma_merged_gray8_index(pixels: Seq<u8>, alpha: Seq<u8>, n: int, p: int)
    requires
        0 <= p < n,
    ensures
        merged_gray8(pixels, alpha, n)[2 * p] == pixels[p],
        merged_gray8(pixels, alpha, n)[2 * p + 1] == alpha[p],
    decreases n,
{
    lemma_merged_gray8_len(pixels, alpha, n - 1);
    if p < n - 1 {
        lemma_merged_gray8_index(pixels, alpha, n - 1, p);
    }
}

/// Index-wise meaning of `merged_gray16`: pixel `p` puts its two
/// grayscale bytes at `4p` and its doubled alpha byte after them.
pub proof fn lemma_merged_gray16_index(pixels: Seq<u8>, alpha: Seq<u8>, n: int, p: int)
    requires
        0 <= p < n,
    ensures
        merged_gray16(pixels, alpha, n)[4 * p] == pixels[2 * p],
        merged_gray16(pixels, alpha, n)[4 * p + 1] == pixels[2 * p + 1],
        merged_gray16(pixels, alpha, n)[4 * p + 2] == alpha[p],
        merged_gray16(pixels, alpha, n)[4 * p + 3] == alpha[p],
    decreases n,
{
    lemma_merged_gray16_len(pixels, alpha, n - 1);
    if p < n - 1 {
        lemma_merged_gray16_index(pixels, alpha, n - 1, p);
    }
}

/// Index-wise meaning of `merged_rgb`: pixel `p` puts its three color
/// bytes at `4p` and its alpha byte after them.
pub proof fn lemma_merged_rgb_index(pixels: Seq<u8>, alpha: Seq<u8>, n: int, p: int)
    requires
        0 <= p < n,
    ensures
        merged_rgb(pixels, alpha, n)[4 * p] == pixels[3 * p],
        merged_rgb(pixels, alpha, n)[4 * p + 1] == pixels[3 * p + 1],
        merged_rgb(pixels, alpha, n)[4 * p + 2] == pixels[3 * p + 2],
        merged_rgb(pixels, alpha, n)[4 * p + 3] == alpha[p],
    decreases n,
{
    lemma_merged_rgb_len(pixels, alpha, n - 1);
    if p < n - 1 {
        lemma_merged_rgb_index(pixels, alpha, n - 1, p);
    }
}

/// Interleave one grayscale byte per pixel with its alpha byte. The
/// alpha plane must hold exactly one byte per pixel.
#[verifier::loop_isolation(false)]
pub fn merge_gray8_alpha(width: u32, height: u32, pixels: &[u8], alpha: &[u8]) -> (r: Result<
    Vec<u8>,
    Error,
>)
    ensures
        r is Ok <==> alpha@.len() == (width as int) * (height as int) && pixels@.len() >= (
        width as int) * (height as int),
        r matches Err(e) ==> e == Error::ShortRead,
        r matches Ok(out) ==> out@ == merged_gray8(
            pixels@,
            alpha@,
            (width as int) * (height as int),
        ) && out@.len() == 2 * ((width as int) * (height as int)),
{
    proof {
        assert((width as int) * (height as int) < 0x1_0000_0000_0000_0000) by (nonlinear_arith)
            requires
                0 <= (width as int) < 0x1_0000_0000,
                0 <= (height as int) < 0x1_0000_0000,
        ;
    }
    let need: u128 = (width as u128) * (height as u128);
    if (alpha.len() as u128) != need || (pixels.len() as u128) < need {
        return Err(Error::ShortRead);
    }
    let n: usize = alpha.len();
    let mut out: Vec<u8> = Vec::new();
    let mut k: usize = 0;
    while k < n
        invariant
            k <= n,
            out@ == merged_gray8(pixels@, alpha@, k as int),
        decreases n - k,
    {
        let pv: u8 = pixels[k];
        let av: u8 = alpha[k];
        out.push(pv);
        out.push(av);
        assert(out@ =~= merged_gray8(pixels@, alpha@, k + 1));
        k = k + 1;
    }
    proof {
        lemma_merged_gray8_len(pixels@, alpha@, n as int);
    }
    Ok(out)
}

/// Interleave one big-endian 16-bit grayscale word per pixel with its
/// alpha byte, the byte duplicated to widen it to 16 bits.
#[verifier::loop_isolation(false)]
pub fn merge_gray16_alpha(width: u32, height: u32, pixels: &[u8], alpha: &[u8]) -> (r: Result<
    Vec<u8>,
    Error,
>)
    ensures
        r is Ok <==> alpha@.len() == (width as int) * (height as int) && pixels@.len() >= 2 * ((
        width as int) * (height as int)),
        r matches Err(e) ==> e == Error::ShortRead,
        r matches Ok(out) ==> out@ == merged_gray16(
            pixels@,
            alpha@,
            (width as int) * (height as int),
        ) && out@.len() == 4 * ((width as int) * (height as int)),
{
    proof {
        assert((width as int) * (height as int) < 0x1_0000_0000_0000_0000) by (nonlinear_arith)
            requires
                0 <= (width as int) < 0x1_0000_0000,
                0 <= (height as int) < 0x1_0000_0000,
        ;
    }
    let need: u128 = (width as u128) * (height as u128);
    if (alpha.len() as u128) != need || (pixels.len() as u128) < 2 * need {
        return Err(Error::ShortRead);
    }
    let n: usize = alpha.len();
    let mut out: Vec<u8> = Vec::new();
    let mut k: usize = 0;
    while k < n
        invariant
            k <= n,
            out@ == merged_gray16(pixels@, alpha@, k as int),
        decreases n - k,
    {
        let hi: u8 = pixels[2 * k];
        let lo: u8 = pixels[2 * k + 1];
        let av: u8 = alpha[k];
        out.push(hi);
        out.push(lo);
        out.push(av);
        out.push(av);
        assert(out@ =~= merged_gray16(pixels@, alpha@, k + 1));
        k = k + 1;
    }
    proof {
        lemma_merged_gray16_len(pixels@, alpha@, n as int);
    }
    Ok(out)
}

/// Interleave three color bytes per pixel with its alpha byte, giving
/// 4-byte r, g, b, a groups.
#[verifier::loop_isolation(false)]
pub fn merge_rgb_alpha(width: u32, height: u32, pixels: &[u8], alpha: &[u8]) -> (r: Result<
    Vec<u8>,
    Error,
>)
    ensures
        r is Ok <==> alpha@.len() == (width as int) * (height as int) && pixels@.len() >= 3 * ((
        width as int) * (height as int)),
        r matches Err(e) ==> e == Error::ShortRead,
        r matches Ok(out) ==> out@ == merged_rgb(
            pixels@,
            alpha@,
            (width as int) * (height as int),
        ) && out@.len() == 4 * ((width as int) * (height as int)),
{
    proof {
        assert((width as int) * (height as int) < 0x1_0000_0000_0000_0000) by (nonlinear_arith)
            requires
                0 <= (width as int) < 0x1_0000_0000,
                0 <= (height as int) < 0x1_0000_0000,
        ;
    }
    let need: u128 = (width as u128) * (height as u128);
    if (alpha.len() as u128) != need || (pixels.len() as u128) < 3 * need {
        return Err(Error::ShortRead);
    }
    let n: usize = alpha.len();
    let mut out: Vec<u8> = Vec::new();
    let mut k: usize = 0;
    while k < n
        invariant
            k <= n,
            out@ == merged_rgb(pixels@, alpha@, k as int),
        decreases n - k,
    {
        let cr: u8 = pixels[3 * k];
        let cg: u8 = pixels[3 * k + 1];
        let cb: u8 = pixels[3 * k + 2];
        let av: u8 = alpha[k];
        out.push(cr);
        out.push(cg);
        out.push(cb);
        out.push(av);
        assert(out@ =~= merged_rgb(pixels@, alpha@, k + 1));
        k = k + 1;
    }
    proof {
        lemma_merged_rgb_len(pixels@, alpha@, n as int);
    }
    Ok(out)
}

/// Merge a decoded opaque image with its separately-inflated alpha plane,
/// by layout; ink-channel layouts are never converted and fail with
/// `UnsupportedFormat`.
pub fn merge_alpha(format: SourceFormat, width: u32, height: u32, pixels: &[u8], alpha: &[u8]) -> (r:
    Result<Vec<u8>, Error>)
    ensures
        format == SourceFormat::Cmyk32 ==> (r matches Err(e) && e == Error::UnsupportedFormat),
        format == SourceFormat::Gray8 ==> ({
            &&& (r is Ok <==> alpha@.len() == (width as int) * (height as int)
                && pixels@.len() >= (width as int) * (height as int))
            &&& (r matches Err(e) ==> e == Error::ShortRead)
            &&& (r matches Ok(out) ==> out@ == merged_gray8(
                pixels@,
                alpha@,
                (width as int) * (height as int),
            ))
        }),
        format == SourceFormat::Gray16 ==> ({
            &&& (r is Ok <==> alpha@.len() == (width as int) * (height as int)
                && pixels@.len() >= 2 * ((width as int) * (height as int)))
            &&& (r matches Err(e) ==> e == Error::ShortRead)
            &&& (r matches Ok(out) ==> out@ == merged_gray16(
                pixels@,
                alpha@,
                (width as int) * (height as int),
            ))
        }),
        format == SourceFormat::Rgb24 ==> ({
            &&& (r is Ok <==> alpha@.len() == (width as int) * (height as int)
                && pixels@.len() >= 3 * ((width as int) * (height as int)))
            &&& (r matches Err(e) ==> e == Error::ShortRead)
            &&& (r matches Ok(out) ==> out@ == merged_rgb(
                pixels@,
                alpha@,
                (width as int) * (height as int),
            ))
        }),
{
    match format {
        SourceFormat::Gray8 => merge_gray8_alpha(width, height, pixels, alpha),
        SourceFormat::Gray16 => merge_gray16_alpha(width, height, pixels, alpha),
        SourceFormat::Rgb24 => merge_rgb_alpha(width, height, pixels, alpha),
        SourceFormat::Cmyk32 => Err(Error::UnsupportedFormat),
    }
}

} // verus!
