//! Adaptive-delta audio decompression.
//!
//! A compressed audio block carries a 2-bit code-size field, then one
//! header per channel (a 16-bit initial predictor and a 6-bit initial step
//! index), then a stream of delta codes of `width` bits each, most
//! significant bit first. Each code's top bit is a sign; the remaining
//! bits index a magnitude table whose entry, multiplied by the current
//! adaptive step size and scaled down, moves the channel's predictor.
//! Larger magnitudes also grow the adaptive step for the next code, so the
//! step tracks loud transients and shrinks again on quiet signal. Blocks
//! are independently seeded: no state crosses block boundaries.

use vstd::prelude::*;
use vstd::arithmetic::div_mod::{lemma_basic_div, lemma_div_plus_one};

use crate::bits::{bits_at, two_pow, lemma_bits_at_bound, BitReader};
use crate::Error;

verus! {

/// Number of entries of the per-width step-size table; the step index is
/// always kept inside `[0, table_size - 1]`.
pub open spec fn table_size(w: int) -> int
    recommends
        2 <= w <= 5,
{
    if w == 2 {
        4
    } else if w == 3 {
        8
    } else if w == 4 {
        16
    } else {
        32
    }
}

pub proof fn lemma_table_size_two_pow(w: int)
    requires
        2 <= w <= 5,
    ensures
        table_size(w) == two_pow(w as nat),
{
    reveal_with_fuel(two_pow, 6);
}

/// The adaptive step size for a given code width and step index. Each
/// per-width table rises monotonically from 7 to 32767.
pub open spec fn step_size(w: int, i: int) -> u16
    recommends
        2 <= w <= 5,
        0 <= i < table_size(w),
{
    if w == 2 {
        if i == 0 { 7 } else if i == 1 { 117 } else if i == 2 { 1959 } else { 32767 }
    } else if w == 3 {
        if i == 0 { 7 } else if i == 1 { 23 } else if i == 2 { 78 } else if i == 3 { 262 }
        else if i == 4 { 876 } else if i == 5 { 2929 } else if i == 6 { 9797 } else { 32767 }
    } else if w == 4 {
        if i == 0 { 7 } else if i == 1 { 12 } else if i == 2 { 22 } else if i == 3 { 38 }
        else if i == 4 { 67 } else if i == 5 { 117 } else if i == 6 { 206 } else if i == 7 { 361 }
        else if i == 8 { 635 } else if i == 9 { 1115 } else if i == 10 { 1959 } else if i == 11 { 3441 }
        else if i == 12 { 6045 } else if i == 13 { 10618 } else if i == 14 { 18653 } else { 32767 }
    } else {
        if i == 0 { 7 } else if i == 1 { 9 } else if i == 2 { 12 } else if i == 3 { 16 }
        else if i == 4 { 21 } else if i == 5 { 27 } else if i == 6 { 36 } else if i == 7 { 47 }
        else if i == 8 { 62 } else if i == 9 { 81 } else if i == 10 { 107 } else if i == 11 { 140 }
        else if i == 12 { 184 } else if i == 13 { 242 } else if i == 14 { 318 } else if i == 15 { 418 }
        else if i == 16 { 549 } else if i == 17 { 721 } else if i == 18 { 947 } else if i == 19 { 1244 }
        else if i == 20 { 1633 } else if i == 21 { 2145 } else if i == 22 { 2817 } else if i == 23 { 3700 }
        else if i == 24 { 4860 } else if i == 25 { 6383 } else if i == 26 { 8384 } else if i == 27 { 11011 }
        else if i == 28 { 14462 } else if i == 29 { 18995 } else if i == 30 { 24948 } else { 32767 }
    }
}

/// How a code's magnitude adjusts the step index: small magnitudes shrink
/// the adaptive step, large ones grow it.
pub open spec fn index_delta(w: int, m: int) -> i8
    recommends
        2 <= w <= 5,
        0 <= m < table_size(w) / 2,
{
    if w == 2 {
        if m == 0 { -1i8 } else { 2i8 }
    } else if w == 3 {
        if m <= 1 { -1i8 } else if m == 2 { 2i8 } else { 4i8 }
    } else if w == 4 {
        if m <= 3 { -1i8 } else if m == 4 { 2i8 } else if m == 5 { 4i8 } else if m == 6 { 6i8 } else { 8i8 }
    } else {
        if m <= 7 { -1i8 } else if m == 8 { 1i8 } else if m == 9 { 2i8 } else if m == 10 { 4i8 }
        else if m == 11 { 6i8 } else if m == 12 { 8i8 } else if m == 13 { 10i8 } else if m == 14 { 13i8 } else { 16i8 }
    }
}

pub open spec fn clamp_val(v: int, lo: int, hi: int) -> int {
    if v < lo {
        lo
    } else if v > hi {
        hi
    } else {
        v
    }
}

/// Per-channel adaptive state: the running sample estimate and the index
/// into the step-size table. Block-scoped; owned by one decode call.
#[derive(Clone, Copy, Debug, PartialEq, Eq, Structural)]
pub struct ChannelState {
    pub predictor: i16,
    pub step_index: u8,
}

pub open spec fn state_wf(st: ChannelState, w: int) -> bool {
    (st.step_index as int) < table_size(w)
}

/// The signed predictor movement a delta code causes: magnitude entry
/// `2m + 1` times the current step size, scaled down by `2^(w-1)`, negated
/// when the code's sign bit is set.
pub open spec fn delta_of(st: ChannelState, code: nat, w: int) -> int
    recommends
        2 <= w <= 5,
        state_wf(st, w),
        code < table_size(w),
{
    let half = table_size(w) / 2;
    let m = (code as int) % half;
    let dmag = (2 * m + 1) * (step_size(w, st.step_index as int) as int) / half;
    if (code as int) / half == 1 {
        -dmag
    } else {
        dmag
    }
}

/// One decode step: move the predictor by the code's delta, clamped to the
/// 16-bit sample range, and adapt the step index, clamped to the table.
pub open spec fn step_state(st: ChannelState, code: nat, w: int) -> ChannelState
    recommends
        2 <= w <= 5,
        state_wf(st, w),
        code < table_size(w),
{
    let half = table_size(w) / 2;
    let m = (code as int) % half;
    ChannelState {
        predictor: clamp_val(st.predictor + delta_of(st, code, w), -32768, 32767) as i16,
        step_index: clamp_val(st.step_index + index_delta(w, m), 0, table_size(w) - 1) as u8,
    }
}

/// The sample sequence decoded from `data` starting at bit `pos` with the
/// given channel states. Stereo frames read one code for the left channel
/// then one for the right; a frame is emitted only once every channel's
/// code was read, and decoding stops, without error, as soon as too few
/// bits remain for a whole frame.
pub open spec fn sample_stream(
    data: Seq<u8>,
    pos: int,
    left: ChannelState,
    right: ChannelState,
    stereo: bool,
    w: int,
) -> Seq<i16>
    recommends
        2 <= w <= 5,
    decreases 8 * data.len() - pos,
{
    if 2 <= w <= 5 && pos >= 0 {
        if stereo {
            if pos + 2 * w <= 8 * data.len() {
                let l2 = step_state(left, bits_at(data, pos, w as nat), w);
                let r2 = step_state(right, bits_at(data, pos + w, w as nat), w);
                seq![l2.predictor, r2.predictor] + sample_stream(data, pos + 2 * w, l2, r2, true, w)
            } else {
                Seq::empty()
            }
        } else {
            if pos + w <= 8 * data.len() {
                let l2 = step_state(left, bits_at(data, pos, w as nat), w);
                seq![l2.predictor] + sample_stream(data, pos + w, l2, right, false, w)
            } else {
                Seq::empty()
            }
        }
    } else {
        Seq::empty()
    }
}

/// Bits taken by the block header: the 2-bit code-size field and a 22-bit
/// seed per channel.
pub open spec fn header_bits(stereo: bool) -> int {
    if stereo {
        46
    } else {
        24
    }
}

/// A block's header is well formed exactly when the buffer can hold it.
pub open spec fn adpcm_header_ok(data: Seq<u8>, stereo: bool) -> bool {
    8 * data.len() >= header_bits(stereo)
}

/// The code width declared in the block's first two bits; always 2 to 5.
pub open spec fn adpcm_width(data: Seq<u8>) -> int {
    bits_at(data, 0, 2) as int + 2
}

pub open spec fn sign_extend16(v: nat) -> int {
    if v < 0x8000 {
        v as int
    } else {
        v - 0x10000
    }
}

/// The seeded state of channel `c`: a sign-extended 16-bit predictor and a
/// 6-bit step index clamped into the table for the block's code width.
pub open spec fn initial_state(data: Seq<u8>, c: int) -> ChannelState {
    let w = adpcm_width(data);
    let base = 2 + 22 * c;
    let raw = bits_at(data, base + 16, 6) as int;
    ChannelState {
        predictor: sign_extend16(bits_at(data, base, 16)) as i16,
        step_index: (if raw > table_size(w) - 1 {
            table_size(w) - 1
        } else {
            raw
        }) as u8,
    }
}

/// Every sample a valid block decodes to, mono, or with left and right
/// interleaved.
pub open spec fn adpcm_samples(data: Seq<u8>, stereo: bool) -> Seq<i16> {
    let w = adpcm_width(data);
    let left = initial_state(data, 0);
    let right = if stereo {
        initial_state(data, 1)
    } else {
        left
    };
    sample_stream(data, header_bits(stereo), left, right, stereo, w)
}

fn table_size_exec(w: u8) -> (r: u8)
    requires
        2 <= w <= 5,
    ensures
        r as int == table_size(w as int),
{
    if w == 2 {
        4
    } else if w == 3 {
        8
    } else if w == 4 {
        16
    } else {
        32
    }
}

fn step_size_exec(w: u8, i: u8) -> (r: u16)
    requires
        2 <= w <= 5,
        (i as int) < table_size(w as int),
    ensures
        r == step_size(w as int, i as int),
        r <= 32767,
{
    if w == 2 {
        if i == 0 { 7 } else if i == 1 { 117 } else if i == 2 { 1959 } else { 32767 }
    } else if w == 3 {
        if i == 0 { 7 } else if i == 1 { 23 } else if i == 2 { 78 } else if i == 3 { 262 }
        else if i == 4 { 876 } else if i == 5 { 2929 } else if i == 6 { 9797 } else { 32767 }
    } else if w == 4 {
        if i == 0 { 7 } else if i == 1 { 12 } else if i == 2 { 22 } else if i == 3 { 38 }
        else if i == 4 { 67 } else if i == 5 { 117 } else if i == 6 { 206 } else if i == 7 { 361 }
        else if i == 8 { 635 } else if i == 9 { 1115 } else if i == 10 { 1959 } else if i == 11 { 3441 }
        else if i == 12 { 6045 } else if i == 13 { 10618 } else if i == 14 { 18653 } else { 32767 }
    } else {
        if i == 0 { 7 } else if i == 1 { 9 } else if i == 2 { 12 } else if i == 3 { 16 }
        else if i == 4 { 21 } else if i == 5 { 27 } else if i == 6 { 36 } else if i == 7 { 47 }
        else if i == 8 { 62 } else if i == 9 { 81 } else if i == 10 { 107 } else if i == 11 { 140 }
        else if i == 12 { 184 } else if i == 13 { 242 } else if i == 14 { 318 } else if i == 15 { 418 }
        else if i == 16 { 549 } else if i == 17 { 721 } else if i == 18 { 947 } else if i == 19 { 1244 }
        else if i == 20 { 1633 } else if i == 21 { 2145 } else if i == 22 { 2817 } else if i == 23 { 3700 }
        else if i == 24 { 4860 } else if i == 25 { 6383 } else if i == 26 { 8384 } else if i == 27 { 11011 }
        else if i == 28 { 14462 } else if i == 29 { 18995 } else if i == 30 { 24948 } else { 32767 }
    }
}

fn index_delta_exec(w: u8, m: u16) -> (r: i8)
    requires
        2 <= w <= 5,
        (m as int) < table_size(w as int) / 2,
    ensures
        r == index_delta(w as int, m as int),
        -1 <= r <= 16,
{
    if w == 2 {
        if m == 0 { -1 } else { 2 }
    } else if w == 3 {
        if m <= 1 { -1 } else if m == 2 { 2 } else { 4 }
    } else if w == 4 {
        if m <= 3 { -1 } else if m == 4 { 2 } else if m == 5 { 4 } else if m == 6 { 6 } else { 8 }
    } else {
        if m <= 7 { -1 } else if m == 8 { 1 } else if m == 9 { 2 } else if m == 10 { 4 }
        else if m == 11 { 6 } else if m == 12 { 8 } else if m == 13 { 10 } else if m == 14 { 13 } else { 16 }
    }
}

/// Apply one delta code to a channel.
fn adpcm_step(st: &mut ChannelState, code: u16, w: u8)
    requires
        2 <= w <= 5,
        state_wf(*old(st), w as int),
        (code as int) < table_size(w as int),
    ensures
        *final(st) == step_state(*old(st), code as nat, w as int),
        state_wf(*final(st), w as int),
{
    let half: u16 = (table_size_exec(w) / 2) as u16;
    let sign: u16 = code / half;
    let m: u16 = code % half;
    let step: u16 = step_size_exec(w, st.step_index);
    let dmag: i32 = (((2 * (m as u32) + 1) * (step as u32)) / (half as u32)) as i32;
    let delta: i32 = if sign == 1 {
        -dmag
    } else {
        dmag
    };
    let moved: i32 = (st.predictor as i32) + delta;
    let clamped: i32 = if moved < -32768 {
        -32768
    } else if moved > 32767 {
        32767
    } else {
        moved
    };
    st.predictor = clamped as i16;
    let di: i8 = index_delta_exec(w, m);
    let ts: i16 = table_size_exec(w) as i16;
    let raw: i16 = (st.step_index as i16) + (di as i16);
    let idx: i16 = if raw < 0 {
        0
    } else if raw > ts - 1 {
        ts - 1
    } else {
        raw
    };
    st.step_index = idx as u8;
}

/// Decoded form of one compressed audio block: the linear 16-bit samples,
/// interleaved left-then-right for stereo blocks.
pub struct AdpcmDecoder {
    pub samples: Vec<i16>,
    pub is_stereo: bool,
}

impl AdpcmDecoder {
    /// Decode a whole compressed block. Fails only when the buffer cannot
    /// hold the block header; trailing bits too short for a whole frame
    /// are discarded silently.
    pub fn new(data: &[u8], is_stereo: bool) -> (r: Result<AdpcmDecoder, Error>)
        ensures
            r is Ok <==> adpcm_header_ok(data@, is_stereo),
            r matches Err(e) ==> e == Error::InvalidHeader,
            r matches Ok(d) ==> d.samples@ == adpcm_samples(data@, is_stereo) && d.is_stereo
                == is_stereo,
    {
        let mut rd = BitReader::new(data);
        if !rd.has(if is_stereo { 46 } else { 24 }) {
            return Err(Error::InvalidHeader);
        }
        let wfield: u16 = rd.read(2);
        proof {
            lemma_bits_at_bound(data@, 0, 2);
            reveal_with_fuel(two_pow, 3);
        }
        let w: u8 = (wfield as u8) + 2;
        let p0: u16 = rd.read(16);
        let s0: u16 = rd.read(6);
        proof {
            lemma_bits_at_bound(data@, 18, 6);
            reveal_with_fuel(two_pow, 7);
        }
        let mut left = ChannelState { predictor: to_i16(p0), step_index: clamp_index(s0, w) };
        assert(left == initial_state(data@, 0));
        let mut right = left;
        if is_stereo {
            let p1: u16 = rd.read(16);
            let s1: u16 = rd.read(6);
            proof {
                lemma_bits_at_bound(data@, 40, 6);
                reveal_with_fuel(two_pow, 7);
            }
            right = ChannelState { predictor: to_i16(p1), step_index: clamp_index(s1, w) };
            assert(right == initial_state(data@, 1));
        }
        let cw: u64 = if is_stereo {
            2 * (w as u64)
        } else {
            w as u64
        };
        let mut samples: Vec<i16> = Vec::new();
        while rd.has(cw)
            invariant
                rd.wf(),
                rd.bytes() == data@,
                2 <= w <= 5,
                w as int == adpcm_width(data@),
                state_wf(left, w as int),
                state_wf(right, w as int),
                cw == if is_stereo { 2 * (w as int) } else { w as int },
                rd.pos() >= 0,
                samples@ + sample_stream(data@, rd.pos(), left, right, is_stereo, w as int)
                    == adpcm_samples(data@, is_stereo),
            decreases 8 * data@.len() - rd.pos(),
        {
            let ghost pos0 = rd.pos();
            let code: u16 = rd.read(w);
            proof {
                lemma_bits_at_bound(data@, pos0, w as nat);
                lemma_table_size_two_pow(w as int);
            }
            adpcm_step(&mut left, code, w);
            samples.push(left.predictor);
            if is_stereo {
                let code2: u16 = rd.read(w);
                proof {
                    lemma_bits_at_bound(data@, pos0 + w, w as nat);
                    lemma_table_size_two_pow(w as int);
                }
                adpcm_step(&mut right, code2, w);
                samples.push(right.predictor);
            }
        }
        assert(sample_stream(data@, rd.pos(), left, right, is_stereo, w as int) =~= Seq::empty());
        assert(samples@ =~= adpcm_samples(data@, is_stereo));
        Ok(AdpcmDecoder { samples, is_stereo })
    }
}

/// Decoding is deterministic: the samples of a block are a function of
/// the block's bytes and its channel layout alone, so re-decoding
/// identical input yields an identical sample sequence.
pub proof fn lemma_decode_deterministic(s1: Seq<i16>, s2: Seq<i16>, data: Seq<u8>, stereo: bool)
    requires
        s1 == adpcm_samples(data, stereo),
        s2 == adpcm_samples(data, stereo),
    ensures
        s1 == s2,
{
}

/// After every decode step the predictor is exactly the clamped sum of
/// the old predictor and the code's delta, inside `[-32768, 32767]`, and
/// the step index stays inside `[0, table_size - 1]`.
pub proof fn lemma_step_state_bounds(st: ChannelState, code: nat, w: int)
    requires
        2 <= w <= 5,
        state_wf(st, w),
        code < table_size(w),
    ensures
        ({
            let st2 = step_state(st, code, w);
            &&& st2.predictor as int == clamp_val(
                st.predictor + delta_of(st, code, w),
                -32768,
                32767,
            )
            &&& -32768 <= (st2.predictor as int) <= 32767
            &&& 0 <= (st2.step_index as int) < table_size(w)
            &&& state_wf(st2, w)
        }),
{
}

/// The number of whole delta codes that fit between bit `pos` and the end
/// of the buffer.
pub open spec fn codes_available(data: Seq<u8>, pos: int, w: int) -> int
    recommends
        2 <= w <= 5,
        0 <= pos,
{
    if pos <= 8 * data.len() {
        (8 * data.len() - pos) / w
    } else {
        0
    }
}

/// A stereo block emits exactly as many frames as the thinner channel can
/// fill: the left channel sees the even-numbered codes and the right
/// channel the odd-numbered ones, and a frame is emitted only when both
/// have read theirs.
pub proof fn lemma_stereo_frame_count(
    data: Seq<u8>,
    pos: int,
    left: ChannelState,
    right: ChannelState,
    w: int,
)
    requires
        2 <= w <= 5,
        0 <= pos,
    ensures
        ({
            let n = codes_available(data, pos, w);
            let left_avail = (n + 1) / 2;
            let right_avail = n / 2;
            let frames = sample_stream(data, pos, left, right, true, w).len() as int / 2;
            &&& sample_stream(data, pos, left, right, true, w).len() == 2 * frames
            &&& frames == if left_avail < right_avail {
                left_avail
            } else {
                right_avail
            }
        }),
    decreases 8 * data.len() - pos,
{
    let n = codes_available(data, pos, w);
    let total = 8 * data.len();
    if pos + 2 * w <= total {
        let l2 = step_state(left, bits_at(data, pos, w as nat), w);
        let r2 = step_state(right, bits_at(data, pos + w, w as nat), w);
        lemma_stereo_frame_count(data, pos + 2 * w, l2, r2, w);
        lemma_div_plus_one(total - pos - 2 * w, w);
        lemma_div_plus_one(total - pos - w, w);
        assert(n == codes_available(data, pos + 2 * w, w) + 2);
        lemma_div_plus_one(n - 2, 2);
        lemma_div_plus_one(n - 1, 2);
    } else {
        if pos <= total {
            if total - pos < w {
                lemma_basic_div(total - pos, w);
            } else {
                lemma_div_plus_one(total - pos - w, w);
                lemma_basic_div(total - pos - w, w);
            }
            assert(0 <= n <= 1);
        }
    }
}

/// Reinterpret 16 header bits as a signed sample value.
fn to_i16(v: u16) -> (r: i16)
    ensures
        r as int == sign_extend16(v as nat),
{
    if v < 0x8000 {
        v as i16
    } else {
        ((v as i32) - 0x10000) as i16
    }
}

/// Clamp a 6-bit header step index into the table for width `w`.
fn clamp_index(s: u16, w: u8) -> (r: u8)
    requires
        2 <= w <= 5,
        s < 64,
    ensures
        r as int == (if s as int > table_size(w as int) - 1 {
            table_size(w as int) - 1
        } else {
            s as int
        }),
        (r as int) < table_size(w as int),
{
    let ts: u8 = table_size_exec(w);
    if s > (ts - 1) as u16 {
        ts - 1
    } else {
        s as u8
    }
}

} // verus!
