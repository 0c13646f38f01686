use swf_media::adpcm::AdpcmDecoder;
use swf_media::Error;

// The decoder's per-width tables, repeated here so the tests can drive a
// reference encoder against the decoder.
const STEP5: [u16; 32] = [
    7, 9, 12, 16, 21, 27, 36, 47, 62, 81, 107, 140, 184, 242, 318, 418, 549, 721, 947, 1244,
    1633, 2145, 2817, 3700, 4860, 6383, 8384, 11011, 14462, 18995, 24948, 32767,
];
const IDX5: [i32; 16] = [-1, -1, -1, -1, -1, -1, -1, -1, 1, 2, 4, 6, 8, 10, 13, 16];

struct BitWriter {
    bits: Vec<u8>,
}

impl BitWriter {
    fn new() -> Self {
        BitWriter { bits: Vec::new() }
    }

    fn put(&mut self, value: u32, n: u32) {
        for i in (0..n).rev() {
            self.bits.push(((value >> i) & 1) as u8);
        }
    }

    fn bytes(&self) -> Vec<u8> {
        let mut bits = self.bits.clone();
        while bits.len() % 8 != 0 {
            bits.push(0);
        }
        let mut out = Vec::new();
        for chunk in bits.chunks(8) {
            let mut v: u8 = 0;
            for b in chunk {
                v = v * 2 + b;
            }
            out.push(v);
        }
        out
    }
}

#[test]
fn decode_known_mono_block() {
    // width 2, predictor 100, step index 0, then codes 01, 10, 00, 00.
    let data = [0u8, 25, 0, 96];
    let d = AdpcmDecoder::new(&data, false).unwrap();
    assert_eq!(d.samples, vec![110, -869, -811, -808]);
    assert!(!d.is_stereo);
}

#[test]
fn decode_known_stereo_block() {
    // width 3; left predictor 1000, right predictor -1000, both index 3;
    // three codes follow, so only one whole frame can be emitted.
    let data = [64u8, 250, 3, 252, 24, 13, 208];
    let d = AdpcmDecoder::new(&data, true).unwrap();
    assert_eq!(d.samples, vec![1458, -1196]);
    assert!(d.is_stereo);
}

#[test]
fn decode_is_deterministic() {
    let data = [64u8, 250, 3, 252, 24, 13, 208, 99, 1, 77, 200, 3];
    let a = AdpcmDecoder::new(&data, true).unwrap();
    let b = AdpcmDecoder::new(&data, true).unwrap();
    assert_eq!(a.samples, b.samples);
    let c = AdpcmDecoder::new(&data, false).unwrap();
    let d = AdpcmDecoder::new(&data, false).unwrap();
    assert_eq!(c.samples, d.samples);
}

#[test]
fn short_mono_header_is_invalid() {
    // a mono block needs 24 bits of header
    assert!(matches!(AdpcmDecoder::new(&[0u8, 0], false), Err(Error::InvalidHeader)));
    assert!(AdpcmDecoder::new(&[0u8, 0, 0], false).is_ok());
}

#[test]
fn short_stereo_header_is_invalid() {
    // a stereo block needs 46 bits of header
    assert!(matches!(AdpcmDecoder::new(&[0u8, 0, 0, 0, 0], true), Err(Error::InvalidHeader)));
    assert!(AdpcmDecoder::new(&[0u8, 0, 0, 0, 0, 0], true).is_ok());
}

#[test]
fn empty_block_is_invalid() {
    assert!(matches!(AdpcmDecoder::new(&[], false), Err(Error::InvalidHeader)));
}

#[test]
fn stereo_frame_count_is_min_of_channels() {
    // width 3, stereo: after the 46 header bits, 7 bytes leave 10 bits,
    // three codes: the left channel could read two codes, the right only
    // one, so exactly one frame comes out.
    let data = [64u8, 250, 3, 252, 24, 13, 208];
    let d = AdpcmDecoder::new(&data, true).unwrap();
    let avail_bits = data.len() * 8 - 46;
    let codes = avail_bits / 3;
    let left_avail = (codes + 1) / 2;
    let right_avail = codes / 2;
    assert_eq!(d.samples.len() / 2, left_avail.min(right_avail));
    assert_eq!(d.samples.len() % 2, 0);
}

#[test]
fn trailing_bits_are_discarded_silently() {
    // width 2 mono with 25 header-plus-one bits: the one trailing bit is
    // less than a code, so the block decodes to nothing and is no error.
    let data = [0u8, 0, 0];
    let d = AdpcmDecoder::new(&data, false).unwrap();
    assert!(d.samples.is_empty());
}

fn encoder_step(pred: i32, idx: usize, code: u32) -> (i32, usize) {
    let half = 16u32;
    let sign = code / half;
    let m = (code % half) as usize;
    let mut d = ((2 * m as i32 + 1) * STEP5[idx] as i32) / 16;
    if sign == 1 {
        d = -d;
    }
    let p = (pred + d).clamp(-32768, 32767);
    let i = ((idx as i32) + IDX5[m]).clamp(0, 31) as usize;
    (p, i)
}

#[test]
fn round_trip_stays_within_quantization_error() {
    // Encode a smooth signal with a greedy reference encoder at the
    // finest code width and decode it back: every decoded sample must
    // stay within the codec quantization error of the input signal.
    let signal: Vec<i32> = (0..100)
        .map(|k| (8000.0 * ((k as f64) / 10.0).sin()) as i32)
        .collect();
    let mut w = BitWriter::new();
    w.put(3, 2); // width field 3 -> 5-bit codes
    w.put((signal[0] as u32) & 0xFFFF, 16);
    w.put(16, 6); // initial step index
    let mut pred = signal[0];
    let mut idx: usize = 16;
    for target in &signal[1..] {
        let mut best_code = 0u32;
        let mut best_err = i32::MAX;
        for code in 0..32u32 {
            let (p, _) = encoder_step(pred, idx, code);
            let err = (p - target).abs();
            if err < best_err {
                best_err = err;
                best_code = code;
            }
        }
        let (p, i) = encoder_step(pred, idx, best_code);
        pred = p;
        idx = i;
        w.put(best_code, 5);
    }
    let block = w.bytes();
    let d = AdpcmDecoder::new(&block, false).unwrap();
    assert!(d.samples.len() >= signal.len() - 1);
    for (k, target) in signal[1..].iter().enumerate() {
        let got = d.samples[k] as i32;
        assert!(
            (got - target).abs() <= 512,
            "sample {} decoded to {} but the signal holds {}",
            k,
            got,
            target
        );
    }
}

#[test]
fn predictor_stays_in_sample_range() {
    // drive the decoder with loud codes pushing against both clamps
    let mut w = BitWriter::new();
    w.put(3, 2);
    w.put(32000u32, 16);
    w.put(63, 6); // clamped to the table's last entry
    for _ in 0..20 {
        w.put(0b01111, 5); // largest positive magnitude
    }
    for _ in 0..40 {
        w.put(0b11111, 5); // largest negative magnitude
    }
    let d = AdpcmDecoder::new(&w.bytes(), false).unwrap();
    assert!(d.samples.iter().all(|s| (-32768..=32767).contains(&(*s as i32))));
    assert_eq!(d.samples[0], 32767); // clamped at the top
    assert_eq!(*d.samples.last().unwrap(), -32768); // and at the bottom
}
