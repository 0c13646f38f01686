//! Sound records and their canonical containers.
//!
//! A sound record carries its declared format and a growing byte buffer.
//! Compressed adaptive-delta blocks are decoded to linear 16-bit samples
//! as they are appended; already-linear and already-framed data passes
//! through. The linear kinds are laid out as a little-endian RIFF/WAVE
//! container by `wav_bytes`.

use vstd::prelude::*;

use crate::adpcm::{adpcm_header_ok, adpcm_samples, AdpcmDecoder};
use crate::Error;

verus! {

/// The audio codings a container declares. Only the adaptive-delta
/// coding is decoded here; the others pass through.
#[derive(Clone, Copy, Debug, PartialEq, Eq, Structural)]
pub enum AudioCompression {
    UncompressedUnknownEndian,
    Adpcm,
    Mp3,
    Uncompressed,
    Nellymoser16Khz,
    Nellymoser8Khz,
    Nellymoser,
    G711ALawPcm,
    G711MuLawPcm,
    Aac,
    Speex,
}

/// The declared format of a sound stream.
#[derive(Clone, Copy, Debug, PartialEq, Eq, Structural)]
pub struct SoundFormat {
    pub compression: AudioCompression,
    pub sample_rate: u16,
    pub is_stereo: bool,
    pub is_16_bit: bool,
}

/// The two little-endian bytes of a 16-bit value.
pub open spec fn le16(v: int) -> Seq<u8> {
    seq![(v % 256) as u8, ((v / 256) % 256) as u8]
}

/// The four little-endian bytes of a 32-bit value.
pub open spec fn le32(v: int) -> Seq<u8> {
    seq![
        (v % 256) as u8,
        ((v / 256) % 256) as u8,
        ((v / 65536) % 256) as u8,
        ((v / 16777216) % 256) as u8,
    ]
}

/// A 16-bit sample reinterpreted as its unsigned bit pattern.
pub open spec fn u16_of_i16(s: i16) -> int {
    if s >= 0 {
        s as int
    } else {
        s + 0x10000
    }
}

/// The first `n` samples as consecutive little-endian byte pairs.
pub open spec fn pcm_bytes(samples: Seq<i16>, n: int) -> Seq<u8>
    decreases n,
{
    if n <= 0 {
        Seq::empty()
    } else {
        pcm_bytes(samples, n - 1) + le16(u16_of_i16(samples[n - 1]))
    }
}

/// Every sample contributes exactly two bytes to the linear layout.
pub proof fn lemma_pcm_bytes_len(samples: Seq<i16>, n: int)
    requires
        n >= 0,
    ensures
        pcm_bytes(samples, n).len() == 2 * n,
    decreases n,
{
    if n > 0 {
        lemma_pcm_bytes_len(samples, n - 1);
    }
}

pub open spec fn wav_channels(f: SoundFormat) -> int {
    if f.is_stereo {
        2
    } else {
        1
    }
}

pub open spec fn wav_bytes_per_sample(f: SoundFormat) -> int {
    if f.is_16_bit {
        2
    } else {
        1
    }
}

/// Adaptive-delta blocks always decode to signed 16-bit linear samples;
/// uncompressed data keeps its declared sample width.
pub open spec fn wav_bits_per_sample(f: SoundFormat) -> int {
    if f.compression is Adpcm {
        16
    } else if f.is_16_bit {
        16
    } else {
        8
    }
}

/// The 44 header bytes of a RIFF/WAVE container framing `dlen` bytes of
/// linear sample data: the RIFF frame, a PCM format chunk, and the data
/// chunk's tag and length.
pub open spec fn wav_header(f: SoundFormat, dlen: int) -> Seq<u8> {
    seq![0x52u8, 0x49, 0x46, 0x46] + le32(36 + dlen) + seq![
        0x57u8,
        0x41,
        0x56,
        0x45,
        0x66,
        0x6D,
        0x74,
        0x20,
    ] + le32(16) + le16(1) + le16(wav_channels(f)) + le32(f.sample_rate as int) + le32(
        (f.sample_rate as int) * wav_bytes_per_sample(f) * wav_channels(f),
    ) + le16(wav_bytes_per_sample(f) * wav_channels(f)) + le16(wav_bits_per_sample(f)) + seq![
        0x64u8,
        0x61,
        0x74,
        0x61,
    ] + le32(dlen)
}

/// The whole RIFF/WAVE container: the header followed by `data`
/// unchanged.
pub open spec fn wav_spec(f: SoundFormat, data: Seq<u8>) -> Seq<u8> {
    wav_header(f, data.len() as int) + data
}

fn push_le16(out: &mut Vec<u8>, v: u16)
    ensures
        final(out)@ == old(out)@ + le16(v as int),
{
    out.push((v % 256) as u8);
    out.push((v / 256) as u8);
    assert(out@ =~= old(out)@ + le16(v as int));
}

fn push_le32(out: &mut Vec<u8>, v: u32)
    ensures
        final(out)@ == old(out)@ + le32(v as int),
{
    out.push((v % 256) as u8);
    out.push(((v / 256) % 256) as u8);
    out.push(((v / 65536) % 256) as u8);
    out.push(((v / 16777216) % 256) as u8);
    assert(out@ =~= old(out)@ + le32(v as int));
}

/// One sound stream: its declared format and the linear or pass-through
/// bytes gathered so far.
pub struct Sound {
    pub format: SoundFormat,
    pub data: Vec<u8>,
}

impl Sound {
    /// The filename extension the stream is written under: a WAV
    /// container for linear and adaptive-delta data, the stream's own
    /// framing for MP3, and a bare dump for codings not decoded here.
    pub fn extension(&self) -> (r: &'static str)
        ensures
            (self.format.compression is Adpcm || self.format.compression is Uncompressed
                || self.format.compression is UncompressedUnknownEndian) ==> r@ == "wav"@,
            self.format.compression is Mp3 ==> r@ == "mp3"@,
            !(self.format.compression is Adpcm || self.format.compression is Uncompressed
                || self.format.compression is UncompressedUnknownEndian
                || self.format.compression is Mp3) ==> r@ == "bin"@,
    {
        match self.format.compression {
            AudioCompression::Adpcm => "wav",
            AudioCompression::Uncompressed => "wav",
            AudioCompression::UncompressedUnknownEndian => "wav",
            AudioCompression::Mp3 => "mp3",
            _ => "bin",
        }
    }

    /// Append one block of stream data: an adaptive-delta block is
    /// decoded to little-endian 16-bit samples first; anything else is
    /// taken as it is. A compressed block must be able to hold its
    /// header.
    pub fn append_data(&mut self, data: &[u8])
        requires
            old(self).format.compression is Adpcm ==> adpcm_header_ok(
                data@,
                old(self).format.is_stereo,
            ),
        ensures
            final(self).format == old(self).format,
            old(self).format.compression is Adpcm ==> final(self).data@ == old(self).data@
                + pcm_bytes(
                adpcm_samples(data@, old(self).format.is_stereo),
                adpcm_samples(data@, old(self).format.is_stereo).len() as int,
            ),
            !(old(self).format.compression is Adpcm) ==> final(self).data@ == old(self).data@
                + data@,
    {
        let is_adpcm = match self.format.compression {
            AudioCompression::Adpcm => true,
            _ => false,
        };
        if is_adpcm {
            let decoded = match AdpcmDecoder::new(data, self.format.is_stereo) {
                Ok(d) => d,
                Err(_) => {
                    proof {
                        assert(false);
                    }
                    return ;
                },
            };
            let ghost samples = decoded.samples@;
            let n: usize = decoded.samples.len();
            let mut idx: usize = 0;
            while idx < n
                invariant
                    idx <= n,
                    n == samples.len(),
                    decoded.samples@ == samples,
                    self.format == old(self).format,
                    self.data@ == old(self).data@ + pcm_bytes(samples, idx as int),
                decreases n - idx,
            {
                let s: i16 = decoded.samples[idx];
                let u: u16 = if s >= 0 {
                    s as u16
                } else {
                    ((s as i32) + 0x10000) as u16
                };
                self.data.push((u % 256) as u8);
                self.data.push((u / 256) as u8);
                assert(self.data@ =~= old(self).data@ + pcm_bytes(samples, idx + 1));
                idx = idx + 1;
            }
        } else {
            let n: usize = data.len();
            let mut idx: usize = 0;
            while idx < n
                invariant
                    idx <= n,
                    n == data@.len(),
                    self.format == old(self).format,
                    self.data@ == old(self).data@ + data@.subrange(0, idx as int),
                decreases n - idx,
            {
                let b: u8 = data[idx];
                self.data.push(b);
                assert(self.data@ =~= old(self).data@ + data@.subrange(0, idx + 1));
                idx = idx + 1;
            }
            assert(data@.subrange(0, data@.len() as int) =~= data@);
        }
    }

    /// Lay the gathered linear samples out as a little-endian RIFF/WAVE
    /// container. Only the codings that are linear by the time they sit
    /// in `data` have a WAV shape; the whole container must fit its
    /// 32-bit length field.
    #[verifier::rlimit(60)]
    pub fn wav_bytes(&self) -> (r: Vec<u8>)
        requires
            self.format.compression is Adpcm || self.format.compression is Uncompressed
                || self.format.compression is UncompressedUnknownEndian,
            self.data@.len() + 36 <= u32::MAX,
        ensures
            r@ == wav_spec(self.format, self.data@),
    {
        let riff_len: u32 = (self.data.len() as u32) + 36;
        let sr: u32 = self.format.sample_rate as u32;
        let bps: u32 = if self.format.is_16_bit {
            2
        } else {
            1
        };
        let ch: u32 = if self.format.is_stereo {
            2
        } else {
            1
        };
        let byte_rate: u32 = sr * bps * ch;
        let align: u16 = (bps * ch) as u16;
        let bits: u16 = match self.format.compression {
            AudioCompression::Adpcm => 16,
            _ => if self.format.is_16_bit {
                16
            } else {
                8
            },
        };
        let mut out: Vec<u8> = Vec::new();
        out.push(0x52);
        out.push(0x49);
        out.push(0x46);
        out.push(0x46);
        push_le32(&mut out, riff_len);
        out.push(0x57);
        out.push(0x41);
        out.push(0x56);
        out.push(0x45);
        out.push(0x66);
        out.push(0x6D);
        out.push(0x74);
        out.push(0x20);
        push_le32(&mut out, 16);
        push_le16(&mut out, 1);
        push_le16(&mut out, ch as u16);
        push_le32(&mut out, sr);
        push_le32(&mut out, byte_rate);
        push_le16(&mut out, align);
        push_le16(&mut out, bits);
        out.push(0x64);
        out.push(0x61);
        out.push(0x74);
        out.push(0x61);
        push_le32(&mut out, self.data.len() as u32);
        assert(out@ =~= wav_header(self.format, self.data@.len() as int));
        let ghost header = out@;
        let n: usize = self.data.len();
        let mut idx: usize = 0;
        while idx < n
            invariant
                idx <= n,
                n == self.data@.len(),
                out@ == header + self.data@.subrange(0, idx as int),
            decreases n - idx,
        {
            let b: u8 = self.data[idx];
            out.push(b);
            assert(out@ =~= header + self.data@.subrange(0, idx + 1));
            idx = idx + 1;
        }
        assert(self.data@.subrange(0, self.data@.len() as int) =~= self.data@);
        out
    }
}

} // verus!
