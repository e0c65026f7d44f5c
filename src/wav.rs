//! The WAV file handed to batch transcription: 16-bit integer PCM, mono, at
//! the rate the capture negotiated.

use vstd::prelude::*;
use crate::streaming::pcm_le;

verus! {

#[verifier::external_type_specification]
#[verifier::external_body]
pub struct ExWavError(hound::Error);

/// Why a recording could not be turned into a WAV file.
#[derive(Debug)]
pub enum WavError {
    /// The recording holds no samples.
    NoSamples,
    /// The rate is zero or too large for the WAV header.
    UnsupportedSampleRate,
    /// The recording is too long for the WAV size fields.
    TooLong,
    /// The encoder reported a failure.
    Encode(hound::Error),
}

/// `v` as two little-endian bytes.
pub open spec fn le16(v: int) -> Seq<u8> {
    seq![(v % 256) as u8, (v / 256 % 256) as u8]
}

/// `v` as four little-endian bytes.
pub open spec fn le32(v: int) -> Seq<u8> {
    seq![(v % 256) as u8, (v / 256 % 256) as u8, (v / 65536 % 256) as u8, (v / 16777216 % 256) as u8]
}

/// A WAV file of 16-bit integer mono PCM: the RIFF header with a 16-byte
/// PCMWAVEFORMAT `fmt ` chunk (44 bytes in all), then the samples.
pub open spec fn wav_mono16(samples: Seq<i16>, sample_rate: u32) -> Seq<u8> {
    let data_len: int = 2 * (samples.len() as int);
    seq![82u8, 73, 70, 70] + le32(36 + data_len) + seq![87u8, 65, 86, 69] + seq![
        102u8,
        109,
        116,
        32,
    ] + le32(16) + le16(1) + le16(1) + le32(sample_rate as int) + le32(2 * sample_rate) + le16(2)
        + le16(16) + seq![100u8, 97, 116, 97] + le32(data_len) + pcm_le(samples)
}

/// Relies on hound's `WavWriter` (`new`, `write_sample`, `finalize`) writing
/// into memory: for one channel of 16-bit integer samples it writes the
/// PCMWAVEFORMAT header and then each sample little-endian, and fills in the
/// two size fields on `finalize`. It overflows on rates above `i32::MAX`,
/// divides by a zero rate, and its sizes are `u32`.
#[verifier::external_body]
fn write_wav_mono16(samples: &[i16], sample_rate: u32) -> (r: Result<Vec<u8>, hound::Error>)
    requires
        0 < sample_rate <= 0x7fff_ffff,
        36 + 2 * samples@.len() <= u32::MAX,
    ensures
        r matches Ok(bytes) ==> bytes@ == wav_mono16(samples@, sample_rate),
{
    let spec = hound::WavSpec {
        channels: 1,
        sample_rate,
        bits_per_sample: 16,
        sample_format: hound::SampleFormat::Int,
    };
    let mut cursor = std::io::Cursor::new(Vec::new());
    let mut writer = hound::WavWriter::new(&mut cursor, spec)?;
    for &s in samples {
        writer.write_sample(s)?;
    }
    writer.finalize()?;
    Ok(cursor.into_inner())
}

/// The WAV file of a recording. An empty recording, a rate of zero or above
/// `i32::MAX`, and a recording too long for the 32-bit size fields are
/// refused; otherwise the file is the one `wav_mono16` describes, unless the
/// encoder reports a failure.
pub fn encode_wav(samples: &[i16], sample_rate: u32) -> (r: Result<Vec<u8>, WavError>)
    ensures
        samples@.len() == 0 ==> r matches Err(WavError::NoSamples),
        samples@.len() > 0 && !(0 < sample_rate <= 0x7fff_ffff) ==> r matches Err(
            WavError::UnsupportedSampleRate,
        ),
        samples@.len() > 0 && 0 < sample_rate <= 0x7fff_ffff && 36 + 2 * samples@.len() > u32::MAX
            ==> r matches Err(WavError::TooLong),
        r matches Ok(bytes) ==> bytes@ == wav_mono16(samples@, sample_rate),
        r matches Err(e) ==> (e is Encode ==> samples@.len() > 0 && 0 < sample_rate <= 0x7fff_ffff
            && 36 + 2 * samples@.len() <= u32::MAX),
{
    if samples.len() == 0 {
        return Err(WavError::NoSamples);
    }
    if sample_rate == 0 || sample_rate > 0x7fff_ffff {
        return Err(WavError::UnsupportedSampleRate);
    }
    if samples.len() > 2147483629 {
        return Err(WavError::TooLong);
    }
    match write_wav_mono16(samples, sample_rate) {
        Ok(bytes) => Ok(bytes),
        Err(e) => Err(WavError::Encode(e)),
    }
}

} // verus!
