//! PCM samples as bytes.
use vstd::prelude::*;

use crate::api_types::AudioFormat;
use crate::text::{bool_text, decimal, number_text, truth};

verus! {

/// Why a stream of audio could not be decoded.
#[derive(Copy, Clone, Debug, PartialEq, Eq, Structural)]
pub enum DecodeError {
    /// There is nothing to send decoded channels to.
    NoSinks,
    /// A message ended in the middle of a sample.
    PartialSample { bytes: usize },
    /// Samples of this kind are not understood.
    UnsupportedFormat { bit_depth: u16, is_float: bool },
}

/// The unsigned little-endian value of two bytes.
pub open spec fn le16(lo: u8, hi: u8) -> int {
    lo + 256 * hi
}

/// The two's complement little-endian value of two bytes.
pub open spec fn s16_value(lo: u8, hi: u8) -> int {
    if hi < 128 {
        le16(lo, hi)
    } else {
        le16(lo, hi) - 65536
    }
}

/// The signed 16-bit samples that `data` encodes.
pub open spec fn s16_decoded(data: Seq<u8>) -> Seq<i16> {
    Seq::new((data.len() / 2) as nat, |i: int| s16_value(data[2 * i], data[2 * i + 1]) as i16)
}

/// The bit patterns of the 32-bit float samples that `data` encodes.
pub open spec fn f32_decoded(data: Seq<u8>) -> Seq<u32> {
    Seq::new(
        (data.len() / 4) as nat,
        |i: int|
            (le16(data[4 * i], data[4 * i + 1]) + 65536 * le16(
                data[4 * i + 2],
                data[4 * i + 3],
            )) as u32,
    )
}

/// Decodes signed 16-bit little-endian samples.
pub fn s16_samples(data: &[u8]) -> (r: Result<Vec<i16>, DecodeError>)
    ensures
        data@.len() % 2 == 0 ==> (r matches Ok(v) && v@ == s16_decoded(data@)),
        data@.len() % 2 != 0 ==> r == Err::<Vec<i16>, DecodeError>(
            DecodeError::PartialSample { bytes: data.len() },
        ),
{
    let n: usize = data.len();
    if n % 2 != 0 {
        return Err(DecodeError::PartialSample { bytes: n });
    }
    let mut samples: Vec<i16> = Vec::with_capacity(n / 2);
    let mut i: usize = 0;
    while i < n / 2
        invariant
            n == data@.len(),
            i <= n / 2,
            samples@ == s16_decoded(data@).take(i as int),
        decreases n / 2 - i,
    {
        let value: i32 = data[2 * i] as i32 + 256 * (data[2 * i + 1] as i32);
        let signed: i32 = if value < 32768 {
            value
        } else {
            value - 65536
        };
        samples.push(signed as i16);
        i = i + 1;
    }
    assert(samples@ == s16_decoded(data@));
    Ok(samples)
}

/// Decodes 32-bit little-endian float samples, as bit patterns.
pub fn f32_samples(data: &[u8]) -> (r: Result<Vec<u32>, DecodeError>)
    ensures
        data@.len() % 4 == 0 ==> (r matches Ok(v) && v@ == f32_decoded(data@)),
        data@.len() % 4 != 0 ==> r == Err::<Vec<u32>, DecodeError>(
            DecodeError::PartialSample { bytes: data.len() },
        ),
{
    let n: usize = data.len();
    if n % 4 != 0 {
        return Err(DecodeError::PartialSample { bytes: n });
    }
    let mut samples: Vec<u32> = Vec::with_capacity(n / 4);
    let mut i: usize = 0;
    while i < n / 4
        invariant
            n == data@.len(),
            i <= n / 4,
            samples@ == f32_decoded(data@).take(i as int),
        decreases n / 4 - i,
    {
        let low: u32 = data[4 * i] as u32 + 256 * (data[4 * i + 1] as u32);
        let high: u32 = data[4 * i + 2] as u32 + 256 * (data[4 * i + 3] as u32);
        samples.push(low + 65536 * high);
        i = i + 1;
    }
    assert(samples@ == f32_decoded(data@));
    Ok(samples)
}

/// The unsigned 16-bit number with the bits of `x`.
pub open spec fn unsigned16(x: i16) -> int {
    if x < 0 {
        x + 65536
    } else {
        x as int
    }
}

/// The little-endian bytes of 16-bit samples.
pub open spec fn s16_encoded(samples: Seq<i16>) -> Seq<u8> {
    Seq::new(
        2 * samples.len(),
        |i: int|
            if i % 2 == 0 {
                (unsigned16(samples[i / 2]) % 256) as u8
            } else {
                (unsigned16(samples[i / 2]) / 256) as u8
            },
    )
}

/// The little-endian bytes of 32-bit patterns.
pub open spec fn f32_encoded(patterns: Seq<u32>) -> Seq<u8> {
    Seq::new(
        4 * patterns.len(),
        |i: int|
            {
                let x = patterns[i / 4] as int;
                let byte = if i % 4 == 0 {
                    x
                } else if i % 4 == 1 {
                    x / 256
                } else if i % 4 == 2 {
                    x / 65536
                } else {
                    x / 16777216
                };
                (byte % 256) as u8
            },
    )
}

/// The little-endian bytes of one 16-bit sample.
pub fn s16_bytes(sample: i16) -> (r: (u8, u8))
    ensures
        seq![r.0, r.1] == s16_encoded(seq![sample]),
{
    let value: i32 = if sample < 0 {
        sample as i32 + 65536
    } else {
        sample as i32
    };
    let low: u8 = (value % 256) as u8;
    let high: u8 = (value / 256) as u8;
    assert(seq![low, high] =~= s16_encoded(seq![sample]));
    (low, high)
}

/// Decoding what was encoded gives the samples back.
pub proof fn law_decode_after_encode(samples: Seq<i16>)
    ensures
        s16_encoded(samples).len() % 2 == 0,
        s16_decoded(s16_encoded(samples)) == samples,
{
    let data = s16_encoded(samples);
    assert forall|i: int| 0 <= i < samples.len() implies #[trigger] s16_decoded(data)[i]
        == samples[i] by {
        assert((2 * i) / 2 == i && (2 * i + 1) / 2 == i);
        assert(data[2 * i] == (unsigned16(samples[i]) % 256) as u8);
        assert(data[2 * i + 1] == (unsigned16(samples[i]) / 256) as u8);
    }
    assert(s16_decoded(data) =~= samples);
}

/// Encoding what was decoded gives the bytes back: PCM audio loses nothing on the way in.
pub proof fn law_encode_after_decode(data: Seq<u8>)
    requires
        data.len() % 2 == 0,
    ensures
        s16_encoded(s16_decoded(data)) == data,
{
    let samples = s16_decoded(data);
    assert forall|i: int| 0 <= i < data.len() implies #[trigger] s16_encoded(samples)[i]
        == data[i] by {
        let k = i / 2;
        assert(samples[k] == s16_value(data[2 * k], data[2 * k + 1]));
    }
    assert(s16_encoded(samples) =~= data);
}

/// Decoding what was encoded gives the 32-bit patterns back.
pub proof fn law_f32_decode_after_encode(patterns: Seq<u32>)
    ensures
        f32_encoded(patterns).len() % 4 == 0,
        f32_decoded(f32_encoded(patterns)) == patterns,
{
    let data = f32_encoded(patterns);
    assert forall|i: int| 0 <= i < patterns.len() implies #[trigger] f32_decoded(data)[i]
        == patterns[i] by {
        let x = patterns[i] as int;
        assert(data[4 * i] == x % 256);
        assert(data[4 * i + 1] == (x / 256) % 256);
        assert(data[4 * i + 2] == (x / 65536) % 256);
        assert(data[4 * i + 3] == (x / 16777216) % 256);
    }
    assert(f32_decoded(data) =~= patterns);
}

/// Encoding the 32-bit patterns that were decoded gives the bytes back.
pub proof fn law_f32_encode_after_decode(data: Seq<u8>)
    requires
        data.len() % 4 == 0,
    ensures
        f32_encoded(f32_decoded(data)) == data,
{
    let patterns = f32_decoded(data);
    assert forall|i: int| 0 <= i < data.len() implies #[trigger] f32_encoded(patterns)[i]
        == data[i] by {
        let k = i / 4;
        let low = le16(data[4 * k], data[4 * k + 1]);
        let high = le16(data[4 * k + 2], data[4 * k + 3]);
        let x = patterns[k] as int;
        assert(x == low + 65536 * high);
        assert(x / 65536 == high && x / 16777216 == high / 256);
    }
    assert(f32_encoded(patterns) =~= data);
}

/// Encoding distributes over concatenation.
pub proof fn lemma_encode_concat(a: Seq<i16>, b: Seq<i16>)
    ensures
        s16_encoded(a + b) == s16_encoded(a) + s16_encoded(b),
{
    assert(s16_encoded(a + b) =~= s16_encoded(a) + s16_encoded(b)) by {
        assert forall|i: int| 0 <= i < 2 * (a + b).len() implies #[trigger] s16_encoded(a + b)[i]
            == (s16_encoded(a) + s16_encoded(b))[i] by {
            if i >= 2 * a.len() {
                let j = i - 2 * a.len();
                assert(j / 2 == i / 2 - a.len() && j % 2 == i % 2);
            }
        }
    }
}

/// The samples of one message, in the representation they came in.
#[derive(Debug, PartialEq, Eq)]
pub enum PcmSamples {
    /// Signed 16-bit samples.
    S16(Vec<i16>),
    /// Bit patterns of 32-bit float samples.
    F32(Vec<u32>),
}

/// Decodes one message of audio in the given format.
pub fn decode_pcm(format: AudioFormat, data: &[u8]) -> (r: Result<PcmSamples, DecodeError>)
    ensures
        match (format.bit_depth, format.is_float) {
            (16, false) => if data@.len() % 2 == 0 {
                r matches Ok(PcmSamples::S16(v)) && v@ == s16_decoded(data@)
            } else {
                r == Err::<PcmSamples, _>(DecodeError::PartialSample { bytes: data.len() })
            },
            (32, true) => if data@.len() % 4 == 0 {
                r matches Ok(PcmSamples::F32(v)) && v@ == f32_decoded(data@)
            } else {
                r == Err::<PcmSamples, _>(DecodeError::PartialSample { bytes: data.len() })
            },
            (bit_depth, is_float) => r == Err::<PcmSamples, _>(
                DecodeError::UnsupportedFormat { bit_depth, is_float },
            ),
        },
{
    match (format.bit_depth, format.is_float) {
        (16, false) => match s16_samples(data) {
            Ok(v) => Ok(PcmSamples::S16(v)),
            Err(e) => Err(e),
        },
        (32, true) => match f32_samples(data) {
            Ok(v) => Ok(PcmSamples::F32(v)),
            Err(e) => Err(e),
        },
        (bit_depth, is_float) => Err(DecodeError::UnsupportedFormat { bit_depth, is_float }),
    }
}

impl DecodeError {
    /// The message that tells of this error.
    pub open spec fn text(self) -> Seq<char> {
        match self {
            DecodeError::NoSinks => "No output sinks for channel data"@,
            DecodeError::PartialSample { bytes } => "Got a partial sample: "@ + decimal(
                bytes as nat,
            ) + " bytes"@,
            DecodeError::UnsupportedFormat { bit_depth, is_float } =>
                "Unsupported format bit_depth: "@ + decimal(bit_depth as nat) + " is_float: "@
                    + truth(is_float),
        }
    }

    /// The message that tells of this error.
    pub fn message(&self) -> (r: String)
        ensures
            r@ == self.text(),
            match *self {
                DecodeError::NoSinks => r@ == "No output sinks for channel data"@,
                DecodeError::PartialSample { bytes } => r@ == "Got a partial sample: "@ + decimal(
                    bytes as nat,
                ) + " bytes"@,
                DecodeError::UnsupportedFormat { bit_depth, is_float } => r@
                    == "Unsupported format bit_depth: "@ + decimal(bit_depth as nat)
                    + " is_float: "@ + truth(is_float),
            },
    {
        match self {
            DecodeError::NoSinks => "No output sinks for channel data".to_string(),
            DecodeError::PartialSample { bytes } => "Got a partial sample: ".to_string().concat(
                number_text(*bytes as u64).as_str(),
            ).concat(" bytes"),
            DecodeError::UnsupportedFormat { bit_depth, is_float } =>
                "Unsupported format bit_depth: ".to_string().concat(
                    number_text(*bit_depth as u64).as_str(),
                ).concat(" is_float: ").concat(bool_text(*is_float)),
        }
    }
}

/// A 16-bit sample is its first byte and 256 times its second, less 65536 from 32768 on.
pub proof fn law_s16_samples_are_little_endian(data: Seq<u8>, i: int)
    requires
        0 <= 2 * i && 2 * i + 1 < data.len(),
    ensures
        s16_decoded(data).len() == data.len() / 2,
        ({
            let unsigned = data[2 * i] + 256 * data[2 * i + 1];
            s16_decoded(data)[i] == (if unsigned < 32768 {
                unsigned
            } else {
                unsigned - 65536
            })
        }),
{
}

/// A 32-bit pattern is its first byte, 256 times its second, 65536 times its third and 16777216
/// times its fourth.
pub proof fn law_f32_samples_are_little_endian(data: Seq<u8>, i: int)
    requires
        0 <= 4 * i && 4 * i + 3 < data.len(),
    ensures
        f32_decoded(data).len() == data.len() / 4,
        f32_decoded(data)[i] == data[4 * i] + 256 * data[4 * i + 1] + 65536 * data[4 * i + 2]
            + 16777216 * data[4 * i + 3],
{
}

/// The bytes of a 16-bit sample are two: its first byte and 256 times its second are the sample, or,
/// of a negative one, the sample and 65536.
pub proof fn law_s16_bytes_are_little_endian(samples: Seq<i16>, i: int)
    requires
        0 <= i < samples.len(),
    ensures
        s16_encoded(samples).len() == 2 * samples.len(),
        s16_encoded(samples)[2 * i] + 256 * s16_encoded(samples)[2 * i + 1] == (if samples[i] < 0 {
            samples[i] + 65536
        } else {
            samples[i] as int
        }),
{
    assert((2 * i) / 2 == i && (2 * i + 1) / 2 == i);
}

/// Errors are told in these words.
pub proof fn law_errors_are_told(bytes: usize, bit_depth: u16, is_float: bool)
    ensures
        DecodeError::NoSinks.text() == "No output sinks for channel data"@,
        (DecodeError::PartialSample { bytes }).text() == "Got a partial sample: "@ + decimal(
            bytes as nat,
        ) + " bytes"@,
        (DecodeError::UnsupportedFormat { bit_depth, is_float }).text()
            == "Unsupported format bit_depth: "@ + decimal(bit_depth as nat) + " is_float: "@
            + truth(is_float),
{
}

} // verus!
