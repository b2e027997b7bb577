//! The audio codec: from an array of samples to the bytes of a WAV file.
//!
//! An array of rank 1 is one channel. An array of rank 2 and shape
//! `[channels, samples]` holds one channel per row. The file holds 32-bit
//! floating-point samples at 44100 Hz, interleaved: for each point in time one
//! sample of each channel.

use crate::text::{bytes_result_is, decimal, decimal_string};
use crate::value::{lemma_size_written_out, Byte, Num, Value};
use vstd::prelude::*;
use vstd::string::*;

verus! {

/// `hound::WavSpec`, with its four public fields: the number of channels,
/// the sample rate, the bits of a sample and the sample format.
#[verifier::external_type_specification]
pub struct ExWavSpec(hound::WavSpec);

/// `hound::SampleFormat`: floating-point or integer samples.
#[verifier::external_type_specification]
pub struct ExSampleFormat(hound::SampleFormat);

/// The sample rate of every file this codec writes, in Hz.
pub const SAMPLE_RATE: u32 = 44100;

/// The most channels a file can hold: a frame of 4-byte samples has to fit
/// the container's 16-bit block alignment field.
pub const MAX_CHANNELS: usize = 16383;

/// The most samples a file can hold, all channels together: the container
/// counts its bytes, header included, in 32 bits.
pub const MAX_SAMPLES: usize = 1073741808;

/// The step of writing a file at which the container writer failed.
#[derive(Clone, Copy, Debug, PartialEq, Eq)]
pub enum WavStage {
    /// Writing the header.
    Header,
    /// Writing a sample.
    Sample,
    /// Completing the header after the last sample.
    Finish,
}

/// What `hound` makes of a sample stream: the bytes of the WAV file with the
/// given number of channels and sample rate whose 32-bit floating-point
/// samples have the given bit patterns, in this order, or the step at which
/// writing failed and the writer's message.
pub uninterp spec fn wav_file(channels: u16, sample_rate: u32, samples: Seq<u32>) -> Result<
    Seq<u8>,
    (WavStage, Seq<char>),
>;

/// The outcome of writing a file, with bytes and message as sequences.
pub open spec fn wav_view(outcome: Result<Vec<u8>, (WavStage, String)>) -> Result<
    Seq<u8>,
    (WavStage, Seq<char>),
> {
    match outcome {
        Ok(bytes) => Ok(bytes@),
        Err((stage, reason)) => Err((stage, reason@)),
    }
}

/// Writes a WAV file in memory with `hound`: `WavWriter::new` on an empty
/// cursor, `write_sample` once per sample in the order given, `finalize`, and
/// the cursor's bytes. Each sample goes in as the 32-bit integer with its bit
/// pattern, which `hound` stores as the same four little-endian bytes as the
/// floating-point number. The result is a function of the arguments alone.
/// The preconditions keep clear of the inputs on which `hound` panics or its
/// 32-bit counters overflow: no channel, a zero rate, a byte rate or a file
/// length beyond 32 bits, and a floating-point format that is not 32 bits
/// wide.
#[verifier::external_body]
fn write_wav(spec: hound::WavSpec, samples: &Vec<u32>) -> (outcome: Result<
    Vec<u8>,
    (WavStage, String),
>)
    requires
        spec.sample_format == hound::SampleFormat::Float,
        spec.bits_per_sample == 32,
        spec.channels >= 1,
        spec.sample_rate >= 1,
        spec.sample_rate * 4 * spec.channels <= u32::MAX,
        4 * samples@.len() + 60 <= u32::MAX,
    ensures
        wav_view(outcome) == wav_file(spec.channels, spec.sample_rate, samples@),
{
    let mut out = std::io::Cursor::new(Vec::new());
    let mut writer = hound::WavWriter::new(&mut out, spec).map_err(
        |e| (WavStage::Header, e.to_string()),
    )?;
    for s in samples.iter() {
        writer.write_sample(*s as i32).map_err(|e| (WavStage::Sample, e.to_string()))?;
    }
    writer.finalize().map_err(|e| (WavStage::Finish, e.to_string()))?;
    Ok(out.into_inner())
}

/// The error message for a failure of the container writer.
pub open spec fn wav_fault(stage: WavStage, reason: Seq<char>) -> Seq<char> {
    match stage {
        WavStage::Header => reason,
        WavStage::Sample => "Failed to write audio: "@ + reason,
        WavStage::Finish => "Failed to finalize audio: "@ + reason,
    }
}

/// What the codec returns for an outcome of the container writer.
pub open spec fn wav_result_of(outcome: Result<Seq<u8>, (WavStage, Seq<char>)>) -> Result<
    Seq<u8>,
    Seq<char>,
> {
    match outcome {
        Ok(bytes) => Ok(bytes),
        Err((stage, reason)) => Err(wav_fault(stage, reason)),
    }
}

/// Turns the outcome of the container writer into the codec's result: the
/// bytes as they are, a failure as its message.
pub fn wav_result(outcome: Result<Vec<u8>, (WavStage, String)>) -> (r: Result<Vec<u8>, String>)
    ensures
        bytes_result_is(r, wav_result_of(wav_view(outcome))),
{
    match outcome {
        Ok(bytes) => Ok(bytes),
        Err((stage, reason)) => match stage {
            WavStage::Header => Err(reason),
            WavStage::Sample => Err(
                String::from_str("Failed to write audio: ").concat(reason.as_str()),
            ),
            WavStage::Finish => Err(
                String::from_str("Failed to finalize audio: ").concat(reason.as_str()),
            ),
        },
    }
}

/// The place of the leading one bit of a byte that is not 0.
pub open spec fn byte_exponent(b: u8) -> nat {
    if b >= 128 {
        7
    } else if b >= 64 {
        6
    } else if b >= 32 {
        5
    } else if b >= 16 {
        4
    } else if b >= 8 {
        3
    } else if b >= 4 {
        2
    } else if b >= 2 {
        1
    } else {
        0
    }
}

/// 2 to the power `e`.
pub open spec fn two_to(e: nat) -> nat
    decreases e,
{
    if e == 0 {
        1
    } else {
        2 * two_to((e - 1) as nat)
    }
}

/// The binary32 bit pattern of a whole number below 256: all zero for 0,
/// else the biased exponent above the fraction, which is what follows the
/// leading one bit.
pub open spec fn byte_sample(b: u8) -> u32 {
    if b == 0 {
        0
    } else {
        let e = byte_exponent(b);
        ((127 + e) * 8388608 + (b - two_to(e)) * two_to((23 - e) as nat)) as u32
    }
}

/// The powers of 2 that the bit pattern of a byte takes.
proof fn lemma_two_to()
    ensures
        two_to(0) == 1,
        two_to(1) == 2,
        two_to(2) == 4,
        two_to(3) == 8,
        two_to(4) == 16,
        two_to(5) == 32,
        two_to(6) == 64,
        two_to(7) == 128,
        two_to(23) == 8388608,
{
    reveal_with_fuel(two_to, 24);
}

/// The binary32 bit pattern of a whole number below 256.
pub fn sample_of_byte(b: u8) -> (bits: u32)
    ensures
        bits == byte_sample(b),
{
    if b == 0 {
        return 0;
    }
    // Find the leading one bit: `unit` is its weight and `scale` moves what
    // follows it to the top of the 23-bit fraction.
    let mut e: u32 = 0;
    let mut unit: u32 = 1;
    let mut scale: u32 = 8388608;
    proof {
        lemma_two_to();
    }
    while b as u32 >= 2 * unit
        invariant
            e <= 7,
            unit == two_to(e as nat),
            scale == two_to((23 - e) as nat),
            1 <= unit <= b,
            unit * scale == 8388608,
        decreases 256 - unit,
    {
        assert(two_to((23 - e) as nat) == 2 * two_to((22 - e) as nat));
        assert((unit * 2) * (scale / 2) == 8388608) by (nonlinear_arith)
            requires
                unit * scale == 8388608,
                scale % 2 == 0,
        ;
        assert(e < 7) by {
            lemma_two_to();
        }
        e = e + 1;
        unit = unit * 2;
        scale = scale / 2;
    }
    proof {
        let x = byte_exponent(b);
        lemma_two_to();
        assert(e == x);
        assert((b - unit) * scale < 8388608) by (nonlinear_arith)
            requires
                unit * scale == 8388608,
                unit <= b < 2 * unit,
        ;
    }
    (127 + e) * 8388608 + (b as u32 - unit) * scale
}

/// The sample that an element of a numeric array stands for, by kind of
/// array: the sample form of a number, and the whole number that a byte
/// holds, with 0 for an unset byte. `None` for a value that is not numeric.
pub open spec fn samples_of(value: Value) -> Option<Seq<u32>> {
    match value {
        Value::Num(a) => Some(a.items().map_values(|n: Num| n.sample)),
        Value::Byte(a) => Some(a.items().map_values(|b: Byte| byte_sample(b.or_value(0)))),
        _ => None,
    }
}

/// The samples of `channels` rows of `frames` samples each, reordered for
/// the file: for each point in time, one sample of each channel.
pub open spec fn interleaved(samples: Seq<u32>, channels: nat, frames: nat) -> Seq<u32> {
    Seq::new(
        channels * frames,
        |i: int| samples[(i % (channels as int)) * (frames as int) + i / (channels as int)],
    )
}

/// The rows of an array of samples as channels, and the length of a row: one
/// row for rank 1, the first dimension for rank 2.
pub open spec fn channel_layout(value: Value) -> (nat, nat) {
    let dims = match value {
        Value::Num(a) => a.dims(),
        Value::Byte(a) => a.dims(),
        Value::Char(a) => a.dims(),
        Value::Lines(_) => Seq::<usize>::empty(),
    };
    if dims.len() == 1 {
        (1, dims[0] as nat)
    } else if dims.len() == 2 {
        (dims[0] as nat, dims[1] as nat)
    } else {
        (0, 0)
    }
}

/// What the audio codec makes of a value.
pub open spec fn wav_of(value: Value) -> Result<Seq<u8>, Seq<char>> {
    match samples_of(value) {
        None => Err("Audio must be a numeric array"@),
        Some(samples) => {
            let rank = value.rank_of();
            let (channels, frames) = channel_layout(value);
            if rank != 1 && rank != 2 {
                Err("Audio must be a rank 1 or 2 numeric array, but it is rank "@ + decimal(rank))
            } else if channels < 1 || channels > MAX_CHANNELS {
                Err(
                    "Audio must have between 1 and 16383 channels, but it has "@ + decimal(
                        channels,
                    ),
                )
            } else if samples.len() > MAX_SAMPLES {
                Err(
                    "Audio must have at most 1073741808 samples, but it has "@ + decimal(
                        samples.len(),
                    ),
                )
            } else {
                wav_result_of(
                    wav_file(channels as u16, SAMPLE_RATE, interleaved(samples, channels, frames)),
                )
            }
        },
    }
}

/// Reorders `channels` rows of `frames` samples each for the file.
fn interleave(samples: &Vec<u32>, channels: usize, frames: usize) -> (out: Vec<u32>)
    requires
        channels * frames == samples@.len(),
        channels >= 1,
    ensures
        out@ == interleaved(samples@, channels as nat, frames as nat),
{
    let total: usize = samples.len();
    let mut out: Vec<u32> = Vec::new();
    let mut t: usize = 0;
    while t < frames
        invariant
            channels * frames == total == samples@.len(),
            channels >= 1,
            t <= frames,
            out@.len() == t * channels,
            forall|i: int|
                0 <= i < out@.len() ==> out@[i] == samples@[(i % (channels as int)) * (
                frames as int) + i / (channels as int)],
        decreases frames - t,
    {
        let mut c: usize = 0;
        while c < channels
            invariant
                channels * frames == total == samples@.len(),
                channels >= 1,
                t < frames,
                c <= channels,
                out@.len() == t * channels + c,
                forall|i: int|
                    0 <= i < out@.len() ==> out@[i] == samples@[(i % (channels as int)) * (
                    frames as int) + i / (channels as int)],
            decreases channels - c,
        {
            proof {
                lemma_cell(c as int, t as int, channels as int, frames as int);
            }
            let at = c * frames + t;
            out.push(samples[at]);
            c = c + 1;
        }
        proof {
            assert(t * channels + channels == (t + 1) * channels) by (nonlinear_arith);
        }
        t = t + 1;
    }
    proof {
        assert(frames * channels == channels * frames) by (nonlinear_arith);
        assert(out@ =~= interleaved(samples@, channels as nat, frames as nat));
    }
    out
}

/// The sample of channel `c` at time `t` lies inside the buffer, and its
/// place in the file leads back to it.
proof fn lemma_cell(c: int, t: int, channels: int, frames: int)
    requires
        0 <= c < channels,
        0 <= t < frames,
    ensures
        0 <= c * frames,
        0 <= c * frames + t < channels * frames,
        0 <= t * channels + c < channels * frames,
        (t * channels + c) % channels == c,
        (t * channels + c) / channels == t,
{
    assert(c * frames + t < channels * frames) by (nonlinear_arith)
        requires
            0 <= c < channels,
            0 <= t < frames,
    ;
    assert(0 <= c * frames) by (nonlinear_arith)
        requires
            0 <= c,
            0 <= frames,
    ;
    assert(t * channels + c < channels * frames) by (nonlinear_arith)
        requires
            0 <= c < channels,
            0 <= t < frames,
    ;
    assert(0 <= t * channels + c) by (nonlinear_arith)
        requires
            0 <= c,
            0 <= t,
            0 <= channels,
    ;
    vstd::arithmetic::div_mod::lemma_fundamental_div_mod_converse(t * channels + c, channels, t, c);
}

/// Encodes an array of samples as a WAV file.
///
/// A value that is not numeric, a rank other than 1 and 2, a channel count
/// outside 1 to 16383 and more than 1073741808 samples are errors that name
/// what was found. Any other array is handed to the container writer, one
/// sample of each channel for each point in time, and the result is the file
/// or the writer's failure as a message.
pub fn value_to_wav_bytes(audio: &Value) -> (r: Result<Vec<u8>, String>)
    ensures
        bytes_result_is(r, wav_of(*audio)),
{
    let samples: Vec<u32> = match audio {
        Value::Num(nums) => {
            let items = nums.data();
            let mut out: Vec<u32> = Vec::new();
            let mut i: usize = 0;
            while i < items.len()
                invariant
                    i <= items.len(),
                    out@ == items@.take(i as int).map_values(|n: Num| n.sample),
                decreases items.len() - i,
            {
                out.push(items[i].sample);
                i = i + 1;
                assert(out@ =~= items@.take(i as int).map_values(
                    |n: Num| n.sample,
                ));
            }
            assert(items@.take(items@.len() as int) == items@);
            out
        },
        Value::Byte(bytes) => {
            let items = bytes.data();
            let mut out: Vec<u32> = Vec::new();
            let mut i: usize = 0;
            while i < items.len()
                invariant
                    i <= items.len(),
                    out@ == items@.take(i as int).map_values(
                        |b: Byte| byte_sample(b.or_value(0)),
                    ),
                decreases items.len() - i,
            {
                out.push(sample_of_byte(items[i].or(0)));
                i = i + 1;
                assert(out@ =~= items@.take(i as int).map_values(
                    |b: Byte| byte_sample(b.or_value(0)),
                ));
            }
            assert(items@.take(items@.len() as int) == items@);
            out
        },
        _ => {
            return Err(String::from_str("Audio must be a numeric array"));
        },
    };
    assert(samples_of(*audio) == Some(samples@));
    let shape: &Vec<usize> = match audio {
        Value::Num(nums) => nums.shape(),
        Value::Byte(bytes) => bytes.shape(),
        _ => {
            return Err(String::from_str("Audio must be a numeric array"));
        },
    };
    let rank = shape.len();
    if rank != 1 && rank != 2 {
        let message = String::from_str(
            "Audio must be a rank 1 or 2 numeric array, but it is rank ",
        ).concat(decimal_string(rank).as_str());
        return Err(message);
    }
    let (channels, frames): (usize, usize) = if rank == 1 {
        (1, shape[0])
    } else {
        (shape[0], shape[1])
    };
    assert(channel_layout(*audio) == (channels as nat, frames as nat));
    if channels < 1 || channels > MAX_CHANNELS {
        let message = String::from_str(
            "Audio must have between 1 and 16383 channels, but it has ",
        ).concat(decimal_string(channels).as_str());
        return Err(message);
    }
    if samples.len() > MAX_SAMPLES {
        let message = String::from_str(
            "Audio must have at most 1073741808 samples, but it has ",
        ).concat(decimal_string(samples.len()).as_str());
        return Err(message);
    }
    proof {
        lemma_size_written_out(shape@);
    }
    let ordered = interleave(&samples, channels, frames);
    let spec = hound::WavSpec {
        channels: channels as u16,
        sample_rate: SAMPLE_RATE,
        bits_per_sample: 32,
        sample_format: hound::SampleFormat::Float,
    };
    assert(spec.sample_rate * 4 * spec.channels <= u32::MAX) by (nonlinear_arith)
        requires
            spec.sample_rate == 44100,
            spec.channels <= 16383,
    ;
    wav_result(write_wav(spec, &ordered))
}

/// An array of rank 1 and length `n` is handed to the container writer as
/// one channel of exactly its `n` samples, in their order, at 44100 Hz.
pub proof fn lemma_mono(value: Value)
    requires
        value.wf(),
        samples_of(value) is Some,
        value.rank_of() == 1,
        samples_of(value)->0.len() <= MAX_SAMPLES,
    ensures
        samples_of(value)->0.len() == channel_layout(value).1,
        wav_of(value) == wav_result_of(wav_file(1, 44100, samples_of(value)->0)),
{
    let samples = samples_of(value)->0;
    let frames = channel_layout(value).1;
    match value {
        Value::Num(a) => {
            lemma_size_written_out(a.dims());
        },
        Value::Byte(a) => {
            lemma_size_written_out(a.dims());
        },
        _ => {},
    }
    assert(samples.len() == frames);
    let ordered = interleaved(samples, 1, frames);
    assert(ordered.len() == samples.len()) by (nonlinear_arith)
        requires
            ordered.len() == 1 * frames,
            samples.len() == frames,
    ;
    assert forall|i: int| 0 <= i < ordered.len() implies ordered[i] == samples[i] by {
        lemma_cell(0, i, 1, frames as int);
        assert(i * 1 + 0 == i);
        assert(0 * (frames as int) + i == i);
    }
    assert(ordered =~= samples);
}

/// An array of shape `[channels, frames]` is handed to the container writer
/// with that many channels, at 44100 Hz, as `channels * frames` samples:
/// sample `t` of channel `c`, which the array holds at `c * frames + t`, is
/// at `t * channels + c`. So the file holds one sample of each channel for
/// time 0, then one of each for time 1, and so on.
pub proof fn lemma_interleaved(value: Value, t: int, c: int)
    requires
        value.wf(),
        samples_of(value) is Some,
        value.rank_of() == 2,
        1 <= channel_layout(value).0 <= MAX_CHANNELS,
        samples_of(value)->0.len() <= MAX_SAMPLES,
        0 <= t < channel_layout(value).1,
        0 <= c < channel_layout(value).0,
    ensures
        wav_of(value) == wav_result_of(
            wav_file(
                channel_layout(value).0 as u16,
                44100,
                interleaved(samples_of(value)->0, channel_layout(value).0, channel_layout(value).1),
            ),
        ),
        interleaved(
            samples_of(value)->0,
            channel_layout(value).0,
            channel_layout(value).1,
        ).len() == channel_layout(value).0 * channel_layout(value).1,
        0 <= c * channel_layout(value).1 + t < samples_of(value)->0.len(),
        0 <= t * channel_layout(value).0 + c < channel_layout(value).0 * channel_layout(value).1,
        interleaved(samples_of(value)->0, channel_layout(value).0, channel_layout(value).1)[t
            * channel_layout(value).0 + c] == samples_of(value)->0[c * channel_layout(value).1 + t],
{
    let channels = channel_layout(value).0 as int;
    let frames = channel_layout(value).1 as int;
    match value {
        Value::Num(a) => {
            lemma_size_written_out(a.dims());
        },
        Value::Byte(a) => {
            lemma_size_written_out(a.dims());
        },
        _ => {},
    }
    lemma_cell(c, t, channels, frames);
}

} // verus!
