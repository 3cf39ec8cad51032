use rubato::{FftFixedIn, Resampler};
use streamer_template::api_types::AudioFormat;
use streamer_template::audio::{decode_audio, AudioDecoder, Tail, RESAMPLER_SIZE};
use streamer_template::pcm::{decode_pcm, f32_samples, s16_bytes, s16_samples, DecodeError, PcmSamples};
use streamer_template::MODEL_SAMPLE_RATE;

fn floats(samples: PcmSamples) -> Vec<f32> {
    match samples {
        PcmSamples::S16(v) => v.iter().map(|x| *x as f32 / i16::MAX as f32).collect(),
        PcmSamples::F32(v) => v.iter().map(|x| f32::from_bits(*x)).collect(),
    }
}

fn send(outputs: &mut Vec<Vec<f32>>, channels: Vec<Vec<f32>>) {
    for (sink, data) in outputs.iter_mut().zip(channels) {
        sink.extend(data);
    }
}

/// Puts the last samples through a resampler, and silence after them until it owes nothing.
fn flush(resampler: &mut FftFixedIn<f32>, tail: &Tail<f32>) -> Vec<Vec<f32>> {
    let mut channels = if tail.channels[0].is_empty() {
        vec![vec![]; resampler.nbr_channels()]
    } else {
        resampler.process_partial(Some(&tail.channels), None).unwrap()
    };
    while tail.lacks(channels[0].len()) {
        let more = resampler.process_partial::<Vec<f32>>(None, None).unwrap();
        send(&mut channels, more);
    }
    channels
}

/// Runs bytes through the decoding pipeline, `chunk_size` at a time, with one sink per channel.
fn run(format: AudioFormat, input: &[u8], chunk_size: usize) -> Result<Vec<Vec<f32>>, DecodeError> {
    let mut decoder: AudioDecoder<f32> = decode_audio(format, format.channels)?;
    let mut outputs: Vec<Vec<f32>> = vec![vec![]; format.channels];
    let ratio = MODEL_SAMPLE_RATE as f64 / format.sample_rate as f64;
    let mut resampler = if decoder.resamples() {
        let resampler =
            FftFixedIn::new(format.sample_rate, MODEL_SAMPLE_RATE, RESAMPLER_SIZE, 2, format.channels)
                .unwrap();
        decoder.set_delay(resampler.output_delay());
        Some(resampler)
    } else {
        None
    };
    for data in input.chunks(chunk_size) {
        let samples = floats(decode_pcm(format, data)?);
        if let Some(batch) = decoder.push(samples) {
            let batch = match resampler.as_mut() {
                Some(resampler) => resampler.process(&batch, None).unwrap(),
                None => batch,
            };
            let routed = decoder.deliver(batch);
            send(&mut outputs, routed);
        }
    }
    while let Some(batch) = decoder.next_batch() {
        let batch = resampler.as_mut().unwrap().process(&batch, None).unwrap();
        let routed = decoder.deliver(batch);
        send(&mut outputs, routed);
    }
    let expected = decoder.received() as f64 * ratio;
    let target = if (decoder.sent() as f64) < expected {
        Some((expected / format.channels as f64).round() as usize)
    } else {
        None
    };
    if let Some(tail) = decoder.drain(target) {
        let channels = match resampler.as_mut() {
            Some(resampler) => flush(resampler, &tail),
            None => tail.channels,
        };
        let routed = decoder.deliver_tail(channels, tail.new_len, 0.0);
        send(&mut outputs, routed);
    }
    Ok(outputs)
}

fn sine(rate: f64, hz: f64, n: usize) -> Vec<f32> {
    (0..n).map(|i| (2.0 * std::f64::consts::PI * hz * i as f64 / rate).sin() as f32).collect()
}

fn s16_input(samples: &[f32]) -> Vec<u8> {
    samples.iter().flat_map(|x| ((*x * i16::MAX as f32) as i16).to_le_bytes()).collect()
}

fn check(expected: &[f32], actual: &[f32]) {
    assert_eq!(expected.len(), actual.len());
    for (e, a) in expected.iter().zip(actual) {
        assert!((e - a).abs() <= 0.1, "{} is not {}", a, e);
    }
}

#[test]
fn pass_through_s16_audio() {
    let format = AudioFormat { sample_rate: 16000, channels: 1, bit_depth: 16, is_float: false };
    let expected = sine(16000.0, 1600.0, 32000);
    let output = run(format, &s16_input(&expected), 300).unwrap();
    assert_eq!(output.len(), 1);
    check(&expected, &output[0]);
}

#[test]
fn pass_through_f32_audio() {
    let format = AudioFormat { sample_rate: 16000, channels: 1, bit_depth: 32, is_float: true };
    let expected = sine(16000.0, 1600.0, 32000);
    let input: Vec<u8> = expected.iter().flat_map(|x| x.to_le_bytes()).collect();
    let output = run(format, &input, 300).unwrap();
    assert_eq!(output.len(), 1);
    check(&expected, &output[0]);
    assert_eq!(expected, output[0]);
}

#[test]
fn upsample_s16_audio() {
    let format = AudioFormat { sample_rate: 8000, channels: 1, bit_depth: 16, is_float: false };
    let expected = sine(16000.0, 800.0, 64000);
    let output = run(format, &s16_input(&sine(8000.0, 800.0, 32000)), 300).unwrap();
    assert_eq!(output.len(), 1);
    check(&expected, &output[0]);
}

#[test]
fn downsampled_audio_keeps_its_shape() {
    let format = AudioFormat { sample_rate: 32000, channels: 1, bit_depth: 32, is_float: true };
    let expected = sine(16000.0, 800.0, 32000);
    let input: Vec<u8> =
        sine(32000.0, 800.0, 64000).iter().flat_map(|x| x.to_le_bytes()).collect();
    let output = run(format, &input, 300).unwrap();
    assert_eq!(output.len(), 1);
    check(&expected, &output[0]);
}

/// Two channels of 32-bit samples, interleaved.
fn interleave(left: &[f32], right: &[f32]) -> Vec<u8> {
    left.iter().zip(right).flat_map(|(l, r)| [*l, *r]).flat_map(|x| x.to_le_bytes()).collect()
}

#[test]
fn a_resampled_backlog_is_not_lost() {
    let format = AudioFormat { sample_rate: 8000, channels: 1, bit_depth: 16, is_float: false };
    let input = s16_input(&sine(8000.0, 800.0, 10000));
    let output = run(format, &input, input.len()).unwrap();
    check(&sine(16000.0, 800.0, 20000), &output[0]);
    assert_eq!(output, run(format, &input, 300).unwrap());
}

#[test]
fn resampled_stereo_audio_keeps_its_shape() {
    let format = AudioFormat { sample_rate: 8000, channels: 2, bit_depth: 32, is_float: true };
    let input = interleave(&sine(8000.0, 781.25, 8192), &sine(8000.0, 390.625, 8192));
    let output = run(format, &input, 1000).unwrap();
    assert_eq!(output.len(), 2);
    check(&sine(16000.0, 781.25, 16384), &output[0]);
    check(&sine(16000.0, 390.625, 16384), &output[1]);
}

#[test]
fn an_odd_ratio_of_rates_keeps_length_and_shape() {
    let format = AudioFormat { sample_rate: 44100, channels: 1, bit_depth: 32, is_float: true };
    let input: Vec<u8> =
        sine(44100.0, 300.0, 44100).iter().flat_map(|x| x.to_le_bytes()).collect();
    let output = run(format, &input, 4000).unwrap();
    check(&sine(16000.0, 300.0, 16000), &output[0]);
}

#[test]
fn a_stereo_message_of_any_length_passes_through() {
    let format = AudioFormat { sample_rate: 16000, channels: 2, bit_depth: 16, is_float: false };
    for frames in [0usize, 1, 2047, 2048, 2049, 5000] {
        let samples: Vec<i16> = (0..2 * frames).map(|i| (i % 30011) as i16).collect();
        let input: Vec<u8> = samples.iter().flat_map(|x| x.to_le_bytes()).collect();
        let scaled: Vec<f32> = samples.iter().map(|x| *x as f32 / i16::MAX as f32).collect();
        let output = run(format, &input, input.len().max(1)).unwrap();
        for c in 0..2 {
            let lane: Vec<f32> = scaled.iter().skip(c).step_by(2).copied().collect();
            assert_eq!(output[c], lane);
        }
        assert_eq!(output, run(format, &input, 302).unwrap());
    }
    let silent = run(format, &vec![0u8; 8196], 8196).unwrap();
    assert_eq!(silent, vec![vec![0.0; 2049], vec![0.0; 2049]]);
}

fn mono(sample_rate: usize) -> AudioFormat {
    AudioFormat { channels: 1, sample_rate, bit_depth: 16, is_float: false }
}

fn stereo(sample_rate: usize) -> AudioFormat {
    AudioFormat { channels: 2, sample_rate, bit_depth: 16, is_float: false }
}

#[test]
fn decoding_needs_a_sink() {
    let decoder: Result<AudioDecoder<i16>, DecodeError> = decode_audio(mono(16000), 0);
    assert_eq!(decoder.err(), Some(DecodeError::NoSinks));
    assert_eq!(DecodeError::NoSinks.message(), "No output sinks for channel data");
}

#[test]
fn s16_samples_are_little_endian() {
    let bytes = [0x00, 0x00, 0x01, 0x00, 0xff, 0x7f, 0x00, 0x80, 0xff, 0xff, 0x34, 0x12];
    assert_eq!(s16_samples(&bytes), Ok(vec![0, 1, 32767, -32768, -1, 0x1234]));
    assert_eq!(s16_samples(&[]), Ok(vec![]));
}

#[test]
fn s16_bytes_match_the_standard_library() {
    for x in i16::MIN..=i16::MAX {
        let (low, high) = s16_bytes(x);
        assert_eq!([low, high], x.to_le_bytes());
        assert_eq!(s16_samples(&[low, high]), Ok(vec![x]));
    }
}

#[test]
fn f32_samples_keep_their_bits() {
    let values = [0.0f32, -0.0, 1.0, -1.0, 0.1, f32::MAX, f32::INFINITY];
    let bytes: Vec<u8> = values.iter().flat_map(|x| x.to_le_bytes()).collect();
    let bits: Vec<u32> = values.iter().map(|x| x.to_bits()).collect();
    assert_eq!(f32_samples(&bytes), Ok(bits));
    assert_eq!(f32_samples(&[0x78, 0x56, 0x34, 0x12]), Ok(vec![0x1234_5678]));
}

#[test]
fn partial_samples_are_refused() {
    assert_eq!(s16_samples(&[1, 2, 3]), Err(DecodeError::PartialSample { bytes: 3 }));
    assert_eq!(f32_samples(&[1, 2, 3, 4, 5, 6]), Err(DecodeError::PartialSample { bytes: 6 }));
    assert_eq!(DecodeError::PartialSample { bytes: 3 }.message(), "Got a partial sample: 3 bytes");
    assert_eq!(
        DecodeError::PartialSample { bytes: 1040 }.message(),
        "Got a partial sample: 1040 bytes"
    );
    assert_eq!(
        decode_pcm(mono(16000), &[1, 2, 3]),
        Err(DecodeError::PartialSample { bytes: 3 })
    );
}

#[test]
fn only_two_sample_formats_are_understood() {
    let wide = AudioFormat { bit_depth: 24, ..mono(16000) };
    let error = DecodeError::UnsupportedFormat { bit_depth: 24, is_float: false };
    assert_eq!(decode_pcm(wide, &[]), Err(error));
    assert_eq!(error.message(), "Unsupported format bit_depth: 24 is_float: false");
    let half = AudioFormat { is_float: true, ..mono(16000) };
    let error = DecodeError::UnsupportedFormat { bit_depth: 16, is_float: true };
    assert_eq!(decode_pcm(half, &[0, 0]), Err(error));
    assert_eq!(error.message(), "Unsupported format bit_depth: 16 is_float: true");
    let int = AudioFormat { bit_depth: 32, ..mono(16000) };
    assert!(decode_pcm(int, &[0, 0, 0, 0]).is_err());
}

#[test]
fn channels_are_dealt_out_frame_by_frame() {
    let mut decoder = decode_audio::<i16>(stereo(16000), 2).unwrap();
    assert!(!decoder.resamples());
    assert_eq!(decoder.push(vec![1, -1, 2, -2, 3]), Some(vec![vec![1, 2], vec![-1, -2]]));
    assert_eq!(decoder.push(vec![-3, 4]), Some(vec![vec![3], vec![-3]]));
    assert_eq!(decoder.push(vec![]), Some(vec![vec![], vec![]]));
    assert_eq!(decoder.received(), 7);
    let tail = decoder.drain(None).unwrap();
    assert_eq!(tail.channels, vec![vec![4], vec![]]);
    assert_eq!(tail.new_len, None);
    assert!(decoder.drain(None).is_none());
}

#[test]
fn a_batch_is_no_longer_than_a_resampler_takes() {
    let mut decoder = decode_audio::<i32>(mono(16000), 1).unwrap();
    let batch = decoder.push((0..5000).collect()).unwrap();
    assert_eq!(batch, vec![(0..2048).collect::<Vec<i32>>()]);
    let routed = decoder.deliver(batch);
    assert_eq!(routed.len(), 1);
    assert_eq!(decoder.sent(), 2048);
    let tail = decoder.drain(Some(5000)).unwrap();
    assert_eq!(tail.channels, vec![(2048..5000).collect::<Vec<i32>>()]);
    assert_eq!(tail.new_len, Some(2952));
    assert_eq!(decoder.deliver_tail(tail.channels, tail.new_len, 0)[0].len(), 2952);
}

#[test]
fn a_message_sets_off_one_batch() {
    let mut decoder = decode_audio::<i32>(mono(16000), 1).unwrap();
    assert_eq!(decoder.push((0..5000).collect()), Some(vec![(0..2048).collect::<Vec<i32>>()]));
    assert_eq!(decoder.push(vec![]), Some(vec![(2048..4096).collect::<Vec<i32>>()]));
    assert_eq!(decoder.waiting(), 904);
    assert_eq!(decoder.next_batch(), None);
    assert_eq!(decoder.drain(None).unwrap().channels, vec![(4096..5000).collect::<Vec<i32>>()]);
}

#[test]
fn a_resampled_backlog_comes_out_batch_by_batch() {
    let mut decoder = decode_audio::<i32>(mono(8000), 1).unwrap();
    assert_eq!(decoder.push((0..7000).collect()), Some(vec![(0..2048).collect::<Vec<i32>>()]));
    assert_eq!(decoder.next_batch(), Some(vec![(2048..4096).collect::<Vec<i32>>()]));
    assert_eq!(decoder.next_batch(), Some(vec![(4096..6144).collect::<Vec<i32>>()]));
    assert_eq!(decoder.next_batch(), None);
    assert_eq!(decoder.waiting(), 856);
}

#[test]
fn a_stereo_tail_is_measured_by_the_channel() {
    let mut decoder = decode_audio::<i32>(stereo(16000), 2).unwrap();
    let batch = decoder.push((0..10000).collect()).unwrap();
    decoder.deliver(batch);
    assert_eq!(decoder.sent(), 4096);
    let tail = decoder.drain(Some(5000)).unwrap();
    assert_eq!(tail.new_len, Some(2952));
    let routed = decoder.deliver_tail(tail.channels, tail.new_len, -1);
    assert_eq!(routed[0], (2048..5000).map(|i| 2 * i).collect::<Vec<i32>>());
    assert_eq!(routed[1], (2048..5000).map(|i| 2 * i + 1).collect::<Vec<i32>>());
}

#[test]
fn no_channel_is_brought_below_nothing() {
    let mut decoder = decode_audio::<i32>(mono(16000), 1).unwrap();
    let batch = decoder.push((0..3000).collect()).unwrap();
    decoder.deliver(batch);
    assert_eq!(decoder.drain(Some(1000)).unwrap().new_len, Some(0));
}

#[test]
fn the_delay_of_a_resampler_is_left_out() {
    let mut decoder = decode_audio::<i32>(stereo(8000), 2).unwrap();
    decoder.set_delay(3);
    assert_eq!(decoder.deliver(vec![vec![0, 0], vec![0, 0]]), vec![vec![], vec![]]);
    assert_eq!(decoder.deliver(vec![vec![0, 1], vec![0, 2]]), vec![vec![1], vec![2]]);
    assert_eq!(decoder.deliver(vec![vec![3], vec![4]]), vec![vec![3], vec![4]]);
    assert_eq!(decoder.sent(), 4);
    let tail = decoder.drain(Some(3)).unwrap();
    assert_eq!(tail.channels, vec![vec![], vec![]]);
    assert_eq!((tail.new_len, tail.needed), (Some(1), 1));
    assert!(tail.lacks(0));
    assert!(!tail.lacks(1));
    assert!(decoder.drain(Some(2)).is_none());
    decoder.set_delay(4);
    assert_eq!(decoder.drain(Some(3)).unwrap().needed, 5);
    assert_eq!(
        decoder.deliver_tail(vec![vec![0, 0, 0, 0, 7, 8], vec![0, 0, 0, 0, 9, 9]], Some(1), 0),
        vec![vec![7], vec![9]]
    );
}

#[test]
fn a_resampler_waits_for_a_full_batch() {
    let mut decoder = decode_audio::<i32>(stereo(8000), 2).unwrap();
    assert!(decoder.resamples());
    assert_eq!(decoder.push((0..4095).collect()), None);
    let batch = decoder.push(vec![4095, 4096]).unwrap();
    assert_eq!(batch.len(), 2);
    assert_eq!(batch[0], (0..2048).map(|i| 2 * i).collect::<Vec<i32>>());
    assert_eq!(batch[1], (0..2048).map(|i| 2 * i + 1).collect::<Vec<i32>>());
    assert_eq!(decoder.waiting(), 1);
    assert_eq!(decoder.drain(None).unwrap().channels, vec![vec![4096], vec![]]);
    assert_eq!(decoder.waiting(), 0);
}

#[test]
fn channels_without_a_sink_are_dropped() {
    let mut decoder = decode_audio::<i32>(stereo(16000), 1).unwrap();
    let batch = decoder.push(vec![1, 2, 3, 4]).unwrap();
    assert_eq!(batch, vec![vec![1, 2, 3, 4], vec![]]);
    assert_eq!(decoder.deliver(batch), vec![vec![1, 2, 3, 4]]);
    assert_eq!(decoder.sent(), 4);
}

#[test]
fn the_tail_is_cut_or_filled_up() {
    let decoder = decode_audio::<i32>(mono(8000), 1).unwrap();
    assert_eq!(decoder.deliver_tail(vec![vec![1, 2, 3]], Some(2), 0), vec![vec![1, 2]]);
    assert_eq!(decoder.deliver_tail(vec![vec![1, 2, 3]], Some(5), 0), vec![vec![1, 2, 3, 0, 0]]);
    assert_eq!(decoder.deliver_tail(vec![vec![1, 2, 3]], None, 0), vec![vec![1, 2, 3]]);
}

#[test]
fn stereo_audio_passes_through_whole() {
    let frames: Vec<(i16, i16)> = (0..3000).map(|i| (i as i16, -(i as i16))).collect();
    let mut decoder = decode_audio::<i16>(stereo(16000), 2).unwrap();
    let interleaved: Vec<i16> = frames.iter().flat_map(|f| [f.0, f.1]).collect();
    let mut left: Vec<i16> = vec![];
    let mut right: Vec<i16> = vec![];
    for chunk in interleaved.chunks(151) {
        if let Some(batch) = decoder.push(chunk.to_vec()) {
            let routed = decoder.deliver(batch);
            left.extend(&routed[0]);
            right.extend(&routed[1]);
        }
    }
    assert!(decoder.drain(None).is_none());
    assert_eq!(decoder.sent(), 6000);
    assert_eq!(left, frames.iter().map(|f| f.0).collect::<Vec<i16>>());
    assert_eq!(right, frames.iter().map(|f| f.1).collect::<Vec<i16>>());
}
