use streamer_template::api_types::{AudioFormat, RequestMessage, StartMessage, StopMessage};
use streamer_template::client::{start_request, stop_request, Chunker};
use streamer_template::pcm::s16_samples;

#[test]
fn requests_describe_the_recording() {
    assert_eq!(
        start_request(Some("id".to_string()), 2, 44100, true),
        RequestMessage::Start(StartMessage {
            trace_id: Some("id".to_string()),
            format: AudioFormat { channels: 2, sample_rate: 44100, bit_depth: 16, is_float: false },
            interim_results: true,
        })
    );
    assert_eq!(stop_request(), RequestMessage::Stop(StopMessage { disconnect: true }));
}

#[test]
fn chunks_decode_to_the_recording() {
    let samples: Vec<i16> = (0..1000).map(|i| (i * 37 % 4001) as i16 - 2000).collect();
    let mut chunker = Chunker::new(256);
    let mut decoded: Vec<i16> = vec![];
    for sample in &samples {
        if let Some(chunk) = chunker.push(*sample) {
            assert_eq!(chunk.len(), 256);
            decoded.extend(s16_samples(&chunk).unwrap());
        }
    }
    assert_eq!(decoded, samples[..896]);
    let rest = chunker.finish().unwrap();
    assert_eq!(rest.len(), 208);
    decoded.extend(s16_samples(&rest).unwrap());
    assert_eq!(decoded, samples);
}

#[test]
fn the_last_bytes_are_given_out_at_the_end() {
    let mut chunker = Chunker::new(256);
    assert_eq!(chunker.push(-2), None);
    assert_eq!(chunker.finish(), Some(vec![0xfe, 0xff]));
    let mut chunker = Chunker::new(2);
    assert_eq!(chunker.push(1), Some(vec![1, 0]));
    assert_eq!(chunker.finish(), None);
    assert_eq!(Chunker::new(256).finish(), None);
}

#[test]
fn an_odd_chunk_size_is_rounded_up() {
    let mut chunker = Chunker::new(3);
    assert_eq!(chunker.push(1), None);
    assert_eq!(chunker.push(-2), Some(vec![1, 0, 0xfe, 0xff]));
    assert_eq!(chunker.push(3), None);
}

#[test]
fn without_a_chunk_size_every_sample_goes_out() {
    let mut chunker = Chunker::new(0);
    assert_eq!(chunker.push(258), Some(vec![2, 1]));
    assert_eq!(chunker.push(-1), Some(vec![255, 255]));
}
