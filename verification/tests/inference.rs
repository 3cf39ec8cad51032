use std::collections::VecDeque;
use std::sync::Arc;
use streamer_template::api_types::{Event, SegmentOutput, StartMessage, AudioFormat};
use streamer_template::context::Runner;
use streamer_template::inference::{inference_event, join_audio, InferenceRunner, Span};
use streamer_template::model::{Hundredths, Inference, Model, Output};
use streamer_template::{Config, StreamingContext};

/// Feeds messages to a runner in batches of up to `batch_size`, and lets inferences end when no
/// more may run. Returns the events in the order in which they go out.
fn drive(
    runner: &mut InferenceRunner,
    messages: Vec<Arc<Vec<f32>>>,
    batch_size: usize,
    infer: &dyn Fn(&[f32]) -> Inference,
    channel: usize,
) -> Vec<Event<usize>> {
    let mut events = vec![];
    let mut messages: VecDeque<Arc<Vec<f32>>> = messages.into();
    let mut running: VecDeque<Inference> = VecDeque::new();
    while !runner.finished() {
        if runner.wants_audio() {
            let n = batch_size.min(messages.len());
            let batch: Vec<Arc<Vec<f32>>> = messages.drain(..n).collect();
            if let Some(task) = runner.on_messages(&batch) {
                assert_eq!(task.span.end - task.span.start, task.audio.len());
                running.push_back(infer(&task.audio));
            }
        } else {
            assert!(runner.wants_result());
            let answer = runner.on_result(running.pop_front().unwrap());
            assert_eq!(answer.response.channel, channel);
            events.push(answer.response.data);
        }
        assert!(running.len() <= 4);
    }
    events
}

#[test]
fn doesnt_lose_data() {
    let model = Model::speedy(0.0f32);
    let context = StreamingContext::new_with_model(model, Some(4));
    let mut bytes_sent = 0;
    let mut messages = vec![];
    for _ in 0..100 {
        let data = fastrand::u8(5..);
        bytes_sent += data as usize;
        messages.push(Arc::new((0..data).map(|x| x as f32).collect::<Vec<f32>>()));
    }
    let mut runner = context.inference_runner(1);
    let infer = |audio: &[f32]| {
        context.model.infer(
            audio,
            fastrand::f32() < context.model.failure_rate,
            fastrand::f32() < context.model.panic_rate,
        )
    };
    let events = drive(&mut runner, messages, 10, &infer, 1);
    let mut received = 0;
    for event in events {
        match event {
            Event::Data(Output { count }) => {
                received += count;
            }
            Event::Segment(SegmentOutput { output, .. }) => {
                received += output.count;
            }
            e => panic!("Unexpected: {:?}", e),
        }
    }
    assert_eq!(bytes_sent, received);
    assert_eq!(runner.position(), bytes_sent);
}

#[test]
fn broken_model() {
    let model = Model::flaky(0.0f32, 1.0, 0.0);
    let context = StreamingContext::new_with_model(model, Some(4));
    let messages: Vec<Arc<Vec<f32>>> =
        (0..100).map(|_| Arc::new((0..10).map(|x| x as f32).collect())).collect();
    let mut runner = context.inference_runner(0);
    let infer = |audio: &[f32]| {
        context.model.infer(
            audio,
            fastrand::f32() < context.model.failure_rate,
            fastrand::f32() < context.model.panic_rate,
        )
    };
    let events = drive(&mut runner, messages, 10, &infer, 0);
    let mut received_errors = 0;
    for event in events {
        match event {
            Event::Error { .. } => {
                received_errors += 1;
            }
            _ => {
                panic!("Didn't expect actual messages back!");
            }
        }
    }
    assert!(received_errors > 1);
    assert_eq!(received_errors, 10);
}

#[test]
fn segments_leave_no_gap() {
    let mut runner = InferenceRunner::new(0, 2);
    let messages: Vec<Arc<Vec<f32>>> =
        (1..20).map(|n| Arc::new(vec![0.5; n])).collect();
    let infer = |audio: &[f32]| Inference::Done(Output { count: audio.len() });
    let mut end = 0;
    for event in drive(&mut runner, messages, 3, &infer, 0) {
        match event {
            Event::Segment(segment) => {
                assert_eq!(segment.start_time, end);
                assert_eq!(segment.end_time - segment.start_time, segment.output.count);
                assert_eq!(segment.is_final, None);
                end = segment.end_time;
            }
            e => panic!("Unexpected: {:?}", e),
        }
    }
    assert_eq!(end, 190);
}

#[test]
fn a_full_runner_takes_no_audio() {
    let mut runner = InferenceRunner::new(3, 2);
    let message = Arc::new(vec![1u8, 2, 3]);
    assert!(runner.wants_audio() && !runner.wants_result());
    let first = runner.on_messages(&vec![message.clone(), message.clone()]).unwrap();
    assert_eq!(first.audio, vec![1, 2, 3, 1, 2, 3]);
    assert_eq!(first.span, Span { start: 0, end: 6 });
    let second = runner.on_messages(&vec![message]).unwrap();
    assert_eq!(second.span, Span { start: 6, end: 9 });
    assert!(!runner.wants_audio() && runner.wants_result());
    let answer = runner.on_result(Inference::Panicked);
    assert_eq!(answer.span, Span { start: 0, end: 6 });
    assert_eq!(answer.response.channel, 3);
    assert_eq!(answer.response.data, Event::Error { message: "Internal server error".to_string() });
    assert!(runner.wants_audio());
    assert!(runner.on_messages(&Vec::<Arc<Vec<u8>>>::new()).is_none());
    assert!(!runner.wants_audio() && !runner.finished());
    let answer = runner.on_result(Inference::Failed { message: "broken".to_string() });
    assert_eq!(answer.span, Span { start: 6, end: 9 });
    assert_eq!(answer.response.data, Event::Error { message: "broken".to_string() });
    assert!(runner.finished());
}

#[test]
fn audio_is_joined_in_order() {
    let batch = vec![Arc::new(vec![1, 2]), Arc::new(vec![]), Arc::new(vec![3])];
    assert_eq!(join_audio(&batch), vec![1, 2, 3]);
    assert_eq!(join_audio(&Vec::<Arc<Vec<i32>>>::new()), vec![]);
}

#[test]
fn inferences_become_events() {
    let output = Output { count: 7 };
    assert_eq!(inference_event::<u8>(Inference::Done(output), None, Some(true)), Event::Data(output));
    assert_eq!(
        inference_event(Inference::Done(output), Some((1, 2)), Some(false)),
        Event::Segment(SegmentOutput { start_time: 1, end_time: 2, is_final: Some(false), output })
    );
    assert_eq!(
        inference_event(Inference::Panicked, Some((1, 2)), Some(false)),
        Event::Error { message: "Internal server error".to_string() }
    );
}

#[test]
fn the_failure_draw_comes_before_the_panic_draw() {
    let model = Model::speedy(0);
    let failed = Inference::Failed { message: "Unexpected inference failure".to_string() };
    assert_eq!(model.infer(&[1, 2, 3], true, false), failed);
    assert_eq!(model.infer(&[1, 2, 3], true, true), failed);
    assert_eq!(model.infer(&[1, 2, 3], false, true), Inference::Panicked);
    assert_eq!(model.infer(&[1, 2, 3], false, false), Inference::Done(Output { count: 3 }));
}

#[test]
fn models_are_configured() {
    let model: Model<Hundredths> = Model::default();
    assert_eq!(model.delay, Hundredths(50));
    assert_eq!(model.constant_factor, Hundredths(30));
    assert_eq!(model.jitter, Hundredths(20));
    assert_eq!(model.failure_rate, Hundredths(0));
    assert_eq!(model.panic_rate, Hundredths(1));
    let flaky = Model::flaky(0.0, 0.25, 0.5);
    assert_eq!((flaky.delay, flaky.constant_factor, flaky.jitter), (0.0, 0.0, 0.0));
    assert_eq!((flaky.failure_rate, flaky.panic_rate), (0.25, 0.5));
}

#[test]
fn contexts_run_as_many_inferences_as_the_machine_can() {
    let context: StreamingContext<Model<Hundredths>> = StreamingContext::new(Some(16));
    assert_eq!(context.max_futures, 16);
    assert_eq!(context.model.delay, Hundredths(50));
    let context: StreamingContext<u8> = StreamingContext::new_with_config(Config { model: 3 }, None);
    assert_eq!((context.model, context.max_futures), (3, 4));
}

#[test]
fn every_channel_has_a_runner() {
    let context = StreamingContext::new_with_model((), Some(2));
    let start = StartMessage {
        trace_id: None,
        format: AudioFormat { channels: 3, sample_rate: 16000, bit_depth: 16, is_float: false },
        interim_results: true,
    };
    for (channel, runner) in context.runners(&start, true).into_iter().enumerate() {
        match runner {
            Runner::Segmented(runner) => {
                assert_eq!(runner.channel, channel);
                assert!(runner.interim_results);
                assert_eq!(runner.last_inference, 0);
            }
            Runner::Simple(_) => panic!("not segmented"),
        }
    }
    let runners = context.runners(&start, false);
    assert_eq!(runners.len(), 3);
    for (channel, runner) in runners.into_iter().enumerate() {
        match runner {
            Runner::Simple(mut runner) => {
                let _ = runner.on_messages(&vec![Arc::new(vec![0u8])]);
                assert_eq!(runner.on_result(Inference::Panicked).response.channel, channel);
            }
            Runner::Segmented(_) => panic!("segmented"),
        }
    }
}
