use std::sync::Arc;
use streamer_template::api_types::{ApiResponse, Event, SegmentOutput};
use streamer_template::model::{Inference, Output};
use streamer_template::segmented::{
    SegmentAction, SegmentInference, SegmentedRunner, Time, VadState, VadTransition, INTERIM_THRESHOLD,
    NANOS_PER_MILLI,
};

fn vad(speaking: bool, session_ms: u128, speech_ms: u128, speech: &[i32]) -> VadState<'_, i32> {
    VadState {
        speaking,
        session_time: session_ms * NANOS_PER_MILLI,
        speech_duration: speech_ms * NANOS_PER_MILLI,
        speech,
    }
}

#[test]
fn the_start_of_speech_is_announced() {
    let mut runner = SegmentedRunner::new(2, true);
    let actions = runner.on_transition(VadTransition::<i32>::SpeechStart { timestamp_ms: 120 });
    assert_eq!(
        actions,
        vec![SegmentAction::Send(ApiResponse {
            data: Event::Active { time: Time::Millis(120) },
            channel: 2,
        })]
    );
    assert_eq!(runner.last_inference, 0);
}

#[test]
fn the_end_of_speech_is_announced_and_inferred() {
    let mut runner = SegmentedRunner::new(1, false);
    let actions = runner.on_transition(VadTransition::SpeechEnd {
        start_timestamp_ms: 100,
        end_timestamp_ms: 900,
        samples: vec![1, 2, 3],
    });
    assert_eq!(
        actions,
        vec![
            SegmentAction::Send(ApiResponse {
                data: Event::Inactive { time: Time::Millis(900) },
                channel: 1,
            }),
            SegmentAction::Infer(SegmentInference {
                samples: vec![1, 2, 3],
                start_ms: 100,
                end_ms: 900,
                is_final: true,
            }),
        ]
    );
    assert_eq!(runner.last_inference, 900 * NANOS_PER_MILLI);
}

#[test]
fn every_utterance_is_inferred() {
    let mut runner = SegmentedRunner::new(0, true);
    let mut inferred = vec![];
    for n in 0..5usize {
        let start = VadTransition::SpeechStart { timestamp_ms: 1000 * n };
        let end = VadTransition::SpeechEnd {
            start_timestamp_ms: 1000 * n,
            end_timestamp_ms: 1000 * n + 400,
            samples: vec![n; n],
        };
        for transition in [start, end] {
            for action in runner.on_transition(transition) {
                if let SegmentAction::Infer(inference) = action {
                    assert!(inference.is_final);
                    inferred.push(inference.samples);
                }
            }
        }
    }
    assert_eq!(inferred, (0..5usize).map(|n| vec![n; n]).collect::<Vec<_>>());
}

#[test]
fn interim_results_come_every_half_second() {
    assert_eq!(INTERIM_THRESHOLD, 500 * NANOS_PER_MILLI);
    let mut runner = SegmentedRunner::new(0, true);
    assert_eq!(runner.on_processed(&vad(true, 499, 100, &[1])), None);
    assert_eq!(
        runner.on_processed(&vad(true, 500, 101, &[1, 2])),
        Some(SegmentInference { samples: vec![1, 2], start_ms: 399, end_ms: 500, is_final: false })
    );
    assert_eq!(runner.on_processed(&vad(true, 999, 600, &[1, 2, 3])), None);
    assert!(runner.on_processed(&vad(true, 1000, 601, &[1, 2, 3])).is_some());
    assert_eq!(runner.on_processed(&vad(false, 5000, 0, &[])), None);
    assert_eq!(runner.last_inference, 1000 * NANOS_PER_MILLI);
}

#[test]
fn the_end_of_speech_puts_interim_results_off() {
    let mut runner = SegmentedRunner::new(0, true);
    let _ = runner.on_transition(VadTransition::SpeechEnd {
        start_timestamp_ms: 0,
        end_timestamp_ms: 700,
        samples: vec![1],
    });
    assert_eq!(runner.on_processed(&vad(true, 1100, 50, &[1])), None);
    assert!(runner.on_processed(&vad(true, 1200, 150, &[1])).is_some());
}

#[test]
fn interim_results_are_opt_in() {
    let mut runner = SegmentedRunner::new(0, false);
    for n in 0..20 {
        assert_eq!(runner.on_processed(&vad(true, 500 * n, 100, &[1])), None);
    }
    assert_eq!(runner.last_inference, 0);
}

#[test]
fn speech_at_the_end_of_audio_is_inferred() {
    let runner = SegmentedRunner::new(4, false);
    let mut state = vad(true, 2500, 1200, &[7, 8]);
    state.session_time += 250;
    assert_eq!(
        runner.on_end(&state),
        vec![
            SegmentAction::Send(ApiResponse {
                data: Event::Inactive { time: Time::Nanos(2500 * NANOS_PER_MILLI + 250) },
                channel: 4,
            }),
            SegmentAction::Infer(SegmentInference {
                samples: vec![7, 8],
                start_ms: 1300,
                end_ms: 2500,
                is_final: true,
            }),
        ]
    );
    assert_eq!(runner.on_end(&vad(false, 2500, 0, &[])), vec![]);
}

#[test]
fn speech_is_announced_and_inferred() {
    let mut runner = SegmentedRunner::new(0, true);
    let mut said: Vec<&str> = vec![];
    let mut note = |actions: Vec<SegmentAction<i32>>| {
        for action in actions {
            said.push(match action {
                SegmentAction::Send(ApiResponse { data: Event::Active { .. }, .. }) => "active",
                SegmentAction::Send(ApiResponse { data: Event::Inactive { .. }, .. }) => "inactive",
                SegmentAction::Infer(inference) if inference.is_final => "final",
                SegmentAction::Infer(_) => "interim",
                SegmentAction::Send(_) => "other",
            });
        }
    };
    note(runner.on_transition(VadTransition::SpeechStart { timestamp_ms: 100 }));
    note(runner.on_processed(&vad(true, 700, 600, &[1])).map(SegmentAction::Infer).into_iter().collect());
    note(runner.on_transition(VadTransition::SpeechEnd {
        start_timestamp_ms: 100,
        end_timestamp_ms: 900,
        samples: vec![1, 2],
    }));
    note(runner.on_transition(VadTransition::SpeechStart { timestamp_ms: 1000 }));
    note(runner.on_processed(&vad(true, 1100, 100, &[3])).map(SegmentAction::Infer).into_iter().collect());
    note(runner.on_end(&vad(true, 1100, 100, &[3])));
    assert_eq!(said, ["active", "interim", "inactive", "final", "active", "inactive", "final"]);
}

#[test]
fn segments_say_whether_they_are_final() {
    let runner = SegmentedRunner::new(4, false);
    let output = Output { count: 9 };
    for is_final in [true, false] {
        assert_eq!(
            runner.respond(10, 20, is_final, Inference::Done(output)),
            ApiResponse {
                data: Event::Segment(SegmentOutput {
                    start_time: Time::Millis(10),
                    end_time: Time::Millis(20),
                    is_final: Some(is_final),
                    output,
                }),
                channel: 4,
            }
        );
    }
    assert_eq!(
        runner.respond(10, 20, true, Inference::Panicked).data,
        Event::Error { message: "Internal server error".to_string() }
    );
    assert_eq!(
        runner.respond(10, 20, true, Inference::Failed { message: "no".to_string() }).data,
        Event::Error { message: "no".to_string() }
    );
}

#[test]
fn messages_are_joined_for_detection() {
    let runner = SegmentedRunner::new(0, false);
    assert_eq!(
        runner.on_messages(&vec![Arc::new(vec![1, 2]), Arc::new(vec![3])]),
        Some(vec![1, 2, 3])
    );
    assert_eq!(runner.on_messages(&vec![Arc::new(Vec::<i32>::new())]), Some(vec![]));
    assert_eq!(runner.on_messages(&Vec::<Arc<Vec<i32>>>::new()), None);
}
