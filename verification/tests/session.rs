use streamer_template::api_types::{AudioFormat, RequestMessage, StartMessage, StopMessage};
use streamer_template::session::{ClientMessage, Session, SessionAction, SessionInput};

fn start(sample_rate: usize) -> StartMessage {
    StartMessage {
        trace_id: Some("trace".to_string()),
        format: AudioFormat { channels: 1, sample_rate, bit_depth: 16, is_float: false },
        interim_results: false,
    }
}

fn begin(sample_rate: usize) -> SessionInput<u8> {
    SessionInput::Message(ClientMessage::Request(RequestMessage::Start(start(sample_rate))))
}

fn stop(disconnect: bool) -> SessionInput<u8> {
    SessionInput::Message(ClientMessage::Request(RequestMessage::Stop(StopMessage { disconnect })))
}

fn name(action: &SessionAction<u8>) -> String {
    match action {
        SessionAction::Receive => "receive".to_string(),
        SessionAction::Begin => "begin".to_string(),
        SessionAction::Forward(a) => format!("forward {}", a),
        SessionAction::WindDown => "wind down".to_string(),
        SessionAction::Exit => "exit".to_string(),
    }
}

fn run(inputs: Vec<SessionInput<u8>>) -> (Session, Vec<String>) {
    let mut session = Session::new();
    let mut actions = vec![];
    for input in inputs {
        let (next, action) = session.step(input);
        session = next;
        actions.push(name(&action));
    }
    (session, actions)
}

fn audio(a: u8) -> SessionInput<u8> {
    SessionInput::Message(ClientMessage::Audio(a))
}

#[test]
fn a_recording_is_served() {
    let (session, actions) = run(vec![
        begin(16000),
        audio(1),
        audio(2),
        audio(3),
        stop(true),
        SessionInput::WoundDown,
    ]);
    assert!(matches!(session, Session::Closed));
    assert_eq!(
        actions,
        vec!["begin", "forward 1", "forward 2", "forward 3", "wind down", "exit"]
    );
}

#[test]
fn nothing_happens_before_a_start() {
    let (session, actions) = run(vec![
        audio(1),
        stop(true),
        SessionInput::Message(ClientMessage::InvalidText),
        SessionInput::Message(ClientMessage::Other),
        SessionInput::Message(ClientMessage::Close),
    ]);
    assert!(session.awaiting_start());
    assert!(session.start().is_none());
    assert_eq!(actions, vec!["receive"; 5]);
}

#[test]
fn a_client_that_never_starts_is_left() {
    let (session, actions) = run(vec![SessionInput::Ended]);
    assert!(matches!(session, Session::Closed));
    assert_eq!(actions, vec!["exit"]);
}

#[test]
fn a_stop_can_keep_the_connection() {
    let (session, actions) =
        run(vec![begin(16000), audio(1), stop(false), SessionInput::WoundDown, audio(2)]);
    assert_eq!(actions, vec!["begin", "forward 1", "wind down", "begin", "forward 2"]);
    assert_eq!(session.start(), Some(&start(16000)));
    assert!(!session.awaiting_start());
}

#[test]
fn a_start_replaces_the_stream() {
    let (session, actions) = run(vec![begin(16000), audio(1), begin(8000)]);
    assert_eq!(actions, vec!["begin", "forward 1", "wind down"]);
    assert_eq!(session.start(), Some(&start(8000)));
    let (session, action) = session.step(SessionInput::WoundDown);
    assert_eq!(name(&action), "begin");
    assert_eq!(session.start(), Some(&start(8000)));
}

#[test]
fn closing_ends_the_connection_at_once() {
    let (session, actions) =
        run(vec![begin(16000), audio(1), SessionInput::Message(ClientMessage::Close)]);
    assert!(matches!(session, Session::Closed));
    assert_eq!(actions, vec!["begin", "forward 1", "exit"]);
}

#[test]
fn noise_is_ignored() {
    let (session, actions) = run(vec![
        begin(16000),
        SessionInput::Message(ClientMessage::InvalidText),
        SessionInput::Message(ClientMessage::Other),
        SessionInput::Ended,
        SessionInput::WoundDown,
    ]);
    assert!(matches!(session, Session::Closed));
    assert_eq!(actions, vec!["begin", "receive", "receive", "wind down", "exit"]);
}

#[test]
fn noise_changes_no_connection() {
    let noise = || SessionInput::<u8>::Message(ClientMessage::Other);
    let text = || SessionInput::<u8>::Message(ClientMessage::InvalidText);
    let (noisy, mut done) = run(vec![
        text(), begin(8000), noise(), audio(1), text(), audio(2), noise(), stop(false),
        SessionInput::WoundDown, text(), audio(3),
    ]);
    let (quiet, expected) = run(vec![
        begin(8000), audio(1), audio(2), stop(false), SessionInput::WoundDown, audio(3),
    ]);
    for i in [9, 6, 4, 2, 0] {
        assert_eq!(done.remove(i), name(&SessionAction::Receive));
    }
    assert_eq!(done, expected);
    assert_eq!(noisy.start(), quiet.start());
    assert!(matches!(noisy, Session::Streaming { got_messages: true, .. }));
    assert!(matches!(quiet, Session::Streaming { got_messages: true, .. }));
}

#[test]
fn the_end_of_messages_ends_the_connection() {
    let (session, actions) = run(vec![
        begin(16000),
        audio(1),
        SessionInput::Ended,
        SessionInput::WoundDown,
        SessionInput::Ended,
        SessionInput::WoundDown,
    ]);
    assert!(matches!(session, Session::Closed));
    assert_eq!(
        actions,
        vec!["begin", "forward 1", "wind down", "begin", "wind down", "exit"]
    );
}

#[test]
fn audio_that_is_not_taken_ends_the_stream() {
    let (session, actions) =
        run(vec![begin(16000), audio(1), SessionInput::AudioRejected, SessionInput::WoundDown]);
    assert!(matches!(session, Session::Streaming { .. }));
    assert_eq!(actions, vec!["begin", "forward 1", "wind down", "begin"]);
}

#[test]
fn start_messages_carry_the_trace() {
    let message = start(16000);
    assert_eq!(message.get("traceparent"), Some("trace"));
    assert_eq!(message.get("tracestate"), None);
    assert_eq!(message.keys(), vec!["traceparent"]);
    let silent = StartMessage { trace_id: None, ..start(16000) };
    assert_eq!(silent.get("traceparent"), None);
    assert_eq!(message.clone(), message);
}

#[test]
fn a_stop_does_not_disconnect_by_default() {
    assert_eq!(StopMessage::default(), StopMessage { disconnect: false });
}
