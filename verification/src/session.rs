//! The life of one client connection.
use vstd::prelude::*;

use crate::api_types::{RequestMessage, StartMessage};

verus! {

/// A message from the client. `A` is the representation of audio.
pub enum ClientMessage<A> {
    /// Text that is a request.
    Request(RequestMessage),
    /// Text that is not.
    InvalidText,
    /// Audio, in the format of the stream.
    Audio(A),
    /// The client closes the connection.
    Close,
    /// Anything else.
    Other,
}

/// Something that happens to a connection.
pub enum SessionInput<A> {
    /// A message came in.
    Message(ClientMessage<A>),
    /// No more messages will come.
    Ended,
    /// The audio that was forwarded last was not taken.
    AudioRejected,
    /// The tasks of the stream have ended.
    WoundDown,
}

/// What is to be done next.
pub enum SessionAction<A> {
    /// Wait for the next message.
    Receive,
    /// Set up decoding and one inference task per channel, then wait for the next message.
    Begin,
    /// Hand this audio to decoding, then wait for the next message.
    Forward(A),
    /// Let decoding and inference come to their end.
    WindDown,
    /// Leave the connection, and whatever still runs, alone.
    Exit,
}

/// Where a connection stands.
pub enum Session {
    /// No stream has been asked for.
    AwaitingStart,
    /// Audio of a stream may come in. `got_messages` tells whether any message did.
    Streaming { start: StartMessage, got_messages: bool },
    /// The stream is coming to its end, and `again` tells whether another follows it.
    WindingDown { start: StartMessage, again: bool },
    /// The connection is over.
    Closed,
}

impl Session {
    /// Whether this can happen to a connection that stands here.
    pub open spec fn expects<A>(self, input: SessionInput<A>) -> bool {
        match self {
            Session::AwaitingStart => input is Message || input is Ended,
            Session::Streaming { .. } => !(input is WoundDown),
            Session::WindingDown { .. } => input is WoundDown,
            Session::Closed => false,
        }
    }

    /// Where the connection stands once something has happened.
    pub open spec fn after<A>(self, input: SessionInput<A>) -> Session {
        match self {
            Session::AwaitingStart => match input {
                SessionInput::Message(ClientMessage::Request(RequestMessage::Start(start))) =>
                    Session::Streaming { start, got_messages: false },
                SessionInput::Message(_) => self,
                _ => Session::Closed,
            },
            Session::Streaming { start, got_messages } => match input {
                SessionInput::Message(message) => match message {
                    ClientMessage::Audio(_) => Session::Streaming { start, got_messages: true },
                    ClientMessage::Request(RequestMessage::Start(next)) => Session::WindingDown {
                        start: next,
                        again: true,
                    },
                    ClientMessage::Request(RequestMessage::Stop(stop)) => Session::WindingDown {
                        start,
                        again: !stop.disconnect,
                    },
                    ClientMessage::Close => Session::Closed,
                    _ => self,
                },
                _ => Session::WindingDown { start, again: got_messages },
            },
            Session::WindingDown { start, again } => if again {
                Session::Streaming { start, got_messages: false }
            } else {
                Session::Closed
            },
            Session::Closed => self,
        }
    }

    /// What is to be done once something has happened.
    pub open spec fn response<A>(self, input: SessionInput<A>) -> SessionAction<A> {
        match self.after(input) {
            Session::AwaitingStart => SessionAction::Receive,
            Session::Streaming { .. } => match input {
                SessionInput::Message(ClientMessage::Audio(audio)) => SessionAction::Forward(audio),
                _ => if self is Streaming {
                    SessionAction::Receive
                } else {
                    SessionAction::Begin
                },
            },
            Session::WindingDown { .. } => SessionAction::WindDown,
            Session::Closed => SessionAction::Exit,
        }
    }

    /// A connection that has just been made.
    pub fn new() -> (r: Self)
        ensures
            r == Session::AwaitingStart,
    {
        Session::AwaitingStart
    }

    /// Whether no stream has been asked for yet.
    pub fn awaiting_start(&self) -> (r: bool)
        ensures
            r == (self is AwaitingStart),
    {
        match self {
            Session::AwaitingStart => true,
            _ => false,
        }
    }

    /// The request that the stream in hand follows.
    pub fn start(&self) -> (r: Option<&StartMessage>)
        ensures
            match *self {
                Session::Streaming { start, .. } => r == Some(&start),
                Session::WindingDown { start, .. } => r == Some(&start),
                _ => r is None,
            },
    {
        match self {
            Session::Streaming { start, .. } => Some(start),
            Session::WindingDown { start, .. } => Some(start),
            _ => None,
        }
    }

    /// Moves the connection on.
    pub fn step<A>(self, input: SessionInput<A>) -> (r: (Session, SessionAction<A>))
        requires
            self.expects(input),
        ensures
            r.0 == self.after(input),
            r.1 == self.response(input),
            self is AwaitingStart ==> (input matches SessionInput::Message(
                ClientMessage::Request(RequestMessage::Start(start)),
            ) ==> r.0 == (Session::Streaming { start, got_messages: false })
                && r.1 is Begin),
            self matches Session::Streaming { start, .. } ==> (input matches SessionInput::Message(
                ClientMessage::Audio(audio),
            ) ==> r.0 == (Session::Streaming { start, got_messages: true })
                && r.1 == SessionAction::Forward(audio)),
    {
        match self {
            Session::AwaitingStart => match input {
                SessionInput::Message(ClientMessage::Request(RequestMessage::Start(start))) => (
                    Session::Streaming { start, got_messages: false },
                    SessionAction::Begin,
                ),
                SessionInput::Message(_) => (Session::AwaitingStart, SessionAction::Receive),
                _ => (Session::Closed, SessionAction::Exit),
            },
            Session::Streaming { start, got_messages } => match input {
                SessionInput::Message(message) => match message {
                    ClientMessage::Audio(audio) => (
                        Session::Streaming { start, got_messages: true },
                        SessionAction::Forward(audio),
                    ),
                    ClientMessage::Request(RequestMessage::Start(next)) => (
                        Session::WindingDown { start: next, again: true },
                        SessionAction::WindDown,
                    ),
                    ClientMessage::Request(RequestMessage::Stop(stop)) => (
                        Session::WindingDown { start, again: !stop.disconnect },
                        SessionAction::WindDown,
                    ),
                    ClientMessage::Close => (Session::Closed, SessionAction::Exit),
                    _ => (Session::Streaming { start, got_messages }, SessionAction::Receive),
                },
                _ => (
                    Session::WindingDown { start, again: got_messages },
                    SessionAction::WindDown,
                ),
            },
            Session::WindingDown { start, again } => if again {
                (Session::Streaming { start, got_messages: false }, SessionAction::Begin)
            } else {
                (Session::Closed, SessionAction::Exit)
            },
            Session::Closed => (Session::Closed, SessionAction::Exit),
        }
    }

    /// Where the connection stands after a sequence of inputs.
    pub open spec fn run<A>(self, inputs: Seq<SessionInput<A>>) -> Session
        decreases inputs.len(),
    {
        if inputs.len() == 0 {
            self
        } else {
            self.run(inputs.drop_last()).after(inputs.last())
        }
    }

    /// All that is to be done on a sequence of inputs.
    pub open spec fn responses<A>(self, inputs: Seq<SessionInput<A>>) -> Seq<SessionAction<A>>
        decreases inputs.len(),
    {
        if inputs.len() == 0 {
            Seq::empty()
        } else {
            self.responses(inputs.drop_last()).push(
                self.run(inputs.drop_last()).response(inputs.last()),
            )
        }
    }

    /// Whether each of a sequence of inputs can happen in turn.
    pub open spec fn expects_all<A>(self, inputs: Seq<SessionInput<A>>) -> bool
        decreases inputs.len(),
    {
        inputs.len() > 0 ==> self.expects_all(inputs.drop_last()) && self.run(
            inputs.drop_last(),
        ).expects(inputs.last())
    }
}

/// The audio that a sequence of actions hands to decoding.
pub open spec fn forwarded<A>(actions: Seq<SessionAction<A>>) -> Seq<A>
    decreases actions.len(),
{
    if actions.len() == 0 {
        Seq::empty()
    } else {
        match actions.last() {
            SessionAction::Forward(audio) => forwarded(actions.drop_last()).push(audio),
            _ => forwarded(actions.drop_last()),
        }
    }
}

/// The audio among a sequence of inputs.
pub open spec fn audio<A>(inputs: Seq<SessionInput<A>>) -> Seq<A>
    decreases inputs.len(),
{
    if inputs.len() == 0 {
        Seq::empty()
    } else {
        match inputs.last() {
            SessionInput::Message(ClientMessage::Audio(a)) => audio(inputs.drop_last()).push(a),
            _ => audio(inputs.drop_last()),
        }
    }
}

/// Before a start message nothing is done, whatever the client sends.
pub proof fn law_nothing_before_a_start<A>(inputs: Seq<SessionInput<A>>)
    requires
        Session::AwaitingStart.expects_all(inputs),
        forall|i: int|
            0 <= i < inputs.len() ==> !(#[trigger] inputs[i] is Ended) && !(
            inputs[i] matches SessionInput::Message(
                ClientMessage::Request(RequestMessage::Start(_)),
            )),
    ensures
        Session::AwaitingStart.run(inputs) == Session::AwaitingStart,
        forall|i: int|
            0 <= i < inputs.len() ==> #[trigger] Session::AwaitingStart.responses(inputs)[i]
                == SessionAction::<A>::Receive,
    decreases inputs.len(),
{
    if inputs.len() > 0 {
        let before = inputs.drop_last();
        assert forall|i: int| 0 <= i < before.len() implies !(#[trigger] before[i] is Ended) && !(
        before[i] matches SessionInput::Message(
            ClientMessage::Request(RequestMessage::Start(_)),
        )) by {
            assert(before[i] == inputs[i]);
        }
        law_nothing_before_a_start(before);
        lemma_one_response_each(Session::AwaitingStart, before);
        assert(inputs[inputs.len() - 1] == inputs.last());
        assert forall|i: int| 0 <= i < inputs.len() implies #[trigger] Session::AwaitingStart.responses(
            inputs,
        )[i] == SessionAction::<A>::Receive by {
            if i < before.len() {
                assert(Session::AwaitingStart.responses(before)[i] == SessionAction::<A>::Receive);
            }
        }
    }
}

proof fn lemma_one_response_each<A>(s: Session, inputs: Seq<SessionInput<A>>)
    ensures
        s.responses(inputs).len() == inputs.len(),
    decreases inputs.len(),
{
    if inputs.len() > 0 {
        lemma_one_response_each(s, inputs.drop_last());
    }
}

/// Once a stream is open, all audio that comes in is handed on, in order: through restarts too,
/// up to the end of the connection.
pub proof fn law_all_audio_is_forwarded<A>(s: Session, inputs: Seq<SessionInput<A>>)
    requires
        s is Streaming,
        s.expects_all(inputs),
    ensures
        !(s.run(inputs) is AwaitingStart),
        forwarded(s.responses(inputs)) == audio(inputs),
    decreases inputs.len(),
{
    if inputs.len() > 0 {
        law_all_audio_is_forwarded(s, inputs.drop_last());
        assert(s.responses(inputs).drop_last() =~= s.responses(inputs.drop_last()));
    }
}

/// A stop with `disconnect` ends the connection once the stream has wound down; one without opens
/// the same stream again.
pub proof fn law_stop<A>(s: Session, stop: crate::api_types::StopMessage)
    requires
        s is Streaming,
    ensures
        ({
            let stopped = s.after(
                SessionInput::<A>::Message(ClientMessage::Request(RequestMessage::Stop(stop))),
            );
            let next = stopped.after(SessionInput::<A>::WoundDown);
            &&& stop.disconnect ==> next == Session::Closed
            &&& !stop.disconnect ==> next == (Session::Streaming {
                start: s->Streaming_start,
                got_messages: false,
            })
        }),
{
}

/// A start in the middle of a stream ends that stream and opens one as the new message says.
pub proof fn law_restart<A>(s: Session, start: StartMessage)
    requires
        s is Streaming,
    ensures
        ({
            let stopped = s.after(
                SessionInput::<A>::Message(ClientMessage::Request(RequestMessage::Start(start))),
            );
            &&& stopped is WindingDown
            &&& stopped.after(SessionInput::<A>::WoundDown) == (Session::Streaming {
                start,
                got_messages: false,
            })
        }),
{
}

/// Text that is no request, and messages of no interest, change nothing.
pub proof fn law_noise_is_ignored<A>(s: Session, message: ClientMessage<A>)
    requires
        s.expects(SessionInput::Message(message)),
        message is InvalidText || message is Other,
    ensures
        s.after(SessionInput::Message(message)) == s,
        s.response(SessionInput::Message(message)) == SessionAction::<A>::Receive,
{
}

/// Whether an input is text that is no request, or a message of no interest.
pub open spec fn is_noise<A>(input: SessionInput<A>) -> bool {
    input matches SessionInput::Message(message) && (message is InvalidText || message is Other)
}

/// A sequence of inputs without those of no interest.
pub open spec fn heard<A>(inputs: Seq<SessionInput<A>>) -> Seq<SessionInput<A>>
    decreases inputs.len(),
{
    if inputs.len() == 0 {
        Seq::empty()
    } else if is_noise(inputs.last()) {
        heard(inputs.drop_last())
    } else {
        heard(inputs.drop_last()).push(inputs.last())
    }
}

impl Session {
    /// What is to be done on a sequence of inputs, but for those of no interest.
    pub open spec fn responses_to_heard<A>(self, inputs: Seq<SessionInput<A>>) -> Seq<
        SessionAction<A>,
    >
        decreases inputs.len(),
    {
        if inputs.len() == 0 {
            Seq::empty()
        } else if is_noise(inputs.last()) {
            self.responses_to_heard(inputs.drop_last())
        } else {
            self.responses_to_heard(inputs.drop_last()).push(
                self.run(inputs.drop_last()).response(inputs.last()),
            )
        }
    }
}

/// Over a whole connection too, leaving out text that is no request and messages of no interest
/// changes neither where the connection stands, nor what is done on the other inputs, nor the audio
/// that is handed on.
pub proof fn law_noise_changes_no_connection<A>(s: Session, inputs: Seq<SessionInput<A>>)
    requires
        s.expects_all(inputs),
    ensures
        s.expects_all(heard(inputs)),
        s.run(heard(inputs)) == s.run(inputs),
        s.responses(heard(inputs)) == s.responses_to_heard(inputs),
        forwarded(s.responses(heard(inputs))) == forwarded(s.responses(inputs)),
    decreases inputs.len(),
{
    if inputs.len() > 0 {
        let before = inputs.drop_last();
        let last = inputs.last();
        law_noise_changes_no_connection(s, before);
        assert(s.responses(inputs).drop_last() =~= s.responses(before));
        if is_noise(last) {
            law_noise_is_ignored(s.run(before), last->Message_0);
        } else {
            assert(heard(inputs).drop_last() =~= heard(before));
            assert(s.responses(heard(inputs)).drop_last() =~= s.responses(heard(before)));
        }
    }
}

/// When the client is gone the connection ends, after at most one more stream, which is empty.
pub proof fn law_the_end_of_messages_ends_the_connection<A>(s: Session)
    requires
        s is Streaming,
    ensures
        ({
            let round = seq![SessionInput::<A>::Ended, SessionInput::<A>::WoundDown];
            let once = s.run(round);
            &&& s.expects_all(round)
            &&& once == Session::Closed || (once.expects_all(round) && once.run(round)
                == Session::Closed)
        }),
{
    let round = seq![SessionInput::<A>::Ended, SessionInput::<A>::WoundDown];
    lemma_round::<A>(s);
    let once = s.run(round);
    if once is Streaming {
        lemma_round::<A>(once);
    }
}

proof fn lemma_round<A>(s: Session)
    requires
        s is Streaming,
    ensures
        ({
            let round = seq![SessionInput::<A>::Ended, SessionInput::<A>::WoundDown];
            &&& s.expects_all(round)
            &&& s.run(round) == s.after(SessionInput::<A>::Ended).after(
                SessionInput::<A>::WoundDown,
            )
        }),
{
    let round = seq![SessionInput::<A>::Ended, SessionInput::<A>::WoundDown];
    reveal_with_fuel(Session::run, 3);
    reveal_with_fuel(Session::expects_all, 3);
    assert(round.drop_last() =~= seq![SessionInput::<A>::Ended]);
    assert(round.drop_last().drop_last() =~= Seq::<SessionInput<A>>::empty());
}

/// The first start message opens the stream that it describes, to the letter. Nothing else opens
/// one, and all that the end of messages does is close the connection.
pub proof fn law_the_first_start_opens_its_stream<A>(start: StartMessage, input: SessionInput<A>)
    requires
        Session::AwaitingStart.expects(input),
    ensures
        ({
            let first = SessionInput::<A>::Message(
                ClientMessage::Request(RequestMessage::Start(start)),
            );
            let opened = Session::AwaitingStart.after(first);
            &&& Session::AwaitingStart.expects(first)
            &&& opened matches Session::Streaming { start: served, got_messages }
            &&& served == start
            &&& served.trace_id == start.trace_id
            &&& served.format.channels == start.format.channels
            &&& served.format.sample_rate == start.format.sample_rate
            &&& served.format.bit_depth == start.format.bit_depth
            &&& served.format.is_float == start.format.is_float
            &&& served.interim_results == start.interim_results
            &&& !got_messages
            &&& Session::AwaitingStart.response(first) is Begin
        }),
        Session::AwaitingStart.after(input) is Streaming <==> (input matches SessionInput::Message(
            ClientMessage::Request(RequestMessage::Start(_)),
        )),
        input is Ended ==> Session::AwaitingStart.after(input) is Closed
            && Session::AwaitingStart.response(input) is Exit,
        input is Message && !(input matches SessionInput::Message(
            ClientMessage::Request(RequestMessage::Start(_)),
        )) ==> Session::AwaitingStart.after(input) is AwaitingStart
            && Session::AwaitingStart.response(input) is Receive,
{
}

/// What a connection waits for: before a start and while it winds down, and what it no longer does.
pub proof fn law_what_a_connection_waits_for<A>(s: Session, message: ClientMessage<A>)
    ensures
        s is AwaitingStart || s is Streaming <==> s.expects(SessionInput::Message(message)),
        s is AwaitingStart || s is Streaming <==> s.expects(SessionInput::<A>::Ended),
        s is Streaming <==> s.expects(SessionInput::<A>::AudioRejected),
        s is WindingDown <==> s.expects(SessionInput::<A>::WoundDown),
{
}

/// Audio of an open stream is handed on as it is, and leaves the stream as its start message said.
pub proof fn law_audio_keeps_the_stream<A>(start: StartMessage, got_messages: bool, audio: A)
    ensures
        ({
            let s = Session::Streaming { start, got_messages };
            let input = SessionInput::Message(ClientMessage::Audio(audio));
            &&& s.after(input) == (Session::Streaming { start, got_messages: true })
            &&& s.response(input) matches SessionAction::Forward(handed_on)
            &&& handed_on == audio
        }),
{
}

/// A request in the middle of a stream winds it down. A new start message is followed by the stream
/// that it describes; a stop by the same stream again, unless it asks to disconnect.
pub proof fn law_a_request_winds_the_stream_down<A>(
    start: StartMessage,
    got_messages: bool,
    request: RequestMessage,
)
    ensures
        ({
            let s = Session::Streaming { start, got_messages };
            let input = SessionInput::<A>::Message(ClientMessage::Request(request));
            &&& s.response(input) is WindDown
            &&& s.after(input) matches Session::WindingDown { start: next, again }
            &&& match request {
                RequestMessage::Start(asked) => next == asked && again,
                RequestMessage::Stop(stop) => next == start && again == !stop.disconnect,
            }
        }),
{
}

/// A client that closes the connection is left at once, whatever still runs.
pub proof fn law_closing_ends_the_connection<A>(start: StartMessage, got_messages: bool)
    ensures
        ({
            let s = Session::Streaming { start, got_messages };
            let input = SessionInput::<A>::Message(ClientMessage::Close);
            s.after(input) is Closed && s.response(input) is Exit
        }),
{
}

/// When no more messages come, or audio is no longer taken, the stream winds down. The same stream
/// follows it only if this one got any message.
pub proof fn law_a_cut_off_stream_winds_down<A>(
    start: StartMessage,
    got_messages: bool,
    input: SessionInput<A>,
)
    requires
        input is Ended || input is AudioRejected,
    ensures
        ({
            let s = Session::Streaming { start, got_messages };
            &&& s.response(input) is WindDown
            &&& s.after(input) matches Session::WindingDown { start: next, again }
            &&& next == start
            &&& again == got_messages
        }),
{
}

/// Once a stream has wound down, the next one opens as its start message says, or the connection
/// is over.
pub proof fn law_winding_down_leads_on<A>(start: StartMessage, again: bool)
    ensures
        ({
            let s = Session::WindingDown { start, again };
            let input = SessionInput::<A>::WoundDown;
            &&& again ==> s.after(input) == (Session::Streaming { start, got_messages: false })
                && s.response(input) is Begin
            &&& !again ==> s.after(input) is Closed && s.response(input) is Exit
        }),
{
}

/// A stream is served as its start message says for as long as no other start message comes:
/// through audio, noise, stops and restarts.
pub proof fn law_a_stream_keeps_its_start<A>(
    start: StartMessage,
    got_messages: bool,
    inputs: Seq<SessionInput<A>>,
)
    requires
        (Session::Streaming { start, got_messages }).expects_all(inputs),
        forall|i: int|
            0 <= i < inputs.len() ==> !((#[trigger] inputs[i]) matches SessionInput::Message(
                ClientMessage::Request(RequestMessage::Start(_)),
            )),
    ensures
        match (Session::Streaming { start, got_messages }).run(inputs) {
            Session::AwaitingStart => false,
            Session::Streaming { start: served, .. } => served == start,
            Session::WindingDown { start: served, .. } => served == start,
            Session::Closed => true,
        },
    decreases inputs.len(),
{
    if inputs.len() > 0 {
        let before = inputs.drop_last();
        assert forall|i: int| 0 <= i < before.len() implies !(
        (#[trigger] before[i]) matches SessionInput::Message(
            ClientMessage::Request(RequestMessage::Start(_)),
        )) by {
            assert(before[i] == inputs[i]);
        }
        law_a_stream_keeps_its_start(start, got_messages, before);
        assert(inputs[inputs.len() - 1] == inputs.last());
    }
}

} // verus!
