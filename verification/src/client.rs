//! Streaming a recording to the service.
use vstd::prelude::*;

use crate::api_types::{AudioFormat, RequestMessage, StartMessage, StopMessage};
use crate::pcm::{law_decode_after_encode, lemma_encode_concat, s16_bytes, s16_decoded, s16_encoded};
use crate::session::{forwarded, ClientMessage, Session, SessionInput};

verus! {

/// Asks for a stream of signed 16-bit samples.
pub fn start_request(
    trace_id: Option<String>,
    channels: u16,
    sample_rate: u32,
    interim_results: bool,
) -> (r: RequestMessage)
    ensures
        r == RequestMessage::Start(
            StartMessage {
                trace_id,
                format: AudioFormat {
                    channels: channels as usize,
                    sample_rate: sample_rate as usize,
                    bit_depth: 16,
                    is_float: false,
                },
                interim_results,
            },
        ),
{
    RequestMessage::Start(
        StartMessage {
            trace_id,
            format: AudioFormat {
                channels: channels as usize,
                sample_rate: sample_rate as usize,
                bit_depth: 16,
                is_float: false,
            },
            interim_results,
        },
    )
}

/// Asks for the end of the stream and of the connection.
pub fn stop_request() -> (r: RequestMessage)
    ensures
        r == RequestMessage::Stop(StopMessage { disconnect: true }),
{
    RequestMessage::Stop(StopMessage { disconnect: true })
}

/// What a chunker knows: how many bytes make a chunk, and the bytes that wait.
pub struct ChunkerState {
    pub chunk_size: nat,
    pub pending: Seq<u8>,
}

impl ChunkerState {
    /// The bytes that wait once a sample has come in, before a chunk is cut.
    pub open spec fn filled(self, sample: i16) -> Seq<u8> {
        self.pending + s16_encoded(seq![sample])
    }

    /// The chunk that a sample completes.
    pub open spec fn chunk(self, sample: i16) -> Option<Seq<u8>> {
        if self.filled(sample).len() >= self.chunk_size {
            Some(self.filled(sample))
        } else {
            None
        }
    }

    /// The state after a sample.
    pub open spec fn after(self, sample: i16) -> Self {
        ChunkerState {
            pending: match self.chunk(sample) {
                Some(_) => Seq::empty(),
                None => self.filled(sample),
            },
            ..self
        }
    }

    /// The state after a sequence of samples.
    pub open spec fn run(self, samples: Seq<i16>) -> Self
        decreases samples.len(),
    {
        if samples.len() == 0 {
            self
        } else {
            self.run(samples.drop_last()).after(samples.last())
        }
    }

    /// The chunks that a sequence of samples completes.
    pub open spec fn chunks(self, samples: Seq<i16>) -> Seq<Seq<u8>>
        decreases samples.len(),
    {
        if samples.len() == 0 {
            Seq::empty()
        } else {
            let before = self.chunks(samples.drop_last());
            match self.run(samples.drop_last()).chunk(samples.last()) {
                Some(chunk) => before.push(chunk),
                None => before,
            }
        }
    }
}

/// Cuts a recording into chunks to send.
pub struct Chunker {
    chunk_size: usize,
    buffer: Vec<u8>,
}

impl View for Chunker {
    type V = ChunkerState;

    closed spec fn view(&self) -> ChunkerState {
        ChunkerState { chunk_size: self.chunk_size as nat, pending: self.buffer@ }
    }
}

impl Chunker {
    /// A chunker that has seen no samples.
    pub fn new(chunk_size: usize) -> (r: Self)
        ensures
            r@ == (ChunkerState { chunk_size: chunk_size as nat, pending: Seq::empty() }),
    {
        Chunker { chunk_size, buffer: Vec::new() }
    }

    /// Takes in a sample, and gives out the chunk that it completes.
    pub fn push(&mut self, sample: i16) -> (r: Option<Vec<u8>>)
        ensures
            final(self)@ == old(self)@.after(sample),
            match old(self)@.chunk(sample) {
                Some(chunk) => r matches Some(bytes) && bytes@ == chunk,
                None => r is None,
            },
            r is Some <==> old(self)@.pending.len() + 2 >= old(self)@.chunk_size,
            r matches Some(bytes) ==> bytes@ == old(self)@.pending + s16_encoded(seq![sample])
                && final(self)@.pending.len() == 0,
            r is None ==> final(self)@.pending == old(self)@.pending + s16_encoded(seq![sample]),
            final(self)@.chunk_size == old(self)@.chunk_size,
    {
        let (low, high): (u8, u8) = s16_bytes(sample);
        self.buffer.push(low);
        self.buffer.push(high);
        assert(self.buffer@ =~= old(self)@.filled(sample)) by {
            assert(seq![low, high] == s16_encoded(seq![sample]));
        }
        if self.buffer.len() >= self.chunk_size {
            let mut chunk: Vec<u8> = Vec::new();
            std::mem::swap(&mut chunk, &mut self.buffer);
            Some(chunk)
        } else {
            None
        }
    }

    /// Ends the recording, and gives out the bytes that still wait.
    pub fn finish(self) -> (r: Option<Vec<u8>>)
        ensures
            self@.pending.len() == 0 ==> r is None,
            self@.pending.len() > 0 ==> (r matches Some(bytes) && bytes@ == self@.pending),
    {
        if self.buffer.is_empty() {
            None
        } else {
            Some(self.buffer)
        }
    }
}

proof fn lemma_run(s: ChunkerState, samples: Seq<i16>)
    requires
        s.pending == Seq::<u8>::empty(),
    ensures
        s.run(samples).chunk_size == s.chunk_size,
        s.run(samples).pending.len() % 2 == 0,
        s.run(samples).pending.len() < s.chunk_size || s.run(samples).pending.len() == 0,
        s.chunks(samples).flatten() + s.run(samples).pending == s16_encoded(samples),
    decreases samples.len(),
{
    if samples.len() == 0 {
        assert(s.chunks(samples).flatten() + s.run(samples).pending =~= s16_encoded(samples));
    } else {
        let before = samples.drop_last();
        lemma_run(s, before);
        lemma_encode_concat(before, seq![samples.last()]);
        assert(before + seq![samples.last()] =~= samples);
        let mid = s.run(before);
        match mid.chunk(samples.last()) {
            Some(chunk) => {
                s.chunks(before).lemma_flatten_push(chunk);
            },
            None => {},
        }
        assert(s.chunks(samples).flatten() + s.run(samples).pending =~= s.chunks(before).flatten()
            + mid.pending + s16_encoded(seq![samples.last()]));
    }
}

/// The chunks of a recording, and after them the bytes that wait for a chunk to fill, are the
/// recording. Fewer bytes wait than make a chunk.
pub proof fn law_chunks_are_the_recording(s: ChunkerState, samples: Seq<i16>)
    requires
        s.pending == Seq::<u8>::empty(),
    ensures
        s.chunks(samples).flatten() + s.run(samples).pending == s16_encoded(samples),
        s.run(samples).pending.len() < s.chunk_size || s.run(samples).pending.len() == 0,
{
    lemma_run(s, samples);
}

/// Every chunk holds whole samples, and is full but not by more than one sample.
pub proof fn law_chunks_hold_whole_samples(s: ChunkerState, samples: Seq<i16>, k: int)
    requires
        s.pending == Seq::<u8>::empty(),
        0 <= k < s.chunks(samples).len(),
    ensures
        s.chunks(samples)[k].len() % 2 == 0,
        s.chunk_size <= s.chunks(samples)[k].len() < s.chunk_size + 2 || (s.chunk_size == 0
            && s.chunks(samples)[k].len() == 2),
    decreases samples.len(),
{
    let before = samples.drop_last();
    lemma_run(s, before);
    if k < s.chunks(before).len() {
        law_chunks_hold_whole_samples(s, before, k);
    }
}

/// All that is sent of a recording, the bytes given out at its end included, is the recording,
/// and decodes to it. Those last bytes are whole samples, so each piece can be decoded by itself.
pub proof fn law_the_whole_recording_is_sent(s: ChunkerState, samples: Seq<i16>)
    requires
        s.pending == Seq::<u8>::empty(),
    ensures
        ({
            let last = s.run(samples).pending;
            let sent = s.chunks(samples).flatten() + last;
            &&& last.len() % 2 == 0
            &&& sent == s16_encoded(samples)
            &&& s16_decoded(sent) == samples
        }),
{
    lemma_run(s, samples);
    law_decode_after_encode(samples);
}

/// A client that opens a stream, sends its audio and asks for the end is served: all its audio is
/// handed on, in order, and the connection closes once the stream has wound down.
pub proof fn law_a_whole_recording_is_served<A>(start: StartMessage, recording: Seq<A>)
    ensures
        ({
            let opened = Session::AwaitingStart.after(
                SessionInput::<A>::Message(ClientMessage::Request(RequestMessage::Start(start))),
            );
            let sent = recording.map_values(
                |a: A| SessionInput::Message(ClientMessage::Audio(a)),
            );
            let stop = SessionInput::<A>::Message(
                ClientMessage::Request(RequestMessage::Stop(StopMessage { disconnect: true })),
            );
            &&& opened.expects_all(sent)
            &&& forwarded(opened.responses(sent)) == recording
            &&& opened.run(sent) is Streaming
            &&& opened.run(sent).after(stop).after(SessionInput::<A>::WoundDown) == Session::Closed
        }),
    decreases recording.len(),
{
    let opened = Session::Streaming { start, got_messages: false };
    let sent = recording.map_values(|a: A| SessionInput::Message(ClientMessage::Audio(a)));
    if recording.len() > 0 {
        law_a_whole_recording_is_served(start, recording.drop_last());
        let before = recording.drop_last().map_values(
            |a: A| SessionInput::Message(ClientMessage::Audio(a)),
        );
        assert(sent.drop_last() =~= before);
        assert(opened.responses(sent).drop_last() =~= opened.responses(before));
        assert(recording.drop_last().push(recording.last()) =~= recording);
    } else {
        assert(sent =~= Seq::empty());
        assert(recording =~= Seq::empty());
    }
}

/// A sample completes a chunk exactly when it makes the bytes that wait as many as a chunk has, or
/// more. The chunk is all of those bytes, in order, and none are left; otherwise all of them wait.
pub proof fn law_a_full_chunk_goes_out(s: ChunkerState, sample: i16)
    ensures
        s.chunk(sample) is Some <==> s.pending.len() + 2 >= s.chunk_size,
        s.chunk(sample) matches Some(bytes) ==> bytes == s.pending + s16_encoded(seq![sample])
            && s.after(sample).pending == Seq::<u8>::empty(),
        s.chunk(sample) is None ==> s.after(sample).pending == s.pending + s16_encoded(
            seq![sample],
        ),
        s.after(sample).chunk_size == s.chunk_size,
{
}

} // verus!
