//! Running the model on every part of a channel's audio.
use std::collections::VecDeque;
use std::sync::Arc;
use vstd::prelude::*;

use crate::api_types::{ApiResponse, Event, SegmentOutput};
use crate::model::Inference;

verus! {

/// A piece of one channel's audio, shared between tasks.
pub type AudioChannel<T> = Arc<Vec<T>>;

/// What the audio of a batch of messages is.
pub open spec fn messages_view<T>(batch: Seq<AudioChannel<T>>) -> Seq<Seq<T>> {
    batch.map_values(|m: AudioChannel<T>| m@)
}

/// Joins the audio of a batch of messages.
pub fn join_audio<T: Copy>(batch: &Vec<AudioChannel<T>>) -> (r: Vec<T>)
    ensures
        r@ == messages_view(batch@).flatten(),
{
    let mut audio: Vec<T> = Vec::new();
    let ghost all = messages_view(batch@);
    let mut i: usize = 0;
    proof {
        assert(all.take(0).flatten() =~= Seq::<T>::empty());
    }
    while i < batch.len()
        invariant
            i <= batch@.len(),
            all == messages_view(batch@),
            audio@ == all.take(i as int).flatten(),
        decreases batch@.len() - i,
    {
        let message: &Vec<T> = &batch[i];
        let mut j: usize = 0;
        let ghost before = audio@;
        while j < message.len()
            invariant
                j <= message@.len(),
                audio@ == before + message@.take(j as int),
            decreases message@.len() - j,
        {
            audio.push(message[j]);
            assert(message@.take(j + 1) == message@.take(j as int).push(message@[j as int]));
            j = j + 1;
        }
        proof {
            assert(message@.take(j as int) == message@);
            assert(all.take(i + 1) == all.take(i as int).push(all[i as int]));
            all.take(i as int).lemma_flatten_push(all[i as int]);
        }
        i = i + 1;
    }
    assert(all.take(i as int) == all);
    audio
}

/// What the client is told of an inference.
pub fn inference_event<T>(
    outcome: Inference,
    bounds: Option<(T, T)>,
    is_final: Option<bool>,
) -> (r: Event<T>)
    ensures
        match outcome {
            Inference::Done(output) => match bounds {
                Some((start_time, end_time)) => r == Event::Segment(
                    SegmentOutput { start_time, end_time, is_final, output },
                ),
                None => r == Event::<T>::Data(output),
            },
            Inference::Failed { message } => r == (Event::<T>::Error { message }),
            Inference::Panicked => r matches Event::Error { message } && message@
                == "Internal server error"@,
        },
{
    match outcome {
        Inference::Done(output) => match bounds {
            Some((start_time, end_time)) => Event::Segment(
                SegmentOutput { start_time, end_time, is_final, output },
            ),
            None => Event::Data(output),
        },
        Inference::Failed { message } => Event::Error { message },
        Inference::Panicked => Event::Error { message: "Internal server error".to_string() },
    }
}

/// The samples of a channel from `start` up to `end`.
#[derive(Copy, Clone, Debug, PartialEq, Eq, Structural)]
pub struct Span {
    pub start: usize,
    pub end: usize,
}

/// One thing that happens to a runner.
pub enum RunnerStep<T> {
    /// A batch of messages came in.
    Batch(Seq<Seq<T>>),
    /// The channel closed.
    Closed,
    /// The oldest inference ended.
    Result,
}

/// What a runner knows: the channel it serves, how many inferences may run at once, whether audio
/// may still come, on which samples inferences run, oldest first, and how many samples have been
/// given to the model.
pub struct RunnerState {
    pub channel: usize,
    pub max_futures: nat,
    pub receiving: bool,
    pub running: Seq<Span>,
    pub position: nat,
}

impl RunnerState {
    /// The state of a runner that has seen no audio.
    pub open spec fn initial(channel: usize, max_futures: nat) -> Self {
        RunnerState { channel, max_futures, receiving: true, running: Seq::empty(), position: 0 }
    }

    /// Whether the next thing may be audio.
    pub open spec fn wants_audio(self) -> bool {
        self.receiving && self.running.len() < self.max_futures
    }

    /// Whether the next thing may be a result.
    pub open spec fn wants_result(self) -> bool {
        self.running.len() > 0
    }

    /// Whether nothing more will happen.
    pub open spec fn finished(self) -> bool {
        !self.receiving && self.running.len() == 0
    }

    /// What holds of every runner.
    pub open spec fn valid(self) -> bool {
        self.max_futures > 0 && self.running.len() <= self.max_futures
    }

    /// The samples that `audio` is, when it is what comes next.
    pub open spec fn next_span<T>(self, audio: Seq<T>) -> Span {
        Span { start: self.position as usize, end: (self.position + audio.len()) as usize }
    }

    /// Whether the runner takes this step.
    pub open spec fn accepts<T>(self, step: RunnerStep<T>) -> bool {
        match step {
            RunnerStep::Batch(messages) => {
                &&& self.wants_audio()
                &&& messages.len() > 0
                &&& self.position + messages.flatten().len() <= usize::MAX
            },
            RunnerStep::Closed => self.wants_audio(),
            RunnerStep::Result => self.wants_result(),
        }
    }

    /// The state after a step.
    pub open spec fn after<T>(self, step: RunnerStep<T>) -> Self {
        match step {
            RunnerStep::Batch(messages) => RunnerState {
                running: self.running.push(self.next_span(messages.flatten())),
                position: self.position + messages.flatten().len(),
                ..self
            },
            RunnerStep::Closed => RunnerState { receiving: false, ..self },
            RunnerStep::Result => RunnerState { running: self.running.drop_first(), ..self },
        }
    }
}

/// Audio to run the model on, and which samples of the channel it is.
#[derive(Debug, PartialEq, Eq)]
pub struct InferenceTask<T> {
    pub audio: Vec<T>,
    pub span: Span,
}

/// The answer to an inference, and which samples of the channel it is on.
#[derive(Debug, PartialEq, Eq)]
pub struct Answer {
    pub span: Span,
    pub response: ApiResponse<usize>,
}

/// Gives all the audio of a channel to the model, several pieces at a time, and answers in order.
pub struct InferenceRunner {
    channel: usize,
    max_futures: usize,
    receiving: bool,
    running: VecDeque<Span>,
    position: usize,
}

impl View for InferenceRunner {
    type V = RunnerState;

    closed spec fn view(&self) -> RunnerState {
        RunnerState {
            channel: self.channel,
            max_futures: self.max_futures as nat,
            receiving: self.receiving,
            running: self.running@,
            position: self.position as nat,
        }
    }
}

impl InferenceRunner {
    #[verifier::type_invariant]
    spec fn inv(self) -> bool {
        self@.valid()
    }

    /// A runner that has seen no audio.
    pub fn new(channel: usize, max_futures: usize) -> (r: Self)
        requires
            max_futures > 0,
        ensures
            r@ == RunnerState::initial(channel, max_futures as nat),
            r@.valid(),
            r@.channel == channel && r@.max_futures == max_futures,
            r@.receiving && r@.running.len() == 0 && r@.position == 0,
    {
        InferenceRunner {
            channel,
            max_futures,
            receiving: true,
            running: VecDeque::new(),
            position: 0,
        }
    }

    /// Whether the next thing may be audio.
    pub fn wants_audio(&self) -> (r: bool)
        ensures
            r == self@.wants_audio(),
            r == (self@.receiving && self@.running.len() < self@.max_futures),
    {
        self.receiving && self.running.len() < self.max_futures
    }

    /// Whether the next thing may be a result.
    pub fn wants_result(&self) -> (r: bool)
        ensures
            r == self@.wants_result(),
            r == (self@.running.len() > 0),
    {
        self.running.len() > 0
    }

    /// Whether nothing more will happen.
    pub fn finished(&self) -> (r: bool)
        ensures
            r == self@.finished(),
            r == (!self@.receiving && self@.running.len() == 0),
    {
        !self.receiving && self.running.len() == 0
    }

    /// How many samples have been given to the model.
    pub fn position(&self) -> (r: usize)
        ensures
            r == self@.position,
    {
        self.position
    }

    /// Takes a batch of messages and makes one inference of it. An empty batch says that the
    /// channel has closed.
    pub fn on_messages<T: Copy>(&mut self, batch: &Vec<AudioChannel<T>>) -> (r: Option<
        InferenceTask<T>,
    >)
        requires
            old(self)@.wants_audio(),
            old(self)@.position + messages_view(batch@).flatten().len() <= usize::MAX,
        ensures
            final(self)@.valid(),
            batch@.len() == 0 ==> {
                &&& r is None
                &&& final(self)@ == old(self)@.after(RunnerStep::<T>::Closed)
                &&& !final(self)@.receiving
                &&& final(self)@.running == old(self)@.running
                &&& final(self)@.position == old(self)@.position
            },
            batch@.len() > 0 ==> {
                &&& r matches Some(task)
                &&& task.audio@ == messages_view(batch@).flatten()
                &&& task.span == old(self)@.next_span(task.audio@)
                &&& final(self)@ == old(self)@.after(RunnerStep::Batch(messages_view(batch@)))
                &&& task.span.start == old(self)@.position
                &&& task.span.end == old(self)@.position + task.audio@.len()
                &&& final(self)@.receiving
                &&& final(self)@.running == old(self)@.running.push(task.span)
                &&& final(self)@.position == task.span.end
            },
            final(self)@.channel == old(self)@.channel,
            final(self)@.max_futures == old(self)@.max_futures,
    {
        proof {
            use_type_invariant(&*self);
        }
        if batch.is_empty() {
            self.receiving = false;
            None
        } else {
            let audio: Vec<T> = join_audio(batch);
            let start: usize = self.position;
            let span: Span = Span { start, end: start + audio.len() };
            let mut running: VecDeque<Span> = VecDeque::new();
            std::mem::swap(&mut running, &mut self.running);
            running.push_back(span);
            self.running = running;
            self.position = span.end;
            Some(InferenceTask { audio, span })
        }
    }

    /// Answers for the oldest inference that runs.
    pub fn on_result(&mut self, outcome: Inference) -> (r: Answer)
        requires
            old(self)@.wants_result(),
        ensures
            final(self)@.valid(),
            final(self)@ == old(self)@.after(RunnerStep::<()>::Result),
            final(self)@.running == old(self)@.running.skip(1),
            final(self)@.receiving == old(self)@.receiving,
            final(self)@.position == old(self)@.position,
            final(self)@.channel == old(self)@.channel,
            final(self)@.max_futures == old(self)@.max_futures,
            r.span == old(self)@.running[0],
            r.response.channel == old(self)@.channel,
            match outcome {
                Inference::Done(output) => r.response.data == Event::Segment(
                    SegmentOutput {
                        start_time: r.span.start,
                        end_time: r.span.end,
                        is_final: None,
                        output,
                    },
                ),
                Inference::Failed { message } => r.response.data == (Event::<usize>::Error {
                    message,
                }),
                Inference::Panicked => r.response.data matches Event::Error { message } && message@
                    == "Internal server error"@,
            },
    {
        proof {
            use_type_invariant(&*self);
        }
        let mut running: VecDeque<Span> = VecDeque::new();
        std::mem::swap(&mut running, &mut self.running);
        let span: Span = running.pop_front().unwrap();
        assert(running@ =~= old(self)@.running.drop_first());
        self.running = running;
        Answer {
            span,
            response: ApiResponse {
                data: inference_event(outcome, Some((span.start, span.end)), None),
                channel: self.channel,
            },
        }
    }
}

} // verus!
