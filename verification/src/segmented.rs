//! Running the model on just the parts of a channel that contain speech.
use vstd::prelude::*;

use crate::api_types::{ApiResponse, Event, SegmentOutput};
use crate::inference::{inference_event, join_audio, messages_view, AudioChannel};
use crate::model::Inference;

verus! {

/// Nanoseconds in a millisecond.
pub const NANOS_PER_MILLI: u128 = 1_000_000;

/// Nanoseconds of audio between two inferences on the same speech.
pub const INTERIM_THRESHOLD: u128 = 500_000_000;

/// A point in a channel's audio.
#[derive(Copy, Clone, Debug, PartialEq, Eq, Structural)]
pub enum Time {
    /// Milliseconds from the start.
    Millis(usize),
    /// Nanoseconds from the start.
    Nanos(u128),
}

/// What voice activity detection reports.
#[derive(Debug, PartialEq, Eq)]
pub enum VadTransition<T> {
    SpeechStart { timestamp_ms: usize },
    SpeechEnd { start_timestamp_ms: usize, end_timestamp_ms: usize, samples: Vec<T> },
}

/// The state of voice activity detection after some audio.
pub struct VadState<'a, T> {
    /// Whether somebody speaks.
    pub speaking: bool,
    /// Nanoseconds of audio so far.
    pub session_time: u128,
    /// Nanoseconds of the speech that goes on.
    pub speech_duration: u128,
    /// Samples of the speech that goes on.
    pub speech: &'a [T],
}

/// Speech to run the model on.
#[derive(Debug, PartialEq, Eq)]
pub struct SegmentInference<T> {
    pub samples: Vec<T>,
    pub start_ms: usize,
    pub end_ms: usize,
    /// Whether the speech has ended.
    pub is_final: bool,
}

/// Something to be done before anything else is.
#[derive(Debug, PartialEq, Eq)]
pub enum SegmentAction<T> {
    /// Send this to the client.
    Send(ApiResponse<Time>),
    /// Run the model on this, and send the client what comes of it.
    Infer(SegmentInference<T>),
}

/// Whole milliseconds in a number of nanoseconds.
pub open spec fn whole_millis(nanos: int) -> usize {
    (nanos / NANOS_PER_MILLI as int) as usize
}

/// That an inference is on `samples`, from `start_ms` to `end_ms`.
pub open spec fn infers<T>(
    action: SegmentInference<T>,
    samples: Seq<T>,
    start_ms: usize,
    end_ms: usize,
    is_final: bool,
) -> bool {
    &&& action.samples@ == samples
    &&& action.start_ms == start_ms
    &&& action.end_ms == end_ms
    &&& action.is_final == is_final
}

/// What a segmented runner knows: the channel it serves, whether the client wants interim
/// results, and up to where, in nanoseconds, the model has seen the audio.
#[derive(Copy, Clone, Debug)]
pub struct SegmentedRunner {
    pub channel: usize,
    pub interim_results: bool,
    pub last_inference: u128,
}

impl SegmentedRunner {
    /// A runner that has seen no audio.
    pub open spec fn initial(channel: usize, interim_results: bool) -> Self {
        SegmentedRunner { channel, interim_results, last_inference: 0 }
    }

    /// A runner that has seen no audio.
    pub fn new(channel: usize, interim_results: bool) -> (r: Self)
        ensures
            r == SegmentedRunner::initial(channel, interim_results),
            r.channel == channel && r.interim_results == interim_results && r.last_inference == 0,
    {
        SegmentedRunner { channel, interim_results, last_inference: 0 }
    }

    /// The message that says that speech has begun.
    pub open spec fn active(self, time: Time) -> ApiResponse<Time> {
        ApiResponse { data: Event::Active { time }, channel: self.channel }
    }

    /// The message that says that speech has ended.
    pub open spec fn inactive(self, time: Time) -> ApiResponse<Time> {
        ApiResponse { data: Event::Inactive { time }, channel: self.channel }
    }

    /// What a report of voice activity detection calls for. The end of speech is announced before
    /// the model runs, because that is faster.
    pub open spec fn actions<T>(self, transition: VadTransition<T>) -> Seq<SegmentAction<T>> {
        match transition {
            VadTransition::SpeechStart { timestamp_ms } => seq![
                SegmentAction::Send(self.active(Time::Millis(timestamp_ms))),
            ],
            VadTransition::SpeechEnd { start_timestamp_ms, end_timestamp_ms, samples } => seq![
                SegmentAction::Send(self.inactive(Time::Millis(end_timestamp_ms))),
                SegmentAction::Infer(
                    SegmentInference {
                        samples,
                        start_ms: start_timestamp_ms,
                        end_ms: end_timestamp_ms,
                        is_final: true,
                    },
                ),
            ],
        }
    }

    /// The runner after a report of voice activity detection.
    pub open spec fn after_transition<T>(self, transition: VadTransition<T>) -> Self {
        match transition {
            VadTransition::SpeechStart { .. } => self,
            VadTransition::SpeechEnd { end_timestamp_ms, .. } => SegmentedRunner {
                last_inference: (end_timestamp_ms * NANOS_PER_MILLI) as u128,
                ..self
            },
        }
    }

    /// The runner after a batch of audio has been dealt with.
    pub open spec fn after_processed(self, speaking: bool, session_time: u128) -> Self {
        if self.interim_due(speaking, session_time) {
            SegmentedRunner { last_inference: session_time, ..self }
        } else {
            self
        }
    }

    /// Joins a batch of messages for voice activity detection. An empty batch says that the
    /// channel has closed.
    pub fn on_messages<T: Copy>(&self, batch: &Vec<AudioChannel<T>>) -> (r: Option<Vec<T>>)
        ensures
            batch@.len() == 0 ==> r is None,
            batch@.len() > 0 ==> (r matches Some(audio) && audio@ == messages_view(
                batch@,
            ).flatten()),
    {
        if batch.is_empty() {
            None
        } else {
            Some(join_audio(batch))
        }
    }

    /// Deals with one report of voice activity detection.
    pub fn on_transition<T>(&mut self, transition: VadTransition<T>) -> (r: Vec<SegmentAction<T>>)
        ensures
            r@ == old(self).actions(transition),
            *final(self) == old(self).after_transition(transition),
            final(self).channel == old(self).channel,
            final(self).interim_results == old(self).interim_results,
            match transition {
                VadTransition::SpeechStart { timestamp_ms } => {
                    &&& r@.len() == 1
                    &&& r@[0] matches SegmentAction::Send(told)
                    &&& told.data == (Event::Active { time: Time::Millis(timestamp_ms) })
                    &&& told.channel == old(self).channel
                    &&& final(self).last_inference == old(self).last_inference
                },
                VadTransition::SpeechEnd { start_timestamp_ms, end_timestamp_ms, samples } => {
                    &&& r@.len() == 2
                    &&& r@[0] matches SegmentAction::Send(told)
                    &&& told.data == (Event::Inactive { time: Time::Millis(end_timestamp_ms) })
                    &&& told.channel == old(self).channel
                    &&& r@[1] matches SegmentAction::Infer(inference)
                    &&& inference.samples == samples
                    &&& inference.start_ms == start_timestamp_ms
                    &&& inference.end_ms == end_timestamp_ms
                    &&& inference.is_final
                    &&& final(self).last_inference == end_timestamp_ms * 1_000_000
                },
            },
    {
        let mut actions: Vec<SegmentAction<T>> = Vec::new();
        match transition {
            VadTransition::SpeechStart { timestamp_ms } => {
                actions.push(
                    SegmentAction::Send(
                        ApiResponse {
                            data: Event::Active { time: Time::Millis(timestamp_ms) },
                            channel: self.channel,
                        },
                    ),
                );
            },
            VadTransition::SpeechEnd { start_timestamp_ms, end_timestamp_ms, samples } => {
                self.last_inference = end_timestamp_ms as u128 * NANOS_PER_MILLI;
                actions.push(
                    SegmentAction::Send(
                        ApiResponse {
                            data: Event::Inactive { time: Time::Millis(end_timestamp_ms) },
                            channel: self.channel,
                        },
                    ),
                );
                actions.push(
                    SegmentAction::Infer(
                        SegmentInference {
                            samples,
                            start_ms: start_timestamp_ms,
                            end_ms: end_timestamp_ms,
                            is_final: true,
                        },
                    ),
                );
            },
        }
        actions
    }

    /// Whether an interim result is due.
    pub open spec fn interim_due(self, speaking: bool, session_time: u128) -> bool {
        &&& self.interim_results
        &&& speaking
        &&& session_time - self.last_inference >= INTERIM_THRESHOLD
    }

    /// Looks, once a batch of audio has been dealt with, whether an interim result is due on the
    /// speech that goes on.
    pub fn on_processed<T: Copy>(&mut self, vad: &VadState<T>) -> (r: Option<SegmentInference<T>>)
        requires
            old(self).interim_results && vad.speaking ==> old(self).last_inference
                <= vad.session_time,
            old(self).interim_due(vad.speaking, vad.session_time) ==> vad.speech_duration
                <= vad.session_time,
        ensures
            *final(self) == old(self).after_processed(vad.speaking, vad.session_time),
            if old(self).interim_due(vad.speaking, vad.session_time) {
                &&& r matches Some(inference)
                &&& infers(
                    inference,
                    vad.speech@,
                    whole_millis(vad.session_time - vad.speech_duration),
                    whole_millis(vad.session_time as int),
                    false,
                )
            } else {
                r is None
            },
            r is Some <==> old(self).interim_results && vad.speaking && vad.session_time - old(
                self,
            ).last_inference >= 500_000_000,
            final(self).channel == old(self).channel,
            final(self).interim_results == old(self).interim_results,
            final(self).last_inference == (if r is Some {
                vad.session_time
            } else {
                old(self).last_inference
            }),
            r matches Some(inference) ==> {
                &&& inference.samples@ == vad.speech@
                &&& inference.start_ms == ((vad.session_time - vad.speech_duration)
                    / 1_000_000) as usize
                &&& inference.end_ms == (vad.session_time as int / 1_000_000) as usize
                &&& !inference.is_final
            },
    {
        if self.interim_results && vad.speaking && vad.session_time - self.last_inference
            >= INTERIM_THRESHOLD {
            self.last_inference = vad.session_time;
            Some(current_speech(vad, false))
        } else {
            None
        }
    }

    /// That these actions are what the end of the stream calls for: speech that goes on ends
    /// there, and gets its inference.
    pub open spec fn ends<T>(self, actions: Seq<SegmentAction<T>>, vad: VadState<T>) -> bool {
        if vad.speaking {
            &&& actions.len() == 2
            &&& actions[0] == SegmentAction::<T>::Send(
                self.inactive(Time::Nanos(vad.session_time)),
            )
            &&& actions[1] matches SegmentAction::Infer(inference)
            &&& infers(
                inference,
                vad.speech@,
                whole_millis(vad.session_time - vad.speech_duration),
                whole_millis(vad.session_time as int),
                true,
            )
        } else {
            actions.len() == 0
        }
    }

    /// Ends the stream: speech that goes on ends here, and gets its inference.
    pub fn on_end<T: Copy>(&self, vad: &VadState<T>) -> (r: Vec<SegmentAction<T>>)
        requires
            vad.speaking ==> vad.speech_duration <= vad.session_time,
        ensures
            self.ends(r@, *vad),
            r@.len() == (if vad.speaking {
                2int
            } else {
                0
            }),
            vad.speaking ==> {
                &&& r@[0] matches SegmentAction::Send(told)
                &&& told.data == (Event::Inactive { time: Time::Nanos(vad.session_time) })
                &&& told.channel == self.channel
                &&& r@[1] matches SegmentAction::Infer(inference)
                &&& inference.samples@ == vad.speech@
                &&& inference.start_ms == ((vad.session_time - vad.speech_duration)
                    / 1_000_000) as usize
                &&& inference.end_ms == (vad.session_time as int / 1_000_000) as usize
                &&& inference.is_final
            },
    {
        let mut actions: Vec<SegmentAction<T>> = Vec::new();
        if vad.speaking {
            actions.push(
                SegmentAction::Send(
                    ApiResponse {
                        data: Event::Inactive { time: Time::Nanos(vad.session_time) },
                        channel: self.channel,
                    },
                ),
            );
            actions.push(SegmentAction::Infer(current_speech(vad, true)));
        }
        actions
    }

    /// What the client is told of an inference on a segment.
    pub fn respond(
        &self,
        start_ms: usize,
        end_ms: usize,
        is_final: bool,
        outcome: Inference,
    ) -> (r: ApiResponse<Time>)
        ensures
            r.channel == self.channel,
            match outcome {
                Inference::Done(output) => r.data == Event::Segment(
                    SegmentOutput {
                        start_time: Time::Millis(start_ms),
                        end_time: Time::Millis(end_ms),
                        is_final: Some(is_final),
                        output,
                    },
                ),
                Inference::Failed { message } => r.data == (Event::<Time>::Error { message }),
                Inference::Panicked => r.data matches Event::Error { message } && message@
                    == "Internal server error"@,
            },
    {
        ApiResponse {
            data: inference_event(
                outcome,
                Some((Time::Millis(start_ms), Time::Millis(end_ms))),
                Some(is_final),
            ),
            channel: self.channel,
        }
    }
}

/// An inference on the speech that goes on.
fn current_speech<T: Copy>(vad: &VadState<T>, is_final: bool) -> (r: SegmentInference<T>)
    requires
        vad.speech_duration <= vad.session_time,
    ensures
        infers(
            r,
            vad.speech@,
            whole_millis(vad.session_time - vad.speech_duration),
            whole_millis(vad.session_time as int),
            is_final,
        ),
{
    let started: u128 = vad.session_time - vad.speech_duration;
    let mut samples: Vec<T> = Vec::new();
    while samples.len() < vad.speech.len()
        invariant
            samples@.len() <= vad.speech@.len(),
            samples@ == vad.speech@.take(samples@.len() as int),
        decreases vad.speech@.len() - samples@.len(),
    {
        let i: usize = samples.len();
        samples.push(vad.speech[i]);
    }
    assert(samples@ == vad.speech@);
    SegmentInference {
        samples,
        start_ms: #[verifier::truncate] ((started / NANOS_PER_MILLI) as usize),
        end_ms: #[verifier::truncate] ((vad.session_time / NANOS_PER_MILLI) as usize),
        is_final,
    }
}

} // verus!
