//! What the segmented runner promises of a whole channel.
use vstd::prelude::*;

use crate::api_types::Event;
use crate::segmented::{
    infers, whole_millis, SegmentAction, SegmentInference, SegmentedRunner, Time, VadState,
    VadTransition, INTERIM_THRESHOLD, NANOS_PER_MILLI,
};

verus! {

/// One thing that happens to a segmented runner.
pub enum SegmentStep<T> {
    /// Voice activity detection reported something.
    Transition(VadTransition<T>),
    /// A batch of audio has been dealt with.
    Processed { speaking: bool, session_time: u128 },
}

impl SegmentedRunner {
    /// The runner after a step.
    pub open spec fn after<T>(self, step: SegmentStep<T>) -> Self {
        match step {
            SegmentStep::Transition(transition) => self.after_transition(transition),
            SegmentStep::Processed { speaking, session_time } => self.after_processed(
                speaking,
                session_time,
            ),
        }
    }

    /// The runner after a sequence of steps.
    pub open spec fn run<T>(self, steps: Seq<SegmentStep<T>>) -> Self
        decreases steps.len(),
    {
        if steps.len() == 0 {
            self
        } else {
            self.run(steps.drop_last()).after(steps.last())
        }
    }

    /// The times at which a sequence of steps asks for interim results.
    pub open spec fn interim_times<T>(self, steps: Seq<SegmentStep<T>>) -> Seq<u128>
        decreases steps.len(),
    {
        if steps.len() == 0 {
            Seq::empty()
        } else {
            let before = self.interim_times(steps.drop_last());
            match steps.last() {
                SegmentStep::Processed { speaking, session_time } => if self.run(
                    steps.drop_last(),
                ).interim_due(speaking, session_time) {
                    before.push(session_time)
                } else {
                    before
                },
                _ => before,
            }
        }
    }

    /// Whether no speech ends earlier than the audio the model has seen before.
    pub open spec fn timely<T>(self, steps: Seq<SegmentStep<T>>) -> bool
        decreases steps.len(),
    {
        steps.len() > 0 ==> {
            &&& self.timely(steps.drop_last())
            &&& steps.last() matches SegmentStep::Transition(
                VadTransition::SpeechEnd { end_timestamp_ms, .. },
            ) ==> self.run(steps.drop_last()).last_inference <= end_timestamp_ms * NANOS_PER_MILLI
        }
    }

    /// All that a sequence of reports of voice activity detection calls for.
    pub open spec fn all_actions<T>(self, transitions: Seq<VadTransition<T>>) -> Seq<
        SegmentAction<T>,
    >
        decreases transitions.len(),
    {
        if transitions.len() == 0 {
            Seq::empty()
        } else {
            self.all_actions(transitions.drop_last()) + self.actions(transitions.last())
        }
    }
}

/// The inferences among a sequence of actions.
pub open spec fn inferences<T>(actions: Seq<SegmentAction<T>>) -> Seq<SegmentInference<T>>
    decreases actions.len(),
{
    if actions.len() == 0 {
        Seq::empty()
    } else {
        match actions.last() {
            SegmentAction::Infer(inference) => inferences(actions.drop_last()).push(inference),
            _ => inferences(actions.drop_last()),
        }
    }
}

/// The stretches of speech that a sequence of reports brings to an end, each as the inference
/// that is owed on it.
pub open spec fn utterances<T>(transitions: Seq<VadTransition<T>>) -> Seq<SegmentInference<T>>
    decreases transitions.len(),
{
    if transitions.len() == 0 {
        Seq::empty()
    } else {
        match transitions.last() {
            VadTransition::SpeechEnd { start_timestamp_ms, end_timestamp_ms, samples } =>
                utterances(transitions.drop_last()).push(
                    SegmentInference {
                        samples,
                        start_ms: start_timestamp_ms,
                        end_ms: end_timestamp_ms,
                        is_final: true,
                    },
                ),
            _ => utterances(transitions.drop_last()),
        }
    }
}

/// No speech is lost: every stretch of speech that ends goes to the model once, whole, in order
/// and as final.
pub proof fn law_every_utterance_is_inferred<T>(
    s: SegmentedRunner,
    transitions: Seq<VadTransition<T>>,
)
    ensures
        inferences(s.all_actions(transitions)) == utterances(transitions),
    decreases transitions.len(),
{
    if transitions.len() > 0 {
        let before = s.all_actions(transitions.drop_last());
        let all = s.all_actions(transitions);
        law_every_utterance_is_inferred(s, transitions.drop_last());
        match transitions.last() {
            VadTransition::SpeechStart { .. } => {
                assert(all.drop_last() =~= before);
            },
            VadTransition::SpeechEnd { .. } => {
                assert(all.drop_last().drop_last() =~= before);
                assert(inferences(all.drop_last()) == inferences(before));
            },
        }
    }
}

/// Interim results are opt-in.
pub proof fn law_interim_results_are_opt_in<T>(s: SegmentedRunner, steps: Seq<SegmentStep<T>>)
    requires
        !s.interim_results,
    ensures
        s.interim_times(steps).len() == 0,
        !s.run(steps).interim_results,
    decreases steps.len(),
{
    if steps.len() > 0 {
        law_interim_results_are_opt_in(s, steps.drop_last());
    }
}

proof fn lemma_interim_times<T>(s: SegmentedRunner, steps: Seq<SegmentStep<T>>)
    requires
        s.timely(steps),
    ensures
        ({
            let times = s.interim_times(steps);
            &&& times.len() > 0 ==> times.last() <= s.run(steps).last_inference
            &&& forall|j: int, k: int|
                0 <= j < k < times.len() ==> #[trigger] times[k] - #[trigger] times[j]
                    >= INTERIM_THRESHOLD
        }),
    decreases steps.len(),
{
    if steps.len() > 0 {
        lemma_interim_times(s, steps.drop_last());
        let before = s.interim_times(steps.drop_last());
        let times = s.interim_times(steps);
        assert forall|j: int, k: int| 0 <= j < k < times.len() implies #[trigger] times[k]
            - #[trigger] times[j] >= INTERIM_THRESHOLD by {
            if k < before.len() {
                assert(times[k] == before[k] && times[j] == before[j]);
            } else {
                assert(times[j] == before[j]);
                if j < before.len() - 1 {
                    assert(before[before.len() - 1] - before[j] >= INTERIM_THRESHOLD);
                }
            }
        }
    }
}

/// Two interim results are never closer together than the threshold, as long as time moves on.
pub proof fn law_interim_results_are_spaced<T>(
    s: SegmentedRunner,
    steps: Seq<SegmentStep<T>>,
    j: int,
    k: int,
)
    requires
        s.timely(steps),
        0 <= j < k < s.interim_times(steps).len(),
    ensures
        s.interim_times(steps)[k] - s.interim_times(steps)[j] >= INTERIM_THRESHOLD,
{
    lemma_interim_times(s, steps);
}

/// What an action is about.
pub enum Remark {
    /// Speech has begun.
    Active,
    /// Speech has ended.
    Inactive,
    /// The model runs on speech that goes on.
    Interim,
    /// The model runs on speech that has ended.
    Final,
    /// Something else.
    Other,
}

impl Remark {
    /// Whether this is about the beginning or the end of speech.
    pub open spec fn is_bound(self) -> bool {
        self is Active || self is Inactive
    }
}

/// What an action is about.
pub open spec fn remark<T>(action: SegmentAction<T>) -> Remark {
    match action {
        SegmentAction::Send(response) => match response.data {
            Event::Active { .. } => Remark::Active,
            Event::Inactive { .. } => Remark::Inactive,
            _ => Remark::Other,
        },
        SegmentAction::Infer(inference) => if inference.is_final {
            Remark::Final
        } else {
            Remark::Interim
        },
    }
}

/// What a sequence of actions is about.
pub open spec fn remarks<T>(actions: Seq<SegmentAction<T>>) -> Seq<Remark> {
    actions.map_values(|a: SegmentAction<T>| remark(a))
}

/// The beginnings and ends of speech among a sequence of remarks.
pub open spec fn bounds(all: Seq<Remark>) -> Seq<Remark>
    decreases all.len(),
{
    if all.len() == 0 {
        Seq::empty()
    } else if all.last().is_bound() {
        bounds(all.drop_last()).push(all.last())
    } else {
        bounds(all.drop_last())
    }
}

impl SegmentedRunner {
    /// What all that a sequence of steps calls for is about.
    pub open spec fn remarks_on<T>(self, steps: Seq<SegmentStep<T>>) -> Seq<Remark>
        decreases steps.len(),
    {
        if steps.len() == 0 {
            Seq::empty()
        } else {
            let before = self.remarks_on(steps.drop_last());
            let runner = self.run(steps.drop_last());
            match steps.last() {
                SegmentStep::Transition(transition) => before + remarks(runner.actions(transition)),
                SegmentStep::Processed { speaking, session_time } => if runner.interim_due(
                    speaking,
                    session_time,
                ) {
                    before.push(Remark::Interim)
                } else {
                    before
                },
            }
        }
    }
}

/// Whether somebody speaks after a sequence of steps.
pub open spec fn in_speech<T>(steps: Seq<SegmentStep<T>>) -> bool
    decreases steps.len(),
{
    if steps.len() == 0 {
        false
    } else {
        match steps.last() {
            SegmentStep::Transition(VadTransition::SpeechStart { .. }) => true,
            SegmentStep::Transition(VadTransition::SpeechEnd { .. }) => false,
            SegmentStep::Processed { .. } => in_speech(steps.drop_last()),
        }
    }
}

/// Whether voice activity detection makes sense: speech begins only in silence, ends only where it
/// goes on, and goes on exactly from its beginning to its end.
pub open spec fn orderly<T>(steps: Seq<SegmentStep<T>>) -> bool
    decreases steps.len(),
{
    steps.len() > 0 ==> {
        let before = steps.drop_last();
        &&& orderly(before)
        &&& match steps.last() {
            SegmentStep::Transition(VadTransition::SpeechStart { .. }) => !in_speech(before),
            SegmentStep::Transition(VadTransition::SpeechEnd { .. }) => in_speech(before),
            SegmentStep::Processed { speaking, .. } => speaking == in_speech(before),
        }
    }
}

/// That a remark, if it is an end of speech, is followed at once by a final inference.
pub open spec fn followed_up(all: Seq<Remark>, i: int) -> bool {
    all[i] is Inactive ==> i + 1 < all.len() && all[i + 1] is Final
}

/// That a remark, if it is a final inference, comes right after an end of speech.
pub open spec fn owed(all: Seq<Remark>, i: int) -> bool {
    all[i] is Final ==> i > 0 && all[i - 1] is Inactive
}

/// That a remark, if it is an interim inference, comes after a beginning of speech and before its
/// end.
pub open spec fn timed(all: Seq<Remark>, i: int) -> bool {
    all[i] is Interim ==> bounds(all.take(i)).len() % 2 == 1
}

/// Whether speech is announced and inferred as it should be: beginnings and ends take turns, a
/// beginning first; each end is followed at once by a final inference, and nothing else is; and
/// interim inferences come only between a beginning and an end.
pub open spec fn proper(all: Seq<Remark>) -> bool {
    &&& forall|k: int|
        0 <= k < bounds(all).len() ==> (#[trigger] bounds(all)[k] is Active <==> k % 2 == 0)
    &&& forall|i: int| 0 <= i < all.len() ==> #[trigger] followed_up(all, i)
    &&& forall|i: int| 0 <= i < all.len() ==> #[trigger] owed(all, i)
    &&& forall|i: int| 0 <= i < all.len() ==> #[trigger] timed(all, i)
}

proof fn lemma_proper_push(all: Seq<Remark>, next: Remark)
    requires
        proper(all),
        next is Active ==> bounds(all).len() % 2 == 0,
        next is Interim ==> bounds(all).len() % 2 == 1,
        next is Active || next is Interim,
    ensures
        proper(all.push(next)),
        bounds(all.push(next)).len() == bounds(all).len() + (if next is Active {
            1int
        } else {
            0
        }),
{
    let more = all.push(next);
    assert(more.drop_last() =~= all);
    assert forall|i: int| 0 <= i < more.len() implies #[trigger] followed_up(more, i) by {
        assert(i < all.len() ==> followed_up(all, i));
    }
    assert forall|i: int| 0 <= i < more.len() implies #[trigger] owed(more, i) by {
        assert(i < all.len() ==> owed(all, i));
    }
    assert forall|i: int| 0 <= i < more.len() implies #[trigger] timed(more, i) by {
        assert(more.take(i) =~= all.take(i));
        assert(i < all.len() ==> timed(all, i));
        assert(all.take(all.len() as int) =~= all);
    }
}

proof fn lemma_proper_end(all: Seq<Remark>)
    requires
        proper(all),
        bounds(all).len() % 2 == 1,
    ensures
        proper(all + seq![Remark::Inactive, Remark::Final]),
        bounds(all + seq![Remark::Inactive, Remark::Final]).len() == bounds(all).len() + 1,
{
    let one = all.push(Remark::Inactive);
    let more = all + seq![Remark::Inactive, Remark::Final];
    assert(more.drop_last() =~= one);
    assert(one.drop_last() =~= all);
    assert(bounds(one) == bounds(all).push(Remark::Inactive));
    assert(bounds(more) == bounds(one));
    assert forall|i: int| 0 <= i < more.len() implies #[trigger] followed_up(more, i) by {
        assert(i < all.len() ==> followed_up(all, i));
    }
    assert forall|i: int| 0 <= i < more.len() implies #[trigger] owed(more, i) by {
        assert(i < all.len() ==> owed(all, i));
    }
    assert forall|i: int| 0 <= i < more.len() implies #[trigger] timed(more, i) by {
        if i < all.len() {
            assert(more.take(i) =~= all.take(i));
            assert(timed(all, i));
        }
    }
}

proof fn lemma_remarks<T>(s: SegmentedRunner, steps: Seq<SegmentStep<T>>)
    requires
        orderly(steps),
    ensures
        proper(s.remarks_on(steps)),
        in_speech(steps) <==> bounds(s.remarks_on(steps)).len() % 2 == 1,
    decreases steps.len(),
{
    if steps.len() > 0 {
        let before = s.remarks_on(steps.drop_last());
        let all = s.remarks_on(steps);
        lemma_remarks(s, steps.drop_last());
        match steps.last() {
            SegmentStep::Transition(VadTransition::SpeechStart { .. }) => {
                assert(all =~= before.push(Remark::Active));
                lemma_proper_push(before, Remark::Active);
            },
            SegmentStep::Transition(VadTransition::SpeechEnd { .. }) => {
                assert(all =~= before + seq![Remark::Inactive, Remark::Final]);
                lemma_proper_end(before);
            },
            SegmentStep::Processed { speaking, session_time } => {
                if s.run(steps.drop_last()).interim_due(speaking, session_time) {
                    lemma_proper_push(before, Remark::Interim);
                }
            },
        }
    }
}

/// From the first audio to the end of the stream, the beginnings and ends of speech that the client
/// is told of take turns, and each end is followed by one final inference, on speech that the end
/// of the stream cuts off too. `last` is what that end called for.
pub proof fn law_speech_is_announced_and_inferred<T>(
    s: SegmentedRunner,
    steps: Seq<SegmentStep<T>>,
    vad: VadState<T>,
    last: Seq<SegmentAction<T>>,
)
    requires
        orderly(steps),
        vad.speaking == in_speech(steps),
        s.run(steps).ends(last, vad),
    ensures
        proper(s.remarks_on(steps) + remarks(last)),
        bounds(s.remarks_on(steps) + remarks(last)).len() % 2 == 0,
{
    lemma_remarks(s, steps);
    let all = s.remarks_on(steps);
    if vad.speaking {
        assert(remarks(last) =~= seq![Remark::Inactive, Remark::Final]);
        lemma_proper_end(all);
    } else {
        assert(all + remarks(last) =~= all);
    }
}

/// The client is told that speech has begun, on the runner's channel, at the very time at which it
/// was found to begin. Nothing else happens.
pub proof fn law_the_start_of_speech_is_told<T>(s: SegmentedRunner, timestamp_ms: usize)
    ensures
        ({
            let start = VadTransition::<T>::SpeechStart { timestamp_ms };
            &&& s.actions(start).len() == 1
            &&& s.actions(start)[0] matches SegmentAction::Send(told)
            &&& told.channel == s.channel
            &&& told.data matches Event::Active { time: Time::Millis(ms) }
            &&& ms == timestamp_ms
            &&& s.after_transition(start) == s
        }),
{
}

/// The client is told that speech has ended, on the runner's channel, at the very time at which it
/// was found to end. The inference that follows is final, is on the samples of that speech, and
/// spans it from its beginning to the time told.
pub proof fn law_the_end_of_speech_is_told<T>(
    s: SegmentedRunner,
    start_timestamp_ms: usize,
    end_timestamp_ms: usize,
    samples: Vec<T>,
)
    ensures
        ({
            let end = VadTransition::SpeechEnd { start_timestamp_ms, end_timestamp_ms, samples };
            let next = s.after_transition(end);
            &&& s.actions(end).len() == 2
            &&& s.actions(end)[0] matches SegmentAction::Send(told)
            &&& told.channel == s.channel
            &&& told.data matches Event::Inactive { time: Time::Millis(ms) }
            &&& ms == end_timestamp_ms
            &&& s.actions(end)[1] matches SegmentAction::Infer(inference)
            &&& inference.end_ms == ms
            &&& inference.start_ms == start_timestamp_ms
            &&& inference.samples == samples
            &&& inference.is_final
            &&& next.channel == s.channel
            &&& next.interim_results == s.interim_results
            &&& next.last_inference == ms * 1_000_000
        }),
{
    assert(end_timestamp_ms * 1_000_000 <= u128::MAX);
}

/// Speech is told in order: where it ends no earlier than it begins, so do the times told, and the
/// bounds of its inference are those times.
pub proof fn law_told_times_are_ordered<T>(
    s: SegmentedRunner,
    begun_ms: usize,
    ended_ms: usize,
    samples: Vec<T>,
)
    requires
        begun_ms <= ended_ms,
    ensures
        ({
            let first = s.actions(VadTransition::<T>::SpeechStart { timestamp_ms: begun_ms });
            let then = s.actions(
                VadTransition::SpeechEnd {
                    start_timestamp_ms: begun_ms,
                    end_timestamp_ms: ended_ms,
                    samples,
                },
            );
            &&& first[0] matches SegmentAction::Send(begun)
            &&& begun.data matches Event::Active { time: Time::Millis(from) }
            &&& then[0] matches SegmentAction::Send(ended)
            &&& ended.data matches Event::Inactive { time: Time::Millis(to) }
            &&& then[1] matches SegmentAction::Infer(inference)
            &&& from <= to
            &&& to - from == ended_ms - begun_ms
            &&& inference.start_ms == from && inference.end_ms == to
        }),
{
}

/// Whoever asked for interim results gets one whenever somebody speaks and half a second or more,
/// by however much, has gone by since the model last saw the audio; and never otherwise.
pub proof fn law_interim_results_are_due(s: SegmentedRunner, speaking: bool, session_time: u128)
    ensures
        s.interim_due(speaking, session_time) <==> s.interim_results && speaking && session_time
            >= s.last_inference + 500_000_000,
{
}

/// Being late makes no interim result go away: one that is due stays due until it is given.
pub proof fn law_a_due_interim_result_stays_due(s: SegmentedRunner, earlier: u128, later: u128)
    requires
        s.interim_due(true, earlier),
        earlier <= later,
    ensures
        s.interim_due(true, later),
{
}

/// No half second of speech goes by without an inference: however late a batch of audio is dealt
/// with, after it the model has seen all but the last half second. What it has seen up to moves on
/// only with an inference, and then to the present.
pub proof fn law_no_half_second_goes_by(s: SegmentedRunner, speaking: bool, session_time: u128)
    ensures
        s.interim_results && speaking ==> session_time - s.after_processed(
            speaking,
            session_time,
        ).last_inference < 500_000_000,
        s.after_processed(speaking, session_time) == s || {
            &&& s.interim_due(speaking, session_time)
            &&& s.after_processed(speaking, session_time).last_inference == session_time
        },
        s.interim_due(speaking, session_time) ==> s.after_processed(
            speaking,
            session_time,
        ).last_inference == session_time,
        s.after_processed(speaking, session_time).channel == s.channel,
        s.after_processed(speaking, session_time).interim_results == s.interim_results,
{
}

/// A runner starts on its channel, as it was asked to, with no audio seen.
pub proof fn law_a_segmented_runner_starts_at_the_beginning(channel: usize, interim_results: bool)
    ensures
        ({
            let s = SegmentedRunner::initial(channel, interim_results);
            s.channel == channel && s.interim_results == interim_results && s.last_inference == 0
        }),
{
}

/// Whole milliseconds are the most that fit into the nanoseconds.
pub proof fn law_whole_millis_are_rounded_down(nanos: int)
    requires
        0 <= nanos < (usize::MAX + 1) * 1_000_000,
    ensures
        whole_millis(nanos) * 1_000_000 <= nanos < (whole_millis(nanos) + 1) * 1_000_000,
{
}

/// An inference is on exactly the samples, the bounds and the finality that it is said to be on.
pub proof fn law_an_inference_is_what_it_is_said_to_be<T>(
    inference: SegmentInference<T>,
    samples: Seq<T>,
    start_ms: usize,
    end_ms: usize,
    is_final: bool,
)
    ensures
        infers(inference, samples, start_ms, end_ms, is_final) <==> (inference.samples@ == samples
            && inference.start_ms == start_ms && inference.end_ms == end_ms && inference.is_final
            == is_final),
{
}

/// At the end of the stream speech that goes on is told to end, on the runner's channel, right
/// then, and all of it gets a final inference that ends at that time. Silence just ends.
pub proof fn law_the_end_of_the_stream_ends_speech<T>(
    s: SegmentedRunner,
    actions: Seq<SegmentAction<T>>,
    vad: VadState<T>,
)
    requires
        s.ends(actions, vad),
    ensures
        !vad.speaking ==> actions.len() == 0,
        vad.speaking ==> {
            &&& actions.len() == 2
            &&& actions[0] matches SegmentAction::Send(told)
            &&& told.channel == s.channel
            &&& told.data matches Event::Inactive { time: Time::Nanos(ns) }
            &&& ns == vad.session_time
            &&& actions[1] matches SegmentAction::Infer(inference)
            &&& inference.samples@ == vad.speech@
            &&& inference.start_ms == ((ns - vad.speech_duration) / 1_000_000) as usize
            &&& inference.end_ms == (ns as int / 1_000_000) as usize
            &&& inference.is_final
        },
{
}

} // verus!
