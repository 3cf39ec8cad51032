//! What the simple runner promises of a whole channel.
use vstd::prelude::*;

use crate::inference::{messages_view, AudioChannel, RunnerState, RunnerStep, Span};

verus! {

impl RunnerState {
    /// The state after a sequence of steps.
    pub open spec fn run<T>(self, steps: Seq<RunnerStep<T>>) -> Self
        decreases steps.len(),
    {
        if steps.len() == 0 {
            self
        } else {
            self.run(steps.drop_last()).after(steps.last())
        }
    }

    /// Whether the runner takes each of a sequence of steps.
    pub open spec fn allows<T>(self, steps: Seq<RunnerStep<T>>) -> bool
        decreases steps.len(),
    {
        steps.len() > 0 ==> self.allows(steps.drop_last()) && self.run(steps.drop_last()).accepts(
            steps.last(),
        )
    }
}

/// The audio of each inference that a sequence of steps starts.
pub open spec fn tasks<T>(steps: Seq<RunnerStep<T>>) -> Seq<Seq<T>>
    decreases steps.len(),
{
    if steps.len() == 0 {
        Seq::empty()
    } else {
        match steps.last() {
            RunnerStep::Batch(messages) => tasks(steps.drop_last()).push(messages.flatten()),
            _ => tasks(steps.drop_last()),
        }
    }
}

/// The messages that come in with a sequence of steps.
pub open spec fn messages<T>(steps: Seq<RunnerStep<T>>) -> Seq<Seq<T>>
    decreases steps.len(),
{
    if steps.len() == 0 {
        Seq::empty()
    } else {
        match steps.last() {
            RunnerStep::Batch(batch) => messages(steps.drop_last()) + batch,
            _ => messages(steps.drop_last()),
        }
    }
}

/// The samples that the inferences of a sequence of steps are on.
pub open spec fn spans<T>(steps: Seq<RunnerStep<T>>) -> Seq<Span>
    decreases steps.len(),
{
    if steps.len() == 0 {
        Seq::empty()
    } else {
        let start = messages(steps.drop_last()).flatten().len();
        match steps.last() {
            RunnerStep::Batch(batch) => spans(steps.drop_last()).push(
                Span { start: start as usize, end: (start + batch.flatten().len()) as usize },
            ),
            _ => spans(steps.drop_last()),
        }
    }
}

impl RunnerState {
    /// The samples that the answers to a sequence of steps are on, in the order of the answers.
    pub open spec fn answered<T>(self, steps: Seq<RunnerStep<T>>) -> Seq<Span>
        decreases steps.len(),
    {
        if steps.len() == 0 {
            Seq::empty()
        } else {
            let before = self.answered(steps.drop_last());
            match steps.last() {
                RunnerStep::Result => before.push(self.run(steps.drop_last()).running[0]),
                _ => before,
            }
        }
    }
}

proof fn lemma_run<T>(s: RunnerState, steps: Seq<RunnerStep<T>>)
    requires
        s == RunnerState::initial(s.channel, s.max_futures),
        s.valid(),
        s.allows(steps),
    ensures
        s.run(steps).valid(),
        s.run(steps).channel == s.channel,
        s.run(steps).max_futures == s.max_futures,
        s.answered(steps) + s.run(steps).running == spans(steps),
        s.run(steps).position == messages(steps).flatten().len(),
        s.run(steps).position <= usize::MAX,
        tasks(steps).flatten() == messages(steps).flatten(),
        tasks(steps).len() == spans(steps).len(),
    decreases steps.len(),
{
    if steps.len() > 0 {
        let before = steps.drop_last();
        lemma_run(s, before);
        let mid = s.run(before);
        match steps.last() {
            RunnerStep::Batch(batch) => {
                tasks(before).lemma_flatten_push(batch.flatten());
                vstd::seq_lib::lemma_flatten_concat(messages(before), batch);
                assert(s.answered(steps) + s.run(steps).running =~= (s.answered(before)
                    + mid.running).push(spans(steps).last()));
            },
            RunnerStep::Closed => {},
            RunnerStep::Result => {
                assert(s.answered(steps) + s.run(steps).running =~= s.answered(before)
                    + mid.running);
            },
        }
    } else {
        assert(s.answered(steps) + s.run(steps).running =~= spans(steps));
    }
}

/// No audio is lost: once a runner has finished, the inferences that it started cover the audio
/// of all messages, in order and nothing twice, and each of them has been answered, in order.
pub proof fn law_no_audio_is_lost<T>(s: RunnerState, steps: Seq<RunnerStep<T>>)
    requires
        s == RunnerState::initial(s.channel, s.max_futures),
        s.valid(),
        s.allows(steps),
        s.run(steps).finished(),
    ensures
        tasks(steps).flatten() == messages(steps).flatten(),
        s.answered(steps) == spans(steps),
        s.answered(steps).len() == tasks(steps).len(),
        s.run(steps).position == messages(steps).flatten().len(),
{
    lemma_run(s, steps);
    assert(s.answered(steps) + s.run(steps).running =~= s.answered(steps));
}

proof fn lemma_spans<T>(s: RunnerState, steps: Seq<RunnerStep<T>>)
    requires
        s == RunnerState::initial(s.channel, s.max_futures),
        s.valid(),
        s.allows(steps),
    ensures
        spans(steps).len() > 0 ==> spans(steps)[0].start == 0 && spans(steps).last().end
            == messages(steps).flatten().len(),
        spans(steps).len() == 0 ==> messages(steps).flatten().len() == 0,
        forall|k: int|
            #![trigger spans(steps)[k]]
            0 < k < spans(steps).len() ==> spans(steps)[k].start == spans(steps)[k - 1].end,
        forall|k: int|
            0 <= k < spans(steps).len() ==> (#[trigger] spans(steps)[k]).end - spans(
                steps,
            )[k].start == tasks(steps)[k].len(),
    decreases steps.len(),
{
    lemma_run(s, steps);
    if steps.len() > 0 {
        let before = steps.drop_last();
        lemma_run(s, before);
        lemma_spans(s, before);
        match steps.last() {
            RunnerStep::Batch(batch) => {
                vstd::seq_lib::lemma_flatten_concat(messages(before), batch);
                assert(spans(steps).drop_last() =~= spans(before));
                assert(tasks(steps).drop_last() =~= tasks(before));
                let last = spans(steps).len() - 1;
                assert forall|k: int|
                    #![trigger spans(steps)[k]]
                    0 < k < spans(steps).len() implies spans(steps)[k].start == spans(
                    steps,
                )[k - 1].end by {
                    if k < last {
                        assert(spans(before)[k].start == spans(before)[k - 1].end);
                    }
                }
                assert forall|k: int| 0 <= k < spans(steps).len() implies (#[trigger] spans(
                    steps,
                )[k]).end - spans(steps)[k].start == tasks(steps)[k].len() by {
                    if k < last {
                        assert(spans(before)[k].end - spans(before)[k].start == tasks(
                            before,
                        )[k].len());
                    }
                }
            },
            _ => {},
        }
    }
}

/// The segments that a runner reports start with the channel, leave no gap, do not overlap, end
/// with the audio, and are as long as the audio that the model was given for them.
pub proof fn law_segments_are_contiguous<T>(s: RunnerState, steps: Seq<RunnerStep<T>>, k: int)
    requires
        s == RunnerState::initial(s.channel, s.max_futures),
        s.valid(),
        s.allows(steps),
        s.run(steps).finished(),
        0 <= k < s.answered(steps).len(),
    ensures
        s.answered(steps)[k].start == (if k == 0 {
            0
        } else {
            s.answered(steps)[k - 1].end as int
        }),
        s.answered(steps)[k].end - s.answered(steps)[k].start == tasks(steps)[k].len(),
        s.answered(steps).last().end == messages(steps).flatten().len(),
{
    law_no_audio_is_lost(s, steps);
    lemma_spans(s, steps);
}

/// Never more inferences run at once than are allowed to.
pub proof fn law_inferences_are_bounded<T>(s: RunnerState, steps: Seq<RunnerStep<T>>)
    requires
        s == RunnerState::initial(s.channel, s.max_futures),
        s.valid(),
        s.allows(steps),
    ensures
        s.run(steps).running.len() <= s.max_futures,
{
    lemma_run(s, steps);
}

/// A runner that has not finished always has something to wait for.
pub proof fn law_a_runner_never_stalls(s: RunnerState)
    requires
        s.valid(),
        !s.finished(),
    ensures
        s.wants_audio() || s.wants_result(),
{
}

/// When every inference succeeds, the counts that go back to the client add up to the number of
/// samples that came in. `counts` are the counts reported, one for each inference.
pub proof fn law_counts_add_up<T>(s: RunnerState, steps: Seq<RunnerStep<T>>, counts: Seq<nat>)
    requires
        s == RunnerState::initial(s.channel, s.max_futures),
        s.valid(),
        s.allows(steps),
        s.run(steps).finished(),
        counts.len() == s.answered(steps).len(),
        forall|k: int| 0 <= k < counts.len() ==> #[trigger] counts[k] == tasks(steps)[k].len(),
    ensures
        counts.fold_left(0nat, |sum: nat, count: nat| sum + count) == messages(
            steps,
        ).flatten().len(),
{
    law_no_audio_is_lost(s, steps);
    lemma_sum_of_lengths(tasks(steps), counts);
}

proof fn lemma_sum_of_lengths<T>(pieces: Seq<Seq<T>>, counts: Seq<nat>)
    requires
        counts.len() == pieces.len(),
        forall|k: int| 0 <= k < counts.len() ==> #[trigger] counts[k] == pieces[k].len(),
    ensures
        counts.fold_left(0nat, |sum: nat, count: nat| sum + count) == pieces.flatten().len(),
    decreases pieces.len(),
{
    reveal_with_fuel(Seq::fold_left, 2);
    if pieces.len() > 0 {
        lemma_sum_of_lengths(pieces.drop_last(), counts.drop_last());
        pieces.drop_last().lemma_flatten_push(pieces.last());
        assert(pieces.drop_last().push(pieces.last()) == pieces);
    }
}

/// A runner starts on its channel, open for audio, with nothing running and nothing seen.
pub proof fn law_a_runner_starts_empty(channel: usize, max_futures: nat)
    ensures
        ({
            let s = RunnerState::initial(channel, max_futures);
            &&& s.channel == channel
            &&& s.max_futures == max_futures
            &&& s.receiving
            &&& s.running.len() == 0
            &&& s.position == 0
        }),
{
}

/// What a runner waits for: audio while its channel is open and an inference may still start, a
/// result while one runs, and nothing once neither can come.
pub proof fn law_what_a_runner_waits_for(s: RunnerState)
    ensures
        s.wants_audio() <==> s.receiving && s.running.len() < s.max_futures,
        s.wants_result() <==> s.running.len() > 0,
        s.finished() <==> !s.receiving && s.running.len() == 0,
        s.valid() <==> s.max_futures > 0 && s.running.len() <= s.max_futures,
{
}

/// A batch becomes one inference, on the samples that follow those before it: the newest of those
/// that run. The channel stays open.
pub proof fn law_a_batch_is_inferred_next<T>(s: RunnerState, messages: Seq<Seq<T>>)
    requires
        s.position + messages.flatten().len() <= usize::MAX,
    ensures
        ({
            let next = s.after(RunnerStep::Batch(messages));
            &&& next.running.len() == s.running.len() + 1
            &&& next.running.drop_last() == s.running
            &&& next.running.last().start == s.position
            &&& next.running.last().end == s.position + messages.flatten().len()
            &&& next.position == s.position + messages.flatten().len()
            &&& next.receiving == s.receiving
            &&& next.channel == s.channel
            &&& next.max_futures == s.max_futures
            &&& s.next_span(messages.flatten()) == next.running.last()
        }),
{
    assert(s.after(RunnerStep::Batch(messages)).running.drop_last() =~= s.running);
}

/// When its channel closes a runner takes no more audio, and keeps all that runs.
pub proof fn law_closing_keeps_what_runs<T>(s: RunnerState)
    ensures
        ({
            let next = s.after(RunnerStep::<T>::Closed);
            &&& !next.receiving
            &&& next.running == s.running
            &&& next.position == s.position
            &&& next.channel == s.channel
            &&& next.max_futures == s.max_futures
        }),
{
}

/// A result is that of the oldest inference, which no longer runs. The others do.
pub proof fn law_the_oldest_inference_is_answered<T>(s: RunnerState, k: int)
    requires
        s.running.len() > 0,
        0 <= k < s.running.len() - 1,
    ensures
        ({
            let next = s.after(RunnerStep::<T>::Result);
            &&& next.running.len() == s.running.len() - 1
            &&& next.running[k] == s.running[k + 1]
            &&& next.receiving == s.receiving
            &&& next.position == s.position
            &&& next.channel == s.channel
            &&& next.max_futures == s.max_futures
        }),
{
}

/// The last inference that runs can be answered too.
pub proof fn law_the_last_inference_is_answered<T>(s: RunnerState)
    requires
        s.running.len() == 1,
    ensures
        s.after(RunnerStep::<T>::Result).running.len() == 0,
        s.after(RunnerStep::<T>::Result).receiving == s.receiving,
        s.after(RunnerStep::<T>::Result).position == s.position,
        s.after(RunnerStep::<T>::Result).channel == s.channel,
        s.after(RunnerStep::<T>::Result).max_futures == s.max_futures,
{
}

/// The audio of a batch of messages is that of each of them, in order.
pub proof fn law_messages_keep_their_audio<T>(batch: Seq<AudioChannel<T>>, i: int)
    ensures
        messages_view(batch).len() == batch.len(),
        0 <= i < batch.len() ==> messages_view(batch)[i] == batch[i]@,
{
}

} // verus!
