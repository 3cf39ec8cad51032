//! What all connections share.
use vstd::prelude::*;

use crate::api_types::StartMessage;
use crate::inference::{InferenceRunner, RunnerState, Span};
use crate::segmented::SegmentedRunner;

verus! {

/// How many inferences run at once where the machine does not say how many it can run.
pub const DEFAULT_FUTURES: usize = 4;

/// The service's settings.
#[derive(Debug)]
pub struct Config<M> {
    pub model: M,
}

/// A handle to the model, and how it may be used.
pub struct StreamingContext<M> {
    pub model: M,
    pub max_futures: usize,
}

/// How the audio of a channel is run through the model.
pub enum Runner {
    /// All of it.
    Simple(InferenceRunner),
    /// The parts that contain speech.
    Segmented(SegmentedRunner),
}

/// How many inferences may run at once on a machine of this parallelism.
pub open spec fn futures_for(parallelism: Option<usize>) -> usize {
    match parallelism {
        Some(n) => n,
        None => DEFAULT_FUTURES,
    }
}

impl<M: Default> Default for Config<M> {
    fn default() -> (r: Self)
        ensures
            call_ensures(M::default, (), r.model),
    {
        Config { model: M::default() }
    }
}

impl<M> StreamingContext<M> {
    /// Whether an inference can run at all.
    pub open spec fn valid(self) -> bool {
        self.max_futures > 0
    }

    /// A context with default settings, on a machine of this parallelism.
    pub fn new(parallelism: Option<usize>) -> (r: Self) where M: Default
        requires
            parallelism != Some(0usize),
        ensures
            r.valid(),
            call_ensures(M::default, (), r.model),
            r.max_futures == futures_for(parallelism),
            parallelism matches Some(n) ==> r.max_futures == n,
            parallelism is None ==> r.max_futures == 4,
    {
        let config: Config<M> = Config { model: M::default() };
        Self::new_with_config(config, parallelism)
    }

    /// A context with the given settings.
    pub fn new_with_config(config: Config<M>, parallelism: Option<usize>) -> (r: Self)
        requires
            parallelism != Some(0usize),
        ensures
            r.valid(),
            r == (StreamingContext {
                model: config.model,
                max_futures: futures_for(parallelism),
            }),
            parallelism matches Some(n) ==> r.max_futures == n,
            parallelism is None ==> r.max_futures == 4,
    {
        Self::new_with_model(config.model, parallelism)
    }

    /// A context with the given model.
    pub fn new_with_model(model: M, parallelism: Option<usize>) -> (r: Self)
        requires
            parallelism != Some(0usize),
        ensures
            r.valid(),
            r == (StreamingContext { model, max_futures: futures_for(parallelism) }),
            parallelism matches Some(n) ==> r.max_futures == n,
            parallelism is None ==> r.max_futures == 4,
    {
        let max_futures: usize = match parallelism {
            Some(n) => n,
            None => DEFAULT_FUTURES,
        };
        StreamingContext { model, max_futures }
    }

    /// Starts running the model on all the audio of a channel.
    pub fn inference_runner(&self, channel: usize) -> (r: InferenceRunner)
        requires
            self.valid(),
        ensures
            r@ == RunnerState::initial(channel, self.max_futures as nat),
            r@.valid(),
            r@.channel == channel && r@.max_futures == self.max_futures,
            r@.receiving && r@.running.len() == 0 && r@.position == 0,
    {
        InferenceRunner::new(channel, self.max_futures)
    }

    /// Starts running the model on the speech of a channel.
    pub fn segmented_runner(&self, settings: &StartMessage, channel: usize) -> (r: SegmentedRunner)
        ensures
            r == SegmentedRunner::initial(channel, settings.interim_results),
            r.channel == channel,
            r.interim_results == settings.interim_results,
            r.last_inference == 0,
    {
        SegmentedRunner::new(channel, settings.interim_results)
    }

    /// That this runner serves channel `c` of a stream that has just been opened.
    pub open spec fn serves(
        self,
        runner: Runner,
        start: StartMessage,
        vad_processing: bool,
        c: int,
    ) -> bool {
        match runner {
            Runner::Simple(simple) => !vad_processing && simple@ == RunnerState::initial(
                c as usize,
                self.max_futures as nat,
            ),
            Runner::Segmented(segmented) => vad_processing && segmented == SegmentedRunner::initial(
                c as usize,
                start.interim_results,
            ),
        }
    }

    /// Starts one runner for each channel of a stream, in the order of the channels.
    /// `vad_processing` tells whether only speech is of interest.
    pub fn runners(&self, start: &StartMessage, vad_processing: bool) -> (r: Vec<Runner>)
        requires
            self.valid(),
        ensures
            r@.len() == start.format.channels,
            forall|c: int|
                0 <= c < r@.len() ==> self.serves(#[trigger] r@[c], *start, vad_processing, c),
            forall|c: int|
                0 <= c < r@.len() ==> ((#[trigger] r@[c]) is Segmented <==> vad_processing),
            forall|c: int|
                0 <= c < r@.len() ==> match #[trigger] r@[c] {
                    Runner::Simple(simple) => {
                        &&& simple@.channel == c
                        &&& simple@.max_futures == self.max_futures
                        &&& simple@.receiving
                        &&& simple@.running.len() == 0
                        &&& simple@.position == 0
                    },
                    Runner::Segmented(segmented) => {
                        &&& segmented.channel == c
                        &&& segmented.interim_results == start.interim_results
                        &&& segmented.last_inference == 0
                    },
                },
    {
        let mut runners: Vec<Runner> = Vec::new();
        let mut channel: usize = 0;
        while channel < start.format.channels
            invariant
                self.valid(),
                channel <= start.format.channels,
                runners@.len() == channel,
                forall|c: int|
                    0 <= c < channel ==> self.serves(
                        #[trigger] runners@[c],
                        *start,
                        vad_processing,
                        c,
                    ),
            decreases start.format.channels - channel,
        {
            runners.push(
                if vad_processing {
                    Runner::Segmented(self.segmented_runner(start, channel))
                } else {
                    Runner::Simple(self.inference_runner(channel))
                },
            );
            channel = channel + 1;
        }
        runners
    }
}

/// Whatever the format, a channel of a stream on which only speech is of interest gets a segmented
/// runner, and one of any other stream a simple one. The runner is on that channel, and has seen no
/// audio.
pub proof fn law_every_channel_is_run_as_asked<M>(
    context: StreamingContext<M>,
    runner: Runner,
    start: StartMessage,
    vad_processing: bool,
    c: usize,
)
    ensures
        context.serves(runner, start, vad_processing, c as int) ==> (runner is Segmented
            <==> vad_processing),
        context.serves(runner, start, vad_processing, c as int) <==> match runner {
            Runner::Simple(simple) => {
                &&& !vad_processing
                &&& simple@.channel == c
                &&& simple@.max_futures == context.max_futures
                &&& simple@.receiving
                &&& simple@.running == Seq::<Span>::empty()
                &&& simple@.position == 0
            },
            Runner::Segmented(segmented) => {
                &&& vad_processing
                &&& segmented.channel == c
                &&& segmented.interim_results == start.interim_results
                &&& segmented.last_inference == 0
            },
        },
{
}

/// As many inferences run at once as the machine can run, or four where it does not say; and a
/// context is good for use when that is at least one.
pub proof fn law_parallelism_is_used<M>(context: StreamingContext<M>, parallelism: Option<usize>)
    ensures
        parallelism matches Some(n) ==> futures_for(parallelism) == n,
        parallelism is None ==> futures_for(parallelism) == 4,
        context.valid() <==> context.max_futures > 0,
{
}

} // verus!
