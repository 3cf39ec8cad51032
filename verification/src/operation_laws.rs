//! What the operations promise of their results, operation by operation.
use vstd::prelude::*;

use crate::api_types::{
    ApiResponse, AudioFormat, Event, RequestMessage, StartMessage, StopMessage,
};
use crate::audio::{contents, decode_audio, AudioDecoder, Tail};
use crate::audio_laws::{
    law_a_batch_holds_whole_frames, law_a_batch_is_the_front_of_what_waits,
    law_samples_are_dealt_out_in_turn,
};
use crate::client::{start_request, stop_request, Chunker};
use crate::context::{Config, Runner, StreamingContext};
use crate::inference::{
    inference_event, join_audio, messages_view, Answer, AudioChannel, InferenceRunner, InferenceTask,
};
use crate::metrics::{
    get_panic_counter, task_updates, update_metrics, update_runtime_metrics, Reading, RtfMetric,
    RtfSeries, RuntimeMetrics, Series, StreamingMonitors, Subsystem, TaskMetrics, Update,
};
use crate::metrics_laws::law_gains_make_up_the_difference;
use crate::model::{Hundredths, Inference, Model};
use crate::pcm::{
    decode_pcm, f32_samples, law_f32_samples_are_little_endian, law_s16_bytes_are_little_endian,
    law_s16_samples_are_little_endian, s16_bytes, s16_encoded, s16_samples, DecodeError, PcmSamples,
};
use crate::report::{location_label, panic_message, panic_report, thread_label};
use crate::segmented::{
    SegmentAction, SegmentInference, SegmentedRunner, Time, VadState, VadTransition,
};
use crate::session::{ClientMessage, Session, SessionAction, SessionInput};
use crate::task::{join, Joined};
use crate::text::{bool_text, decimal, law_decimals_read_back, number_text};

verus! {

/// An inference that neither fails nor panics counts every sample that it was given. One that fails
/// says so, whether or not it would have panicked.
pub proof fn law_the_model_counts_every_sample<R: Copy, T>(
    model: &Model<R>,
    data: &[T],
    fails: bool,
    panics: bool,
    r: Inference,
)
    requires
        call_ensures(Model::<R>::infer::<T>, (model, data, fails, panics), r),
    ensures
        r is Failed <==> fails,
        r is Panicked <==> !fails && panics,
        r is Done <==> !fails && !panics,
        r matches Inference::Done(output) ==> output.count == data@.len(),
        r matches Inference::Failed { message } ==> message@ == "Unexpected inference failure"@,
{
}

/// A flaky model takes no time and has the rates it was given; a speedy one has none.
pub proof fn law_models_are_made_as_asked<R: Copy>(
    zero: R,
    failure_rate: R,
    panic_rate: R,
    flaky: Model<R>,
    speedy: Model<R>,
    usual: Model<Hundredths>,
)
    requires
        call_ensures(Model::<R>::flaky, (zero, failure_rate, panic_rate), flaky),
        call_ensures(Model::<R>::speedy, (zero,), speedy),
        call_ensures(<Model<Hundredths> as Default>::default, (), usual),
    ensures
        flaky.failure_rate == failure_rate && flaky.panic_rate == panic_rate,
        flaky.delay == zero && flaky.constant_factor == zero && flaky.jitter == zero,
        speedy.failure_rate == zero && speedy.panic_rate == zero,
        speedy.delay == zero && speedy.constant_factor == zero && speedy.jitter == zero,
        usual.delay.0 == 50 && usual.constant_factor.0 == 30 && usual.jitter.0 == 20,
        usual.failure_rate.0 == 0 && usual.panic_rate.0 == 1,
{
}

/// A message of 16-bit samples is decoded two bytes to a sample, the low byte first.
pub proof fn law_s16_messages_are_decoded(
    data: &[u8],
    r: Result<Vec<i16>, DecodeError>,
    i: int,
)
    requires
        call_ensures(s16_samples, (data,), r),
    ensures
        r is Ok <==> data@.len() % 2 == 0,
        r matches Err(e) ==> e == (DecodeError::PartialSample { bytes: data@.len() as usize }),
        r matches Ok(v) ==> {
            &&& 2 * v@.len() == data@.len()
            &&& 0 <= i < v@.len() ==> {
                let unsigned = data@[2 * i] + 256 * data@[2 * i + 1];
                v@[i] == unsigned || v@[i] == unsigned - 65536
            }
        },
{
    if data@.len() % 2 == 0 && 0 <= i < data@.len() / 2 {
        law_s16_samples_are_little_endian(data@, i);
    }
}

/// A message of 32-bit samples is decoded four bytes to a pattern, the lowest byte first.
pub proof fn law_f32_messages_are_decoded(data: &[u8], r: Result<Vec<u32>, DecodeError>, i: int)
    requires
        call_ensures(f32_samples, (data,), r),
    ensures
        r is Ok <==> data@.len() % 4 == 0,
        r matches Err(e) ==> e == (DecodeError::PartialSample { bytes: data@.len() as usize }),
        r matches Ok(v) ==> {
            &&& 4 * v@.len() == data@.len()
            &&& 0 <= i < v@.len() ==> v@[i] == data@[4 * i] + 256 * data@[4 * i + 1] + 65536
                * data@[4 * i + 2] + 16777216 * data@[4 * i + 3]
        },
{
    if data@.len() % 4 == 0 && 0 <= i < data@.len() / 4 {
        law_f32_samples_are_little_endian(data@, i);
    }
}

/// A message is decoded as its format says: 16-bit integers or 32-bit floats, and nothing else.
pub proof fn law_messages_are_decoded_by_format(
    format: AudioFormat,
    data: &[u8],
    r: Result<PcmSamples, DecodeError>,
    i: int,
)
    requires
        call_ensures(decode_pcm, (format, data), r),
    ensures
        ({
            let s16 = format.bit_depth == 16 && !format.is_float;
            let float = format.bit_depth == 32 && format.is_float;
            &&& r is Ok <==> (s16 && data@.len() % 2 == 0) || (float && data@.len() % 4 == 0)
            &&& r matches Err(e) ==> e == (if s16 || float {
                DecodeError::PartialSample { bytes: data@.len() as usize }
            } else {
                DecodeError::UnsupportedFormat {
                    bit_depth: format.bit_depth,
                    is_float: format.is_float,
                }
            })
            &&& r matches Ok(PcmSamples::S16(v)) ==> {
                &&& s16
                &&& 2 * v@.len() == data@.len()
                &&& 0 <= i < v@.len() ==> {
                    let unsigned = data@[2 * i] + 256 * data@[2 * i + 1];
                    v@[i] == unsigned || v@[i] == unsigned - 65536
                }
            }
            &&& r matches Ok(PcmSamples::F32(v)) ==> {
                &&& float
                &&& 4 * v@.len() == data@.len()
                &&& 0 <= i < v@.len() ==> v@[i] == data@[4 * i] + 256 * data@[4 * i + 1] + 65536
                    * data@[4 * i + 2] + 16777216 * data@[4 * i + 3]
            }
        }),
{
    if data@.len() % 2 == 0 && 0 <= i < data@.len() / 2 {
        law_s16_samples_are_little_endian(data@, i);
    }
    if data@.len() % 4 == 0 && 0 <= i < data@.len() / 4 {
        law_f32_samples_are_little_endian(data@, i);
    }
}

/// The two bytes of a sample make it up again, the low byte first.
pub proof fn law_s16_bytes_make_up_the_sample(sample: i16, r: (u8, u8))
    requires
        call_ensures(s16_bytes, (sample,), r),
    ensures
        r.0 + 256 * r.1 == sample || r.0 + 256 * r.1 == sample + 65536,
{
    law_s16_bytes_are_little_endian(seq![sample], 0);
    assert(seq![r.0, r.1][0] == s16_encoded(seq![sample])[0]);
    assert(seq![r.0, r.1][1] == s16_encoded(seq![sample])[1]);
}

/// A decoder starts with the format it was given and nothing received. It needs a sink.
pub proof fn law_decoding_starts_with_the_format<T>(
    format: AudioFormat,
    sinks: usize,
    r: Result<AudioDecoder<T>, DecodeError>,
)
    requires
        call_ensures(decode_audio::<T>, (format, sinks), r),
    ensures
        r is Ok <==> sinks > 0,
        r matches Err(e) ==> e is NoSinks,
        r matches Ok(d) ==> {
            &&& d@.format.channels == format.channels
            &&& d@.format.sample_rate == format.sample_rate
            &&& d@.format.bit_depth == format.bit_depth
            &&& d@.format.is_float == format.is_float
            &&& d@.sinks == sinks
            &&& d@.received == 0 && d@.sent == 0 && d@.buffer.len() == 0 && d@.delay == 0
        },
{
}

/// A decoder resamples exactly the audio that is not at 16 kHz, and tells its numbers as they are.
pub proof fn law_a_decoder_resamples_every_other_rate<T: Copy>(
    d: &AudioDecoder<T>,
    resamples: bool,
    received: usize,
    sent: usize,
    waiting: usize,
)
    requires
        call_ensures(AudioDecoder::<T>::resamples, (d,), resamples),
        call_ensures(AudioDecoder::<T>::received, (d,), received),
        call_ensures(AudioDecoder::<T>::sent, (d,), sent),
        call_ensures(AudioDecoder::<T>::waiting, (d,), waiting),
    ensures
        resamples <==> d@.format.sample_rate != 16000,
        received == d@.received,
        sent == d@.sent,
        waiting == d@.buffer.len(),
{
}

/// A message is taken in after what waits. At 16 kHz it always gives out a batch; at any other rate
/// only once 2048 frames wait. The batch is the whole frames at the front, 2048 at most, each
/// channel's samples on that channel, in order; the rest goes on waiting.
pub proof fn law_a_message_gives_out_the_front<T: Copy>(
    d: &mut AudioDecoder<T>,
    samples: Vec<T>,
    r: Option<Vec<Vec<T>>>,
    c: int,
    k: int,
)
    requires
        call_ensures(AudioDecoder::<T>::push, (d, samples), r),
        old(d)@.sinks == old(d)@.format.channels,
        0 <= c < old(d)@.sinks,
    ensures
        ({
            let n = old(d)@.format.channels as int;
            let all = old(d)@.buffer + samples@;
            let whole = all.len() as int / n;
            let frames = if whole < 2048 {
                whole
            } else {
                2048
            };
            &&& r is Some <==> old(d)@.format.sample_rate == 16000 || all.len() >= n * 2048
            &&& r is None ==> final(d)@.buffer == all
            &&& r matches Some(batch) ==> {
                &&& batch@.len() == n
                &&& batch@[c]@.len() == frames
                &&& 0 <= k < frames ==> batch@[c]@[k] == all[c + k * n]
                &&& final(d)@.buffer == all.skip(frames * n)
            }
            &&& final(d)@.received == old(d)@.received + samples@.len()
            &&& final(d)@.sent == old(d)@.sent
            &&& final(d)@.format == old(d)@.format
            &&& final(d)@.sinks == old(d)@.sinks
            &&& final(d)@.delay == old(d)@.delay
        }),
{
    let next = old(d)@.absorb(samples@);
    law_a_batch_holds_whole_frames(next, c, k);
    law_a_batch_is_the_front_of_what_waits(next, 0);
    if let Some(batch) = r {
        assert(contents(batch@)[c] == batch@[c]@);
    }
}

/// At the end of a resampled stream every full batch that waits is given out in the same way, and
/// nothing is given out of any other.
pub proof fn law_a_backlog_gives_out_the_front<T: Copy>(
    d: &mut AudioDecoder<T>,
    r: Option<Vec<Vec<T>>>,
    c: int,
    k: int,
)
    requires
        call_ensures(AudioDecoder::<T>::next_batch, (d,), r),
        old(d)@.sinks == old(d)@.format.channels,
        0 <= c < old(d)@.sinks,
    ensures
        ({
            let n = old(d)@.format.channels as int;
            let all = old(d)@.buffer;
            &&& r is Some <==> old(d)@.format.sample_rate != 16000 && all.len() >= n * 2048
            &&& r is None ==> final(d)@.buffer == all
            &&& r matches Some(batch) ==> {
                &&& batch@.len() == n
                &&& batch@[c]@.len() == 2048
                &&& 0 <= k < 2048 ==> batch@[c]@[k] == all[c + k * n]
                &&& final(d)@.buffer == all.skip(2048 * n)
            }
            &&& final(d)@.received == old(d)@.received
            &&& final(d)@.sent == old(d)@.sent
            &&& final(d)@.format == old(d)@.format
            &&& final(d)@.sinks == old(d)@.sinks
            &&& final(d)@.delay == old(d)@.delay
        }),
{
    let s = old(d)@;
    law_a_batch_holds_whole_frames(s, c, k);
    law_a_batch_is_the_front_of_what_waits(s, 0);
    if let Some(batch) = r {
        assert(contents(batch@)[c] == batch@[c]@);
        assert(contents(batch@).len() == batch@.len());
        let n = s.format.channels as int;
        let len = s.buffer.len() as int;
        assert(len / n >= 2048) by (nonlinear_arith)
            requires
                len >= n * 2048,
                n > 0,
        ;
    }
}

/// A batch reaches the sinks channel by channel, without the samples of the delay, and as much as
/// reaches them is counted as sent.
pub proof fn law_a_batch_reaches_the_sinks<T: Copy>(
    d: &mut AudioDecoder<T>,
    channels: Vec<Vec<T>>,
    r: Vec<Vec<T>>,
    c: int,
    k: int,
)
    requires
        call_ensures(AudioDecoder::<T>::deliver, (d, channels), r),
    ensures
        r@.len() <= old(d)@.sinks && r@.len() <= channels@.len(),
        r@.len() == old(d)@.sinks || r@.len() == channels@.len(),
        0 <= c < r@.len() ==> {
            &&& r@[c]@.len() == (if old(d)@.delay <= channels@[c]@.len() {
                channels@[c]@.len() - old(d)@.delay
            } else {
                0
            })
            &&& 0 <= k < r@[c]@.len() ==> r@[c]@[k] == channels@[c]@[old(d)@.delay + k]
        },
        final(d)@.sent == old(d)@.sent + contents(r@).fold_left(
            0nat,
            |n: nat, channel: Seq<T>| n + channel.len(),
        ),
        channels@.len() > 0 ==> final(d)@.delay == (if old(d)@.delay <= channels@[0]@.len() {
            0
        } else {
            old(d)@.delay - channels@[0]@.len()
        }),
        final(d)@.buffer == old(d)@.buffer,
        final(d)@.received == old(d)@.received,
        final(d)@.format == old(d)@.format,
        final(d)@.sinks == old(d)@.sinks,
{
    crate::audio_laws::law_what_is_delivered_is_counted(old(d)@, contents(channels@));
    if channels@.len() > 0 {
        assert(contents(channels@)[0] == channels@[0]@);
    }
}

/// The delay that a decoder is told of is the one it leaves out.
pub proof fn law_a_delay_is_noted<T: Copy>(d: &mut AudioDecoder<T>, delay: usize)
    requires
        call_ensures(AudioDecoder::<T>::set_delay, (d, delay), ()),
    ensures
        final(d)@.delay == delay,
        final(d)@.buffer == old(d)@.buffer,
        final(d)@.received == old(d)@.received,
        final(d)@.sent == old(d)@.sent,
        final(d)@.format == old(d)@.format,
        final(d)@.sinks == old(d)@.sinks,
{
}

/// The tail of a stream is all that waits, each channel's samples on that channel. What its length
/// has to be and what has gone out on each channel come to the target.
pub proof fn law_a_tail_is_all_that_waits<T: Copy>(
    d: &mut AudioDecoder<T>,
    target: Option<usize>,
    r: Option<Tail<T>>,
    c: int,
    k: int,
)
    requires
        call_ensures(AudioDecoder::<T>::drain, (d, target), r),
        old(d)@.sinks == old(d)@.format.channels,
        0 <= c < old(d)@.sinks,
    ensures
        ({
            let n = old(d)@.format.channels as int;
            let each = old(d)@.sent as int / n;
            let waits = old(d)@.buffer.len();
            &&& r is Some <==> waits > 0 || (old(d)@.format.sample_rate != 16000 && target is Some
                && each < target->0)
            &&& final(d)@.buffer.len() == 0
            &&& final(d)@.received == old(d)@.received
            &&& final(d)@.sent == old(d)@.sent
            &&& final(d)@.delay == old(d)@.delay
            &&& final(d)@.format == old(d)@.format
            &&& final(d)@.sinks == old(d)@.sinks
            &&& r matches Some(tail) ==> {
                &&& tail.channels@.len() == n
                &&& 0 <= k < tail.channels@[c]@.len() ==> 0 <= c + k * n < waits
                    && tail.channels@[c]@[k] == old(d)@.buffer[c + k * n]
                &&& 0 <= k && c + k * n < waits ==> k < tail.channels@[c]@.len()
                &&& target is None ==> tail.new_len is None && tail.needed == 0
                &&& target matches Some(t) ==> {
                    &&& tail.new_len matches Some(len)
                    &&& each <= t ==> each + len == t
                    &&& each > t ==> len == 0
                    &&& tail.needed == old(d)@.delay + len || (tail.needed == usize::MAX && old(d)@.delay + len > usize::MAX)
                }
            }
        }),
{
    let s = old(d)@;
    let n = s.format.channels as int;
    law_samples_are_dealt_out_in_turn(s.buffer, s.sinks, s.format.channels as nat, c + k * n, c, k);
    if let Some(tail) = r {
        assert(contents(tail.channels@)[c] == tail.channels@[c]@);
        if 0 <= k && c + k * n < s.buffer.len() {
            assert(0 <= c + k * n) by (nonlinear_arith)
                requires
                    0 <= c < n,
                    0 <= k,
            ;
            vstd::arithmetic::div_mod::lemma_fundamental_div_mod_converse(c + k * n, n, k, c);
        }
    }
}

/// The last channels reach the sinks as other batches do, each brought to the length asked for: its
/// own samples as far as they go, then silence.
pub proof fn law_a_tail_reaches_the_sinks<T: Copy>(
    d: &AudioDecoder<T>,
    channels: Vec<Vec<T>>,
    new_len: Option<usize>,
    silence: T,
    r: Vec<Vec<T>>,
    c: int,
    k: int,
)
    requires
        call_ensures(AudioDecoder::<T>::deliver_tail, (d, channels, new_len, silence), r),
    ensures
        r@.len() <= d@.sinks && r@.len() <= channels@.len(),
        r@.len() == d@.sinks || r@.len() == channels@.len(),
        0 <= c < r@.len() ==> {
            let from = d@.delay;
            let have = channels@[c]@.len() - from;
            &&& new_len matches Some(n) ==> r@[c]@.len() == n
            &&& new_len is None ==> r@[c]@.len() == (if have >= 0 {
                have
            } else {
                0
            })
            &&& 0 <= k < r@[c]@.len() ==> r@[c]@[k] == (if k < have {
                channels@[c]@[from + k]
            } else {
                silence
            })
        },
{
    assert(contents(r@).len() == r@.len());
    if 0 <= c < r@.len() {
        assert(contents(r@)[c] == r@[c]@);
        assert(contents(channels@)[c] == channels@[c]@);
    }
}

/// A resampler owes samples exactly until it has come up with as many as are needed.
pub proof fn law_a_resampler_owes_until_it_has_enough<T>(tail: &Tail<T>, have: usize, r: bool)
    requires
        call_ensures(Tail::<T>::lacks, (tail, have), r),
    ensures
        r <==> have < tail.needed,
{
}

/// The audio of a batch of messages is the audio of all of them, one after the other.
pub proof fn law_audio_is_joined<T: Copy>(batch: &Vec<AudioChannel<T>>, r: Vec<T>)
    requires
        call_ensures(join_audio::<T>, (batch,), r),
    ensures
        r@ == Seq::new(batch@.len(), |i: int| batch@[i]@).flatten(),
{
    assert(messages_view(batch@) =~= Seq::new(batch@.len(), |i: int| batch@[i]@));
}

/// What the client is told of an inference: what it gave, with its bounds where there are any; why
/// it failed; or that something went wrong.
pub proof fn law_inferences_are_told<T>(
    outcome: Inference,
    bounds: Option<(T, T)>,
    is_final: Option<bool>,
    r: Event<T>,
)
    requires
        call_ensures(inference_event::<T>, (outcome, bounds, is_final), r),
    ensures
        outcome matches Inference::Done(output) ==> match bounds {
            Some((start, end)) => {
                &&& r matches Event::Segment(segment)
                &&& segment.start_time == start
                &&& segment.end_time == end
                &&& segment.is_final == is_final
                &&& segment.output.count == output.count
            },
            None => r matches Event::Data(told) && told.count == output.count,
        },
        outcome matches Inference::Failed { message: why } ==> (r matches Event::Error { message }
            && message == why),
        outcome is Panicked ==> (r matches Event::Error { message } && message@
            == "Internal server error"@),
{
}

/// A runner takes the audio of a batch whole, as the samples that come after those before. An empty
/// batch closes it.
pub proof fn law_a_runner_takes_audio_in_order<T: Copy>(
    runner: &mut InferenceRunner,
    batch: &Vec<AudioChannel<T>>,
    r: Option<InferenceTask<T>>,
)
    requires
        call_ensures(InferenceRunner::on_messages::<T>, (runner, batch), r),
    ensures
        r is Some <==> batch@.len() > 0,
        r is None ==> {
            &&& !final(runner)@.receiving
            &&& final(runner)@.running == old(runner)@.running
            &&& final(runner)@.position == old(runner)@.position
        },
        r matches Some(task) ==> {
            &&& task.audio@ == Seq::new(batch@.len(), |i: int| batch@[i]@).flatten()
            &&& task.span.start == old(runner)@.position
            &&& task.span.end == old(runner)@.position + task.audio@.len()
            &&& final(runner)@.position == task.span.end
            &&& final(runner)@.running == old(runner)@.running.push(task.span)
            &&& final(runner)@.receiving
        },
        final(runner)@.channel == old(runner)@.channel,
        final(runner)@.max_futures == old(runner)@.max_futures,
{
    assert(messages_view(batch@) =~= Seq::new(batch@.len(), |i: int| batch@[i]@));
}

/// A result answers for the oldest inference, on the runner's channel and with that inference's own
/// samples, and takes it off those that run.
pub proof fn law_a_runner_answers_in_order(
    runner: &mut InferenceRunner,
    outcome: Inference,
    r: Answer,
)
    requires
        call_ensures(InferenceRunner::on_result, (runner, outcome), r),
        old(runner)@.running.len() > 0,
    ensures
        r.span == old(runner)@.running[0],
        r.response.channel == old(runner)@.channel,
        outcome matches Inference::Done(output) ==> {
            &&& r.response.data matches Event::Segment(segment)
            &&& segment.start_time == old(runner)@.running[0].start
            &&& segment.end_time == old(runner)@.running[0].end
            &&& segment.is_final is None
            &&& segment.output.count == output.count
        },
        outcome matches Inference::Failed { message: why } ==> (r.response.data matches Event::Error {
            message,
        } && message == why),
        outcome is Panicked ==> (r.response.data matches Event::Error { message } && message@
            == "Internal server error"@),
        old(runner)@.running == seq![r.span] + final(runner)@.running,
        final(runner)@.receiving == old(runner)@.receiving,
        final(runner)@.position == old(runner)@.position,
        final(runner)@.channel == old(runner)@.channel,
        final(runner)@.max_futures == old(runner)@.max_futures,
{
    assert(old(runner)@.running =~= seq![r.span] + final(runner)@.running);
}

/// A runner says what it waits for: audio while it is open and may start an inference, results while
/// any run, and nothing once it is closed and none do.
pub proof fn law_a_runner_says_what_it_waits_for(
    runner: &InferenceRunner,
    audio: bool,
    result: bool,
    finished: bool,
    position: usize,
)
    requires
        call_ensures(InferenceRunner::wants_audio, (runner,), audio),
        call_ensures(InferenceRunner::wants_result, (runner,), result),
        call_ensures(InferenceRunner::finished, (runner,), finished),
        call_ensures(InferenceRunner::position, (runner,), position),
    ensures
        audio <==> runner@.receiving && runner@.running.len() < runner@.max_futures,
        result <==> runner@.running.len() > 0,
        finished <==> !runner@.receiving && runner@.running.len() == 0,
        position == runner@.position,
{
}

/// All the audio of a batch goes to voice activity detection.
pub proof fn law_detection_hears_all_audio<T: Copy>(
    runner: &SegmentedRunner,
    batch: &Vec<AudioChannel<T>>,
    r: Option<Vec<T>>,
)
    requires
        call_ensures(SegmentedRunner::on_messages::<T>, (runner, batch), r),
    ensures
        r is Some <==> batch@.len() > 0,
        r matches Some(audio) ==> audio@ == Seq::new(batch@.len(), |i: int| batch@[i]@).flatten(),
{
    assert(messages_view(batch@) =~= Seq::new(batch@.len(), |i: int| batch@[i]@));
}

/// Where speech is found to begin, the client is told so with that time; where it is found to end,
/// the client is told so with that time, and the model runs on it as final, from its beginning to
/// the time told.
pub proof fn law_speech_is_told_when_it_happens<T>(
    runner: &mut SegmentedRunner,
    transition: VadTransition<T>,
    r: Vec<SegmentAction<T>>,
)
    requires
        call_ensures(SegmentedRunner::on_transition::<T>, (runner, transition), r),
    ensures
        transition matches VadTransition::SpeechStart { timestamp_ms } ==> {
            &&& r@.len() == 1
            &&& r@[0] matches SegmentAction::Send(told)
            &&& told.channel == old(runner).channel
            &&& told.data matches Event::Active { time: Time::Millis(ms) }
            &&& ms == timestamp_ms
            &&& *final(runner) == *old(runner)
        },
        transition matches VadTransition::SpeechEnd {
            start_timestamp_ms,
            end_timestamp_ms,
            samples,
        } ==> {
            &&& r@.len() == 2
            &&& r@[0] matches SegmentAction::Send(told)
            &&& told.channel == old(runner).channel
            &&& told.data matches Event::Inactive { time: Time::Millis(ms) }
            &&& ms == end_timestamp_ms
            &&& r@[1] matches SegmentAction::Infer(inference)
            &&& inference.samples == samples
            &&& inference.start_ms == start_timestamp_ms
            &&& inference.end_ms == ms
            &&& inference.is_final
            &&& final(runner).last_inference == end_timestamp_ms * 1_000_000
        },
        final(runner).channel == old(runner).channel,
        final(runner).interim_results == old(runner).interim_results,
{
}

/// Whoever asked for interim results gets one, on all the speech so far, whenever somebody speaks
/// and the model has not seen the last half second or more, by however much; and nobody gets one
/// otherwise. After it the model has seen everything; without it nothing changes.
pub proof fn law_interim_results_come_when_due<T: Copy>(
    runner: &mut SegmentedRunner,
    vad: &VadState<T>,
    r: Option<SegmentInference<T>>,
)
    requires
        call_ensures(SegmentedRunner::on_processed::<T>, (runner, vad), r),
    ensures
        r is Some <==> old(runner).interim_results && vad.speaking && vad.session_time >= old(runner).last_inference + 500_000_000,
        r is None ==> *final(runner) == *old(runner),
        r matches Some(inference) ==> {
            &&& inference.samples@ == vad.speech@
            &&& inference.start_ms == ((vad.session_time - vad.speech_duration) / 1_000_000) as usize
            &&& inference.end_ms == (vad.session_time as int / 1_000_000) as usize
            &&& !inference.is_final
            &&& final(runner).last_inference == vad.session_time
        },
        old(runner).interim_results && vad.speaking ==> vad.session_time - final(runner).last_inference < 500_000_000,
        final(runner).channel == old(runner).channel,
        final(runner).interim_results == old(runner).interim_results,
{
}

/// When the stream ends in the middle of speech, the client is told that it ended right then, and
/// the model runs on all of it as final. When it ends in silence nothing happens.
pub proof fn law_the_end_of_a_stream_is_told<T: Copy>(
    runner: &SegmentedRunner,
    vad: &VadState<T>,
    r: Vec<SegmentAction<T>>,
)
    requires
        call_ensures(SegmentedRunner::on_end::<T>, (runner, vad), r),
    ensures
        !vad.speaking ==> r@.len() == 0,
        vad.speaking ==> {
            &&& r@.len() == 2
            &&& r@[0] matches SegmentAction::Send(told)
            &&& told.channel == runner.channel
            &&& told.data matches Event::Inactive { time: Time::Nanos(ns) }
            &&& ns == vad.session_time
            &&& r@[1] matches SegmentAction::Infer(inference)
            &&& inference.samples@ == vad.speech@
            &&& inference.start_ms == ((vad.session_time - vad.speech_duration) / 1_000_000) as usize
            &&& inference.end_ms == (vad.session_time as int / 1_000_000) as usize
            &&& inference.is_final
        },
{
}

/// The answer on a segment has the segment's own bounds and finality, on the runner's channel.
pub proof fn law_segments_are_answered(
    runner: &SegmentedRunner,
    start_ms: usize,
    end_ms: usize,
    is_final: bool,
    outcome: Inference,
    r: ApiResponse<Time>,
)
    requires
        call_ensures(SegmentedRunner::respond, (runner, start_ms, end_ms, is_final, outcome), r),
    ensures
        r.channel == runner.channel,
        outcome matches Inference::Done(output) ==> {
            &&& r.data matches Event::Segment(segment)
            &&& segment.start_time == Time::Millis(start_ms)
            &&& segment.end_time == Time::Millis(end_ms)
            &&& segment.is_final == Some(is_final)
            &&& segment.output.count == output.count
        },
        outcome matches Inference::Failed { message: why } ==> (r.data matches Event::Error {
            message,
        } && message == why),
        outcome is Panicked ==> (r.data matches Event::Error { message } && message@
            == "Internal server error"@),
{
}

/// A connection opens the stream that its first start message describes, to the letter, and nothing
/// else opens one.
pub proof fn law_a_connection_opens_the_stream_asked_for<A>(
    input: SessionInput<A>,
    r: (Session, SessionAction<A>),
)
    requires
        call_ensures(Session::step::<A>, (Session::AwaitingStart, input), r),
    ensures
        input matches SessionInput::Message(
            ClientMessage::Request(RequestMessage::Start(asked)),
        ) ==> {
            &&& r.0 matches Session::Streaming { start, got_messages }
            &&& start == asked
            &&& !got_messages
            &&& r.1 is Begin
        },
        input is Message && !(input matches SessionInput::Message(
            ClientMessage::Request(RequestMessage::Start(_)),
        )) ==> r.0 is AwaitingStart && r.1 is Receive,
        input is Ended ==> r.0 is Closed && r.1 is Exit,
{
}

/// What an open stream does with whatever happens to it.
pub proof fn law_a_connection_serves_its_stream<A>(
    start: StartMessage,
    got_messages: bool,
    input: SessionInput<A>,
    r: (Session, SessionAction<A>),
)
    requires
        call_ensures(Session::step::<A>, (Session::Streaming { start, got_messages }, input), r),
    ensures
        input matches SessionInput::Message(ClientMessage::Audio(audio)) ==> {
            &&& r.0 == (Session::Streaming { start, got_messages: true })
            &&& r.1 matches SessionAction::Forward(handed_on)
            &&& handed_on == audio
        },
        input matches SessionInput::Message(
            ClientMessage::Request(RequestMessage::Start(asked)),
        ) ==> {
            &&& r.0 == (Session::WindingDown { start: asked, again: true })
            &&& r.1 is WindDown
        },
        input matches SessionInput::Message(
            ClientMessage::Request(RequestMessage::Stop(stop)),
        ) ==> {
            &&& r.0 == (Session::WindingDown { start, again: !stop.disconnect })
            &&& r.1 is WindDown
        },
        input matches SessionInput::Message(ClientMessage::Close) ==> r.0 is Closed && r.1 is Exit,
        input matches SessionInput::Message(ClientMessage::InvalidText) ==> r.0
            == (Session::Streaming { start, got_messages }) && r.1 is Receive,
        input matches SessionInput::Message(ClientMessage::Other) ==> r.0 == (Session::Streaming {
            start,
            got_messages,
        }) && r.1 is Receive,
        input is Ended || input is AudioRejected ==> r.0 == (Session::WindingDown {
            start,
            again: got_messages,
        }) && r.1 is WindDown,
{
}

/// A stream that has wound down is followed by the next one, as its start message says, or by the
/// end of the connection.
pub proof fn law_a_connection_goes_on_or_ends<A>(
    start: StartMessage,
    again: bool,
    r: (Session, SessionAction<A>),
)
    requires
        call_ensures(
            Session::step::<A>,
            (Session::WindingDown { start, again }, SessionInput::WoundDown),
            r,
        ),
    ensures
        again ==> r.0 == (Session::Streaming { start, got_messages: false }) && r.1 is Begin,
        !again ==> r.0 is Closed && r.1 is Exit,
{
}

/// A connection starts without a stream, and then tells which start message it serves.
pub proof fn law_a_connection_tells_its_stream(
    fresh: Session,
    session: &Session,
    waits: bool,
    r: Option<&StartMessage>,
)
    requires
        call_ensures(Session::new, (), fresh),
        call_ensures(Session::awaiting_start, (session,), waits),
        call_ensures(Session::start, (session,), r),
    ensures
        fresh is AwaitingStart,
        waits <==> session is AwaitingStart,
        match *session {
            Session::Streaming { start, .. } => r matches Some(told) && *told == start,
            Session::WindingDown { start, .. } => r matches Some(told) && *told == start,
            _ => r is None,
        },
{
}

/// Each channel of a stream gets a runner of its own, on that channel: a segmented one where only
/// speech is of interest, and a simple one everywhere else, whatever the format.
pub proof fn law_each_channel_gets_its_runner<M>(
    context: &StreamingContext<M>,
    start: &StartMessage,
    vad_processing: bool,
    r: Vec<Runner>,
    c: int,
)
    requires
        call_ensures(StreamingContext::<M>::runners, (context, start, vad_processing), r),
        0 <= c < r@.len(),
    ensures
        r@.len() == start.format.channels,
        r@[c] is Segmented <==> vad_processing,
        r@[c] is Simple <==> !vad_processing,
        r@[c] matches Runner::Segmented(runner) ==> {
            &&& runner.channel == c
            &&& runner.interim_results == start.interim_results
            &&& runner.last_inference == 0
        },
        r@[c] matches Runner::Simple(runner) ==> {
            &&& runner@.channel == c
            &&& runner@.max_futures == context.max_futures
            &&& runner@.receiving && runner@.running.len() == 0 && runner@.position == 0
        },
{
    assert(context.serves(r@[c], *start, vad_processing, c));
}

/// A context has the model it was given, and runs as many inferences at once as the machine can, or
/// four where it does not say.
pub proof fn law_contexts_are_made_as_asked<M>(
    config: Config<M>,
    model: M,
    parallelism: Option<usize>,
    configured: StreamingContext<M>,
    given: StreamingContext<M>,
)
    requires
        call_ensures(StreamingContext::<M>::new_with_config, (config, parallelism), configured),
        call_ensures(StreamingContext::<M>::new_with_model, (model, parallelism), given),
    ensures
        configured.model == config.model,
        given.model == model,
        configured.max_futures == (if parallelism is Some {
            parallelism->0
        } else {
            4
        }),
        given.max_futures == configured.max_futures,
{
}

/// Runners that a context starts are on the channel asked for and have seen no audio.
pub proof fn law_runners_start_on_their_channel<M>(
    context: &StreamingContext<M>,
    settings: &StartMessage,
    channel: usize,
    simple: InferenceRunner,
    segmented: SegmentedRunner,
)
    requires
        call_ensures(StreamingContext::<M>::inference_runner, (context, channel), simple),
        call_ensures(StreamingContext::<M>::segmented_runner, (context, settings, channel), segmented),
    ensures
        simple@.channel == channel && simple@.max_futures == context.max_futures,
        simple@.receiving && simple@.running.len() == 0 && simple@.position == 0,
        segmented.channel == channel && segmented.last_inference == 0,
        segmented.interim_results == settings.interim_results,
{
}

/// A client asks for a stream of its recording's own shape, in 16-bit samples, and at the end for
/// the connection to be closed.
pub proof fn law_a_client_asks_for_its_recording(
    trace_id: Option<String>,
    channels: u16,
    sample_rate: u32,
    interim_results: bool,
    start: RequestMessage,
    stop: RequestMessage,
)
    requires
        call_ensures(start_request, (trace_id, channels, sample_rate, interim_results), start),
        call_ensures(stop_request, (), stop),
    ensures
        start matches RequestMessage::Start(asked) && {
            &&& asked.trace_id == trace_id
            &&& asked.format.channels == channels
            &&& asked.format.sample_rate == sample_rate
            &&& asked.format.bit_depth == 16
            &&& !asked.format.is_float
            &&& asked.interim_results == interim_results
        },
        stop matches RequestMessage::Stop(asked) && asked.disconnect,
{
}

/// No byte of a recording is lost or added: what waits, the two bytes of the new sample after it, is
/// either given out whole, once it makes a chunk, or goes on waiting whole.
pub proof fn law_a_chunker_keeps_every_byte(
    chunker: &mut Chunker,
    sample: i16,
    r: Option<Vec<u8>>,
)
    requires
        call_ensures(Chunker::push, (chunker, sample), r),
    ensures
        ({
            let all = match r {
                Some(chunk) => chunk@ + final(chunker)@.pending,
                None => final(chunker)@.pending,
            };
            let n = old(chunker)@.pending.len() as int;
            &&& all.len() == n + 2
            &&& all.take(n) == old(chunker)@.pending
            &&& all[n] + 256 * all[n + 1] == sample || all[n] + 256 * all[n + 1] == sample + 65536
            &&& r is Some <==> n + 2 >= old(chunker)@.chunk_size
            &&& r is Some ==> final(chunker)@.pending.len() == 0
            &&& final(chunker)@.chunk_size == old(chunker)@.chunk_size
        }),
{
    law_s16_bytes_are_little_endian(seq![sample], 0);
    let before = old(chunker)@.pending;
    let all = before + s16_encoded(seq![sample]);
    assert(all.take(before.len() as int) =~= before);
    if let Some(chunk) = r {
        assert(chunk@ + final(chunker)@.pending =~= all);
    }
}

/// A chunker starts empty, and at the end gives out what waits, if anything does.
pub proof fn law_a_chunker_ends_empty_handed(
    chunk_size: usize,
    fresh: Chunker,
    chunker: Chunker,
    r: Option<Vec<u8>>,
)
    requires
        call_ensures(Chunker::new, (chunk_size,), fresh),
        call_ensures(Chunker::finish, (chunker,), r),
    ensures
        fresh@.chunk_size == chunk_size && fresh@.pending.len() == 0,
        r is Some <==> chunker@.pending.len() > 0,
        r matches Some(bytes) ==> bytes@ == chunker@.pending,
{
}

/// Panics are counted by subsystem, and a stage's measurements go to the three series of that stage.
pub proof fn law_series_are_named(
    system: Subsystem,
    stage: &RtfMetric,
    panics: Series,
    series: RtfSeries,
)
    requires
        call_ensures(get_panic_counter, (system,), panics),
        call_ensures(RtfMetric::series, (stage,), series),
    ensures
        panics.name@ == "total_task_panic_count"@ && panics.label@ == "task"@,
        panics.value@ == match system {
            Subsystem::AudioDecoding => "audio_decoding"@,
            Subsystem::Client => "client"@,
            Subsystem::Inference => "inference"@,
            Subsystem::Routing => "api_routing"@,
            Subsystem::Metrics => "metrics"@,
        },
        ({
            let name = match *stage {
                RtfMetric::AudioDecoding => "audio_decoding"@,
                RtfMetric::Vad => "vad_processing"@,
                RtfMetric::Model => "model_inference"@,
            };
            &&& series.media_duration.name@ == "media_duration_seconds"@
            &&& series.media_duration.label@ == "pipeline"@
            &&& series.media_duration.value@ == name
            &&& series.processing_duration.name@ == "processing_duration_seconds"@
            &&& series.processing_duration.label@ == "pipeline_stage"@
            &&& series.processing_duration.value@ == name
            &&& series.rtf.name@ == "rtf"@
            &&& series.rtf.label@ == "pipeline"@
            &&& series.rtf.value@ == name
        }),
{
}

/// A report on tasks is passed on to the series of their subsystem: its polls, for one, are added to
/// the counter of polls as they are.
#[verifier::spinoff_prover]
pub proof fn law_a_report_changes_its_series(
    system: Subsystem,
    metrics: TaskMetrics,
    r: Vec<(Series, Reading)>,
    j: int,
)
    requires
        call_ensures(update_metrics, (system, metrics), r),
        0 <= j < 18,
    ensures
        r@.len() == 18,
        r@[j].0.name@ == task_updates(metrics)[j].0,
        r@[j].0.label@ == "task"@,
        r@[j].0.value@ == system.label(),
        r@[j].1 == task_updates(metrics)[j].1,
        r@[4].0.name@ == "total_poll_count"@ && r@[4].1 == Reading::Increment(
            metrics.total_poll_count,
        ),
{
    let all = crate::metrics::changes(r@);
    assert(all.len() == r@.len());
    assert(all[j].reading == r@[j].1 && all[4].reading == r@[4].1);
    assert(all[j] == crate::metrics::task_changes(system, metrics)[j]);
    assert(all[4] == crate::metrics::task_changes(system, metrics)[4]);
}

/// Collecting remembers the totals it was given, and a monitor belongs to its own subsystem.
pub proof fn law_collecting_remembers<M>(
    reports: &mut StreamingMonitors<TaskMetrics>,
    totals: StreamingMonitors<TaskMetrics>,
    r: Vec<(Series, Reading)>,
    monitors: &StreamingMonitors<M>,
    system: Subsystem,
    monitor: &M,
)
    requires
        call_ensures(StreamingMonitors::<TaskMetrics>::run_collector, (reports, totals), r),
        call_ensures(StreamingMonitors::<M>::get_monitor, (monitors, system), monitor),
    ensures
        *final(reports) == totals,
        crate::metrics::changes(r@) == old(reports).collected(totals),
        *monitor == match system {
            Subsystem::Routing => monitors.route,
            Subsystem::AudioDecoding => monitors.audio_decoding,
            Subsystem::Client => monitors.client_receiver,
            Subsystem::Inference => monitors.inference,
            Subsystem::Metrics => monitors.metrics,
        },
{
}

/// A report on the runtime is passed on as it is, each number under its own name.
#[verifier::spinoff_prover]
pub proof fn law_the_runtime_is_reported(m: RuntimeMetrics, r: Vec<Update>)
    requires
        call_ensures(update_runtime_metrics, (m,), r),
    ensures
        r@.len() == 10,
        r@[0].name@ == "workers_count"@ && r@[0].reading == Reading::Number(m.workers_count),
        r@[1].name@ == "live_tasks_count"@ && r@[1].reading == Reading::Number(m.live_tasks_count),
        r@[2].name@ == "global_queue_depth"@ && r@[2].reading == Reading::Number(
            m.global_queue_depth,
        ),
        r@[3].name@ == "max_park_count"@ && r@[3].reading == Reading::Number(m.max_park_count),
        r@[4].name@ == "min_park_count"@ && r@[4].reading == Reading::Number(m.min_park_count),
        r@[5].name@ == "max_busy_duration"@ && r@[5].reading == Reading::Level(m.max_busy_duration),
        r@[6].name@ == "min_busy_duration"@ && r@[6].reading == Reading::Level(m.min_busy_duration),
        r@[7].name@ == "total_park_count"@ && r@[7].reading == Reading::Increment(
            m.total_park_count,
        ),
        r@[8].name@ == "total_busy_duration"@ && r@[8].reading == Reading::Increment(
            m.total_busy_duration as u64,
        ),
        r@[9].name@ == "elapsed"@ && r@[9].reading == Reading::Observe(m.elapsed),
{
    let all = r@.map_values(|u: Update| (u.name@, u.reading));
    assert(all.len() == r@.len());
    assert(forall|i: int| 0 <= i < r@.len() ==> #[trigger] all[i] == (r@[i].name@, r@[i].reading));
    assert(all[0].1 == r@[0].reading && all[1].1 == r@[1].reading && all[2].1 == r@[2].reading);
    assert(all[3].1 == r@[3].reading && all[4].1 == r@[4].reading && all[5].1 == r@[5].reading);
    assert(all[6].1 == r@[6].reading && all[7].1 == r@[7].reading && all[8].1 == r@[8].reading);
    assert(all[9].1 == r@[9].reading);
}

/// A task that gave a value has not panicked, and one that gave none counts as one panic. What it
/// gave is handed on.
pub proof fn law_panics_are_counted<T, E>(result: Result<T, E>, r: Joined<T, E>)
    requires
        call_ensures(join::<T, E>, (result,), r),
    ensures
        r.result == result,
        result is Ok ==> r.panics == 0,
        result is Err ==> r.panics == 1,
{
}

/// What is said of a panic: its message, whatever kind of string it is; its thread; its place; and
/// its backtrace, where there is one.
pub proof fn law_panics_are_told<'a>(
    literal: Option<&'a str>,
    owned: Option<&'a str>,
    message: &'a str,
    thread: Option<&'a str>,
    label: &'a str,
    file: &'a str,
    line: u32,
    column: u32,
    place: String,
    backtrace: Option<&'a str>,
    report: String,
)
    requires
        call_ensures(panic_message, (literal, owned), message),
        call_ensures(thread_label, (thread,), label),
        call_ensures(location_label, (file, line, column), place),
        call_ensures(panic_report, (message, backtrace), report),
    ensures
        literal matches Some(s) ==> message@ == s@,
        literal is None ==> (owned matches Some(s) ==> message@ == s@),
        literal is None && owned is None ==> message@ == "Box<dyn Any>"@,
        thread matches Some(s) ==> label@ == s@,
        thread is None ==> label@ == "<unnamed>"@,
        place@ == file@ + ":"@ + decimal(line as nat) + ":"@ + decimal(column as nat),
        backtrace is None ==> report@ == message@,
        backtrace matches Some(trace) ==> report@ == message@ + "\n\nStack backtrace:\n"@ + trace@,
{
}

/// Numbers are written so that they read back, and truth values by their names.
pub proof fn law_numbers_are_written(n: u64, text: String, b: bool, word: &'static str)
    requires
        call_ensures(number_text, (n,), text),
        call_ensures(bool_text, (b,), word),
    ensures
        text@.fold_left(0int, |v: int, c: char| 10 * v + (c as int - 48)) == n,
        text@.len() > 0,
        text@.len() > 1 ==> text@[0] as int > 48,
        forall|i: int| 0 <= i < text@.len() ==> 48 <= (#[trigger] text@[i]) as int <= 57,
        b ==> word@ == "true"@,
        !b ==> word@ == "false"@,
{
    law_decimals_read_back(n as nat);
}

/// Errors are told in words, with the numbers that they are about.
pub proof fn law_errors_say_what_went_wrong(error: &DecodeError, r: String)
    requires
        call_ensures(DecodeError::message, (error,), r),
    ensures
        *error is NoSinks ==> r@ == "No output sinks for channel data"@,
        *error matches DecodeError::PartialSample { bytes } ==> r@ == "Got a partial sample: "@
            + decimal(bytes as nat) + " bytes"@,
        *error matches DecodeError::UnsupportedFormat { bit_depth, is_float } ==> r@
            == "Unsupported format bit_depth: "@ + decimal(bit_depth as nat) + " is_float: "@ + (
        if is_float {
            "true"@
        } else {
            "false"@
        }),
{
}

/// A start message carries its trace under one key, and a copy of it is the same message.
pub proof fn law_start_messages_carry_their_trace(
    start: &StartMessage,
    key: &str,
    value: Option<&str>,
    keys: Vec<&'static str>,
    copy: StartMessage,
    stop: StopMessage,
)
    requires
        call_ensures(StartMessage::get, (start, key), value),
        call_ensures(StartMessage::keys, (start,), keys),
        call_ensures(<StartMessage as Clone>::clone, (start,), copy),
        call_ensures(<StopMessage as Default>::default, (), stop),
    ensures
        value is Some <==> key@ == "traceparent"@ && start.trace_id is Some,
        value matches Some(v) ==> v@ == start.trace_id->0@,
        keys@.len() == 1 && keys@[0]@ == "traceparent"@,
        copy == *start,
        !stop.disconnect,
{
    let all = keys@.map_values(|k: &str| k@);
    assert(all.len() == keys@.len());
    assert(all[0] == keys@[0]@);
}

/// What is gained between two reports on tasks is their difference: for polls, for one, it is as
/// many as the later total is above the earlier one.
pub proof fn law_reports_are_compared(
    later: &TaskMetrics,
    earlier: &TaskMetrics,
    nothing: TaskMetrics,
    r: TaskMetrics,
)
    requires
        call_ensures(TaskMetrics::since, (later, earlier), r),
        call_ensures(TaskMetrics::none, (), nothing),
    ensures
        r == later.gained(*earlier),
        earlier.total_poll_count <= later.total_poll_count ==> earlier.total_poll_count
            + r.total_poll_count == later.total_poll_count,
        r.max_idle_duration == later.max_idle_duration,
        nothing.total_poll_count == 0 && nothing == TaskMetrics::nothing(),
{
    law_gains_make_up_the_difference(*earlier, *later);
}

} // verus!
