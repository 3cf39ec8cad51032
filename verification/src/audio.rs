//! Turning a stream of interleaved samples into per-channel batches.
use vstd::prelude::*;

use crate::api_types::AudioFormat;
use crate::model::MODEL_SAMPLE_RATE;
use crate::pcm::DecodeError;

verus! {

/// How many of `len` interleaved samples belong to lane `c` of `n`.
pub open spec fn lane_len(len: nat, n: nat, c: int) -> nat {
    if 0 <= c < n {
        len / n + (if c < len % n {
            1nat
        } else {
            0nat
        })
    } else {
        0
    }
}

/// Lane `c` of `n` interleaved lanes: every `n`-th sample, from the one at `c` on.
pub open spec fn lane<T>(samples: Seq<T>, n: nat, c: int) -> Seq<T> {
    Seq::new(lane_len(samples.len(), n, c), |k: int| samples[c + k * n])
}

/// The `channels` channels that `samples` makes when dealt out over `sinks` lanes.
/// A channel that is not one of the lanes is empty.
pub open spec fn deinterleaved<T>(samples: Seq<T>, sinks: nat, channels: nat) -> Seq<Seq<T>> {
    Seq::new(channels, |c: int| lane(samples, sinks, c))
}

/// The contents of a vector of vectors.
pub open spec fn contents<T>(v: Seq<Vec<T>>) -> Seq<Seq<T>> {
    v.map_values(|c: Vec<T>| c@)
}

/// Appending a sample extends the one lane whose turn it is, and no other.
proof fn lemma_lane_push<T>(samples: Seq<T>, x: T, n: nat, c: int)
    requires
        n > 0,
    ensures
        c == samples.len() % n ==> lane(samples.push(x), n, c) == lane(samples, n, c).push(x),
        c != samples.len() % n ==> lane(samples.push(x), n, c) == lane(samples, n, c),
{
    let len = samples.len() as int;
    let m = n as int;
    let q = len / m;
    let r = len % m;
    assert(len == q * m + r && 0 <= r < m && q >= 0) by (nonlinear_arith)
        requires
            m > 0,
            len >= 0,
            q == len / m,
            r == len % m,
    ;
    if r + 1 < m {
        assert((len + 1) / m == q && (len + 1) % m == r + 1) by (nonlinear_arith)
            requires
                len == q * m + r,
                0 <= r,
                r + 1 < m,
        ;
    } else {
        assert((len + 1) / m == q + 1 && (len + 1) % m == 0) by (nonlinear_arith)
            requires
                len == q * m + r,
                r + 1 == m,
                m > 0,
        ;
    }
    let before = lane(samples, n, c);
    let after = lane(samples.push(x), n, c);
    if 0 <= c < m {
        assert forall|k: int| 0 <= k < before.len() implies #[trigger] before[k] == after[k] by {
            assert(0 <= c + k * m) by (nonlinear_arith)
                requires
                    0 <= c,
                    0 <= k,
                    m > 0,
            ;
            if k < q {
                assert(c + k * m < q * m) by (nonlinear_arith)
                    requires
                        c < m,
                        k + 1 <= q,
                        m > 0,
                ;
            }
        }
        if c == r {
            assert(after =~= before.push(x));
        } else {
            assert(after =~= before);
        }
    } else {
        assert(after =~= before);
    }
}

/// Deals `samples` out over `sinks` lanes and returns `channels` channels.
fn deinterleave<T: Copy>(samples: &Vec<T>, sinks: usize, channels: usize) -> (r: Vec<Vec<T>>)
    requires
        sinks > 0,
        sinks <= channels || samples@.len() <= channels,
    ensures
        contents(r@) == deinterleaved(samples@, sinks as nat, channels as nat),
{
    let mut out: Vec<Vec<T>> = Vec::new();
    let mut c: usize = 0;
    while c < channels
        invariant
            c <= channels,
            out@.len() == c,
            forall|j: int| 0 <= j < c ==> (#[trigger] out@[j])@ == Seq::<T>::empty(),
        decreases channels - c,
    {
        out.push(Vec::new());
        c = c + 1;
    }
    let mut i: usize = 0;
    let mut chan: usize = 0;
    proof {
        assert forall|j: int| 0 <= j < channels implies (#[trigger] out@[j])@ == lane(
            samples@.take(0),
            sinks as nat,
            j,
        ) by {
            assert(0nat / (sinks as nat) == 0 && 0nat % (sinks as nat) == 0) by (nonlinear_arith)
                requires
                    sinks > 0,
            ;
            assert(lane(samples@.take(0), sinks as nat, j) =~= Seq::empty());
        }
        assert(0int % (sinks as int) == 0) by (nonlinear_arith)
            requires
                sinks > 0,
        ;
    }
    while i < samples.len()
        invariant
            sinks > 0,
            sinks <= channels || samples@.len() <= channels,
            i <= samples@.len(),
            chan < sinks,
            chan as int == i as int % (sinks as int),
            chan <= i,
            out@.len() == channels,
            forall|j: int|
                0 <= j < channels ==> (#[trigger] out@[j])@ == lane(
                    samples@.take(i as int),
                    sinks as nat,
                    j,
                ),
        decreases samples@.len() - i,
    {
        let x: T = samples[i];
        let ghost before = out@;
        out[chan].push(x);
        proof {
            let s = samples@.take(i as int);
            assert(samples@.take(i + 1) == s.push(x));
            assert forall|j: int| 0 <= j < channels implies (#[trigger] out@[j])@ == lane(
                s.push(x),
                sinks as nat,
                j,
            ) by {
                lemma_lane_push(s, x, sinks as nat, j);
                assert(before[j]@ == lane(s, sinks as nat, j));
            }
            vstd::arithmetic::div_mod::lemma_mod_adds(i as int, 1, sinks as int);
            vstd::arithmetic::div_mod::lemma_fundamental_div_mod(i as int, sinks as int);
            let q = i as int / (sinks as int);
            if chan + 1 < sinks {
                assert((i + 1) % (sinks as int) == chan + 1) by (nonlinear_arith)
                    requires
                        i as int == (sinks as int) * q + chan,
                        0 <= chan,
                        chan + 1 < sinks,
                ;
            } else {
                assert((i + 1) % (sinks as int) == 0) by (nonlinear_arith)
                    requires
                        i as int == (sinks as int) * q + chan,
                        chan + 1 == sinks,
                ;
            }
        }
        i = i + 1;
        chan = if chan + 1 < sinks {
            chan + 1
        } else {
            0
        };
    }
    assert(samples@.take(i as int) == samples@);
    assert(contents(out@) =~= deinterleaved(samples@, sinks as nat, channels as nat));
    out
}

/// Frames handed to a resampler at a time.
pub const RESAMPLER_SIZE: usize = 2048;

/// What a decoder knows: the stream's format, how many sinks it feeds, how many samples came in
/// and went out, the interleaved samples that still wait, and how many samples of each channel a
/// resampler's delay will still put before the audio.
pub struct DecoderState<T> {
    pub format: AudioFormat,
    pub sinks: nat,
    pub received: nat,
    pub sent: nat,
    pub buffer: Seq<T>,
    pub delay: nat,
}

impl<T> DecoderState<T> {
    /// Whether the audio is not at the model's sample rate.
    pub open spec fn resamples(self) -> bool {
        self.format.sample_rate != MODEL_SAMPLE_RATE
    }

    /// The state once `samples` have come in.
    pub open spec fn absorb(self, samples: Seq<T>) -> Self {
        DecoderState {
            received: self.received + samples.len(),
            buffer: self.buffer + samples,
            ..self
        }
    }

    /// Whether enough samples wait for a batch. Without a resampler any number will do.
    pub open spec fn ready(self) -> bool {
        self.buffer.len() >= self.format.channels * RESAMPLER_SIZE || !self.resamples()
    }

    /// How many frames the next batch holds.
    pub open spec fn batch_frames(self) -> nat {
        least(self.buffer.len() / self.format.channels as nat, RESAMPLER_SIZE as nat)
    }

    /// How many samples the next batch holds.
    pub open spec fn batch_len(self) -> nat {
        self.batch_frames() * self.format.channels as nat
    }

    /// The next batch, channel by channel.
    pub open spec fn batch(self) -> Seq<Seq<T>> {
        deinterleaved(
            self.buffer.take(self.batch_len() as int),
            self.sinks,
            self.format.channels as nat,
        )
    }

    /// The state once the next batch has been taken.
    pub open spec fn after_batch(self) -> Self {
        DecoderState { buffer: self.buffer.skip(self.batch_len() as int), ..self }
    }

    /// Every lane that `len` samples reach is one of the audio's channels.
    pub open spec fn lanes_fit(self, len: nat) -> bool {
        self.sinks <= self.format.channels || len <= self.format.channels
    }

    /// Whether, at the end of the stream, a full batch for a resampler still waits.
    pub open spec fn more(self) -> bool {
        &&& self.resamples()
        &&& self.format.channels > 0
        &&& self.buffer.len() >= self.format.channels * RESAMPLER_SIZE
    }

    /// What of a batch goes to the sinks: as many channels as there are sinks, without the samples
    /// that come from a resampler's delay.
    pub open spec fn delivered(self, channels: Seq<Seq<T>>) -> Seq<Seq<T>> {
        routed(channels, self.sinks).map_values(|c: Seq<T>| without(c, self.delay))
    }

    /// The state once a batch has gone to the sinks.
    pub open spec fn after_delivery(self, channels: Seq<Seq<T>>) -> Self {
        DecoderState {
            sent: self.sent + total_len(self.delivered(channels)),
            delay: if channels.len() == 0 {
                self.delay
            } else {
                (self.delay - least(self.delay, channels[0].len())) as nat
            },
            ..self
        }
    }

    /// How many of the channels go to a sink.
    pub open spec fn fed(self) -> nat {
        least(self.sinks, self.format.channels as nat)
    }

    /// How many samples have gone out on each channel.
    pub open spec fn each(self) -> nat {
        self.sent / self.fed()
    }

    /// How many samples each channel lacks to come to `target`.
    pub open spec fn lacking(self, target: Option<usize>) -> Option<usize> {
        match target {
            Some(t) => Some(
                if self.each() <= t {
                    (t - self.each()) as usize
                } else {
                    0
                },
            ),
            None => None,
        }
    }

    /// Whether anything is left to give out at the end of the stream: samples that wait, or
    /// samples that a resampler holds back.
    pub open spec fn unfinished(self, target: Option<usize>) -> bool {
        ||| self.buffer.len() > 0
        ||| self.resamples() && target is Some && self.lacking(target) != Some(0usize)
    }
}

/// The last samples of a stream, channel by channel, and the length they have to be brought to.
pub struct Tail<T> {
    pub channels: Vec<Vec<T>>,
    pub new_len: Option<usize>,
    /// How many samples of each channel a resampler has to come up with, its delay included, for
    /// the length to be reached with audio.
    pub needed: usize,
}

impl<T> Tail<T> {
    /// Whether a resampler that has come up with `have` samples of each channel still owes some.
    pub fn lacks(&self, have: usize) -> (r: bool)
        ensures
            r == (have < self.needed),
    {
        have < self.needed
    }
}

/// Gathers interleaved samples and deals them out, channel by channel.
pub struct AudioDecoder<T> {
    format: AudioFormat,
    sinks: usize,
    received: usize,
    sent: usize,
    buffer: Vec<T>,
    delay: usize,
}

impl<T> View for AudioDecoder<T> {
    type V = DecoderState<T>;

    closed spec fn view(&self) -> DecoderState<T> {
        DecoderState {
            format: self.format,
            sinks: self.sinks as nat,
            received: self.received as nat,
            sent: self.sent as nat,
            buffer: self.buffer@,
            delay: self.delay as nat,
        }
    }
}

impl<T> AudioDecoder<T> {
    #[verifier::type_invariant]
    spec fn inv(self) -> bool {
        &&& self.sinks > 0
        &&& self.format.channels * RESAMPLER_SIZE <= usize::MAX
    }
}

/// The lesser of two numbers.
pub open spec fn least(a: nat, b: nat) -> nat {
    if a <= b {
        a
    } else {
        b
    }
}

/// `channel` without its first `n` samples.
pub open spec fn without<T>(channel: Seq<T>, n: nat) -> Seq<T> {
    channel.skip(least(n, channel.len()) as int)
}

/// The number of samples in all of `channels`.
pub open spec fn total_len<T>(channels: Seq<Seq<T>>) -> nat
    decreases channels.len(),
{
    if channels.len() == 0 {
        0
    } else {
        total_len(channels.drop_last()) + channels.last().len()
    }
}

/// As many of `channels` as there are sinks.
pub open spec fn routed<T>(channels: Seq<Seq<T>>, sinks: nat) -> Seq<Seq<T>> {
    if channels.len() <= sinks {
        channels
    } else {
        channels.take(sinks as int)
    }
}

/// `channel` cut off, or filled up with `silence`, to the length `new_len` asks for.
pub open spec fn fitted<T>(channel: Seq<T>, new_len: Option<usize>, silence: T) -> Seq<T> {
    match new_len {
        None => channel,
        Some(n) => if n <= channel.len() {
            channel.take(n as int)
        } else {
            channel + Seq::new((n - channel.len()) as nat, |i: int| silence)
        },
    }
}

proof fn lemma_total_len_monotonic<T>(channels: Seq<Seq<T>>, i: int)
    requires
        0 <= i <= channels.len(),
    ensures
        total_len(channels.take(i)) <= total_len(channels),
    decreases channels.len() - i,
{
    if i < channels.len() {
        lemma_total_len_monotonic(channels, i + 1);
        assert(channels.take(i + 1).drop_last() == channels.take(i));
    } else {
        assert(channels.take(i) == channels);
    }
}

/// Starts decoding a stream of audio for `sinks` sinks.
pub fn decode_audio<T>(format: AudioFormat, sinks: usize) -> (r: Result<
    AudioDecoder<T>,
    DecodeError,
>)
    requires
        sinks > 0 ==> format.channels * RESAMPLER_SIZE <= usize::MAX,
    ensures
        sinks == 0 ==> r == Err::<AudioDecoder<T>, DecodeError>(DecodeError::NoSinks),
        sinks > 0 ==> (r matches Ok(decoder) && decoder@ == (DecoderState {
            format,
            sinks: sinks as nat,
            received: 0,
            sent: 0,
            buffer: Seq::<T>::empty(),
            delay: 0,
        })),
{
    if sinks == 0 {
        Err(DecodeError::NoSinks)
    } else {
        Ok(AudioDecoder { format, sinks, received: 0, sent: 0, buffer: Vec::new(), delay: 0 })
    }
}

impl<T: Copy> AudioDecoder<T> {
    /// How many samples have come in.
    pub fn received(&self) -> (r: usize)
        ensures
            r == self@.received,
    {
        self.received
    }

    /// How many samples have gone out.
    pub fn sent(&self) -> (r: usize)
        ensures
            r == self@.sent,
    {
        self.sent
    }

    /// How many samples wait for a batch.
    pub fn waiting(&self) -> (r: usize)
        ensures
            r == self@.buffer.len(),
    {
        self.buffer.len()
    }

    /// Whether the audio has to be brought to the model's sample rate.
    pub fn resamples(&self) -> (r: bool)
        ensures
            r == self@.resamples(),
            r == (self@.format.sample_rate != 16000),
    {
        self.format.sample_rate != MODEL_SAMPLE_RATE
    }

    /// Says that the first `delay` samples of each channel that a resampler yields come from its
    /// delay, and not from the audio.
    pub fn set_delay(&mut self, delay: usize)
        ensures
            final(self)@ == (DecoderState { delay: delay as nat, ..old(self)@ }),
    {
        proof {
            use_type_invariant(&*self);
        }
        self.delay = delay;
    }

    /// Takes in `samples`, and gives out the next batch when one is ready.
    pub fn push(&mut self, samples: Vec<T>) -> (r: Option<Vec<Vec<T>>>)
        requires
            old(self)@.format.channels > 0,
            old(self)@.received + samples@.len() <= usize::MAX,
            old(self)@.absorb(samples@).ready() ==> old(self)@.absorb(samples@).lanes_fit(
                old(self)@.absorb(samples@).batch_len(),
            ),
        ensures
            ({
                let next = old(self)@.absorb(samples@);
                if next.ready() {
                    &&& r matches Some(batch)
                    &&& contents(batch@) == next.batch()
                    &&& final(self)@ == next.after_batch()
                } else {
                    &&& r is None
                    &&& final(self)@ == next
                }
            }),
            r is Some <==> old(self)@.format.sample_rate == 16000 || old(self)@.buffer.len()
                + samples@.len() >= old(self)@.format.channels * 2048,
            r is None ==> final(self)@.buffer == old(self)@.buffer + samples@,
            r matches Some(batch) ==> batch@.len() == old(self)@.format.channels,
            final(self)@ == (DecoderState {
                received: old(self)@.received + samples@.len(),
                buffer: final(self)@.buffer,
                ..old(self)@
            }),
    {
        proof {
            use_type_invariant(&*self);
        }
        let channels: usize = self.format.channels;
        let mut samples: Vec<T> = samples;
        let mut buffer: Vec<T> = Vec::new();
        self.received = self.received + samples.len();
        std::mem::swap(&mut buffer, &mut self.buffer);
        buffer.append(&mut samples);
        if buffer.len() >= channels * RESAMPLER_SIZE || !self.resamples() {
            let (batch, rest): (Vec<Vec<T>>, Vec<T>) = cut_batch(buffer, self.sinks, channels);
            self.buffer = rest;
            assert(contents(batch@).len() == channels);
            Some(batch)
        } else {
            self.buffer = buffer;
            None
        }
    }

    /// Gives out a full batch for a resampler, as long as one waits. A message sets off one batch
    /// at most, so a long one leaves others behind, which are due when the stream has ended: a
    /// resampler takes no more than that at a time.
    pub fn next_batch(&mut self) -> (r: Option<Vec<Vec<T>>>)
        requires
            old(self)@.more() ==> old(self)@.lanes_fit(old(self)@.batch_len()),
        ensures
            if old(self)@.more() {
                &&& r matches Some(batch)
                &&& contents(batch@) == old(self)@.batch()
                &&& final(self)@ == old(self)@.after_batch()
            } else {
                &&& r is None
                &&& final(self)@ == old(self)@
            },
            r is Some <==> old(self)@.format.sample_rate != 16000 && old(self)@.format.channels > 0
                && old(self)@.buffer.len() >= old(self)@.format.channels * 2048,
            final(self)@ == (DecoderState { buffer: final(self)@.buffer, ..old(self)@ }),
    {
        proof {
            use_type_invariant(&*self);
        }
        let channels: usize = self.format.channels;
        if self.resamples() && channels > 0 && self.buffer.len() >= channels * RESAMPLER_SIZE {
            let mut buffer: Vec<T> = Vec::new();
            std::mem::swap(&mut buffer, &mut self.buffer);
            let (batch, rest): (Vec<Vec<T>>, Vec<T>) = cut_batch(buffer, self.sinks, channels);
            self.buffer = rest;
            Some(batch)
        } else {
            None
        }
    }

    /// Routes a batch to the sinks, and counts it as sent.
    pub fn deliver(&mut self, channels: Vec<Vec<T>>) -> (r: Vec<Vec<T>>)
        requires
            old(self)@.sent + total_len(old(self)@.delivered(contents(channels@))) <= usize::MAX,
        ensures
            contents(r@) == old(self)@.delivered(contents(channels@)),
            final(self)@ == old(self)@.after_delivery(contents(channels@)),
            r@.len() == (if channels@.len() <= old(self)@.sinks {
                channels@.len()
            } else {
                old(self)@.sinks
            }),
            forall|c: int|
                0 <= c < r@.len() ==> (#[trigger] r@[c])@ == (if old(self)@.delay
                    <= channels@[c]@.len() {
                    channels@[c]@.skip(old(self)@.delay as int)
                } else {
                    Seq::empty()
                }),
    {
        proof {
            use_type_invariant(&*self);
        }
        let ghost channels_in = channels@;
        let passed: usize = if channels.len() == 0 {
            0
        } else {
            channels[0].len()
        };
        let delay: usize = if passed <= self.delay {
            self.delay - passed
        } else {
            0
        };
        let out: Vec<Vec<T>> = self.route(channels);
        let ghost parts = contents(out@);
        let mut sent: usize = self.sent;
        let mut i: usize = 0;
        assert(parts.take(0) =~= Seq::empty());
        while i < out.len()
            invariant
                i <= out@.len(),
                parts == contents(out@),
                sent == old(self)@.sent + total_len(parts.take(i as int)),
                old(self)@.sent + total_len(parts) <= usize::MAX,
            decreases out@.len() - i,
        {
            proof {
                lemma_total_len_monotonic(parts, i + 1);
                assert(parts.take(i + 1).drop_last() == parts.take(i as int));
            }
            sent = sent + out[i].len();
            i = i + 1;
        }
        assert(parts.take(i as int) == parts);
        self.sent = sent;
        self.delay = delay;
        proof {
            assert forall|c: int| 0 <= c < out@.len() implies (#[trigger] out@[c])@ == (if old(
                self,
            )@.delay <= channels_in[c]@.len() {
                channels_in[c]@.skip(old(self)@.delay as int)
            } else {
                Seq::empty()
            }) by {
                assert(contents(out@)[c] == without(channels_in[c]@, old(self)@.delay));
            }
        }
        out
    }

    /// What of a batch goes to the sinks.
    fn route(&self, channels: Vec<Vec<T>>) -> (r: Vec<Vec<T>>)
        ensures
            contents(r@) == self@.delivered(contents(channels@)),
    {
        let mut channels: Vec<Vec<T>> = channels;
        let ghost all = contents(channels@);
        channels.truncate(self.sinks);
        let ghost kept = contents(channels@);
        assert(kept =~= routed(all, self@.sinks));
        let mut out: Vec<Vec<T>> = Vec::new();
        let mut i: usize = 0;
        while i < channels.len()
            invariant
                i <= channels@.len(),
                kept == contents(channels@),
                out@.len() == i,
                forall|j: int|
                    0 <= j < i ==> (#[trigger] out@[j])@ == without(kept[j], self.delay as nat),
            decreases channels@.len() - i,
        {
            out.push(cut_front(&channels[i], self.delay));
            i = i + 1;
        }
        assert(contents(out@) =~= self@.delivered(all));
        out
    }

    /// Gives out what is left when the stream has ended. `target` is the number of samples that
    /// each channel should come to in all, if fewer than expected have been sent.
    pub fn drain(&mut self, target: Option<usize>) -> (r: Option<Tail<T>>)
        requires
            old(self)@.buffer.len() > 0 || target is Some ==> old(self)@.format.channels > 0,
            old(self)@.lanes_fit(old(self)@.buffer.len()),
        ensures
            final(self)@ == (DecoderState { buffer: Seq::<T>::empty(), ..old(self)@ }),
            !old(self)@.unfinished(target) ==> r is None,
            old(self)@.unfinished(target) ==> {
                &&& r matches Some(tail)
                &&& contents(tail.channels@) == deinterleaved(
                    old(self)@.buffer,
                    old(self)@.sinks,
                    old(self)@.format.channels as nat,
                )
                &&& tail.new_len == old(self)@.lacking(target)
                &&& tail.needed == (match tail.new_len {
                    Some(n) => least(old(self)@.delay + n as nat, usize::MAX as nat),
                    None => 0,
                })
                &&& tail.channels@.len() == old(self)@.format.channels
                &&& tail.new_len is Some <==> target is Some
            },
    {
        proof {
            use_type_invariant(&*self);
        }
        if self.buffer.is_empty() && target.is_none() {
            assert(self@.buffer =~= Seq::empty());
            return None;
        }
        let fed: usize = if self.sinks <= self.format.channels {
            self.sinks
        } else {
            self.format.channels
        };
        let each: usize = self.sent / fed;
        let new_len: Option<usize> = match target {
            Some(t) => Some(
                if each <= t {
                    t - each
                } else {
                    0
                },
            ),
            None => None,
        };
        let owes: bool = match new_len {
            Some(n) => self.resamples() && n > 0,
            None => false,
        };
        if self.buffer.is_empty() && !owes {
            assert(self@.buffer =~= Seq::empty());
            return None;
        }
        let needed: usize = match new_len {
            Some(n) => if n <= usize::MAX - self.delay {
                n + self.delay
            } else {
                usize::MAX
            },
            None => 0,
        };
        let mut buffer: Vec<T> = Vec::new();
        std::mem::swap(&mut buffer, &mut self.buffer);
        let channels: Vec<Vec<T>> = deinterleave(&buffer, self.sinks, self.format.channels);
        assert(contents(channels@).len() == self.format.channels);
        Some(Tail { channels, new_len, needed })
    }

    /// Routes the last channels to the sinks, each brought to the length `new_len` asks for.
    pub fn deliver_tail(
        &self,
        channels: Vec<Vec<T>>,
        new_len: Option<usize>,
        silence: T,
    ) -> (r: Vec<Vec<T>>)
        ensures
            contents(r@) == self@.delivered(contents(channels@)).map_values(
                |c: Seq<T>| fitted(c, new_len, silence),
            ),
    {
        let channels: Vec<Vec<T>> = self.route(channels);
        let ghost out = contents(channels@);
        let mut fit: Vec<Vec<T>> = Vec::new();
        let mut i: usize = 0;
        while i < channels.len()
            invariant
                i <= channels@.len(),
                out == contents(channels@),
                fit@.len() == i,
                forall|j: int|
                    0 <= j < i ==> (#[trigger] fit@[j])@ == fitted(out[j], new_len, silence),
            decreases channels@.len() - i,
        {
            fit.push(fit_channel(&channels[i], new_len, silence));
            i = i + 1;
        }
        assert(contents(fit@) =~= out.map_values(|c: Seq<T>| fitted(c, new_len, silence)));
        fit
    }
}

/// Cuts the next batch off the samples that wait, and deals it out. Also returns the rest.
fn cut_batch<T: Copy>(buffer: Vec<T>, sinks: usize, channels: usize) -> (r: (Vec<Vec<T>>, Vec<T>))
    requires
        sinks > 0,
        channels > 0,
        ({
            let frames = least(buffer@.len() / channels as nat, RESAMPLER_SIZE as nat);
            sinks <= channels || frames * channels <= channels
        }),
    ensures
        ({
            let frames = least(buffer@.len() / channels as nat, RESAMPLER_SIZE as nat);
            let len = frames * channels;
            &&& contents(r.0@) == deinterleaved(buffer@.take(len), sinks as nat, channels as nat)
            &&& r.1@ == buffer@.skip(len)
        }),
{
    let mut buffer: Vec<T> = buffer;
    let whole: usize = buffer.len() / channels;
    let frames: usize = if whole < RESAMPLER_SIZE {
        whole
    } else {
        RESAMPLER_SIZE
    };
    let ghost len = buffer@.len();
    assert(frames * channels <= len) by (nonlinear_arith)
        requires
            frames <= whole,
            whole == len / channels as nat,
            channels > 0,
    ;
    let rest: Vec<T> = buffer.split_off(frames * channels);
    let batch: Vec<Vec<T>> = deinterleave(&buffer, sinks, channels);
    (batch, rest)
}

/// Drops the first `n` samples of a channel.
fn cut_front<T: Copy>(channel: &Vec<T>, n: usize) -> (r: Vec<T>)
    ensures
        r@ == without(channel@, n as nat),
{
    let start: usize = if n <= channel.len() {
        n
    } else {
        channel.len()
    };
    let mut out: Vec<T> = Vec::new();
    let mut i: usize = start;
    while i < channel.len()
        invariant
            start <= i <= channel@.len(),
            out@ == channel@.subrange(start as int, i as int),
        decreases channel@.len() - i,
    {
        out.push(channel[i]);
        i = i + 1;
    }
    assert(out@ =~= without(channel@, n as nat));
    out
}

/// Brings a channel to the length `new_len` asks for.
fn fit_channel<T: Copy>(channel: &Vec<T>, new_len: Option<usize>, silence: T) -> (r: Vec<T>)
    ensures
        r@ == fitted(channel@, new_len, silence),
{
    let len: usize = match new_len {
        Some(n) => n,
        None => channel.len(),
    };
    let mut out: Vec<T> = Vec::new();
    while out.len() < len
        invariant
            out@.len() <= len,
            len == (match new_len {
                Some(n) => n as nat,
                None => channel@.len(),
            }),
            forall|j: int|
                0 <= j < out@.len() ==> #[trigger] out@[j] == (if j < channel@.len() {
                    channel@[j]
                } else {
                    silence
                }),
        decreases len - out@.len(),
    {
        let i: usize = out.len();
        out.push(if i < channel.len() {
            channel[i]
        } else {
            silence
        });
    }
    assert(out@ =~= fitted(channel@, new_len, silence));
    out
}

} // verus!
