//! What the decoder promises of a whole stream.
use vstd::prelude::*;

use crate::audio::{
    contents, deinterleaved, fitted, lane, lane_len, least, routed, total_len, without, DecoderState,
    RESAMPLER_SIZE,
};
use crate::model::MODEL_SAMPLE_RATE;

verus! {

/// Dealing out loses nothing and keeps the order: sample `i` stands in lane `i % n`, as number
/// `i / n` of that lane.
pub proof fn law_every_sample_has_its_place<T>(samples: Seq<T>, n: nat, i: int)
    requires
        n > 0,
        0 <= i < samples.len(),
    ensures
        0 <= (i / (n as int)) < lane(samples, n, i % (n as int)).len(),
        lane(samples, n, i % (n as int))[i / (n as int)] == samples[i],
{
    let m = n as int;
    let q = i / m;
    let r = i % m;
    let len = samples.len() as int;
    vstd::arithmetic::div_mod::lemma_fundamental_div_mod(i, m);
    vstd::arithmetic::div_mod::lemma_fundamental_div_mod(len, m);
    let lq = len / m;
    let lr = len % m;
    assert(0 <= q && 0 <= r < m && (q < lq || (q == lq && r < lr)) && r + q * m == i)
        by (nonlinear_arith)
        requires
            m > 0,
            0 <= i < len,
            i == m * q + r,
            len == m * lq + lr,
            0 <= r < m,
            0 <= lr < m,
    ;
}

/// The lanes of two pieces of audio follow each other when the first piece ends with a whole
/// frame.
proof fn lemma_lane_concat<T>(a: Seq<T>, b: Seq<T>, n: nat, c: int)
    requires
        n > 0,
        a.len() % n == 0,
        0 <= c < n,
    ensures
        lane(a + b, n, c) == lane(a, n, c) + lane(b, n, c),
{
    let m = n as int;
    let q = a.len() as int / m;
    vstd::arithmetic::div_mod::lemma_fundamental_div_mod(a.len() as int, m);
    vstd::arithmetic::div_mod::lemma_fundamental_div_mod(b.len() as int, m);
    let bq = b.len() as int / m;
    let br = b.len() as int % m;
    let la = a.len() as int;
    let lb = b.len() as int;
    assert((la + lb) / m == q + bq && (la + lb) % m == br) by (nonlinear_arith)
        requires
            m > 0,
            la == m * q,
            lb == m * bq + br,
            0 <= br < m,
    ;
    let whole = lane(a + b, n, c);
    let parts = lane(a, n, c) + lane(b, n, c);
    assert forall|k: int| 0 <= k < whole.len() implies #[trigger] whole[k] == parts[k] by {
        if k < q {
            assert(0 <= c + k * m < la) by (nonlinear_arith)
                requires
                    la == m * q,
                    0 <= c < m,
                    0 <= k,
                    k + 1 <= q,
            ;
        } else {
            assert(c + k * m == la + (c + (k - q) * m)) by (nonlinear_arith)
                requires
                    la == m * q,
            ;
            let j = k - q;
            assert(0 <= c + j * m < lb) by (nonlinear_arith)
                requires
                    lb == m * bq + br,
                    0 <= br < m,
                    0 <= c < m,
                    0 <= j,
                    j < bq || (j == bq && c < br),
            ;
        }
    }
    assert(whole =~= parts);
}

/// One channel of a sequence of batches, end to end.
pub open spec fn joined<T>(batches: Seq<Seq<Seq<T>>>, c: int) -> Seq<T>
    decreases batches.len(),
{
    if batches.len() == 0 {
        Seq::empty()
    } else {
        joined(batches.drop_last(), c) + batches.last()[c]
    }
}

/// All that came in, end to end.
pub open spec fn input<T>(messages: Seq<Seq<T>>) -> Seq<T>
    decreases messages.len(),
{
    if messages.len() == 0 {
        Seq::empty()
    } else {
        input(messages.drop_last()) + messages.last()
    }
}

impl<T> DecoderState<T> {
    /// The state before any audio, with no delay to account for.
    pub open spec fn fresh(self) -> bool {
        &&& self.received == 0
        &&& self.sent == 0
        &&& self.buffer == Seq::<T>::empty()
        &&& self.delay == 0
    }

    /// The state once the next batch has gone out as it is.
    pub open spec fn pass(self) -> Self {
        self.after_batch().after_delivery(self.batch())
    }

    /// The state once the full batches that wait at the end of the stream have gone out as they
    /// are.
    pub open spec fn settled(self) -> Self
        decreases self.buffer.len(),
    {
        if self.more() {
            proof {
                lemma_batch_len(self);
            }
            self.pass().settled()
        } else {
            self
        }
    }

    /// The full batches that wait at the end of the stream.
    pub open spec fn backlog(self) -> Seq<Seq<Seq<T>>>
        decreases self.buffer.len(),
    {
        if self.more() {
            proof {
                lemma_batch_len(self);
            }
            seq![self.batch()] + self.pass().backlog()
        } else {
            Seq::empty()
        }
    }

    /// The samples of those batches, interleaved.
    spec fn spent(self) -> Seq<T>
        decreases self.buffer.len(),
    {
        if self.more() {
            proof {
                lemma_batch_len(self);
            }
            self.buffer.take(self.batch_len() as int) + self.pass().spent()
        } else {
            Seq::empty()
        }
    }

    /// The state once a message has come in, and the batch that it set off has gone out as it is.
    pub open spec fn step(self, samples: Seq<T>) -> Self {
        let next = self.absorb(samples);
        if next.ready() {
            next.pass()
        } else {
            next
        }
    }

    /// The state after a sequence of messages.
    pub open spec fn run(self, messages: Seq<Seq<T>>) -> Self
        decreases messages.len(),
    {
        if messages.len() == 0 {
            self
        } else {
            self.run(messages.drop_last()).step(messages.last())
        }
    }

    /// The batches that a sequence of messages sets off.
    pub open spec fn batches(self, messages: Seq<Seq<T>>) -> Seq<Seq<Seq<T>>>
        decreases messages.len(),
    {
        if messages.len() == 0 {
            Seq::empty()
        } else {
            let before = self.batches(messages.drop_last());
            let next = self.run(messages.drop_last()).absorb(messages.last());
            if next.ready() {
                before.push(next.batch())
            } else {
                before
            }
        }
    }

    /// The samples that a sequence of messages sends on their way, interleaved.
    spec fn consumed(self, messages: Seq<Seq<T>>) -> Seq<T>
        decreases messages.len(),
    {
        if messages.len() == 0 {
            Seq::empty()
        } else {
            let before = self.consumed(messages.drop_last());
            let next = self.run(messages.drop_last()).absorb(messages.last());
            if next.ready() {
                before + next.buffer.take(next.batch_len() as int)
            } else {
                before
            }
        }
    }

    /// The state at the end of a stream of these messages, when only the tail is left.
    pub open spec fn ended(self, messages: Seq<Seq<T>>) -> Self {
        self.run(messages).settled()
    }

    /// The batches that a stream of these messages sets off, up to the tail.
    pub open spec fn all_batches(self, messages: Seq<Seq<T>>) -> Seq<Seq<Seq<T>>> {
        self.batches(messages) + self.run(messages).backlog()
    }

    /// The samples of those batches, interleaved.
    spec fn all_consumed(self, messages: Seq<Seq<T>>) -> Seq<T> {
        self.consumed(messages) + self.run(messages).spent()
    }
}

/// A batch is whole frames of what waits, and not empty where a full one waits.
pub proof fn lemma_batch_len<T>(s: DecoderState<T>)
    requires
        s.format.channels > 0,
    ensures
        s.batch_len() <= s.buffer.len(),
        s.batch_len() % s.format.channels as nat == 0,
        s.more() ==> s.batch_len() > 0,
{
    let ch = s.format.channels as int;
    let frames = s.batch_frames() as int;
    let len = s.buffer.len() as int;
    assert(frames * ch <= len && (frames * ch) % ch == 0) by (nonlinear_arith)
        requires
            0 <= frames <= len / ch,
            ch > 0,
            len >= 0,
    ;
    if s.more() {
        assert(ch * 2048 >= ch);
        assert(len / ch >= 1) by (nonlinear_arith)
            requires
                len >= ch,
                ch > 0,
        ;
        assert(frames * ch > 0) by (nonlinear_arith)
            requires
                frames >= 1,
                ch > 0,
        ;
    }
}

/// Dealing out whole frames puts as many samples in all lanes together as there were.
proof fn lemma_total_of_lanes<T>(samples: Seq<T>, n: nat, upto: nat)
    requires
        n > 0,
        samples.len() % n == 0,
        upto <= n,
    ensures
        total_len(deinterleaved(samples, n, n).take(upto as int)) == upto * (samples.len() / n),
    decreases upto,
{
    let all = deinterleaved(samples, n, n);
    if upto == 0 {
        assert(all.take(0) =~= Seq::empty());
        assert(0 * (samples.len() / n) == 0) by (nonlinear_arith);
    } else {
        let p = (upto - 1) as nat;
        lemma_total_of_lanes(samples, n, p);
        assert(all.take(upto as int).drop_last() =~= all.take(p as int));
        assert(all[p as int].len() == samples.len() / n);
        let per = (samples.len() / n) as int;
        assert((p + 1) * per == p * per + per) by (nonlinear_arith);
    }
}

/// A batch that goes out as it is takes its samples from the front of those that wait.
proof fn lemma_pass<T>(s: DecoderState<T>)
    requires
        s.sinks == s.format.channels,
        s.format.channels > 0,
        s.delay == 0,
    ensures
        ({
            let taken = s.buffer.take(s.batch_len() as int);
            let next = s.pass();
            &&& next == (DecoderState { sent: next.sent, buffer: next.buffer, ..s })
            &&& taken + next.buffer == s.buffer
            &&& taken.len() % s.sinks == 0
            &&& next.sent == s.sent + taken.len()
            &&& s.batch() == deinterleaved(taken, s.sinks, s.sinks)
        }),
{
    let n = s.sinks;
    let taken = s.buffer.take(s.batch_len() as int);
    lemma_batch_len(s);
    assert(taken + s.pass().buffer =~= s.buffer);
    let all = deinterleaved(taken, n, n);
    assert(s.after_batch().delivered(s.batch()) =~= all) by {
        assert forall|c: int| 0 <= c < n implies #[trigger] without(all[c], 0) == all[c] by {
            assert(all[c].skip(0) =~= all[c]);
        }
    }
    lemma_total_of_lanes(taken, n, n);
    assert(all.take(n as int) =~= all);
    assert(n * (taken.len() / n) == taken.len()) by (nonlinear_arith)
        requires
            n > 0,
            taken.len() % n == 0,
    ;
}

proof fn lemma_joined_concat<T>(a: Seq<Seq<Seq<T>>>, b: Seq<Seq<Seq<T>>>, c: int)
    ensures
        joined(a + b, c) == joined(a, c) + joined(b, c),
    decreases b.len(),
{
    if b.len() == 0 {
        assert(a + b =~= a);
        assert(joined(a, c) + joined(b, c) =~= joined(a, c));
    } else {
        lemma_joined_concat(a, b.drop_last(), c);
        assert((a + b).drop_last() =~= a + b.drop_last());
        assert(joined(a + b, c) =~= joined(a, c) + joined(b, c));
    }
}

proof fn lemma_joined_one<T>(batch: Seq<Seq<T>>, c: int)
    ensures
        joined(seq![batch], c) == batch[c],
{
    reveal_with_fuel(joined, 2);
    assert(seq![batch].drop_last() =~= Seq::empty());
    assert(joined(seq![batch], c) =~= batch[c]);
}

proof fn lemma_settled<T>(s: DecoderState<T>)
    requires
        s.sinks == s.format.channels,
        s.format.channels > 0,
        s.delay == 0,
    ensures
        ({
            let end = s.settled();
            &&& end == (DecoderState { sent: end.sent, buffer: end.buffer, ..s })
            &&& !end.more()
            &&& s.spent() + end.buffer == s.buffer
            &&& s.spent().len() % s.sinks == 0
            &&& end.sent == s.sent + s.spent().len()
            &&& forall|c: int|
                0 <= c < s.sinks ==> #[trigger] joined(s.backlog(), c) == lane(
                    s.spent(),
                    s.sinks,
                    c,
                )
        }),
    decreases s.buffer.len(),
{
    let n = s.sinks;
    if s.more() {
        lemma_batch_len(s);
        lemma_pass(s);
        let next = s.pass();
        lemma_settled(next);
        let taken = s.buffer.take(s.batch_len() as int);
        assert(s.spent() + s.settled().buffer =~= s.buffer);
        vstd::arithmetic::div_mod::lemma_add_mod_noop(
            taken.len() as int,
            next.spent().len() as int,
            n as int,
        );
        assert forall|c: int| 0 <= c < n implies #[trigger] joined(s.backlog(), c) == lane(
            s.spent(),
            n,
            c,
        ) by {
            lemma_joined_concat(seq![s.batch()], next.backlog(), c);
            lemma_joined_one(s.batch(), c);
            lemma_lane_concat(taken, next.spent(), n, c);
            assert(joined(next.backlog(), c) == lane(next.spent(), n, c));
        }
    } else {
        assert(s.spent() + s.buffer =~= s.buffer);
        assert forall|c: int| 0 <= c < n implies #[trigger] joined(s.backlog(), c) == lane(
            s.spent(),
            n,
            c,
        ) by {
            lemma_lane_of_nothing::<T>(n, c);
        }
    }
}

proof fn lemma_lane_of_nothing<T>(n: nat, c: int)
    requires
        n > 0,
    ensures
        0nat % n == 0,
        lane(Seq::<T>::empty(), n, c) == Seq::<T>::empty(),
{
    assert(0nat / n == 0 && 0nat % n == 0) by (nonlinear_arith)
        requires
            n > 0,
    ;
    assert(lane(Seq::<T>::empty(), n, c) =~= Seq::empty());
}

proof fn lemma_run<T>(s: DecoderState<T>, messages: Seq<Seq<T>>)
    requires
        s.fresh(),
        s.sinks == s.format.channels,
        s.format.channels > 0,
    ensures
        ({
            let end = s.run(messages);
            let consumed = s.consumed(messages);
            &&& end.format == s.format
            &&& end.sinks == s.sinks
            &&& end.delay == 0
            &&& consumed + end.buffer == input(messages)
            &&& consumed.len() % s.sinks == 0
            &&& end.received == input(messages).len()
            &&& end.sent == consumed.len()
            &&& forall|c: int|
                0 <= c < s.sinks ==> #[trigger] joined(s.batches(messages), c) == lane(
                    consumed,
                    s.sinks,
                    c,
                )
        }),
    decreases messages.len(),
{
    let n = s.sinks;
    if messages.len() == 0 {
        lemma_lane_of_nothing::<T>(n, 0);
        assert forall|c: int| 0 <= c < n implies #[trigger] joined(s.batches(messages), c) == lane(
            Seq::<T>::empty(),
            n,
            c,
        ) by {
            lemma_lane_of_nothing::<T>(n, c);
        }
        assert(s.consumed(messages) + s.run(messages).buffer =~= input(messages));
    } else {
        let before = messages.drop_last();
        lemma_run(s, before);
        let done = s.consumed(before);
        let next = s.run(before).absorb(messages.last());
        assert(done + next.buffer =~= input(messages));
        if next.ready() {
            let taken = next.buffer.take(next.batch_len() as int);
            lemma_pass(next);
            lemma_lengths_add_up(done, taken, n);
            assert(s.consumed(messages) == done + taken);
            assert(s.consumed(messages) + s.run(messages).buffer =~= input(messages)) by {
                assert(taken + next.pass().buffer == next.buffer);
            }
            assert(s.batches(messages) == s.batches(before).push(next.batch()));
            assert forall|c: int| 0 <= c < n implies #[trigger] joined(s.batches(messages), c)
                == lane(done + taken, n, c) by {
                lemma_lane_concat(done, taken, n, c);
                assert(s.batches(messages).drop_last() =~= s.batches(before));
                assert(joined(s.batches(before), c) == lane(done, n, c));
            }
        } else {
            assert(s.consumed(messages) + s.run(messages).buffer =~= input(messages));
            assert(s.batches(messages) == s.batches(before));
        }
    }
}

/// Whole frames after whole frames are whole frames.
proof fn lemma_lengths_add_up<T>(a: Seq<T>, b: Seq<T>, n: nat)
    requires
        n > 0,
        a.len() % n == 0,
        b.len() % n == 0,
    ensures
        (a + b).len() % n == 0,
{
    vstd::arithmetic::div_mod::lemma_add_mod_noop(a.len() as int, b.len() as int, n as int);
    assert(0int % (n as int) == 0) by (nonlinear_arith)
        requires
            n > 0,
    ;
}

proof fn lemma_ended<T>(s: DecoderState<T>, messages: Seq<Seq<T>>)
    requires
        s.fresh(),
        s.sinks == s.format.channels,
        s.format.channels > 0,
    ensures
        ({
            let end = s.ended(messages);
            let consumed = s.all_consumed(messages);
            &&& end.format == s.format
            &&& end.sinks == s.sinks
            &&& !end.more()
            &&& consumed + end.buffer == input(messages)
            &&& consumed.len() % s.sinks == 0
            &&& forall|c: int|
                0 <= c < s.sinks ==> #[trigger] joined(s.all_batches(messages), c) == lane(
                    consumed,
                    s.sinks,
                    c,
                )
        }),
{
    let n = s.sinks;
    let before = s.run(messages);
    lemma_run(s, messages);
    lemma_settled(before);
    lemma_lengths_add_up(s.consumed(messages), before.spent(), n);
    assert(s.all_consumed(messages) + s.ended(messages).buffer =~= input(messages)) by {
        assert(before.spent() + s.ended(messages).buffer == before.buffer);
    }
    assert forall|c: int| 0 <= c < n implies #[trigger] joined(s.all_batches(messages), c) == lane(
        s.all_consumed(messages),
        n,
        c,
    ) by {
        lemma_lane_concat(s.consumed(messages), before.spent(), n, c);
        lemma_joined_concat(s.batches(messages), before.backlog(), c);
        assert(joined(s.batches(messages), c) == lane(s.consumed(messages), n, c));
        assert(joined(before.backlog(), c) == lane(before.spent(), n, c));
    }
}

/// Whatever the messages, each channel comes out whole and in order: the batches of a channel,
/// and after them its tail, are that channel of all the audio that came in.
pub proof fn law_no_sample_is_lost<T>(s: DecoderState<T>, messages: Seq<Seq<T>>, c: int)
    requires
        s.fresh(),
        s.sinks == s.format.channels,
        0 <= c < s.sinks,
    ensures
        joined(s.all_batches(messages), c) + lane(s.ended(messages).buffer, s.sinks, c) == lane(
            input(messages),
            s.sinks,
            c,
        ),
{
    lemma_ended(s, messages);
    lemma_lane_concat(s.all_consumed(messages), s.ended(messages).buffer, s.sinks, c);
}

/// Audio at the model's rate passes through: every sample that came in has been sent or waits.
pub proof fn law_sent_and_waiting_add_up<T>(s: DecoderState<T>, messages: Seq<Seq<T>>)
    requires
        s.fresh(),
        !s.resamples(),
        s.sinks == s.format.channels,
        s.sinks > 0,
    ensures
        s.run(messages).received == input(messages).len(),
        s.run(messages).sent + s.run(messages).buffer.len() == s.run(messages).received,
{
    lemma_run(s, messages);
}

/// Audio at the model's rate comes out as it went in, on every channel, however it was cut into
/// messages: the batches of a channel, and after them its tail, brought to the length that the
/// channel lacks, are that channel of all the audio that came in.
pub proof fn law_every_channel_passes_through<T>(
    s: DecoderState<T>,
    messages: Seq<Seq<T>>,
    silence: T,
    c: int,
)
    requires
        s.fresh(),
        !s.resamples(),
        s.sinks == s.format.channels,
        0 <= c < s.sinks,
        input(messages).len() % s.sinks == 0,
        input(messages).len() <= usize::MAX,
    ensures
        ({
            let end = s.run(messages);
            let tail = deinterleaved(end.buffer, s.sinks, s.sinks);
            let target = Some((end.received / s.sinks) as usize);
            &&& end.each() == end.sent / s.sinks
            &&& end.lacking(target) == Some((end.received / s.sinks - end.sent / s.sinks) as usize)
            &&& joined(s.batches(messages), c) + fitted(tail[c], end.lacking(target), silence)
                == lane(input(messages), s.sinks, c)
        }),
{
    lemma_run(s, messages);
    let end = s.run(messages);
    lemma_lane_concat(s.consumed(messages), end.buffer, s.sinks, c);
    let m = s.sinks as int;
    let all = input(messages).len() as int;
    let sent = end.sent as int;
    let waiting = end.buffer.len() as int;
    vstd::arithmetic::div_mod::lemma_fundamental_div_mod(all, m);
    vstd::arithmetic::div_mod::lemma_fundamental_div_mod(sent, m);
    let frames = all / m;
    let gone = sent / m;
    assert(0 <= gone <= frames <= all && waiting == (frames - gone) * m) by (nonlinear_arith)
        requires
            m > 0,
            all == m * frames,
            sent == m * gone,
            all == sent + waiting,
            0 <= waiting,
            sent >= 0,
    ;
    vstd::arithmetic::div_mod::lemma_fundamental_div_mod_converse(waiting, m, frames - gone, 0);
    let tail = lane(end.buffer, s.sinks, c);
    assert(fitted(tail, Some((frames - gone) as usize), silence) =~= tail);
}

/// A channel comes to exactly the target, whatever a resampler made of its last samples, as long
/// as no more than the target has been sent on it.
pub proof fn law_every_channel_reaches_its_target<T>(
    s: DecoderState<T>,
    target: usize,
    last: Seq<T>,
    silence: T,
)
    requires
        s.each() <= target,
    ensures
        s.each() + fitted(last, s.lacking(Some(target)), silence).len() == target,
{
}

/// A batch for a resampler is full: that many frames on every channel.
pub proof fn law_resampler_batches_are_full<T>(s: DecoderState<T>, c: int)
    requires
        s.ready(),
        s.resamples(),
        s.sinks == s.format.channels,
        0 <= c < s.sinks,
    ensures
        s.batch().len() == s.format.channels,
        s.batch()[c].len() == RESAMPLER_SIZE,
{
    let ch = s.format.channels as int;
    let len = s.buffer.len() as int;
    let size = RESAMPLER_SIZE as int;
    assert(len / ch >= size && (size * ch) / ch == size && (size * ch) % ch == 0)
        by (nonlinear_arith)
        requires
            len >= ch * size,
            ch > 0,
            size == 2048,
    ;
    lemma_batch_len(s);
    assert(s.batch_len() == size * ch);
}

/// The tail of a resampled stream is no more than a resampler takes in one go: fewer frames are
/// left than make a batch, and no channel has more samples than one holds.
pub proof fn law_the_tail_fits_a_resampler<T>(s: DecoderState<T>, messages: Seq<Seq<T>>, c: int)
    requires
        s.fresh(),
        s.resamples(),
        s.sinks == s.format.channels,
        0 <= c < s.sinks,
    ensures
        s.ended(messages).buffer.len() < s.format.channels * RESAMPLER_SIZE,
        lane(s.ended(messages).buffer, s.sinks, c).len() <= RESAMPLER_SIZE,
{
    lemma_ended(s, messages);
    let ch = s.format.channels as int;
    let len = s.ended(messages).buffer.len() as int;
    assert(len / ch < 2048) by (nonlinear_arith)
        requires
            0 <= len < ch * 2048,
            ch > 0,
    ;
}

/// That a resampler yielded as much on each channel as on the first.
pub open spec fn even<T>(channels: Seq<Seq<T>>) -> bool {
    forall|c: int| 0 <= c < channels.len() ==> (#[trigger] channels[c]).len() == channels[0].len()
}

impl<T> DecoderState<T> {
    /// The state once a resampler's output has gone out, batch by batch.
    pub open spec fn after_deliveries(self, outputs: Seq<Seq<Seq<T>>>) -> Self
        decreases outputs.len(),
    {
        if outputs.len() == 0 {
            self
        } else {
            self.after_deliveries(outputs.drop_last()).after_delivery(outputs.last())
        }
    }

    /// What goes to the sinks of a resampler's output, batch by batch.
    pub open spec fn deliveries(self, outputs: Seq<Seq<Seq<T>>>) -> Seq<Seq<Seq<T>>>
        decreases outputs.len(),
    {
        if outputs.len() == 0 {
            Seq::empty()
        } else {
            self.deliveries(outputs.drop_last()).push(
                self.after_deliveries(outputs.drop_last()).delivered(outputs.last()),
            )
        }
    }
}

proof fn lemma_deliveries<T>(s: DecoderState<T>, outputs: Seq<Seq<Seq<T>>>, c: int)
    requires
        0 <= c < s.sinks,
        forall|k: int|
            0 <= k < outputs.len() ==> (#[trigger] outputs[k]).len() == s.sinks && even(outputs[k]),
    ensures
        s.after_deliveries(outputs).sinks == s.sinks,
        s.after_deliveries(outputs).delay == s.delay - least(s.delay, joined(outputs, c).len()),
        joined(s.deliveries(outputs), c) == without(joined(outputs, c), s.delay),
    decreases outputs.len(),
{
    let all = joined(outputs, c);
    if outputs.len() == 0 {
        assert(without(all, s.delay) =~= Seq::empty());
    } else {
        let before = outputs.drop_last();
        assert forall|k: int| 0 <= k < before.len() implies (#[trigger] before[k]).len() == s.sinks
            && even(before[k]) by {
            assert(before[k] == outputs[k]);
        }
        lemma_deliveries(s, before, c);
        let mid = s.after_deliveries(before);
        let last = outputs.last();
        assert(outputs[outputs.len() - 1] == last);
        assert(last[c].len() == last[0].len());
        assert(s.deliveries(outputs).drop_last() =~= s.deliveries(before));
        assert(mid.delivered(last)[c] == without(last[c], mid.delay));
        assert(without(joined(before, c), s.delay) + without(last[c], mid.delay) =~= without(
            all,
            s.delay,
        ));
    }
}

/// A resampled channel is what the resampler yielded, without its delay: the first `s.delay`
/// samples are left out, and as many as the target asks for follow, provided that the resampler
/// was made to yield that many. `last` is what it yielded at the end of the stream.
pub proof fn law_a_resampled_channel_is_on_time<T>(
    s: DecoderState<T>,
    outputs: Seq<Seq<Seq<T>>>,
    last: Seq<Seq<T>>,
    silence: T,
    n: usize,
    c: int,
)
    requires
        0 <= c < s.sinks,
        last.len() == s.sinks,
        forall|k: int|
            0 <= k < outputs.len() ==> (#[trigger] outputs[k]).len() == s.sinks && even(outputs[k]),
        s.after_deliveries(outputs).delay + n <= last[c].len(),
    ensures
        ({
            let sent = joined(s.deliveries(outputs), c);
            let tail = s.after_deliveries(outputs).delivered(last)[c];
            sent + fitted(tail, Some(n), silence) == (joined(outputs, c) + last[c]).subrange(
                s.delay as int,
                s.delay + sent.len() + n,
            )
        }),
{
    lemma_deliveries(s, outputs, c);
    let end = s.after_deliveries(outputs);
    let all = joined(outputs, c);
    let sent = joined(s.deliveries(outputs), c);
    let tail = end.delivered(last)[c];
    assert(tail == without(last[c], end.delay));
    if s.delay <= all.len() {
        assert(sent + fitted(tail, Some(n), silence) =~= (all + last[c]).subrange(
            s.delay as int,
            s.delay + sent.len() + n,
        ));
    } else {
        assert(sent =~= Seq::empty());
        assert(sent + fitted(tail, Some(n), silence) =~= (all + last[c]).subrange(
            s.delay as int,
            s.delay + sent.len() + n,
        ));
    }
}

/// Audio of every rate but the model's, which is 16 kHz, is resampled.
pub proof fn law_every_other_rate_is_resampled<T>(s: DecoderState<T>)
    ensures
        MODEL_SAMPLE_RATE == 16000,
        s.resamples() <==> s.format.sample_rate != 16000,
{
}

/// At any rate but the model's a batch comes out only once a resampler can take it whole; at the
/// model's, with every message. In either case a message gives out one batch at most.
pub proof fn law_when_a_batch_comes_out<T>(s: DecoderState<T>)
    ensures
        RESAMPLER_SIZE == 2048,
        s.ready() <==> s.format.sample_rate == 16000 || s.buffer.len() >= s.format.channels * 2048,
        s.more() <==> s.format.sample_rate != 16000 && s.format.channels > 0 && s.buffer.len()
            >= s.format.channels * 2048,
{
}

/// A message is taken in whole, after the samples that wait, and counted.
pub proof fn law_a_message_is_taken_in<T>(s: DecoderState<T>, samples: Seq<T>, i: int)
    ensures
        ({
            let next = s.absorb(samples);
            &&& next.received == s.received + samples.len()
            &&& next.buffer.len() == s.buffer.len() + samples.len()
            &&& 0 <= i < s.buffer.len() ==> next.buffer[i] == s.buffer[i]
            &&& 0 <= i < samples.len() ==> next.buffer[s.buffer.len() + i] == samples[i]
            &&& next.format == s.format
            &&& next.sinks == s.sinks
            &&& next.sent == s.sent
            &&& next.delay == s.delay
        }),
{
}

/// Samples are dealt out to the sinks in turn: sample `i` is number `i / sinks` of channel
/// `i % sinks`. No channel has any other sample.
pub proof fn law_samples_are_dealt_out_in_turn<T>(
    samples: Seq<T>,
    sinks: nat,
    channels: nat,
    i: int,
    c: int,
    k: int,
)
    requires
        sinks > 0,
        sinks <= channels || samples.len() <= channels,
    ensures
        ({
            let dealt = deinterleaved(samples, sinks, channels);
            &&& dealt.len() == channels
            &&& 0 <= i < samples.len() ==> {
                &&& 0 <= (i % (sinks as int)) < channels
                &&& 0 <= (i / (sinks as int)) < dealt[i % (sinks as int)].len()
                &&& dealt[i % (sinks as int)][i / (sinks as int)] == samples[i]
            }
            &&& 0 <= c < channels && 0 <= k < dealt[c].len() ==> {
                &&& c < sinks
                &&& 0 <= c + k * sinks < samples.len()
                &&& dealt[c][k] == samples[c + k * sinks]
            }
        }),
{
    let m = sinks as int;
    let len = samples.len() as int;
    if 0 <= i < len {
        law_every_sample_has_its_place(samples, sinks, i);
        assert(0 <= i % m < m && i % m <= i) by (nonlinear_arith)
            requires
                m > 0,
                i >= 0,
        ;
    }
    let dealt = deinterleaved(samples, sinks, channels);
    if 0 <= c < channels && 0 <= k < dealt[c].len() {
        assert(dealt[c] == lane(samples, sinks, c));
        vstd::arithmetic::div_mod::lemma_fundamental_div_mod(len, m);
        let q = len / m;
        let r = len % m;
        assert(0 <= c + k * m < len) by (nonlinear_arith)
            requires
                len == m * q + r,
                0 <= c < m,
                0 <= r < m,
                0 <= k,
                k < q || (k == q && c < r),
                m > 0,
        ;
    }
}

/// Whole frames are dealt out evenly: with one sink for each channel, channel `c` of frame `k` is
/// sample `k * channels + c`, and every channel has as many samples as there are frames.
pub proof fn law_frames_are_dealt_out_evenly<T>(samples: Seq<T>, channels: nat, frames: nat, c: int)
    requires
        channels > 0,
        samples.len() == frames * channels,
        0 <= c < channels,
    ensures
        deinterleaved(samples, channels, channels)[c].len() == frames,
        forall|k: int|
            0 <= k < frames ==> #[trigger] deinterleaved(samples, channels, channels)[c][k]
                == samples[c + k * channels],
{
    vstd::arithmetic::div_mod::lemma_fundamental_div_mod_converse(
        samples.len() as int,
        channels as int,
        frames as int,
        0,
    );
}

/// The next batch is the front of what waits: all its whole frames, 2048 at most. It is dealt out to
/// the sinks in turn, and what follows it goes on waiting, as it is.
pub proof fn law_a_batch_is_the_front_of_what_waits<T>(s: DecoderState<T>, i: int)
    requires
        s.format.channels > 0,
        s.sinks > 0,
        s.sinks <= s.format.channels || s.buffer.len() < 2 * s.format.channels,
    ensures
        ({
            let n = s.format.channels as int;
            let whole = s.buffer.len() as int / n;
            let frames = if whole < 2048 {
                whole
            } else {
                2048
            };
            let after = s.after_batch();
            let k = s.sinks as int;
            &&& s.batch_len() == frames * n
            &&& frames * n <= s.buffer.len()
            &&& s.batch().len() == n
            &&& 0 <= i < frames * n ==> {
                &&& 0 <= (i % k) < n
                &&& 0 <= (i / k) < s.batch()[i % k].len()
                &&& s.batch()[i % k][i / k] == s.buffer[i]
            }
            &&& after.buffer.len() == s.buffer.len() - frames * n
            &&& 0 <= i < after.buffer.len() ==> after.buffer[i] == s.buffer[frames * n + i]
            &&& after.format == s.format
            &&& after.sinks == s.sinks
            &&& after.received == s.received
            &&& after.sent == s.sent
            &&& after.delay == s.delay
        }),
{
    lemma_batch_len(s);
    if s.sinks > s.format.channels {
        let n = s.format.channels as int;
        let len = s.buffer.len() as int;
        let whole = len / n;
        let frames = s.batch_frames() as int;
        assert(frames * n <= n) by (nonlinear_arith)
            requires
                0 <= frames <= whole,
                whole == len / n,
                0 <= len < 2 * n,
        ;
    }
    law_samples_are_dealt_out_in_turn(
        s.buffer.take(s.batch_len() as int),
        s.sinks,
        s.format.channels as nat,
        i,
        0,
        0,
    );
}

/// With one sink for each channel a batch holds the same frames on all of them: sample `k` of
/// channel `c` is sample `k * channels + c` of what waits.
pub proof fn law_a_batch_holds_whole_frames<T>(s: DecoderState<T>, c: int, k: int)
    requires
        s.sinks == s.format.channels,
        0 <= c < s.sinks,
    ensures
        ({
            let whole = s.buffer.len() as int / (s.format.channels as int);
            let frames = if whole < 2048 {
                whole
            } else {
                2048
            };
            &&& s.batch()[c].len() == frames
            &&& 0 <= k < frames ==> s.batch()[c][k] == s.buffer[c + k * s.format.channels]
        }),
{
    lemma_batch_len(s);
    let n = s.format.channels as nat;
    let front = s.buffer.take(s.batch_len() as int);
    let frames = s.batch_frames();
    law_frames_are_dealt_out_evenly(front, n, frames, c);
    if 0 <= k < frames {
        assert(deinterleaved(front, n, n)[c][k] == front[c + k * n]);
        let m = n as int;
        let f = frames as int;
        assert(0 <= c + k * m < f * m) by (nonlinear_arith)
            requires
                0 <= c < m,
                0 <= k < f,
        ;
    }
}

/// A batch can be dealt out whenever no sink is without a channel.
pub proof fn law_every_sink_needs_a_channel<T>(s: DecoderState<T>, len: nat)
    ensures
        s.lanes_fit(len) <==> s.sinks <= s.format.channels || len <= s.format.channels,
{
}

/// What goes to the sinks is the channels, in order, as many as there are sinks, each without the
/// samples that a resampler's delay put before the audio.
pub proof fn law_channels_go_to_their_sinks<T>(
    s: DecoderState<T>,
    channels: Seq<Seq<T>>,
    c: int,
    k: int,
)
    ensures
        ({
            let out = s.delivered(channels);
            &&& out.len() == (if channels.len() <= s.sinks {
                channels.len()
            } else {
                s.sinks
            })
            &&& 0 <= c < out.len() ==> out[c].len() == (if s.delay <= channels[c].len() {
                channels[c].len() - s.delay
            } else {
                0
            })
            &&& 0 <= c < out.len() && 0 <= k < out[c].len() ==> out[c][k] == channels[c][s.delay
                + k]
        }),
{
}

/// All that goes to the sinks is counted as sent, and the delay is made up for as channels go by.
pub proof fn law_what_is_delivered_is_counted<T>(s: DecoderState<T>, channels: Seq<Seq<T>>)
    ensures
        ({
            let next = s.after_delivery(channels);
            &&& next.sent == s.sent + s.delivered(channels).fold_left(
                0nat,
                |n: nat, c: Seq<T>| n + c.len(),
            )
            &&& channels.len() == 0 ==> next.delay == s.delay
            &&& channels.len() > 0 ==> next.delay == (if s.delay <= channels[0].len() {
                0
            } else {
                s.delay - channels[0].len()
            })
            &&& next.buffer == s.buffer
            &&& next.received == s.received
            &&& next.format == s.format
            &&& next.sinks == s.sinks
        }),
{
    lemma_total_is_a_sum(s.delivered(channels));
}

proof fn lemma_total_is_a_sum<T>(channels: Seq<Seq<T>>)
    ensures
        total_len(channels) == channels.fold_left(0nat, |n: nat, c: Seq<T>| n + c.len()),
    decreases channels.len(),
{
    reveal_with_fuel(Seq::fold_left, 2);
    if channels.len() > 0 {
        lemma_total_is_a_sum(channels.drop_last());
    }
}

/// What each channel lacks makes up, with what has gone out on it, the target. Nothing is lacking
/// where more than the target has gone out, and nothing is said where there is no target.
pub proof fn law_what_is_lacking_makes_up_the_target<T>(s: DecoderState<T>, target: usize)
    requires
        s.sinks > 0,
        s.format.channels > 0,
    ensures
        ({
            let fed = if s.sinks <= s.format.channels {
                s.sinks as int
            } else {
                s.format.channels as int
            };
            let each = s.sent as int / fed;
            &&& s.lacking(Some(target)) matches Some(n)
            &&& each <= target ==> each + n == target
            &&& each > target ==> n == 0
            &&& s.lacking(None) is None
            &&& s.unfinished(Some(target)) <==> s.buffer.len() > 0 || (s.format.sample_rate != 16000
                && each < target)
            &&& s.unfinished(None) <==> s.buffer.len() > 0
        }),
{
}

/// A channel brought to a length has that length: its own samples as far as they go, then silence.
/// Without a length it stays as it is.
pub proof fn law_a_channel_is_cut_or_filled_up<T>(channel: Seq<T>, n: usize, silence: T, i: int)
    ensures
        fitted(channel, None, silence) == channel,
        fitted(channel, Some(n), silence).len() == n,
        0 <= i < n && i < channel.len() ==> fitted(channel, Some(n), silence)[i] == channel[i],
        channel.len() <= i < n ==> fitted(channel, Some(n), silence)[i] == silence,
{
}

/// The vocabulary of the other laws: lanes, channels that have a sink, channels without their
/// beginning, and the lesser of two numbers.
pub proof fn law_lanes_channels_and_numbers<T>(
    samples: Seq<T>,
    channels: Seq<Seq<T>>,
    vectors: Seq<Vec<T>>,
    n: nat,
    c: int,
    k: int,
)
    ensures
        n > 0 && 0 <= c < n ==> lane_len(samples.len(), n, c) == (samples.len() + n - 1 - c) / (
        n as int),
        !(0 <= c < n) ==> lane_len(samples.len(), n, c) == 0,
        lane(samples, n, c).len() == lane_len(samples.len(), n, c),
        0 <= k < lane(samples, n, c).len() ==> lane(samples, n, c)[k] == samples[c + k * n],
        routed(channels, n).len() <= n && routed(channels, n).len() <= channels.len(),
        routed(channels, n).len() == n || routed(channels, n).len() == channels.len(),
        0 <= c < routed(channels, n).len() ==> routed(channels, n)[c] == channels[c],
        without(samples, n).len() + n == samples.len() || (without(samples, n).len() == 0
            && samples.len() <= n),
        0 <= k < without(samples, n).len() ==> without(samples, n)[k] == samples[k + n],
        least(n, samples.len()) <= n && least(n, samples.len()) <= samples.len(),
        least(n, samples.len()) == n || least(n, samples.len()) == samples.len(),
        contents(vectors).len() == vectors.len(),
        0 <= c < vectors.len() ==> contents(vectors)[c] == vectors[c]@,
{
    if n > 0 && 0 <= c < n {
        let m = n as int;
        let len = samples.len() as int;
        vstd::arithmetic::div_mod::lemma_fundamental_div_mod(len, m);
        let q = len / m;
        let r = len % m;
        assert((q + 1) * m == m * q + m && q * m == m * q) by (nonlinear_arith);
        if c < r {
            vstd::arithmetic::div_mod::lemma_fundamental_div_mod_converse(
                len + m - 1 - c,
                m,
                q + 1,
                r - 1 - c,
            );
        } else {
            vstd::arithmetic::div_mod::lemma_fundamental_div_mod_converse(
                len + m - 1 - c,
                m,
                q,
                m - 1 - c + r,
            );
        }
    }
}

proof fn lemma_even_total<T>(channels: Seq<Seq<T>>, len: nat)
    requires
        forall|c: int| 0 <= c < channels.len() ==> (#[trigger] channels[c]).len() == len,
    ensures
        total_len(channels) == channels.len() * len,
    decreases channels.len(),
{
    if channels.len() > 0 {
        let before = channels.drop_last();
        assert forall|c: int| 0 <= c < before.len() implies (#[trigger] before[c]).len() == len by {
            assert(before[c] == channels[c]);
        }
        lemma_even_total(before, len);
        let k = before.len() as int;
        let l = len as int;
        assert((k + 1) * l == k * l + l) by (nonlinear_arith);
    } else {
        assert(0 * len == 0) by (nonlinear_arith);
    }
}

proof fn lemma_sent<T>(s: DecoderState<T>, outputs: Seq<Seq<Seq<T>>>, c: int)
    requires
        0 <= c < s.sinks,
        forall|k: int|
            0 <= k < outputs.len() ==> (#[trigger] outputs[k]).len() == s.sinks && even(outputs[k]),
    ensures
        s.after_deliveries(outputs).format == s.format,
        s.after_deliveries(outputs).sinks == s.sinks,
        s.after_deliveries(outputs).sent == s.sent + s.sinks * joined(
            s.deliveries(outputs),
            c,
        ).len(),
    decreases outputs.len(),
{
    let n = s.sinks as int;
    if outputs.len() > 0 {
        let before = outputs.drop_last();
        assert forall|k: int| 0 <= k < before.len() implies (#[trigger] before[k]).len() == s.sinks
            && even(before[k]) by {
            assert(before[k] == outputs[k]);
        }
        lemma_sent(s, before, c);
        let mid = s.after_deliveries(before);
        let last = outputs.last();
        assert(outputs[outputs.len() - 1] == last);
        let out = mid.delivered(last);
        let len = without(last[0], mid.delay).len();
        assert forall|k: int| 0 <= k < out.len() implies (#[trigger] out[k]).len() == len by {
            assert(last[k].len() == last[0].len());
        }
        lemma_even_total(out, len);
        assert(out[c].len() == len);
        assert(s.deliveries(outputs).drop_last() =~= s.deliveries(before));
        let a = joined(s.deliveries(before), c).len() as int;
        let b = len as int;
        assert(n * (a + b) == n * a + n * b) by (nonlinear_arith);
    } else {
        assert(n * 0 == 0) by (nonlinear_arith);
    }
}

/// Every channel of a resampled stream comes to the length that is due for it, whatever the
/// resampler yields: `target` is the number of frames that came in, brought from the stream's rate
/// to 16 kHz and rounded. The stream is then heard at its own speed and pitch.
pub proof fn law_every_channel_comes_to_its_length<T>(
    s: DecoderState<T>,
    outputs: Seq<Seq<Seq<T>>>,
    last: Seq<Seq<T>>,
    silence: T,
    frames: nat,
    target: usize,
    c: int,
)
    requires
        s.sent == 0,
        s.sinks == s.format.channels,
        0 <= c < s.sinks,
        s.format.sample_rate != 16000,
        last.len() == s.sinks,
        forall|k: int|
            0 <= k < outputs.len() ==> (#[trigger] outputs[k]).len() == s.sinks && even(outputs[k]),
        // The target is the nearest whole number to `frames * 16000 / rate`.
        2 * target * s.format.sample_rate <= 2 * frames * 16000 + s.format.sample_rate,
        2 * frames * 16000 < 2 * target * s.format.sample_rate + s.format.sample_rate,
        joined(s.deliveries(outputs), c).len() <= target,
    ensures
        s.resamples(),
        ({
            let end = s.after_deliveries(outputs);
            let sent = joined(s.deliveries(outputs), c);
            let tail = fitted(end.delivered(last)[c], end.lacking(Some(target)), silence);
            &&& sent.len() + tail.len() == target
            &&& 2 * (sent.len() + tail.len()) * s.format.sample_rate <= 2 * frames * 16000
                + s.format.sample_rate
            &&& 2 * frames * 16000 < 2 * (sent.len() + tail.len()) * s.format.sample_rate
                + s.format.sample_rate
        }),
{
    lemma_sent(s, outputs, c);
    let end = s.after_deliveries(outputs);
    let n = s.sinks as int;
    let len = joined(s.deliveries(outputs), c).len() as int;
    vstd::arithmetic::div_mod::lemma_fundamental_div_mod_converse(end.sent as int, n, len, 0);
    law_every_channel_reaches_its_target(end, target, end.delivered(last)[c], silence);
}

} // verus!
