//! The cross-callback buffers: one unbounded FIFO of canonical samples per
//! output channel, appended to by the capture side and drained by the render
//! side. An underrun (a pop on an empty buffer) is answered by the configured
//! silence value or by a caller-supplied fallback, and never changes state.

use std::collections::VecDeque;
use vstd::prelude::*;

verus! {

/// One channel's FIFO of canonical samples. The capture side appends at the
/// tail, the render side removes from the head; there is no other access and
/// no bound on the length.
pub struct ChannelBuffer<T> {
    samples: VecDeque<T>,
}

impl<T> View for ChannelBuffer<T> {
    type V = Seq<T>;

    closed spec fn view(&self) -> Seq<T> {
        self.samples@
    }
}

impl<T: Copy> ChannelBuffer<T> {
    /// An empty buffer.
    pub fn new() -> (r: Self)
        ensures
            r@ == Seq::<T>::empty(),
    {
        ChannelBuffer { samples: VecDeque::new() }
    }

    /// How many samples are buffered.
    pub fn len(&self) -> (r: usize)
        ensures
            r == self@.len(),
    {
        self.samples.len()
    }

    /// Appends one sample at the tail.
    pub fn push(&mut self, sample: T)
        ensures
            final(self)@ == old(self)@.push(sample),
    {
        self.samples.push_back(sample);
    }

    /// Removes and returns the head sample; on an empty buffer returns
    /// `fallback` and leaves the buffer unchanged.
    pub fn pop_or(&mut self, fallback: T) -> (r: T)
        ensures
            old(self)@.len() > 0 ==> r == old(self)@[0] && final(self)@ == old(self)@.drop_first(),
            old(self)@.len() == 0 ==> r == fallback && final(self)@ == old(self)@,
    {
        match self.samples.pop_front() {
            Some(sample) => sample,
            None => fallback,
        }
    }

    /// Appends `count` copies of `value` at the tail.
    pub fn extend_with(&mut self, value: T, count: usize)
        ensures
            final(self)@ == old(self)@ + Seq::new(count as nat, |i: int| value),
    {
        let ghost orig: Seq<T> = self@;
        let mut i: usize = 0;
        while i < count
            invariant
                i <= count,
                self@ == orig + Seq::new(i as nat, |j: int| value),
            decreases count - i,
        {
            self.samples.push_back(value);
            i = i + 1;
            proof {
                assert(orig + Seq::new(i as nat, |j: int| value) =~= (orig + Seq::new(
                    (i - 1) as nat,
                    |j: int| value,
                )).push(value));
            }
        }
        proof {
            assert(self@ =~= orig + Seq::new(count as nat, |i: int| value));
        }
    }

    /// Appends a whole block of samples at the tail, oldest first.
    pub fn push_all(&mut self, block: &Vec<T>)
        ensures
            final(self)@ == old(self)@ + block@,
    {
        let ghost orig: Seq<T> = self@;
        let mut i: usize = 0;
        while i < block.len()
            invariant
                i <= block@.len(),
                self@ == orig + block@.take(i as int),
            decreases block@.len() - i,
        {
            self.samples.push_back(block[i]);
            i = i + 1;
            proof {
                assert(orig + block@.take(i as int) =~= (orig + block@.take(i - 1)).push(
                    block@[i - 1],
                ));
            }
        }
        proof {
            assert(self@ =~= orig + block@);
        }
    }

    /// Removes and returns the next `count` samples, oldest first; every pop
    /// past the end of the buffer yields `fallback` instead.
    pub fn pop_all_or(&mut self, fallback: T, count: usize) -> (r: Vec<T>)
        ensures
            r@ == spec_pops(old(self)@, count as nat, fallback),
            final(self)@ == spec_remaining(old(self)@, count as nat),
    {
        let ghost orig: Seq<T> = self@;
        let mut out: Vec<T> = Vec::new();
        let mut i: usize = 0;
        while i < count
            invariant
                i <= count,
                out@.len() == i,
                forall|k: int|
                    0 <= k < i ==> out@[k] == (if k < orig.len() {
                        orig[k]
                    } else {
                        fallback
                    }),
                self@ == spec_remaining(orig, i as nat),
            decreases count - i,
        {
            let sample = self.pop_or(fallback);
            out.push(sample);
            i = i + 1;
        }
        proof {
            lemma_pops_len(orig, count as nat, fallback);
            assert forall|k: int| 0 <= k < count implies out@[k] == spec_pops(
                orig,
                count as nat,
                fallback,
            )[k] by {
                lemma_pops_index(orig, count as nat, fallback, k);
            }
            assert(out@ =~= spec_pops(orig, count as nat, fallback));
        }
        out
    }
}

/// A fixed set of channel buffers, one per output channel index (0 = left,
/// 1 = right, ...), with the silence value that answers underruns under the
/// silence policy. Created once at session start and mutated only through the
/// capture and render sides for the life of the session.
pub struct ChannelBufferSet<T> {
    channels: Vec<ChannelBuffer<T>>,
    silence: T,
}

impl<T> View for ChannelBufferSet<T> {
    type V = Seq<Seq<T>>;

    closed spec fn view(&self) -> Seq<Seq<T>> {
        Seq::new(self.channels@.len(), |ch: int| self.channels@[ch]@)
    }
}

impl<T: Copy> ChannelBufferSet<T> {
    /// The configured silence value: what a pop returns on an empty channel
    /// under the silence policy, and what `seed_silence` appends.
    pub closed spec fn spec_silence(&self) -> T {
        self.silence
    }

    /// A set of `channel_count` empty channel buffers sharing one silence
    /// value.
    pub fn new(channel_count: usize, silence: T) -> (r: Self)
        ensures
            r@.len() == channel_count,
            forall|ch: int| 0 <= ch < channel_count ==> r@[ch] == Seq::<T>::empty(),
            r.spec_silence() == silence,
    {
        let mut channels: Vec<ChannelBuffer<T>> = Vec::new();
        let mut i: usize = 0;
        while i < channel_count
            invariant
                i <= channel_count,
                channels@.len() == i,
                forall|ch: int| 0 <= ch < i ==> (#[trigger] channels@[ch])@ == Seq::<T>::empty(),
            decreases channel_count - i,
        {
            channels.push(ChannelBuffer::new());
            i = i + 1;
        }
        ChannelBufferSet { channels, silence }
    }

    /// How many channels the set was created with.
    pub fn channel_count(&self) -> (r: usize)
        ensures
            r == self@.len(),
    {
        self.channels.len()
    }

    /// The configured silence value.
    pub fn silence(&self) -> (r: T)
        ensures
            r == self.spec_silence(),
    {
        self.silence
    }

    /// How many samples the named channel is buffering: the current latency of
    /// that channel, in samples.
    pub fn len(&self, channel_index: usize) -> (r: usize)
        requires
            channel_index < self@.len(),
        ensures
            r == self@[channel_index as int].len(),
    {
        let buffer = &self.channels[channel_index];
        buffer.len()
    }

    /// Appends `sample` at the tail of the named channel's buffer. There is no
    /// backpressure and no bound: nothing is ever dropped.
    pub fn push(&mut self, channel_index: usize, sample: T)
        requires
            channel_index < old(self)@.len(),
        ensures
            final(self)@ == old(self)@.update(
                channel_index as int,
                old(self)@[channel_index as int].push(sample),
            ),
            final(self).spec_silence() == old(self).spec_silence(),
    {
        let buffer = &mut self.channels[channel_index];
        buffer.push(sample);
    }

    /// Removes and returns the head sample of the named channel; on an empty
    /// channel (an underrun) returns the configured silence value and changes
    /// nothing.
    pub fn pop_or_silence(&mut self, channel_index: usize) -> (r: T)
        requires
            channel_index < old(self)@.len(),
        ensures
            old(self)@[channel_index as int].len() > 0 ==> {
                &&& r == old(self)@[channel_index as int][0]
                &&& final(self)@ == old(self)@.update(
                    channel_index as int,
                    old(self)@[channel_index as int].drop_first(),
                )
            },
            old(self)@[channel_index as int].len() == 0 ==> {
                &&& r == old(self).spec_silence()
                &&& final(self)@ == old(self)@
            },
            final(self).spec_silence() == old(self).spec_silence(),
    {
        let fallback = self.silence;
        let buffer = &mut self.channels[channel_index];
        buffer.pop_or(fallback)
    }

    /// Removes and returns the head sample of the named channel; on an empty
    /// channel returns `fallback` — the hold-last-or-fallback underrun policy,
    /// for a soft degrade instead of a discontinuity to zero — and changes
    /// nothing.
    pub fn pop_or_last(&mut self, channel_index: usize, fallback: T) -> (r: T)
        requires
            channel_index < old(self)@.len(),
        ensures
            old(self)@[channel_index as int].len() > 0 ==> {
                &&& r == old(self)@[channel_index as int][0]
                &&& final(self)@ == old(self)@.update(
                    channel_index as int,
                    old(self)@[channel_index as int].drop_first(),
                )
            },
            old(self)@[channel_index as int].len() == 0 ==> {
                &&& r == fallback
                &&& final(self)@ == old(self)@
            },
            final(self).spec_silence() == old(self).spec_silence(),
    {
        let buffer = &mut self.channels[channel_index];
        buffer.pop_or(fallback)
    }

    /// Appends `count` silence samples to the named channel: used once at
    /// startup to establish a deliberate buffering delay before real samples
    /// arrive.
    pub fn seed_silence(&mut self, channel_index: usize, count: usize)
        requires
            channel_index < old(self)@.len(),
        ensures
            final(self)@ == old(self)@.update(
                channel_index as int,
                old(self)@[channel_index as int] + Seq::new(
                    count as nat,
                    |i: int| old(self).spec_silence(),
                ),
            ),
            final(self).spec_silence() == old(self).spec_silence(),
    {
        let value = self.silence;
        let buffer = &mut self.channels[channel_index];
        buffer.extend_with(value, count);
    }

    /// Appends one captured block of converted samples to the named channel,
    /// oldest first: the capture callback's buffer work for one channel.
    pub fn push_block(&mut self, channel_index: usize, block: &Vec<T>)
        requires
            channel_index < old(self)@.len(),
        ensures
            final(self)@ == old(self)@.update(
                channel_index as int,
                old(self)@[channel_index as int] + block@,
            ),
            final(self).spec_silence() == old(self).spec_silence(),
    {
        let buffer = &mut self.channels[channel_index];
        buffer.push_all(block);
    }

    /// Removes and returns the next `frame_count` samples of the named
    /// channel, oldest first, answering every underrun with the configured
    /// silence value: the render callback's buffer work for one channel.
    pub fn pop_block_or_silence(&mut self, channel_index: usize, frame_count: usize) -> (r: Vec<T>)
        requires
            channel_index < old(self)@.len(),
        ensures
            r@ == spec_pops(
                old(self)@[channel_index as int],
                frame_count as nat,
                old(self).spec_silence(),
            ),
            final(self)@ == old(self)@.update(
                channel_index as int,
                spec_remaining(old(self)@[channel_index as int], frame_count as nat),
            ),
            final(self).spec_silence() == old(self).spec_silence(),
    {
        let fallback = self.silence;
        let buffer = &mut self.channels[channel_index];
        buffer.pop_all_or(fallback, frame_count)
    }
}

/// What a run of `count` pops returns from a buffer holding `buffered`:
/// the buffered samples, oldest first, and `fill` for every pop past the end.
/// Each step is one pop as `pop_or` promises it.
pub open spec fn spec_pops<T>(buffered: Seq<T>, count: nat, fill: T) -> Seq<T>
    decreases count,
{
    if count == 0 {
        Seq::empty()
    } else if buffered.len() > 0 {
        seq![buffered[0]] + spec_pops(buffered.drop_first(), (count - 1) as nat, fill)
    } else {
        seq![fill] + spec_pops(buffered, (count - 1) as nat, fill)
    }
}

/// What a run of `count` pops leaves in a buffer holding `buffered`: the
/// samples past the first `count`, or nothing once the buffer has drained.
pub open spec fn spec_remaining<T>(buffered: Seq<T>, count: nat) -> Seq<T> {
    if count <= buffered.len() {
        buffered.skip(count as int)
    } else {
        Seq::empty()
    }
}

/// What a run of pushes, one per element of `incoming` in order, leaves in a
/// buffer holding `buffered`. Each step is one push as `push` promises it.
pub open spec fn spec_pushes<T>(buffered: Seq<T>, incoming: Seq<T>) -> Seq<T>
    decreases incoming.len(),
{
    if incoming.len() == 0 {
        buffered
    } else {
        spec_pushes(buffered.push(incoming[0]), incoming.drop_first())
    }
}

/// A run of pops returns one sample per pop.
proof fn lemma_pops_len<T>(buffered: Seq<T>, count: nat, fill: T)
    ensures
        spec_pops(buffered, count, fill).len() == count,
    decreases count,
{
    if count > 0 {
        if buffered.len() > 0 {
            lemma_pops_len(buffered.drop_first(), (count - 1) as nat, fill);
        } else {
            lemma_pops_len(buffered, (count - 1) as nat, fill);
        }
    }
}

/// The `i`-th pop of a run returns the `i`-th buffered sample while there is
/// one, and `fill` after the buffer has drained.
proof fn lemma_pops_index<T>(buffered: Seq<T>, count: nat, fill: T, i: int)
    requires
        0 <= i < count,
    ensures
        spec_pops(buffered, count, fill)[i] == (if i < buffered.len() {
            buffered[i]
        } else {
            fill
        }),
    decreases count,
{
    if i == 0 {
        if buffered.len() > 0 {
            assert(spec_pops(buffered, count, fill) == seq![buffered[0]] + spec_pops(
                buffered.drop_first(),
                (count - 1) as nat,
                fill,
            ));
            assert((seq![buffered[0]] + spec_pops(buffered.drop_first(), (count - 1) as nat, fill))[0]
                == buffered[0]);
        } else {
            assert(spec_pops(buffered, count, fill) == seq![fill] + spec_pops(
                buffered,
                (count - 1) as nat,
                fill,
            ));
            assert((seq![fill] + spec_pops(buffered, (count - 1) as nat, fill))[0] == fill);
        }
    } else {
        if buffered.len() > 0 {
            lemma_pops_len(buffered.drop_first(), (count - 1) as nat, fill);
            lemma_pops_index(buffered.drop_first(), (count - 1) as nat, fill, i - 1);
            assert(spec_pops(buffered, count, fill)[i] == spec_pops(
                buffered.drop_first(),
                (count - 1) as nat,
                fill,
            )[i - 1]);
            if i < buffered.len() {
                assert(buffered.drop_first()[i - 1] == buffered[i]);
            }
        } else {
            lemma_pops_len(buffered, (count - 1) as nat, fill);
            lemma_pops_index(buffered, (count - 1) as nat, fill, i - 1);
            assert(spec_pops(buffered, count, fill)[i] == spec_pops(
                buffered,
                (count - 1) as nat,
                fill,
            )[i - 1]);
        }
    }
}

/// Pushing a run of samples keeps everything already buffered and appends the
/// run in order.
proof fn lemma_pushes_append<T>(buffered: Seq<T>, incoming: Seq<T>)
    ensures
        spec_pushes(buffered, incoming) == buffered + incoming,
    decreases incoming.len(),
{
    if incoming.len() == 0 {
        assert(spec_pushes(buffered, incoming) =~= buffered + incoming);
    } else {
        lemma_pushes_append(buffered.push(incoming[0]), incoming.drop_first());
        assert(buffered.push(incoming[0]) + incoming.drop_first() =~= buffered + incoming);
    }
}

/// Order preservation: pushing `samples` into an empty channel in order and
/// popping once per sample yields exactly `samples`, in the same order,
/// whatever value answers underruns.
pub proof fn lemma_order_preservation<T>(samples: Seq<T>, fill: T)
    ensures
        spec_pops(spec_pushes(Seq::<T>::empty(), samples), samples.len(), fill) == samples,
{
    lemma_pushes_append(Seq::<T>::empty(), samples);
    assert(spec_pushes(Seq::<T>::empty(), samples) =~= samples);
    lemma_pops_in_order(samples, samples.len(), fill);
    assert(samples.take(samples.len() as int) =~= samples);
}

/// Order preservation, stated of the buffered samples alone: while the buffer
/// does not run dry, a run of pops returns the buffered samples oldest first.
pub proof fn lemma_pops_in_order<T>(buffered: Seq<T>, count: nat, fill: T)
    requires
        count <= buffered.len(),
    ensures
        spec_pops(buffered, count, fill) == buffered.take(count as int),
{
    lemma_pops_len(buffered, count, fill);
    assert forall|k: int| 0 <= k < count implies spec_pops(buffered, count, fill)[k]
        == buffered.take(count as int)[k] by {
        lemma_pops_index(buffered, count, fill, k);
    }
    assert(spec_pops(buffered, count, fill) =~= buffered.take(count as int));
}

/// Seed latency: with `seeded` silence samples ahead of whatever else is
/// buffered, each of the first `seeded` pops returns silence; pushed samples
/// queue behind the seed in FIFO order.
pub proof fn lemma_seed_latency<T>(seeded: nat, rest: Seq<T>, fill: T, count: nat, i: int)
    requires
        0 <= i < seeded,
        i < count,
    ensures
        spec_pops(Seq::new(seeded, |j: int| fill) + rest, count, fill)[i] == fill,
{
    let buffered = Seq::new(seeded, |j: int| fill) + rest;
    lemma_pops_index(buffered, count, fill, i);
}

/// Unbounded growth under starvation: a run of pushes with no pops drops
/// nothing; an empty channel afterwards holds exactly the pushed samples, so
/// its length is their number.
pub proof fn lemma_unbounded_growth<T>(samples: Seq<T>)
    ensures
        spec_pushes(Seq::<T>::empty(), samples) == samples,
        spec_pushes(Seq::<T>::empty(), samples).len() == samples.len(),
{
    lemma_pushes_append(Seq::<T>::empty(), samples);
    assert(spec_pushes(Seq::<T>::empty(), samples) =~= samples);
}

} // verus!
