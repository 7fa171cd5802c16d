//! Interleaved/planar layout adaptation.
//!
//! The raw block a hardware callback hands over either alternates channels
//! sample by sample (interleaved: L,R,L,R,...) or holds one contiguous region
//! per channel (planar). The channel buffers work per channel, so an
//! interleaved block is split into planar blocks on the way in and planar
//! blocks are woven back together on the way out. In an interleaved block of
//! `channel_count` channels, sample `i` of channel `ch` stands at position
//! `i * channel_count + ch`.

use vstd::prelude::*;

verus! {

/// Every interleaved position of a frame in range lies inside the block.
proof fn lemma_interleaved_index_bound(i: int, ch: int, frame_count: int, channel_count: int)
    requires
        0 <= i < frame_count,
        0 <= ch < channel_count,
    ensures
        0 <= i * channel_count + ch < frame_count * channel_count,
{
    assert(0 <= i * channel_count + ch < frame_count * channel_count) by (nonlinear_arith)
        requires
            0 <= i < frame_count,
            0 <= ch < channel_count,
    ;
}

/// Splits an interleaved block into one planar block per channel: entry `i`
/// of channel `ch`'s block is the sample at interleaved position
/// `i * channel_count + ch`. The block's length must be a whole number of
/// frames.
pub fn deinterleave<T: Copy>(data: &Vec<T>, channel_count: usize) -> (r: Vec<Vec<T>>)
    requires
        channel_count > 0,
        data@.len() as int % (channel_count as int) == 0,
    ensures
        r@.len() == channel_count,
        forall|ch: int|
            0 <= ch < channel_count ==> (#[trigger] r@[ch])@.len() == data@.len() as int / (
            channel_count as int),
        forall|ch: int, i: int|
            0 <= ch < channel_count && 0 <= i < data@.len() as int / (channel_count as int)
                ==> #[trigger] r@[ch]@[i] == data@[i * (channel_count as int) + ch],
{
    let frame_count: usize = data.len() / channel_count;
    proof {
        vstd::arithmetic::div_mod::lemma_fundamental_div_mod(
            data@.len() as int,
            channel_count as int,
        );
        assert((channel_count as int) * (frame_count as int) == (frame_count as int) * (
        channel_count as int)) by (nonlinear_arith);
    }
    let mut r: Vec<Vec<T>> = Vec::new();
    let mut ch: usize = 0;
    while ch < channel_count
        invariant
            ch <= channel_count,
            channel_count > 0,
            r@.len() == ch,
            data@.len() <= usize::MAX,
            frame_count == data@.len() as int / (channel_count as int),
            (frame_count as int) * (channel_count as int) == data@.len(),
            forall|c: int| 0 <= c < ch ==> (#[trigger] r@[c])@.len() == frame_count,
            forall|c: int, k: int|
                0 <= c < ch && 0 <= k < frame_count ==> #[trigger] r@[c]@[k] == data@[k * (
                channel_count as int) + c],
        decreases channel_count - ch,
    {
        let mut one: Vec<T> = Vec::new();
        let mut i: usize = 0;
        while i < frame_count
            invariant
                i <= frame_count,
                ch < channel_count,
                one@.len() == i,
                data@.len() <= usize::MAX,
                (frame_count as int) * (channel_count as int) == data@.len(),
                forall|k: int|
                    0 <= k < i ==> #[trigger] one@[k] == data@[k * (channel_count as int) + ch],
            decreases frame_count - i,
        {
            proof {
                lemma_interleaved_index_bound(
                    i as int,
                    ch as int,
                    frame_count as int,
                    channel_count as int,
                );
            }
            let idx: usize = i * channel_count + ch;
            one.push(data[idx]);
            i = i + 1;
        }
        r.push(one);
        ch = ch + 1;
    }
    r
}

/// Weaves one planar block per channel back into an interleaved block: the
/// sample at interleaved position `i * channel_count + ch` is entry `i` of
/// channel `ch`'s block. Every channel's block must hold one sample per
/// frame, and the interleaved block must fit in memory.
pub fn interleave<T: Copy>(planar: &Vec<Vec<T>>, frame_count: usize) -> (r: Vec<T>)
    requires
        forall|ch: int|
            0 <= ch < planar@.len() ==> (#[trigger] planar@[ch])@.len() == frame_count,
        (frame_count as int) * (planar@.len() as int) <= usize::MAX as int,
    ensures
        r@.len() == (frame_count as int) * (planar@.len() as int),
        forall|i: int, ch: int|
            0 <= i < frame_count && 0 <= ch < planar@.len() ==> #[trigger] r@[i * (
            planar@.len() as int) + ch] == planar@[ch]@[i],
{
    let channel_count: usize = planar.len();
    let mut out: Vec<T> = Vec::new();
    let mut i: usize = 0;
    while i < frame_count
        invariant
            i <= frame_count,
            channel_count == planar@.len(),
            out@.len() == (i as int) * (channel_count as int),
            (frame_count as int) * (channel_count as int) <= usize::MAX as int,
            forall|c: int|
                0 <= c < channel_count ==> (#[trigger] planar@[c])@.len() == frame_count,
            forall|k: int, c: int|
                0 <= k < i && 0 <= c < channel_count ==> #[trigger] out@[k * (
                channel_count as int) + c] == planar@[c]@[k],
        decreases frame_count - i,
    {
        proof {
            assert((i as int) * (channel_count as int) + (channel_count as int) == ((i + 1) as int)
                * (channel_count as int)) by (nonlinear_arith);
            assert(((i + 1) as int) * (channel_count as int) <= (frame_count as int) * (
            channel_count as int)) by (nonlinear_arith)
                requires
                    0 <= i < frame_count,
                    channel_count >= 0,
            ;
        }
        let mut ch: usize = 0;
        while ch < channel_count
            invariant
                ch <= channel_count,
                i < frame_count,
                channel_count == planar@.len(),
                out@.len() == (i as int) * (channel_count as int) + ch,
                (i as int) * (channel_count as int) + (channel_count as int) <= usize::MAX as int,
                forall|c: int|
                    0 <= c < channel_count ==> (#[trigger] planar@[c])@.len() == frame_count,
                forall|k: int, c: int|
                    0 <= k < i && 0 <= c < channel_count ==> #[trigger] out@[k * (
                    channel_count as int) + c] == planar@[c]@[k],
                forall|c: int|
                    0 <= c < ch ==> #[trigger] out@[(i as int) * (channel_count as int) + c]
                        == planar@[c]@[i as int],
            decreases channel_count - ch,
        {
            let one = &planar[ch];
            let sample = one[i];
            out.push(sample);
            proof {
                assert forall|k: int, c: int|
                    0 <= k < i && 0 <= c < channel_count implies #[trigger] out@[k * (
                channel_count as int) + c] == planar@[c]@[k] by {
                    lemma_interleaved_index_bound(k, c, i as int, channel_count as int);
                    assert((i as int) * (channel_count as int) >= k * (channel_count as int) + c
                        + 1);
                }
            }
            ch = ch + 1;
        }
        i = i + 1;
    }
    out
}

} // verus!
