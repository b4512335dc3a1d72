//! Picking the frames of a decoded packet that belong to the requested
//! range, and the requested channels of each.
//!
//! Samples are interleaved: all channels of frame 0, then all channels of
//! frame 1, and so on. A packet of `channels` channels holds
//! `len / channels` whole frames; samples after the last whole frame are
//! never read.

use crate::channels::{slice_frame, ChannelRange};
use crate::range::FrameRange;
use vstd::arithmetic::div_mod::lemma_fundamental_div_mod;
use vstd::arithmetic::div_mod::lemma_fundamental_div_mod_converse;
use vstd::prelude::*;
use vstd::slice::slice_subrange;

verus! {

/// The number of whole frames in `len` interleaved samples.
pub open spec fn frame_count(len: int, channels: int) -> int {
    if channels > 0 {
        len / channels
    } else {
        0
    }
}

/// `x`, held to the interval from 0 to `n`.
pub open spec fn clamp(x: int, n: int) -> int {
    if x < 0 {
        0
    } else if x > n {
        n
    } else {
        x
    }
}

/// The index, within a packet of `frames` frames whose first frame stands at
/// absolute position `pos`, of the first frame that is not before the start
/// of `range`.
pub open spec fn window_start(range: FrameRange, pos: int, frames: int) -> int {
    clamp(range.start_frame - pos, frames)
}

/// The index, within such a packet, of the first frame that is not before
/// the end of `range`; `frames` where there is none.
pub open spec fn window_end(range: FrameRange, pos: int, frames: int) -> int {
    match range.end_frame {
        Some(end) => clamp(end - pos, frames),
        None => frames,
    }
}

/// Whether such a packet holds a frame at or after the end of `range`.
pub open spec fn reaches_end(range: FrameRange, pos: int, frames: int) -> bool {
    range.end_frame is Some && frames > 0 && range.end_frame->0 < pos + frames
}

/// The channels `ch` of the frames `lo`, .., `hi - 1` of `samples`,
/// interleaved: the sample at channel offset `k % ch.span()` of output frame
/// `k / ch.span()` is the sample at channel `ch.start + k % ch.span()` of
/// input frame `lo + k / ch.span()`.
pub open spec fn slice_frames<T>(
    samples: Seq<T>,
    channels: int,
    ch: ChannelRange,
    lo: int,
    hi: int,
) -> Seq<T> {
    Seq::new(
        if hi > lo {
            ((hi - lo) * ch.span()) as nat
        } else {
            0
        },
        |k: int| samples[(lo + k / ch.span()) * channels + ch.start + k % ch.span()],
    )
}

/// The frames between `window_start` and `window_end` are those frames of
/// the packet whose absolute positions lie in the range, and the end is
/// reached where a frame of the packet stands at or after the end of the
/// range.
pub proof fn lemma_window_holds(range: FrameRange, pos: int, frames: int, i: int)
    requires
        0 <= i < frames,
    ensures
        window_start(range, pos, frames) <= i < window_end(range, pos, frames) <==> range.holds(
            pos + i,
        ),
        range.end_frame is Some && range.end_frame->0 <= pos + i ==> reaches_end(
            range,
            pos,
            frames,
        ),
        reaches_end(range, pos, frames) ==> !range.holds(pos + frames - 1),
{
}

/// Quotient and remainder of `q * d + r` where `r` is below `d`.
proof fn lemma_split_index(q: int, d: int, r: int)
    requires
        0 < d,
        0 <= r < d,
    ensures
        (q * d + r) / d == q,
        (q * d + r) % d == r,
{
    lemma_fundamental_div_mod_converse(q * d + r, d, q, r);
}

/// An index into `frames * width` samples names a frame below `frames` and a
/// channel offset below `width`.
proof fn lemma_index_parts(k: int, frames: int, width: int)
    requires
        0 < width,
        0 <= k < frames * width,
    ensures
        0 <= k / width < frames,
        0 <= k % width < width,
        k == (k / width) * width + k % width,
{
    lemma_fundamental_div_mod(k, width);
    let q = k / width;
    assert(q * width == width * q) by (nonlinear_arith);
    assert(q >= 0) by (nonlinear_arith)
        requires
            k == q * width + k % width,
            0 <= k % width < width,
            0 <= k,
            0 < width,
    ;
    assert(q < frames) by (nonlinear_arith)
        requires
            k == q * width + k % width,
            0 <= k % width,
            k < frames * width,
            0 < width,
    ;
}

/// The samples of the frames below `frames` lie within the first
/// `frames * channels` samples.
proof fn lemma_sample_index(f: int, c: int, frames: int, channels: int)
    requires
        0 <= f < frames,
        0 <= c <= channels,
    ensures
        0 <= f * channels,
        f * channels + c <= frames * channels,
        (f + 1) * channels == f * channels + channels,
{
    assert(0 <= f * channels && f * channels + channels <= frames * channels && (f + 1) * channels
        == f * channels + channels) by (nonlinear_arith)
        requires
            0 <= f < frames,
            0 <= channels,
    ;
}

/// Fewer frames hold fewer samples.
proof fn lemma_frames_ordered(lo: int, hi: int, channels: int)
    requires
        0 <= lo <= hi,
        0 <= channels,
    ensures
        0 <= lo * channels <= hi * channels,
{
    assert(0 <= lo * channels <= hi * channels) by (nonlinear_arith)
        requires
            0 <= lo <= hi,
            0 <= channels,
    ;
}

/// The whole frames of `len` samples lie within them.
pub proof fn lemma_frames_fit(len: int, channels: int)
    requires
        0 <= len,
        0 < channels,
    ensures
        0 <= frame_count(len, channels),
        frame_count(len, channels) * channels <= len,
{
    lemma_fundamental_div_mod(len, channels);
    let q = len / channels;
    assert(q * channels == channels * q) by (nonlinear_arith);
    assert(q >= 0) by (nonlinear_arith)
        requires
            len == q * channels + len % channels,
            0 <= len % channels < channels,
            0 <= len,
    ;
}

/// Slicing one frame more appends the chosen channels of that frame.
pub proof fn lemma_slice_next_frame<T>(
    samples: Seq<T>,
    channels: int,
    ch: ChannelRange,
    lo: int,
    f: int,
)
    requires
        0 < channels,
        ch.start < ch.end <= channels,
        0 <= lo <= f,
        (f + 1) * channels <= samples.len(),
    ensures
        slice_frames(samples, channels, ch, lo, f + 1) == slice_frames(samples, channels, ch, lo, f)
            + samples.subrange(f * channels + ch.start, f * channels + ch.end),
{
    let w = ch.span();
    let head = slice_frames(samples, channels, ch, lo, f);
    let tail = samples.subrange(f * channels + ch.start, f * channels + ch.end);
    let whole = slice_frames(samples, channels, ch, lo, f + 1);
    lemma_sample_index(f, ch.end as int, f + 1, channels);
    assert((f + 1 - lo) * w == (f - lo) * w + w) by (nonlinear_arith);
    assert(0 <= (f - lo) * w) by (nonlinear_arith)
        requires
            0 <= f - lo,
            0 < w,
    ;
    assert(whole.len() == head.len() + tail.len());
    assert forall|k: int| 0 <= k < whole.len() implies whole[k] == (head + tail)[k] by {
        if k >= head.len() {
            let c = k - (f - lo) * w;
            lemma_split_index(f - lo, w, c);
        }
    }
    assert(whole =~= head + tail);
}

/// With every channel chosen, slicing keeps the samples as they stand:
/// the result is the stretch of the input from the first sample of frame
/// `lo` to the last sample of frame `hi - 1`.
pub proof fn lemma_slice_all_channels<T>(
    samples: Seq<T>,
    channels: int,
    ch: ChannelRange,
    lo: int,
    hi: int,
)
    requires
        0 < channels,
        ch.start == 0,
        ch.end == channels,
        0 <= lo <= hi,
        hi * channels <= samples.len(),
    ensures
        lo * channels <= hi * channels,
        slice_frames(samples, channels, ch, lo, hi) == samples.subrange(
            lo * channels,
            hi * channels,
        ),
{
    let sliced = slice_frames(samples, channels, ch, lo, hi);
    assert(lo * channels <= hi * channels && 0 <= lo * channels && (hi - lo) * channels == hi
        * channels - lo * channels) by (nonlinear_arith)
        requires
            0 <= lo <= hi,
            0 < channels,
    ;
    let kept = samples.subrange(lo * channels, hi * channels);
    assert(sliced.len() == kept.len());
    assert forall|k: int| 0 <= k < sliced.len() implies sliced[k] == kept[k] by {
        lemma_index_parts(k, hi - lo, channels);
        assert((lo + k / channels) * channels == lo * channels + (k / channels) * channels)
            by (nonlinear_arith);
    }
    assert(sliced =~= kept);
}

/// Appends to `out` the channels `ch` of those frames of a packet that lie
/// within `range`, in their order. `pos` is the absolute position of the
/// packet's first frame.
///
/// Returns whether the packet holds a frame at or after the end of the
/// range, in which case nothing after this packet belongs to the result.
pub fn collect_frames<T: Copy>(
    out: &mut Vec<T>,
    samples: &[T],
    channels: usize,
    ch: ChannelRange,
    range: FrameRange,
    pos: u64,
) -> (reached_end: bool)
    requires
        ch.fits(channels),
        range.wf(),
    ensures
        final(out)@ == old(out)@ + slice_frames(
            samples@,
            channels as int,
            ch,
            window_start(range, pos as int, frame_count(samples@.len() as int, channels as int)),
            window_end(range, pos as int, frame_count(samples@.len() as int, channels as int)),
        ),
        reached_end == reaches_end(
            range,
            pos as int,
            frame_count(samples@.len() as int, channels as int),
        ),
{
    let frames: usize = samples.len() / channels;
    let lo: usize = offset_in_packet(range.start_frame, pos, frames);
    let (hi, reached_end): (usize, bool) = match range.end_frame {
        Some(end) => {
            let hi = offset_in_packet(end, pos, frames);
            (hi, hi < frames)
        },
        None => (frames, false),
    };
    proof {
        lemma_frames_fit(samples@.len() as int, channels as int);
        lemma_frames_ordered(hi as int, frames as int, channels as int);
    }
    if ch.start == 0 && ch.end == channels {
        copy_whole_frames(out, samples, channels, ch, lo, hi);
    } else {
        copy_sliced_frames(out, samples, channels, ch, lo, hi);
    }
    reached_end
}

/// The index within a packet of the frame at absolute position `target`,
/// held to the packet's extent.
fn offset_in_packet(target: u64, pos: u64, frames: usize) -> (offset: usize)
    ensures
        offset as int == clamp(target - pos, frames as int),
{
    if target <= pos {
        0
    } else if target - pos >= frames as u64 {
        frames
    } else {
        (target - pos) as usize
    }
}

/// Appends the frames `lo`, .., `hi - 1` with all their channels.
fn copy_whole_frames<T: Copy>(
    out: &mut Vec<T>,
    samples: &[T],
    channels: usize,
    ch: ChannelRange,
    lo: usize,
    hi: usize,
)
    requires
        0 < channels,
        ch.is_full(channels),
        lo <= hi,
        hi * channels <= samples@.len(),
    ensures
        final(out)@ == old(out)@ + slice_frames(samples@, channels as int, ch, lo as int, hi as int),
{
    proof {
        lemma_slice_all_channels(samples@, channels as int, ch, lo as int, hi as int);
        lemma_frames_ordered(lo as int, hi as int, channels as int);
    }
    let len: usize = samples.len();
    let first: usize = lo * channels;
    let last: usize = hi * channels;
    let mut i: usize = first;
    while i < last
        invariant
            first <= i <= last <= len == samples@.len(),
            out@ == old(out)@ + samples@.subrange(first as int, i as int),
        decreases last - i,
    {
        out.push(samples[i]);
        i += 1;
        assert(samples@.subrange(first as int, i as int) =~= samples@.subrange(
            first as int,
            i - 1,
        ).push(samples@[i - 1]));
    }
}

/// Appends the channels `ch` of the frames `lo`, .., `hi - 1`.
fn copy_sliced_frames<T: Copy>(
    out: &mut Vec<T>,
    samples: &[T],
    channels: usize,
    ch: ChannelRange,
    lo: usize,
    hi: usize,
)
    requires
        ch.fits(channels),
        lo <= hi,
        hi * channels <= samples@.len(),
    ensures
        final(out)@ == old(out)@ + slice_frames(samples@, channels as int, ch, lo as int, hi as int),
{
    let len: usize = samples.len();
    let mut f: usize = lo;
    assert(slice_frames(samples@, channels as int, ch, lo as int, lo as int) =~= Seq::<T>::empty());
    while f < hi
        invariant
            ch.fits(channels),
            lo <= f <= hi,
            hi * channels <= len == samples@.len(),
            out@ == old(out)@ + slice_frames(samples@, channels as int, ch, lo as int, f as int),
        decreases hi - f,
    {
        proof {
            lemma_sample_index(f as int, channels as int, hi as int, channels as int);
            lemma_slice_next_frame(samples@, channels as int, ch, lo as int, f as int);
        }
        let base: usize = f * channels;
        let frame = slice_subrange(samples, base, base + channels);
        assert(frame@.subrange(ch.start as int, ch.end as int) =~= samples@.subrange(
            base + ch.start,
            base + ch.end,
        ));
        slice_frame(out, frame, ch);
        f += 1;
    }
}

} // verus!
