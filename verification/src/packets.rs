//! Streams as runs of packets: what an extraction collects from a whole
//! stream, however the stream is cut into packets.

use crate::channels::{checked_channels, ChannelRange};
use crate::collect::{
    clamp, lemma_slice_all_channels, lemma_slice_next_frame, reaches_end, slice_frames, window_end,
    window_start,
};
use crate::range::FrameRange;
use crate::position::position_at;
use crate::reader::{ChannelLayout, ExtractionState};
use crate::stream::{saturated, StreamSpec};
use vstd::arithmetic::div_mod::lemma_fundamental_div_mod_converse;
use vstd::prelude::*;

verus! {

/// A decoded packet: its timestamp and its interleaved samples.
pub struct Packet<T> {
    pub ts: u64,
    pub samples: Seq<T>,
}

/// The samples of all packets, one packet after the other.
pub open spec fn joined<T>(packets: Seq<Packet<T>>) -> Seq<T>
    decreases packets.len(),
{
    if packets.len() == 0 {
        Seq::empty()
    } else {
        joined(packets.drop_last()) + packets.last().samples
    }
}

/// Every packet holds whole frames of `channels` channels, and no sample
/// beyond them.
pub open spec fn whole_frames<T>(packets: Seq<Packet<T>>, channels: int) -> bool {
    forall|i: int|
        0 <= i < packets.len() ==> (#[trigger] packets[i]).samples.len() as int % channels == 0
}

/// The number of frames in all packets together.
pub open spec fn frames_in<T>(packets: Seq<Packet<T>>, channels: int) -> int
    decreases packets.len(),
{
    if packets.len() == 0 {
        0
    } else {
        frames_in(packets.drop_last(), channels) + packets.last().samples.len() as int / channels
    }
}

/// The state of an extraction after it has taken `packets` in their order,
/// each with `channels` channels.
pub open spec fn after_packets<T>(
    state: ExtractionState<T>,
    packets: Seq<Packet<T>>,
    channels: usize,
) -> ExtractionState<T>
    decreases packets.len(),
{
    if packets.len() == 0 {
        state
    } else {
        after_packets(state, packets.drop_last(), channels).after_packet(
            packets.last().ts,
            channels,
            packets.last().samples,
        )
    }
}

/// The samples of packets of whole frames are those of all their frames.
pub proof fn lemma_joined_len<T>(packets: Seq<Packet<T>>, channels: int)
    requires
        0 < channels,
        whole_frames(packets, channels),
    ensures
        0 <= frames_in(packets, channels),
        joined(packets).len() == frames_in(packets, channels) * channels,
    decreases packets.len(),
{
    if packets.len() > 0 {
        let front = packets.drop_last();
        assert forall|i: int| 0 <= i < front.len() implies (#[trigger] front[i]).samples.len() as int
            % channels == 0 by {
            assert(front[i] == packets[i]);
        }
        lemma_joined_len(front, channels);
        let len = packets.last().samples.len() as int;
        let n = len / channels;
        let before = frames_in(front, channels);
        assert(packets[packets.len() - 1].samples.len() as int % channels == 0);
        assert(len == n * channels && 0 <= n && (before + n) * channels == before * channels + n
            * channels) by (nonlinear_arith)
            requires
                len % channels == 0,
                n == len / channels,
                0 <= len,
                0 < channels,
        ;
    }
}

/// Slicing frames out of two stretches of samples set end to end gives the
/// frames sliced out of the first, then those sliced out of the second.
pub proof fn lemma_slice_joined<T>(
    first: Seq<T>,
    second: Seq<T>,
    channels: int,
    ch: ChannelRange,
    first_frames: int,
    second_frames: int,
    lo: int,
    hi: int,
)
    requires
        0 < channels,
        ch.start < ch.end <= channels,
        0 <= first_frames,
        0 <= second_frames,
        first.len() == first_frames * channels,
        second.len() == second_frames * channels,
        0 <= lo <= hi <= first_frames + second_frames,
    ensures
        slice_frames(first + second, channels, ch, lo, hi) == slice_frames(
            first,
            channels,
            ch,
            clamp(lo, first_frames),
            clamp(hi, first_frames),
        ) + slice_frames(
            second,
            channels,
            ch,
            clamp(lo - first_frames, second_frames),
            clamp(hi - first_frames, second_frames),
        ),
    decreases hi - lo,
{
    let both = first + second;
    let whole = slice_frames(both, channels, ch, lo, hi);
    let head = slice_frames(first, channels, ch, clamp(lo, first_frames), clamp(hi, first_frames));
    let tail = slice_frames(
        second,
        channels,
        ch,
        clamp(lo - first_frames, second_frames),
        clamp(hi - first_frames, second_frames),
    );
    if hi == lo {
        assert(whole =~= head + tail);
    } else {
        let f = hi - 1;
        lemma_slice_joined(first, second, channels, ch, first_frames, second_frames, lo, f);
        assert(hi * channels <= (first_frames + second_frames) * channels && (first_frames
            + second_frames) * channels == first_frames * channels + second_frames * channels && 0
            <= f * channels && hi * channels == f * channels + channels) by (nonlinear_arith)
            requires
                0 <= f,
                hi == f + 1,
                hi <= first_frames + second_frames,
                0 < channels,
        ;
        lemma_slice_next_frame(both, channels, ch, lo, f);
        let frame = both.subrange(f * channels + ch.start, f * channels + ch.end);
        let head_before = slice_frames(
            first,
            channels,
            ch,
            clamp(lo, first_frames),
            clamp(f, first_frames),
        );
        let tail_before = slice_frames(
            second,
            channels,
            ch,
            clamp(lo - first_frames, second_frames),
            clamp(f - first_frames, second_frames),
        );
        assert(whole == (head_before + tail_before) + frame);
        if f < first_frames {
            assert(hi * channels <= first_frames * channels) by (nonlinear_arith)
                requires
                    hi <= first_frames,
                    0 < channels,
            ;
            lemma_slice_next_frame(first, channels, ch, lo, f);
            assert(frame =~= first.subrange(f * channels + ch.start, f * channels + ch.end));
            assert(tail_before =~= Seq::<T>::empty());
            assert(tail =~= Seq::<T>::empty());
            assert(whole =~= head + tail);
        } else {
            let g = f - first_frames;
            let from = clamp(lo - first_frames, second_frames);
            assert((g + 1) * channels <= second_frames * channels && f * channels == first_frames
                * channels + g * channels && 0 <= g * channels) by (nonlinear_arith)
                requires
                    0 <= g,
                    g + 1 <= second_frames,
                    f == first_frames + g,
                    0 < channels,
            ;
            lemma_slice_next_frame(second, channels, ch, from, g);
            assert(frame =~= second.subrange(g * channels + ch.start, g * channels + ch.end));
            assert(head == head_before);
            assert(tail == tail_before + frame);
            assert(whole =~= head + tail);
        }
    }
}

/// What an extraction holds after a run of packets, in terms of the stream
/// that the packets make up.
proof fn lemma_run<T>(
    stream: StreamSpec,
    range: FrameRange,
    first_channel: Option<usize>,
    last_channel: Option<usize>,
    channels: usize,
    packets: Seq<Packet<T>>,
)
    requires
        stream.wf(),
        range.wf(),
        checked_channels(first_channel, last_channel, channels) is Ok,
        packets.len() > 0,
        whole_frames(packets, channels as int),
    ensures
        ({
            let end = after_packets(
                ExtractionState::<T>::fresh(stream, range, first_channel, last_channel),
                packets,
                channels,
            );
            let chosen = checked_channels(first_channel, last_channel, channels)->Ok_0;
            let pos = position_at(packets[0].ts, stream);
            let frames = frames_in(packets, channels as int);
            &&& end.stream == stream
            &&& end.range == range
            &&& end.first_channel == first_channel
            &&& end.last_channel == last_channel
            &&& end.layout == Some(ChannelLayout { total: channels, chosen })
            &&& end.done == reaches_end(range, pos, frames)
            &&& !end.done ==> end.tracker.position == Some(saturated(pos + frames) as u64)
            &&& end.samples == slice_frames(
                joined(packets),
                channels as int,
                chosen,
                window_start(range, pos, frames),
                window_end(range, pos, frames),
            )
        }),
    decreases packets.len(),
{
    let start = ExtractionState::<T>::fresh(stream, range, first_channel, last_channel);
    let chosen = checked_channels(first_channel, last_channel, channels)->Ok_0;
    let pos = position_at(packets[0].ts, stream);
    let front = packets.drop_last();
    let last = packets.last();
    let n = last.samples.len() as int / channels as int;
    assert(packets[packets.len() - 1].samples.len() as int % channels as int == 0);
    assert(last.samples.len() == n * channels && 0 <= n) by (nonlinear_arith)
        requires
            last.samples.len() as int % channels as int == 0,
            n == last.samples.len() as int / channels as int,
            0 < channels,
    ;
    assert forall|i: int| 0 <= i < front.len() implies (#[trigger] front[i]).samples.len() as int
        % channels as int == 0 by {
        assert(front[i] == packets[i]);
    }
    lemma_joined_len(front, channels as int);
    let before = frames_in(front, channels as int);
    let frames = before + n;
    let lo = window_start(range, pos, frames);
    let hi = window_end(range, pos, frames);
    lemma_slice_joined(
        joined(front),
        last.samples,
        channels as int,
        chosen,
        before,
        n,
        lo,
        hi,
    );
    if front.len() == 0 {
        assert(after_packets(start, front, channels) == start);
        assert(joined(front) =~= Seq::<T>::empty());
        assert(slice_frames(joined(front), channels as int, chosen, clamp(lo, before), clamp(hi, before))
            =~= Seq::<T>::empty());
        assert(start.samples + slice_frames(last.samples, channels as int, chosen, lo, hi)
            =~= slice_frames(joined(packets), channels as int, chosen, lo, hi));
    } else {
        lemma_run(stream, range, first_channel, last_channel, channels, front);
        assert(front[0] == packets[0]);
    }
}

/// An extraction collects the frames of the stream whose positions lie in
/// the requested range, and of each the requested channels, whatever the
/// packets are into which the stream is cut.
///
/// The stream is what the packets hold, one after the other, each packet
/// whole frames of `channels` channels. Its first frame stands at the
/// position that the first packet's timestamp gives; the window of the
/// range is counted from there.
pub proof fn lemma_extraction_is_window<T>(
    stream: StreamSpec,
    range: FrameRange,
    first_channel: Option<usize>,
    last_channel: Option<usize>,
    channels: usize,
    packets: Seq<Packet<T>>,
)
    requires
        stream.wf(),
        range.wf(),
        checked_channels(first_channel, last_channel, channels) is Ok,
        packets.len() > 0,
        whole_frames(packets, channels as int),
    ensures
        ({
            let end = after_packets(
                ExtractionState::<T>::fresh(stream, range, first_channel, last_channel),
                packets,
                channels,
            );
            let chosen = checked_channels(first_channel, last_channel, channels)->Ok_0;
            let pos = position_at(packets[0].ts, stream);
            let frames = frames_in(packets, channels as int);
            &&& end.num_channels() == chosen.span()
            &&& end.done == reaches_end(range, pos, frames)
            &&& end.samples == slice_frames(
                joined(packets),
                channels as int,
                chosen,
                window_start(range, pos, frames),
                window_end(range, pos, frames),
            )
        }),
{
    lemma_run(stream, range, first_channel, last_channel, channels, packets);
}

/// A stream without packets gives an empty result: no samples, no frames,
/// and, since no packet has shown the channels of the stream, no channels.
pub proof fn lemma_empty_stream<T>(
    stream: StreamSpec,
    range: FrameRange,
    first_channel: Option<usize>,
    last_channel: Option<usize>,
    channels: usize,
)
    ensures
        ({
            let end = after_packets(
                ExtractionState::<T>::fresh(stream, range, first_channel, last_channel),
                Seq::<Packet<T>>::empty(),
                channels,
            );
            &&& end.samples.len() == 0
            &&& end.num_frames() == 0
            &&& end.num_channels() == 0
        }),
{
}

/// The number of frames in the result is exact: where the stream holds the
/// whole range, from its start frame up to its end frame, the result has as
/// many frames as the range, whatever the packets are into which the stream
/// is cut; and in every case it has one frame for each frame of the stream
/// that lies in the range.
pub proof fn lemma_frame_count_exact<T>(
    stream: StreamSpec,
    range: FrameRange,
    first_channel: Option<usize>,
    last_channel: Option<usize>,
    channels: usize,
    packets: Seq<Packet<T>>,
)
    requires
        stream.wf(),
        range.wf(),
        checked_channels(first_channel, last_channel, channels) is Ok,
        packets.len() > 0,
        whole_frames(packets, channels as int),
    ensures
        ({
            let end = after_packets(
                ExtractionState::<T>::fresh(stream, range, first_channel, last_channel),
                packets,
                channels,
            );
            let pos = position_at(packets[0].ts, stream);
            let frames = frames_in(packets, channels as int);
            &&& end.num_frames() == window_end(range, pos, frames) - window_start(
                range,
                pos,
                frames,
            )
            &&& end.samples.len() == end.num_frames() * end.num_channels()
            &&& range.end_frame is Some && pos <= range.start_frame && range.end_frame->0 <= pos
                + frames ==> end.num_frames() == range.end_frame->0 - range.start_frame
            &&& range.end_frame is None && pos <= range.start_frame <= pos + frames
                ==> end.num_frames() == pos + frames - range.start_frame
            &&& range.start_frame >= pos + frames ==> end.num_frames() == 0
        }),
{
    lemma_run(stream, range, first_channel, last_channel, channels, packets);
    lemma_joined_len(packets, channels as int);
    let chosen = checked_channels(first_channel, last_channel, channels)->Ok_0;
    let pos = position_at(packets[0].ts, stream);
    let frames = frames_in(packets, channels as int);
    let count = window_end(range, pos, frames) - window_start(range, pos, frames);
    assert(0 <= count * chosen.span()) by (nonlinear_arith)
        requires
            0 <= count,
            0 < chosen.span(),
    ;
    lemma_fundamental_div_mod_converse(count * chosen.span(), chosen.span(), count, 0);
    let end = after_packets(
        ExtractionState::<T>::fresh(stream, range, first_channel, last_channel),
        packets,
        channels,
    );
    assert(count == 0 ==> count * chosen.span() == 0) by (nonlinear_arith);
    assert(end.samples.len() == count * chosen.span());
}

/// Each sample of the result is the sample of the stream at the same frame
/// of the range and at the requested channel: the sample at channel offset
/// `offset` of frame `frame` of the result is the sample at channel
/// `chosen.start + offset` of the stream's frame `frame` of the window.
pub proof fn lemma_channel_offsets<T>(
    stream: StreamSpec,
    range: FrameRange,
    first_channel: Option<usize>,
    last_channel: Option<usize>,
    channels: usize,
    packets: Seq<Packet<T>>,
    frame: int,
    offset: int,
)
    requires
        stream.wf(),
        range.wf(),
        checked_channels(first_channel, last_channel, channels) is Ok,
        packets.len() > 0,
        whole_frames(packets, channels as int),
        0 <= frame < after_packets(
            ExtractionState::<T>::fresh(stream, range, first_channel, last_channel),
            packets,
            channels,
        ).num_frames(),
        0 <= offset < checked_channels(first_channel, last_channel, channels)->Ok_0.span(),
    ensures
        ({
            let end = after_packets(
                ExtractionState::<T>::fresh(stream, range, first_channel, last_channel),
                packets,
                channels,
            );
            let chosen = checked_channels(first_channel, last_channel, channels)->Ok_0;
            let pos = position_at(packets[0].ts, stream);
            let frames = frames_in(packets, channels as int);
            let source = window_start(range, pos, frames) + frame;
            &&& end.num_channels() == chosen.span()
            &&& 0 <= frame * chosen.span() + offset < end.samples.len()
            &&& 0 <= source * channels + chosen.start + offset < joined(packets).len()
            &&& end.samples[frame * chosen.span() + offset] == joined(packets)[source * channels
                + chosen.start + offset]
        }),
{
    lemma_run(stream, range, first_channel, last_channel, channels, packets);
    lemma_frame_count_exact(stream, range, first_channel, last_channel, channels, packets);
    lemma_joined_len(packets, channels as int);
    let chosen = checked_channels(first_channel, last_channel, channels)->Ok_0;
    let pos = position_at(packets[0].ts, stream);
    let frames = frames_in(packets, channels as int);
    let lo = window_start(range, pos, frames);
    let hi = window_end(range, pos, frames);
    let w = chosen.span();
    let k = frame * w + offset;
    lemma_fundamental_div_mod_converse(k, w, frame, offset);
    assert(0 <= frame * w && frame * w + w <= (hi - lo) * w) by (nonlinear_arith)
        requires
            0 <= frame < hi - lo,
            0 < w,
    ;
    let source = lo + frame;
    assert(0 <= source * channels && source * channels + channels <= frames * channels)
        by (nonlinear_arith)
        requires
            0 <= source < frames,
            0 < channels,
    ;
}

/// Asking for every channel is the same as not choosing channels at all:
/// the result is the stretch of the stream from the first frame of the
/// range to its last, sample for sample.
pub proof fn lemma_full_range_unfiltered<T>(
    stream: StreamSpec,
    range: FrameRange,
    first_channel: Option<usize>,
    last_channel: Option<usize>,
    channels: usize,
    packets: Seq<Packet<T>>,
)
    requires
        stream.wf(),
        range.wf(),
        checked_channels(first_channel, last_channel, channels) is Ok,
        checked_channels(first_channel, last_channel, channels)->Ok_0.is_full(channels),
        packets.len() > 0,
        whole_frames(packets, channels as int),
    ensures
        ({
            let pos = position_at(packets[0].ts, stream);
            let frames = frames_in(packets, channels as int);
            let filtered = after_packets(
                ExtractionState::<T>::fresh(stream, range, first_channel, last_channel),
                packets,
                channels,
            );
            let plain = after_packets(
                ExtractionState::<T>::fresh(stream, range, None, None),
                packets,
                channels,
            );
            &&& filtered.samples == plain.samples
            &&& filtered.num_channels() == plain.num_channels() == channels
            &&& filtered.samples == joined(packets).subrange(
                window_start(range, pos, frames) * channels,
                window_end(range, pos, frames) * channels,
            )
        }),
{
    lemma_run(stream, range, first_channel, last_channel, channels, packets);
    lemma_run(stream, range, None, None, channels, packets);
    lemma_joined_len(packets, channels as int);
    let chosen = checked_channels(first_channel, last_channel, channels)->Ok_0;
    let pos = position_at(packets[0].ts, stream);
    let frames = frames_in(packets, channels as int);
    let lo = window_start(range, pos, frames);
    let hi = window_end(range, pos, frames);
    assert(hi * channels <= frames * channels) by (nonlinear_arith)
        requires
            hi <= frames,
            0 < channels,
    ;
    lemma_slice_all_channels(joined(packets), channels as int, chosen, lo, hi);
}

} // verus!
