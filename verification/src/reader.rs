//! One extraction: the state that is kept while packets are decoded, and
//! what each packet does to it.

use crate::channels::{checked_channels, resolve_channels, ChannelRange};
use crate::collect::{
    collect_frames, frame_count, lemma_frames_fit, reaches_end, slice_frames, window_end,
    window_start,
};
use crate::error::AudioReadError;
use crate::position::{position_at, PositionTracker};
use crate::range::{resolve_range, resolved_range, FrameRange, Start, Stop};
use crate::stream::{plan_seek, seek_target, StreamSpec};
use vstd::arithmetic::div_mod::lemma_fundamental_div_mod;
use vstd::arithmetic::div_mod::lemma_fundamental_div_mod_converse;
use vstd::prelude::*;

verus! {

/// What to read of a file.
#[derive(Debug, Clone, Copy, Default)]
pub struct AudioReadConfig {
    /// Where to start reading (time or frame).
    pub start: Start,
    /// Where to stop reading (time or frame).
    pub stop: Stop,
    /// First channel to extract, counted from 0. `None` means channel 0.
    pub first_channel: Option<usize>,
    /// The channel after the last one to extract. `None` means all the rest.
    pub last_channel: Option<usize>,
}

/// The samples that an extraction produced.
#[derive(Debug, Default)]
pub struct AudioData<T> {
    /// All channels of frame 0, then all channels of frame 1, and so on.
    pub interleaved_samples: Vec<T>,
    /// Frames per second.
    pub sample_rate: u32,
    /// The number of channels that were extracted.
    pub num_channels: usize,
    /// The number of frames that were extracted.
    pub num_frames: usize,
}

impl<T> AudioData<T> {
    /// There is one sample for each channel of each frame.
    pub open spec fn wf(&self) -> bool {
        self.interleaved_samples@.len() == self.num_frames * self.num_channels
    }
}

/// The channels of a stream and those of them that are extracted.
#[derive(Debug, Clone, Copy, PartialEq, Eq, Structural)]
pub struct ChannelLayout {
    /// The number of channels in each decoded frame.
    pub total: usize,
    /// The channels that are extracted.
    pub chosen: ChannelRange,
}

/// What the caller of an extraction does next.
#[derive(Debug, Clone, Copy, PartialEq, Eq, Structural)]
pub enum Action {
    /// Decode the next packet and hand it over.
    Continue,
    /// Stop decoding: the end of the range was reached.
    Finish,
}

/// The state of an extraction, as contracts see it.
pub struct ExtractionState<T> {
    /// The stream that is read.
    pub stream: StreamSpec,
    /// The frames that are asked for.
    pub range: FrameRange,
    /// The first channel that is asked for.
    pub first_channel: Option<usize>,
    /// The channel after the last one that is asked for.
    pub last_channel: Option<usize>,
    /// The channels of the stream, once a packet has shown them.
    pub layout: Option<ChannelLayout>,
    /// Where the decoder stands.
    pub tracker: PositionTracker,
    /// The samples that were collected so far.
    pub samples: Seq<T>,
    /// Whether a frame at or after the end of the range has been seen.
    pub done: bool,
}

impl<T> ExtractionState<T> {
    /// The state before the first packet.
    pub open spec fn fresh(
        stream: StreamSpec,
        range: FrameRange,
        first_channel: Option<usize>,
        last_channel: Option<usize>,
    ) -> Self {
        ExtractionState {
            stream,
            range,
            first_channel,
            last_channel,
            layout: None,
            tracker: PositionTracker { position: None },
            samples: Seq::empty(),
            done: false,
        }
    }

    /// What holds of every state of an extraction: stream and range are
    /// valid; once the channels are known, the chosen ones are those that
    /// were asked for, and the samples make up whole frames of them; until
    /// then nothing has happened.
    pub open spec fn wf(self) -> bool {
        &&& self.stream.wf()
        &&& self.range.wf()
        &&& match self.layout {
            Some(layout) => {
                &&& checked_channels(self.first_channel, self.last_channel, layout.total) == Ok::<
                    _,
                    AudioReadError,
                >(layout.chosen)
                &&& self.samples.len() % layout.chosen.span() as nat == 0
            },
            None => self.samples.len() == 0 && self.tracker.position is None && !self.done,
        }
    }

    /// The channel layout with which a packet of `channels` channels is
    /// read: the one that is known, else the one that this packet shows, or
    /// the error for a requested channel range that does not fit it.
    pub open spec fn layout_for(self, channels: usize) -> Result<ChannelLayout, AudioReadError> {
        match self.layout {
            Some(layout) => Ok(layout),
            None => match checked_channels(self.first_channel, self.last_channel, channels) {
                Ok(chosen) => Ok(ChannelLayout { total: channels, chosen }),
                Err(e) => Err(e),
            },
        }
    }

    /// The state after a packet with timestamp `ts` and the interleaved
    /// `samples` of `channels` channels.
    ///
    /// Nothing changes once the end of the range has been seen, or where the
    /// requested channels do not fit. Else the frames of the packet that lie
    /// in the range are appended, with the chosen channels of each, and the
    /// position moves on by the number of frames in the packet.
    pub open spec fn after_packet(self, ts: u64, channels: usize, samples: Seq<T>) -> Self {
        if self.done || self.layout_for(channels) is Err {
            self
        } else {
            let layout = self.layout_for(channels)->Ok_0;
            let pos = self.tracker.position_for(ts, self.stream);
            let frames = frame_count(samples.len() as int, layout.total as int);
            ExtractionState {
                layout: Some(layout),
                tracker: PositionTracker { position: Some(pos as u64) }.advanced(frames),
                samples: self.samples + slice_frames(
                    samples,
                    layout.total as int,
                    layout.chosen,
                    window_start(self.range, pos, frames),
                    window_end(self.range, pos, frames),
                ),
                done: reaches_end(self.range, pos, frames),
                ..self
            }
        }
    }

    /// The state after the decoder asked for a reset: the position is
    /// unknown again, and the next packet's timestamp gives it anew.
    pub open spec fn after_reset(self) -> Self {
        ExtractionState { tracker: PositionTracker { position: None }, ..self }
    }

    /// The number of channels in the result: 0 while no packet has shown
    /// the channels of the stream.
    pub open spec fn num_channels(self) -> int {
        match self.layout {
            Some(layout) => layout.chosen.span(),
            None => 0,
        }
    }

    /// The number of frames in the result.
    pub open spec fn num_frames(self) -> int {
        match self.layout {
            Some(layout) => self.samples.len() as int / layout.chosen.span(),
            None => 0,
        }
    }
}

/// After a reset the position is found as at the start: the next packet is
/// placed by its own timestamp, whatever the position was before, and what
/// was collected stays.
pub proof fn lemma_reset_resynchronizes<T>(
    state: ExtractionState<T>,
    ts: u64,
    channels: usize,
    samples: Seq<T>,
)
    requires
        state.wf(),
        state.layout is Some,
        !state.done,
    ensures
        ({
            let layout = state.layout->0;
            let pos = position_at(ts, state.stream);
            let frames = frame_count(samples.len() as int, layout.total as int);
            let next = state.after_reset().after_packet(ts, channels, samples);
            &&& state.after_reset().wf()
            &&& state.after_reset().samples == state.samples
            &&& next.samples == state.samples + slice_frames(
                samples,
                layout.total as int,
                layout.chosen,
                window_start(state.range, pos, frames),
                window_end(state.range, pos, frames),
            )
            &&& next.done == reaches_end(state.range, pos, frames)
        }),
{
}

/// An extraction in progress.
///
/// The caller decodes; the extraction decides. After `new`, the caller seeks
/// to the `seek_target` if there is one and the reader can, then hands over
/// each decoded packet of the track with `on_packet` until that returns
/// `Action::Finish` or the stream ends, reports each reset that the reader
/// asks for with `on_reset`, and takes the result with `finish`.
pub struct Extraction<T> {
    stream: StreamSpec,
    range: FrameRange,
    first_channel: Option<usize>,
    last_channel: Option<usize>,
    layout: Option<ChannelLayout>,
    tracker: PositionTracker,
    samples: Vec<T>,
    done: bool,
}

impl<T> View for Extraction<T> {
    type V = ExtractionState<T>;

    closed spec fn view(&self) -> ExtractionState<T> {
        ExtractionState {
            stream: self.stream,
            range: self.range,
            first_channel: self.first_channel,
            last_channel: self.last_channel,
            layout: self.layout,
            tracker: self.tracker,
            samples: self.samples@,
            done: self.done,
        }
    }
}

/// Adding whole frames to whole frames leaves whole frames.
proof fn lemma_whole_frames(len: int, frames: int, width: int)
    requires
        0 < width,
        0 <= len,
        0 <= frames,
        len % width == 0,
    ensures
        (len + frames * width) % width == 0,
        0 <= frames * width,
{
    lemma_fundamental_div_mod(len, width);
    let q = len / width;
    assert((q + frames) * width == width * q + frames * width) by (nonlinear_arith);
    assert(0 <= frames * width) by (nonlinear_arith)
        requires
            0 <= frames,
            0 < width,
    ;
    lemma_fundamental_div_mod_converse(len + frames * width, width, q + frames, 0);
}

impl<T: Copy> Extraction<T> {
    /// Starts an extraction of the range and channels that `config` names
    /// from the stream `stream`.
    ///
    /// Fails, before anything is decoded, exactly when the stop position
    /// lies before the start position.
    pub fn new(stream: StreamSpec, config: AudioReadConfig) -> (started: Result<
        Self,
        AudioReadError,
    >)
        requires
            stream.wf(),
        ensures
            match started {
                Ok(extraction) => {
                    &&& resolved_range(config.start, config.stop, stream.sample_rate) is Ok
                    &&& extraction@ == ExtractionState::<T>::fresh(
                        stream,
                        resolved_range(config.start, config.stop, stream.sample_rate)->Ok_0,
                        config.first_channel,
                        config.last_channel,
                    )
                    &&& extraction@.wf()
                },
                Err(e) => resolved_range(config.start, config.stop, stream.sample_rate) == Err::<
                    FrameRange,
                    _,
                >(e),
            },
    {
        match resolve_range(config.start, config.stop, stream.sample_rate) {
            Err(e) => Err(e),
            Ok(range) => Ok(
                Extraction {
                    stream,
                    range,
                    first_channel: config.first_channel,
                    last_channel: config.last_channel,
                    layout: None,
                    tracker: PositionTracker::new(),
                    samples: Vec::new(),
                    done: false,
                },
            ),
        }
    }

    /// The track whose packets belong to this extraction.
    pub fn track_id(&self) -> (id: u32)
        ensures
            id == self@.stream.track_id,
    {
        self.stream.track_id
    }

    /// The timestamp to seek to before the first packet is decoded, if a
    /// seek is worth it. The extraction is the same whether the seek is
    /// made, fails or is left out.
    pub fn seek_target(&self) -> (target: Option<u64>)
        requires
            self@.wf(),
        ensures
            seek_target(self@.range.start_frame, self@.stream) == match target {
                Some(ts) => Some(ts as int),
                None => None,
            },
    {
        plan_seek(self.range.start_frame, &self.stream)
    }

    /// Takes a decoded packet: its timestamp, the number of channels of its
    /// frames, and its interleaved samples.
    ///
    /// The first packet fixes the channels of the stream; the requested
    /// channel range is checked against them then, and never again. Where
    /// it does not fit, the error is returned and the extraction is left as
    /// it was.
    pub fn on_packet(&mut self, ts: u64, channels: usize, samples: &[T]) -> (next: Result<
        Action,
        AudioReadError,
    >)
        requires
            old(self)@.wf(),
        ensures
            final(self)@.wf(),
            final(self)@ == old(self)@.after_packet(ts, channels, samples@),
            match next {
                Ok(action) => {
                    &&& old(self)@.layout_for(channels) is Ok
                    &&& action == if final(self)@.done {
                        Action::Finish
                    } else {
                        Action::Continue
                    }
                },
                Err(e) => old(self)@.layout_for(channels) == Err::<ChannelLayout, _>(e),
            },
    {
        let layout = match self.layout {
            Some(layout) => layout,
            None => match resolve_channels(self.first_channel, self.last_channel, channels) {
                Ok(chosen) => ChannelLayout { total: channels, chosen },
                Err(e) => {
                    return Err(e);
                },
            },
        };
        if self.done {
            return Ok(Action::Finish);
        }
        let pos = self.tracker.locate(ts, &self.stream);
        let frames: usize = samples.len() / layout.total;
        let ghost lo = window_start(self.range, pos as int, frames as int);
        let ghost hi = window_end(self.range, pos as int, frames as int);
        proof {
            lemma_frames_fit(samples@.len() as int, layout.total as int);
            lemma_whole_frames(self.samples@.len() as int, hi - lo, layout.chosen.span());
        }
        let reached_end = collect_frames(
            &mut self.samples,
            samples,
            layout.total,
            layout.chosen,
            self.range,
            pos,
        );
        self.layout = Some(layout);
        self.tracker.advance(frames);
        self.done = reached_end;
        if reached_end {
            Ok(Action::Finish)
        } else {
            Ok(Action::Continue)
        }
    }

    /// Takes note that the decoder was reset: the position of the next
    /// packet is taken from its timestamp.
    pub fn on_reset(&mut self)
        requires
            old(self)@.wf(),
        ensures
            final(self)@.wf(),
            final(self)@ == old(self)@.after_reset(),
    {
        self.tracker.reset();
    }

    /// Ends the extraction and hands out what was collected, whether the
    /// end of the range was reached or the stream ended before it.
    pub fn finish(self) -> (data: AudioData<T>)
        requires
            self@.wf(),
        ensures
            data.wf(),
            data.interleaved_samples@ == self@.samples,
            data.sample_rate == self@.stream.sample_rate,
            data.num_channels == self@.num_channels(),
            data.num_frames == self@.num_frames(),
    {
        let (num_channels, num_frames): (usize, usize) = match self.layout {
            Some(layout) => {
                let width = layout.chosen.width();
                proof {
                    lemma_fundamental_div_mod(self.samples@.len() as int, width as int);
                    assert(width * (self.samples@.len() as int / width as int) == (
                    self.samples@.len() as int / width as int) * width) by (nonlinear_arith);
                }
                (width, self.samples.len() / width)
            },
            None => (0, 0),
        };
        AudioData {
            interleaved_samples: self.samples,
            sample_rate: self.stream.sample_rate,
            num_channels,
            num_frames,
        }
    }
}

} // verus!
