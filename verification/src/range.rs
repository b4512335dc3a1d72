//! Start and stop positions, and their resolution to frame indices.

use crate::error::AudioReadError;
use std::time::Duration;
use vstd::prelude::*;

verus! {

/// The whole seconds that a `Duration` holds, as `Duration::as_secs` reports them.
pub uninterp spec fn duration_secs(d: Duration) -> u64;

/// The part of a `Duration` below one second, in nanoseconds, as
/// `Duration::subsec_nanos` reports it.
pub uninterp spec fn duration_subsec_nanos(d: Duration) -> u32;

/// `Duration::as_secs`: the number of whole seconds in the duration. Nothing
/// more is claimed than that the call returns that number.
pub assume_specification[ Duration::as_secs ](d: &Duration) -> (secs: u64)
    ensures
        secs == duration_secs(*d),
;

/// `Duration::subsec_nanos`: the part of the duration below one second, in
/// nanoseconds. Nothing more is claimed than that the call returns that
/// number.
pub assume_specification[ Duration::subsec_nanos ](d: &Duration) -> (nanos: u32)
    ensures
        nanos == duration_subsec_nanos(*d),
;

/// Starting position in the audio stream.
#[derive(Debug, Clone, Copy, Default)]
pub enum Start {
    /// Start from the beginning of the audio.
    #[default]
    Beginning,
    /// Start at a time offset.
    Time(Duration),
    /// Start at a frame index.
    Frame(usize),
}

/// Ending position in the audio stream.
#[derive(Debug, Clone, Copy, Default)]
pub enum Stop {
    /// Read until the end of the audio.
    #[default]
    End,
    /// Stop at a time offset.
    Time(Duration),
    /// Stop before a frame index.
    Frame(usize),
}

/// A range of frames: from `start_frame`, up to but without `end_frame`, or
/// to the end of the stream where there is none.
#[derive(Debug, Clone, Copy, PartialEq, Eq, Structural)]
pub struct FrameRange {
    pub start_frame: u64,
    pub end_frame: Option<u64>,
}

impl FrameRange {
    /// The end is not before the start.
    pub open spec fn wf(&self) -> bool {
        self.end_frame is Some ==> self.start_frame <= self.end_frame->0
    }

    /// Whether the frame at absolute position `pos` belongs to the range.
    pub open spec fn holds(&self, pos: int) -> bool {
        self.start_frame <= pos && (self.end_frame is Some ==> pos < self.end_frame->0)
    }
}

/// The frame that is current `secs` seconds and `nanos` nanoseconds into a
/// stream of `sample_rate` frames per second: the product of time and rate,
/// rounded down, and no more than `usize::MAX`.
pub open spec fn frame_at_time(secs: u64, nanos: u32, sample_rate: u32) -> int {
    let exact = (secs as int * 1_000_000_000 + nanos as int) * sample_rate as int / 1_000_000_000;
    if exact > usize::MAX as int {
        usize::MAX as int
    } else {
        exact
    }
}

/// The frame index of a start position.
pub open spec fn start_frame_of(start: Start, sample_rate: u32) -> usize {
    match start {
        Start::Beginning => 0,
        Start::Time(d) => frame_at_time(
            duration_secs(d),
            duration_subsec_nanos(d),
            sample_rate,
        ) as usize,
        Start::Frame(f) => f,
    }
}

/// The frame index of a stop position, `None` for the end of the stream.
pub open spec fn end_frame_of(stop: Stop, sample_rate: u32) -> Option<usize> {
    match stop {
        Stop::End => None,
        Stop::Time(d) => Some(
            frame_at_time(duration_secs(d), duration_subsec_nanos(d), sample_rate) as usize,
        ),
        Stop::Frame(f) => Some(f),
    }
}

/// The range of frames between a start and a stop position, or the error
/// for a stop position that lies before the start position.
pub open spec fn resolved_range(start: Start, stop: Stop, sample_rate: u32) -> Result<
    FrameRange,
    AudioReadError,
> {
    let start_frame = start_frame_of(start, sample_rate);
    match end_frame_of(stop, sample_rate) {
        None => Ok(FrameRange { start_frame: start_frame as u64, end_frame: None }),
        Some(end_frame) => if end_frame < start_frame {
            Err(AudioReadError::EndFrameLargerThanStartFrame(end_frame, start_frame))
        } else {
            Ok(FrameRange { start_frame: start_frame as u64, end_frame: Some(end_frame as u64) })
        },
    }
}

/// Converts a time offset into a frame index.
pub fn time_to_frame(secs: u64, nanos: u32, sample_rate: u32) -> (frame: usize)
    ensures
        frame as int == frame_at_time(secs, nanos, sample_rate),
{
    let billion: u128 = 1_000_000_000;
    assert(secs as int * 1_000_000_000 <= 0xffff_ffff_ffff_ffff * 1_000_000_000) by (nonlinear_arith)
        requires
            secs <= 0xffff_ffff_ffff_ffff,
    ;
    let total_nanos: u128 = secs as u128 * billion + nanos as u128;
    assert(total_nanos as int * sample_rate as int <= 18_446_744_078_000_000_000_000_000_000
        * 0xffff_ffff) by (nonlinear_arith)
        requires
            total_nanos <= 18_446_744_078_000_000_000_000_000_000,
            sample_rate <= 0xffff_ffff,
    ;
    let exact: u128 = total_nanos * (sample_rate as u128) / billion;
    if exact > usize::MAX as u128 {
        usize::MAX
    } else {
        exact as usize
    }
}

/// The frame index of a start position at the given sample rate.
pub fn resolve_start(start: Start, sample_rate: u32) -> (frame: usize)
    ensures
        frame == start_frame_of(start, sample_rate),
{
    match start {
        Start::Beginning => 0,
        Start::Time(d) => time_to_frame(d.as_secs(), d.subsec_nanos(), sample_rate),
        Start::Frame(f) => f,
    }
}

/// The frame index of a stop position at the given sample rate.
pub fn resolve_stop(stop: Stop, sample_rate: u32) -> (frame: Option<usize>)
    ensures
        frame == end_frame_of(stop, sample_rate),
{
    match stop {
        Stop::End => None,
        Stop::Time(d) => Some(time_to_frame(d.as_secs(), d.subsec_nanos(), sample_rate)),
        Stop::Frame(f) => Some(f),
    }
}

/// Resolves a start and a stop position to frame indices.
///
/// Fails exactly when the stop position resolves to a frame before the one
/// that the start position resolves to; the error holds both frames, the end
/// frame first.
pub fn resolve_range(start: Start, stop: Stop, sample_rate: u32) -> (resolved: Result<
    FrameRange,
    AudioReadError,
>)
    ensures
        resolved == resolved_range(start, stop, sample_rate),
        resolved is Ok ==> resolved->Ok_0.wf(),
{
    let start_frame: usize = resolve_start(start, sample_rate);
    match resolve_stop(stop, sample_rate) {
        None => Ok(FrameRange { start_frame: start_frame as u64, end_frame: None }),
        Some(end_frame) => {
            if end_frame < start_frame {
                Err(AudioReadError::EndFrameLargerThanStartFrame(end_frame, start_frame))
            } else {
                Ok(FrameRange { start_frame: start_frame as u64, end_frame: Some(end_frame as u64) })
            }
        },
    }
}

/// A stop position before the start position is refused, whether the two
/// are given as frames or as times, and nothing else is.
pub proof fn lemma_end_before_start(start: Start, stop: Stop, sample_rate: u32)
    ensures
        resolved_range(start, stop, sample_rate) is Err <==> (end_frame_of(stop, sample_rate) is Some
            && end_frame_of(stop, sample_rate)->0 < start_frame_of(start, sample_rate)),
        resolved_range(start, stop, sample_rate) is Err ==> resolved_range(
            start,
            stop,
            sample_rate,
        )->Err_0 == AudioReadError::EndFrameLargerThanStartFrame(
            end_frame_of(stop, sample_rate)->0,
            start_frame_of(start, sample_rate),
        ),
        resolved_range(start, stop, sample_rate) is Ok ==> resolved_range(
            start,
            stop,
            sample_rate,
        )->Ok_0.wf(),
{
}

} // verus!
